use restui::buffer::EditCommand;
use restui::form::{Form, FormField, FormKind};
use restui::navigation::{
    pick, step_backward, step_forward, AppBlock, Navigation, OrderNavigation, RequestMethod,
    RequestTab,
};
use restui::pairs::{clone_pairs, KeyValues};

#[test]
fn methods_cycle_forward() {
    assert_eq!(RequestMethod::Get.next(), RequestMethod::Post);
    assert_eq!(RequestMethod::Post.next(), RequestMethod::Put);
    assert_eq!(RequestMethod::Put.next(), RequestMethod::Patch);
    assert_eq!(RequestMethod::Patch.next(), RequestMethod::Delete);
    assert_eq!(RequestMethod::Delete.next(), RequestMethod::Get);
}

#[test]
fn methods_cycle_backward() {
    assert_eq!(RequestMethod::Get.previous(), RequestMethod::Delete);
    assert_eq!(RequestMethod::Delete.previous(), RequestMethod::Patch);
    assert_eq!(RequestMethod::Post.previous(), RequestMethod::Get);
}

#[test]
fn method_names() {
    assert_eq!(RequestMethod::Get.to_string(), "GET");
    assert_eq!(RequestMethod::Post.to_string(), "POST");
    assert_eq!(RequestMethod::Put.to_string(), "PUT");
    assert_eq!(RequestMethod::Patch.to_string(), "PATCH");
    assert_eq!(RequestMethod::Delete.to_string(), "DELETE");
}

#[test]
fn method_order_and_index() {
    assert_eq!(
        RequestMethod::Put.get_order(),
        vec![
            RequestMethod::Get,
            RequestMethod::Post,
            RequestMethod::Put,
            RequestMethod::Patch,
            RequestMethod::Delete
        ]
    );
    assert_eq!(RequestMethod::Get.get_index(), 0);
    assert_eq!(RequestMethod::Patch.get_index(), 3);
    assert_eq!(RequestMethod::Delete.get_index(), 4);
}

#[test]
fn blocks_cycle() {
    assert_eq!(AppBlock::Method.next(), AppBlock::Endpoint);
    assert_eq!(AppBlock::Endpoint.next(), AppBlock::Request);
    assert_eq!(AppBlock::Request.next(), AppBlock::RequestContent);
    assert_eq!(AppBlock::RequestContent.next(), AppBlock::Response);
    assert_eq!(AppBlock::Response.next(), AppBlock::Method);
    assert_eq!(AppBlock::Method.previous(), AppBlock::Response);
    assert_eq!(AppBlock::Endpoint.previous(), AppBlock::Method);
    assert_eq!(AppBlock::Endpoint.get_index(), 1);
    assert_eq!(AppBlock::Method.get_order().len(), 5);
}

#[test]
fn tabs_cycle_through_three() {
    assert_eq!(RequestTab::Body.next(), RequestTab::Query);
    assert_eq!(RequestTab::Query.next(), RequestTab::Headers);
    assert_eq!(RequestTab::Headers.next(), RequestTab::Body);
    assert_eq!(RequestTab::Body.previous(), RequestTab::Headers);
    assert_eq!(RequestTab::Headers.previous(), RequestTab::Query);
    assert_eq!(
        RequestTab::Body.get_order(),
        vec![RequestTab::Body, RequestTab::Query, RequestTab::Headers]
    );
    assert_eq!(RequestTab::Headers.get_index(), 2);
}

#[test]
fn next_then_previous_returns() {
    for m in RequestMethod::Get.get_order() {
        assert_eq!(m.next().previous(), m);
        assert_eq!(m.previous().next(), m);
    }
    for b in AppBlock::Method.get_order() {
        assert_eq!(b.next().previous(), b);
    }
}

#[test]
fn steps_wrap_around() {
    assert_eq!(step_forward(0, 3), 1);
    assert_eq!(step_forward(2, 3), 0);
    assert_eq!(step_forward(0, 1), 0);
    assert_eq!(step_backward(0, 3), 2);
    assert_eq!(step_backward(2, 3), 1);
    assert_eq!(pick(&vec![7u8, 8, 9], 1), 8);
}

#[test]
fn form_field_builders() {
    let f = FormField::new("Key", "key");
    assert_eq!(f.label, "Key");
    assert_eq!(f.name, "key");
    assert!(!f.hidden);
    assert_eq!(f.input.text, "");
    assert_eq!((f.input.cursor_position.x, f.input.cursor_position.y), (0, 0));
    let g = f.value("abc");
    assert_eq!(g.input.text, "abc");
    assert_eq!(g.input.cursor_position.x, 0);
    assert!(!g.hidden);
    let h = g.hidden();
    assert!(h.hidden);
    assert_eq!(h.input.text, "abc");
    assert_eq!(h.label, "Key");
}

fn three_field_form() -> Form {
    Form::new(
        FormKind::EditHeader,
        vec![
            FormField::new("Key", "key").value("Accept"),
            FormField::new("Value", "value").value("*/*"),
            FormField::new("Current Key", "current_key").value("Accept").hidden(),
        ],
    )
    .title("Edit Header")
}

#[test]
fn form_builders() {
    let form = Form::new(FormKind::AddHeader, vec![FormField::new("Key", "key")]);
    assert_eq!(form.title, "");
    assert_eq!(form.selected_field, 0);
    assert_eq!(form.kind, FormKind::AddHeader);
    assert_eq!(form.fields.len(), 1);
    let form = form.title("Add Header");
    assert_eq!(form.title, "Add Header");
    assert_eq!(form.fields.len(), 1);
}

#[test]
fn visible_fields_leave_out_hidden_ones() {
    let form = three_field_form();
    let shown = form.visible_fields();
    assert_eq!(shown.len(), 2);
    assert_eq!(shown[0].name, "key");
    assert_eq!(shown[1].name, "value");
    assert_eq!(shown[1].input.text, "*/*");
    assert_eq!(form.visible_count(), 2);
    let none = Form::new(FormKind::AddHeader, vec![FormField::new("a", "a").hidden()]);
    assert_eq!(none.visible_fields().len(), 0);
    assert_eq!(none.visible_count(), 0);
}

#[test]
fn form_selection_cycles_through_visible_fields() {
    let mut form = three_field_form();
    form.next();
    assert_eq!(form.selected_field, 1);
    form.next();
    assert_eq!(form.selected_field, 0);
    form.previous();
    assert_eq!(form.selected_field, 1);
    form.previous();
    assert_eq!(form.selected_field, 0);
}

#[test]
fn form_steps_do_nothing_without_visible_fields() {
    let mut form = Form::new(FormKind::AddHeader, vec![FormField::new("a", "a").hidden()]);
    form.step_next();
    assert_eq!(form.selected_field, 0);
    form.step_previous();
    assert_eq!(form.selected_field, 0);
    let mut shown = three_field_form();
    shown.step_next();
    assert_eq!(shown.selected_field, 1);
    shown.step_previous();
    assert_eq!(shown.selected_field, 0);
}

#[test]
fn field_text_finds_the_last_field_of_a_name() {
    let form = three_field_form();
    assert_eq!(form.field_text("key"), Some("Accept".to_string()));
    assert_eq!(form.field_text("value"), Some("*/*".to_string()));
    assert_eq!(form.field_text("missing"), None);
    let twice = Form::new(
        FormKind::AddHeader,
        vec![FormField::new("A", "key").value("one"), FormField::new("B", "key").value("two")],
    );
    assert_eq!(twice.field_text("key"), Some("two".to_string()));
}

#[test]
fn edit_selected_reaches_the_selected_field_only() {
    let mut form = three_field_form();
    form.edit_selected(EditCommand::EndOfSingleLine);
    form.edit_selected(EditCommand::Insert('s'));
    assert_eq!(form.fields[0].input.text, "Accepts");
    assert_eq!(form.fields[0].input.cursor_position.x, 7);
    assert_eq!(form.fields[1].input.text, "*/*");
    form.selected_field = 9;
    form.edit_selected(EditCommand::Insert('x'));
    assert_eq!(form.fields[0].input.text, "Accepts");
    assert_eq!(form.fields.len(), 3);
}

#[test]
fn form_clone_is_equal() {
    let form = three_field_form();
    let copy = form.clone();
    assert_eq!(copy.title, "Edit Header");
    assert_eq!(copy.fields.len(), 3);
    assert_eq!(copy.fields[2].input.text, "Accept");
    assert!(copy.fields[2].hidden);
    assert_eq!(copy.kind, FormKind::EditHeader);
}

fn pairs_of(kv: &KeyValues) -> Vec<(String, String)> {
    (0..kv.len()).map(|i| (kv.key_at(i).clone(), kv.value_at(i).clone())).collect()
}

fn pair(k: &str, v: &str) -> (String, String) {
    (k.to_string(), v.to_string())
}

#[test]
fn key_values_insert_replaces_or_appends() {
    let mut kv = KeyValues::new();
    assert_eq!(kv.len(), 0);
    kv.insert("a".to_string(), "1".to_string());
    kv.insert("b".to_string(), "2".to_string());
    kv.insert("a".to_string(), "3".to_string());
    assert_eq!(pairs_of(&kv), vec![pair("a", "3"), pair("b", "2")]);
}

#[test]
fn key_values_remove_and_lookup() {
    let mut kv = KeyValues::new();
    kv.insert("a".to_string(), "1".to_string());
    kv.insert("b".to_string(), "2".to_string());
    kv.insert("c".to_string(), "3".to_string());
    assert_eq!(kv.position(&"b".to_string()), Some(1));
    assert_eq!(kv.position(&"z".to_string()), None);
    assert_eq!(kv.get(&"c".to_string()), Some(&"3".to_string()));
    assert_eq!(kv.get(&"z".to_string()), None);
    kv.remove(&"b".to_string());
    assert_eq!(pairs_of(&kv), vec![pair("a", "1"), pair("c", "3")]);
    kv.remove(&"z".to_string());
    assert_eq!(kv.len(), 2);
    let copy = kv.duplicate();
    assert_eq!(pairs_of(&copy), pairs_of(&kv));
}

#[test]
fn pairs_are_cloned() {
    let v = vec![pair("a", "1"), pair("b", "2")];
    assert_eq!(clone_pairs(&v), v);
}

#[test]
fn tabs_and_panes_have_numbers() {
    assert_eq!(usize::from(RequestTab::Body), 0);
    assert_eq!(usize::from(RequestTab::Query), 1);
    assert_eq!(usize::from(RequestTab::Headers), 2);
    assert_eq!(usize::from(RequestTab::Auth), 3);
    assert_eq!(usize::from(RequestTab::Cookies), 4);
    assert_eq!(u16::from(AppBlock::Method), 1);
    assert_eq!(u16::from(AppBlock::Endpoint), 2);
    assert_eq!(u16::from(AppBlock::Request), 3);
    assert_eq!(u16::from(AppBlock::RequestContent), 4);
    assert_eq!(u16::from(AppBlock::Response), 5);
    for i in 0..=4usize {
        assert_eq!(usize::from(RequestTab::from_index(i)), i);
    }
    for n in 1..=5u16 {
        assert_eq!(u16::from(AppBlock::from_number(n)), n);
    }
    assert_eq!(RequestTab::from_index(3), RequestTab::Auth);
    assert_eq!(AppBlock::from_number(2), AppBlock::Endpoint);
}
