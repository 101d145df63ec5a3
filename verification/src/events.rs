//! Key presses: each one takes the state of the client to its next state and
//! may ask for a request to be sent.

use vstd::prelude::*;
use crate::app::{App, AppPopup, BodyContentType, BodyType, InputMode, Request};
use crate::buffer::EditCommand;
use crate::form::{field_views, Form, FormField, FormKind};
use crate::navigation::{AppBlock, OrderNavigation, RequestTab};
use crate::pairs::{lemma_without_key_at, pair_views};
use crate::transitions::{
    add_form, decimal, digit, edit_form, field, form_after_key, mode_after_form_key, row_above,
    lemma_submit_keeps_popup, row_after_removal, row_below, row_count, ActionView, Key,
};

verus! {

/// What is to be done after a key press, besides showing the new state.
pub enum Action {
    Nothing,
    Send(Request),
    Quit,
}

impl View for Action {
    type V = ActionView;

    open spec fn view(&self) -> ActionView {
        match self {
            Action::Nothing => ActionView::Nothing,
            Action::Send(r) => ActionView::Send(r@),
            Action::Quit => ActionView::Quit,
        }
    }
}

/// The number of rows `len` as a coordinate.
pub fn count_rows(len: usize) -> (r: u16)
    ensures
        r == row_count(len as nat),
{
    if len > 0xffff {
        0xffff
    } else {
        len as u16
    }
}

/// The row below `selected` among `quantity` rows.
pub fn select_below(selected: u16, quantity: u16) -> (r: u16)
    requires
        quantity > 0,
    ensures
        r == row_below(selected, quantity),
{
    if selected < quantity - 1 {
        selected + 1
    } else {
        0
    }
}

/// The row above `selected` among `quantity` rows.
pub fn select_above(selected: u16, quantity: u16) -> (r: u16)
    requires
        quantity > 0,
    ensures
        r == row_above(selected, quantity),
{
    if selected > 0 {
        selected - 1
    } else {
        quantity - 1
    }
}

/// The selected row after the row at `selected` left a list that now has
/// `remaining` rows.
pub fn select_after_removal(selected: u16, remaining: usize) -> (r: u16)
    ensures
        r == row_after_removal(selected, remaining as nat),
{
    if selected as usize == remaining && remaining != 0 {
        selected - 1
    } else {
        selected
    }
}

/// Appends `n`, written in decimal digits, to `s`.
pub fn push_decimal(s: &mut String, n: u16)
    ensures
        final(s)@ == old(s)@ + decimal(n as nat),
    decreases n,
{
    if n >= 10 {
        push_decimal(s, n / 10);
    }
    let d = n % 10;
    let c = if d == 0 {
        '0'
    } else if d == 1 {
        '1'
    } else if d == 2 {
        '2'
    } else if d == 3 {
        '3'
    } else if d == 4 {
        '4'
    } else if d == 5 {
        '5'
    } else if d == 6 {
        '6'
    } else if d == 7 {
        '7'
    } else if d == 8 {
        '8'
    } else {
        '9'
    };
    assert(c == digit(d as int));
    s.push(c);
    proof {
        if n >= 10 {
            assert(s@ =~= old(s)@ + decimal((n / 10) as nat).push(c));
        } else {
            assert(s@ =~= old(s)@ + seq![c]);
        }
    }
}

/// `n` written in decimal digits.
pub fn to_decimal(n: u16) -> (r: String)
    ensures
        r@ == decimal(n as nat),
{
    let mut r = String::new();
    push_decimal(&mut r, n);
    assert(Seq::<char>::empty() + decimal(n as nat) =~= decimal(n as nat));
    r
}

/// Scrolls the response two rows down, where the response pane is selected.
pub fn scroll_down_response(app: &mut App)
    ensures
        final(app)@ == old(app)@.scroll_down(),
{
    if let AppBlock::Response = app.selected_block {
        let row = if app.response_scroll.0 > 0xffff - 2 {
            0xffff
        } else {
            app.response_scroll.0 + 2
        };
        app.response_scroll.0 = row;
    }
}

/// Scrolls the response two rows up, where the response pane is selected, and
/// not past the first row.
pub fn scroll_up_response(app: &mut App)
    ensures
        final(app)@ == old(app)@.scroll_up(),
{
    if let AppBlock::Response = app.selected_block {
        let row = if app.response_scroll.0 > 2 {
            app.response_scroll.0 - 2
        } else {
            0
        };
        app.response_scroll.0 = row;
    }
}

/// Takes over what the accepted form `form` holds: its key and value go
/// where the form's kind says.
pub fn handle_forms(form: &Form, app: &mut App)
    ensures
        final(app)@ == old(app)@.submit(form@),
{
    let key = form.field_text("key");
    let value = form.field_text("value");
    let current = form.field_text("current_key");
    match (key, value) {
        (Some(key), Some(value)) => {
            match form.kind {
                FormKind::AddHeader => {
                    app.headers.insert(key, value);
                },
                FormKind::EditHeader => {
                    match current {
                        Some(current) => {
                            if current == key {
                                app.headers.insert(key, value);
                            } else {
                                app.headers.remove(&current);
                                app.headers.insert(key, value);
                            }
                        },
                        None => {},
                    }
                },
                FormKind::AddQueryParam => {
                    let ghost before = pair_views(app.query_params@);
                    let ghost pair = (key@, value@);
                    app.query_params.push((key, value));
                    assert(pair_views(app.query_params@) =~= before.push(pair));
                },
                FormKind::EditQueryParam => {
                    let i = app.selected_query_param as usize;
                    if i < app.query_params.len() {
                        let ghost before = pair_views(app.query_params@);
                        let ghost pair = (key@, value@);
                        app.query_params.set(i, (key, value));
                        assert(pair_views(app.query_params@) =~= before.update(i as int, pair));
                    }
                },
                FormKind::AddBodyFormField => {
                    app.body_form.insert(key, value);
                },
                FormKind::EditBodyFormField => {
                    match current {
                        Some(current) => {
                            if current == key {
                                app.body_form.insert(key, value);
                            } else {
                                app.body_form.remove(&current);
                                app.body_form.insert(key, value);
                            }
                        },
                        None => {},
                    }
                },
            }
        },
        _ => {},
    }
}

/// The key `key` on the form `form`, in the mode `mode`: what the key does
/// to the form itself.
pub fn form_key(form: &mut Form, mode: InputMode, key: Key)
    ensures
        final(form)@ == form_after_key(old(form)@, mode, key),
{
    match mode {
        InputMode::Normal => match key {
            Key::Char(c) => {
                if c == 'i' {
                    form.edit_selected(EditCommand::EndOfSingleLine);
                } else if c == 'j' {
                    form.step_next();
                } else if c == 'k' {
                    form.step_previous();
                }
            },
            _ => {},
        },
        InputMode::Insert => match key {
            Key::BackTab => {
                form.step_previous();
                form.edit_selected(EditCommand::EndOfSingleLine);
            },
            Key::Tab => {
                form.step_next();
                form.edit_selected(EditCommand::EndOfSingleLine);
            },
            Key::Left => {
                form.edit_selected(EditCommand::MoveLeft);
            },
            Key::Right => {
                form.edit_selected(EditCommand::MoveRight);
            },
            Key::Backspace => {
                form.edit_selected(EditCommand::RemoveInSingleLine);
            },
            Key::Char(c) => {
                form.edit_selected(EditCommand::Insert(c));
            },
            _ => {},
        },
    }
}

/// The mode after `key`, while a form is shown.
pub fn mode_after_key(mode: InputMode, key: Key) -> (r: InputMode)
    ensures
        r == mode_after_form_key(mode, key),
{
    match mode {
        InputMode::Normal => match key {
            Key::Char(c) => if c == 'i' {
                InputMode::Insert
            } else {
                mode
            },
            _ => mode,
        },
        InputMode::Insert => match key {
            Key::Esc => InputMode::Normal,
            _ => mode,
        },
    }
}

/// The key `key` while the form `form` is shown: `form` is the popup that
/// was taken off `app` for the time of the call.
fn form_popup_key(app: &mut App, form: Form, key: Key)
    requires
        old(app).popup is None,
    ensures
        final(app)@ == old(app)@.showing(form@).on_form_popup_key(form@, key),
{
    let mut form = form;
    let ghost shown = app@.showing(form@);
    match key {
        Key::Enter => {
            handle_forms(&form, app);
            app.input_mode = InputMode::Normal;
            proof {
                lemma_submit_keeps_popup(shown, None, form@);
            }
        },
        _ => {
            form_key(&mut form, app.input_mode, key);
            app.input_mode = mode_after_key(app.input_mode, key);
            app.popup = Some(AppPopup::FormPopup(form));
        },
    }
}

/// The key `key` while a popup is shown. Without a popup nothing happens.
pub fn handle_popup_events(app: &mut App, key: Key)
    ensures
        final(app)@ == old(app)@.on_popup_key(key),
{
    let mut popup: Option<AppPopup> = None;
    core::mem::swap(&mut app.popup, &mut popup);
    match popup {
        None => {},
        Some(AppPopup::ChangeMethod) => {
            app.popup = Some(AppPopup::ChangeMethod);
            match key {
                Key::Char(c) => {
                    if c == 'k' {
                        app.method = app.method.previous();
                    } else if c == 'j' {
                        app.method = app.method.next();
                    }
                },
                Key::Enter => {
                    app.popup = None;
                },
                Key::Esc => {
                    app.popup = None;
                },
                _ => {},
            }
        },
        Some(AppPopup::FormPopup(form)) => {
            assert(old(app)@ == app@.showing(form@));
            form_popup_key(app, form, key);
        },
    }
}

/// The form that asks for a new key and value.
pub fn new_add_form(kind: FormKind, title: &str) -> (r: Form)
    ensures
        r@ == add_form(kind, title@),
{
    let key_input = FormField::new("Key", "key");
    let value_input = FormField::new("Value", "value");
    let mut fields: Vec<FormField> = Vec::new();
    fields.push(key_input);
    fields.push(value_input);
    assert(field_views(fields@) =~= add_form(kind, title@).fields);
    Form::new(kind, fields).title(title)
}

/// The form that shows `key` and `value` for editing and carries a hidden
/// field along.
pub fn new_edit_form(
    kind: FormKind,
    title: &str,
    key: &String,
    value: &String,
    hidden_label: &str,
    hidden_name: &str,
    hidden_text: &String,
) -> (r: Form)
    ensures
        r@ == edit_form(
            kind,
            title@,
            (key@, value@),
            hidden_label@,
            hidden_name@,
            hidden_text@,
        ),
{
    let key_input = FormField::new("Key", "key").value(key.as_str());
    let value_input = FormField::new("Value", "value").value(value.as_str());
    let hidden_input = FormField::new(hidden_label, hidden_name).value(
        hidden_text.as_str(),
    ).hidden();
    let mut fields: Vec<FormField> = Vec::new();
    fields.push(key_input);
    fields.push(value_input);
    fields.push(hidden_input);
    assert(field_views(fields@) =~= edit_form(
        kind,
        title@,
        (key@, value@),
        hidden_label@,
        hidden_name@,
        hidden_text@,
    ).fields);
    Form::new(kind, fields).title(title)
}

/// Moves the selection one row down in the list that the request pane shows.
pub fn select_row_below(app: &mut App)
    ensures
        final(app)@ == old(app)@.row_down(),
{
    match app.request_tab {
        RequestTab::Headers => {
            let quantity = count_rows(app.headers.len());
            if quantity == 0 {
                app.selected_query_param = 0;
            } else {
                app.selected_header = select_below(app.selected_header, quantity);
            }
        },
        RequestTab::Query => {
            let quantity = count_rows(app.query_params.len());
            if quantity == 0 {
                app.selected_query_param = 0;
            } else {
                app.selected_query_param = select_below(app.selected_query_param, quantity);
            }
        },
        RequestTab::Body => {
            if let BodyContentType::Form = app.body_content_type {
                let quantity = count_rows(app.body_form.len());
                if quantity == 0 {
                    app.selected_form_field = 0;
                } else {
                    app.selected_form_field = select_below(app.selected_form_field, quantity);
                }
            }
        },
        _ => {},
    }
}

/// Moves the selection one row up in the list that the request pane shows.
pub fn select_row_above(app: &mut App)
    ensures
        final(app)@ == old(app)@.row_up(),
{
    match app.request_tab {
        RequestTab::Headers => {
            let quantity = count_rows(app.headers.len());
            if quantity == 0 {
                app.selected_header = 0;
            } else {
                app.selected_header = select_above(app.selected_header, quantity);
            }
        },
        RequestTab::Query => {
            let quantity = count_rows(app.query_params.len());
            if quantity == 0 {
                app.selected_query_param = 0;
            } else {
                app.selected_query_param = select_above(app.selected_query_param, quantity);
            }
        },
        RequestTab::Body => {
            if let BodyContentType::Form = app.body_content_type {
                let quantity = count_rows(app.body_form.len());
                if quantity == 0 {
                    app.selected_form_field = 0;
                } else {
                    app.selected_form_field = select_above(app.selected_form_field, quantity);
                }
            }
        },
        _ => {},
    }
}

/// Changes the kind of body: from text to form, and from form to plain text.
pub fn toggle_body_kind(app: &mut App)
    ensures
        final(app)@ == old(app)@.toggle_body_kind(),
{
    if let RequestTab::Body = app.request_tab {
        app.body_content_type = match app.body_content_type {
            BodyContentType::Text(_) => BodyContentType::Form,
            BodyContentType::Form => BodyContentType::Text(BodyType::Raw),
        };
    }
}

/// Changes the format of a text body to the one that follows, and lets the
/// content type header announce it.
pub fn cycle_body_format(app: &mut App)
    ensures
        final(app)@ == old(app)@.cycle_body_format(),
{
    if let RequestTab::Body = app.request_tab {
        if let BodyContentType::Text(format) = app.body_content_type {
            let following = format.next();
            app.headers.insert("Content-Type".to_owned(), following.content_type());
            app.body_content_type = BodyContentType::Text(following);
        }
    }
}

/// Opens the form that adds a row to the list that the request pane shows.
pub fn open_add_form(app: &mut App)
    ensures
        final(app)@ == old(app)@.open_add_form(),
{
    match app.request_tab {
        RequestTab::Headers => {
            let form = new_add_form(FormKind::AddHeader, "Add Header");
            app.popup = Some(AppPopup::FormPopup(form));
        },
        RequestTab::Query => {
            let form = new_add_form(FormKind::AddQueryParam, "Add Query Param");
            app.popup = Some(AppPopup::FormPopup(form));
        },
        RequestTab::Body => {
            if let BodyContentType::Form = app.body_content_type {
                let form = new_add_form(FormKind::AddBodyFormField, "Add Form Field");
                app.popup = Some(AppPopup::FormPopup(form));
            }
        },
        _ => {},
    }
}

/// Opens the form that edits the selected row of the list that the request
/// pane shows. Where no row is selected nothing happens.
pub fn open_edit_form(app: &mut App)
    ensures
        final(app)@ == old(app)@.open_edit_form(),
{
    match app.request_tab {
        RequestTab::Headers => {
            let i = app.selected_header as usize;
            if i < app.headers.len() {
                let key = app.headers.key_at(i);
                let value = app.headers.value_at(i);
                let form = new_edit_form(
                    FormKind::EditHeader,
                    "Edit Header",
                    key,
                    value,
                    "Current Key",
                    "current_key",
                    key,
                );
                app.popup = Some(AppPopup::FormPopup(form));
            }
        },
        RequestTab::Query => {
            let i = app.selected_query_param as usize;
            if i < app.query_params.len() {
                let index = to_decimal(app.selected_query_param);
                assert(pair_views(app.query_params@)[i as int] == (
                    app.query_params@[i as int].0@,
                    app.query_params@[i as int].1@,
                ));
                let form = new_edit_form(
                    FormKind::EditQueryParam,
                    "Edit Query Param",
                    &app.query_params[i].0,
                    &app.query_params[i].1,
                    "Index",
                    "index",
                    &index,
                );
                app.popup = Some(AppPopup::FormPopup(form));
            }
        },
        RequestTab::Body => {
            if let BodyContentType::Form = app.body_content_type {
                let i = app.selected_form_field as usize;
                if i < app.body_form.len() {
                    let key = app.body_form.key_at(i);
                    let value = app.body_form.value_at(i);
                    let form = new_edit_form(
                        FormKind::EditBodyFormField,
                        "Edit Form Field",
                        key,
                        value,
                        "Current Key",
                        "current_key",
                        key,
                    );
                    app.popup = Some(AppPopup::FormPopup(form));
                }
            }
        },
        _ => {},
    }
}

/// Takes the selected row out of the list that the request pane shows. Where
/// no row is selected nothing happens.
pub fn delete_row(app: &mut App)
    ensures
        final(app)@ == old(app)@.delete_row(),
{
    match app.request_tab {
        RequestTab::Headers => {
            let i = app.selected_header as usize;
            if i < app.headers.len() {
                let key = app.headers.key_at(i).clone();
                proof {
                    lemma_without_key_at(app.headers@, i as int);
                }
                app.headers.remove(&key);
                app.selected_header = select_after_removal(
                    app.selected_header,
                    app.headers.len(),
                );
            }
        },
        RequestTab::Query => {
            let i = app.selected_query_param as usize;
            if i < app.query_params.len() {
                let ghost before = pair_views(app.query_params@);
                app.query_params.remove(i);
                assert(pair_views(app.query_params@) =~= before.remove(i as int));
                app.selected_query_param = select_after_removal(
                    app.selected_query_param,
                    app.query_params.len(),
                );
            }
        },
        RequestTab::Body => {
            if let BodyContentType::Form = app.body_content_type {
                let i = app.selected_form_field as usize;
                if i < app.body_form.len() {
                    let key = app.body_form.key_at(i).clone();
                    proof {
                        lemma_without_key_at(app.body_form@, i as int);
                    }
                    app.body_form.remove(&key);
                    let remaining = app.body_form.len();
                    if app.selected_header as usize == remaining && remaining != 0
                        && app.selected_form_field > 0 {
                        app.selected_form_field -= 1;
                    }
                }
            }
        },
        _ => {},
    }
}

/// Marks the client as waiting and hands out the request that its state
/// describes.
pub fn send_request(app: &mut App) -> (action: Action)
    ensures
        (final(app)@, action@) == old(app)@.sending(),
{
    app.is_loading = true;
    Action::Send(Request::from_app(app))
}

/// The character `c` as a command in normal mode.
pub fn handle_command(app: &mut App, c: char)
    ensures
        final(app)@ == old(app)@.on_command(c),
{
    let in_content = match app.selected_block {
        AppBlock::RequestContent => true,
        _ => false,
    };
    if c == 'i' {
        match app.selected_block {
            AppBlock::Endpoint => {
                app.input_mode = InputMode::Insert;
                app.endpoint.edit(EditCommand::EndOfSingleLine);
            },
            AppBlock::RequestContent => {
                if let RequestTab::Body = app.request_tab {
                    if let BodyContentType::Text(_) = app.body_content_type {
                        app.input_mode = InputMode::Insert;
                    }
                }
            },
            _ => {},
        }
    } else if c == 'j' {
        match app.selected_block {
            AppBlock::Response => scroll_down_response(app),
            AppBlock::Request => {
                match app.request_tab {
                    RequestTab::Body | RequestTab::Query | RequestTab::Headers => {
                        app.request_tab = app.request_tab.previous();
                    },
                    _ => {},
                }
            },
            AppBlock::RequestContent => select_row_below(app),
            AppBlock::Method => {
                app.method = app.method.previous();
            },
            _ => {},
        }
    } else if c == 'k' {
        match app.selected_block {
            AppBlock::Response => scroll_up_response(app),
            AppBlock::Request => {
                match app.request_tab {
                    RequestTab::Body | RequestTab::Query | RequestTab::Headers => {
                        app.request_tab = app.request_tab.next();
                    },
                    _ => {},
                }
            },
            AppBlock::RequestContent => select_row_above(app),
            AppBlock::Method => {
                app.method = app.method.next();
            },
            _ => {},
        }
    } else if c == 'c' && in_content {
        toggle_body_kind(app);
    } else if c == 't' && in_content {
        cycle_body_format(app);
    } else if c == 'a' && in_content {
        open_add_form(app);
    } else if c == 'e' && in_content {
        open_edit_form(app);
    } else if c == 'd' && in_content {
        delete_row(app);
    }
}

/// The key `key` as a command of normal mode.
pub fn handle_normal_key(app: &mut App, key: Key) -> (action: Action)
    ensures
        (final(app)@, action@) == old(app)@.on_normal_key(key),
{
    match key {
        Key::Char(c) => {
            handle_command(app, c);
            Action::Nothing
        },
        Key::Tab => {
            app.selected_block = app.selected_block.next();
            Action::Nothing
        },
        Key::BackTab => {
            app.selected_block = app.selected_block.previous();
            Action::Nothing
        },
        Key::Enter => match app.selected_block {
            AppBlock::Request => {
                app.selected_block = AppBlock::RequestContent;
                Action::Nothing
            },
            AppBlock::Method => {
                app.popup = Some(AppPopup::ChangeMethod);
                Action::Nothing
            },
            _ => send_request(app),
        },
        _ => Action::Nothing,
    }
}

/// The key `key` as text or movement of insert mode.
pub fn handle_insert_key(app: &mut App, key: Key) -> (action: Action)
    ensures
        (final(app)@, action@) == old(app)@.on_insert_key(key),
{
    let in_content = match app.selected_block {
        AppBlock::RequestContent => true,
        _ => false,
    };
    let in_endpoint = match app.selected_block {
        AppBlock::Endpoint => true,
        _ => false,
    };
    match key {
        Key::Char(c) => {
            if in_endpoint {
                app.endpoint.edit(EditCommand::Insert(c));
            } else if in_content {
                if let RequestTab::Body = app.request_tab {
                    app.raw_body.edit(EditCommand::Insert(c));
                }
            }
            Action::Nothing
        },
        Key::Up => {
            if in_content {
                app.raw_body.edit(EditCommand::MoveUp);
            }
            Action::Nothing
        },
        Key::Down => {
            if in_content {
                app.raw_body.edit(EditCommand::MoveDown);
            }
            Action::Nothing
        },
        Key::Right => {
            if in_endpoint {
                app.endpoint.edit(EditCommand::MoveRight);
            } else if in_content {
                app.raw_body.edit(EditCommand::MoveRight);
            }
            Action::Nothing
        },
        Key::Left => {
            if in_endpoint {
                app.endpoint.edit(EditCommand::MoveLeft);
            } else if in_content {
                app.raw_body.edit(EditCommand::MoveLeft);
            }
            Action::Nothing
        },
        Key::Enter => {
            if in_content {
                app.raw_body.edit(EditCommand::Newline);
                Action::Nothing
            } else if in_endpoint {
                let action = send_request(app);
                app.input_mode = InputMode::Normal;
                action
            } else {
                Action::Nothing
            }
        },
        Key::Tab => {
            if in_content {
                app.raw_body.edit(EditCommand::Insert(' '));
                app.raw_body.edit(EditCommand::Insert(' '));
            }
            Action::Nothing
        },
        Key::Backspace => {
            if in_endpoint {
                app.endpoint.edit(EditCommand::RemoveInSingleLine);
            } else if in_content {
                app.raw_body.edit(EditCommand::Remove);
            }
            Action::Nothing
        },
        Key::Esc => {
            app.input_mode = InputMode::Normal;
            Action::Nothing
        },
        _ => Action::Nothing,
    }
}

/// The key `key`: it goes to the popup while one is shown, and is a command
/// or text else, by the mode. The result says whether a request is to be
/// sent.
pub fn handle_input(app: &mut App, key: Key) -> (action: Action)
    ensures
        (final(app)@, action@) == old(app)@.on_key(key),
{
    if app.popup.is_some() {
        handle_popup_events(app, key);
        return Action::Nothing;
    }
    match app.input_mode {
        InputMode::Normal => handle_normal_key(app, key),
        InputMode::Insert => handle_insert_key(app, key),
    }
}

/// The key `key`, where `q` in normal mode closes the popup that is shown
/// or, without one, ends the client. Every other key is handled as
/// [`handle_input`] handles it.
pub fn handle_key(app: &mut App, key: Key) -> (action: Action)
    ensures
        (final(app)@, action@) == old(app)@.on_key_or_quit(key),
{
    let is_quit = match key {
        Key::Char(c) => c == 'q',
        _ => false,
    };
    let is_normal = match app.input_mode {
        InputMode::Normal => true,
        InputMode::Insert => false,
    };
    if is_normal && is_quit {
        if app.popup.is_some() {
            app.popup = None;
        } else {
            return Action::Quit;
        }
    }
    handle_input(app, key)
}

} // verus!
