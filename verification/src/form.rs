//! Forms: a title and a list of labelled text fields, one of them selected.

use vstd::prelude::*;
use crate::buffer::{Buffer, EditCommand};
use crate::input::Input;
use crate::navigation::Navigation;

verus! {

/// A labelled text field of a form. A hidden field carries a value along and
/// is not shown.
pub struct FormField {
    pub label: String,
    pub hidden: bool,
    pub name: String,
    pub input: Input,
}

/// What a [`FormField`] stands for.
pub struct FieldView {
    pub label: Seq<char>,
    pub hidden: bool,
    pub name: Seq<char>,
    pub input: Buffer,
}

impl View for FormField {
    type V = FieldView;

    open spec fn view(&self) -> FieldView {
        FieldView { label: self.label@, hidden: self.hidden, name: self.name@, input: self.input@ }
    }
}

impl Clone for FormField {
    fn clone(&self) -> (r: Self)
        ensures
            r@ == self@,
    {
        Self {
            label: self.label.clone(),
            hidden: self.hidden,
            name: self.name.clone(),
            input: self.input.clone(),
        }
    }
}

impl FormField {
    /// A shown field with the given label and name, and an empty text.
    pub fn new(label: &str, name: &str) -> (r: Self)
        ensures
            r@ == (FieldView {
                label: label@,
                hidden: false,
                name: name@,
                input: Buffer { text: Seq::<char>::empty(), x: 0, y: 0 },
            }),
    {
        Self { label: label.to_owned(), hidden: false, name: name.to_owned(), input: Input::default() }
    }

    /// The field with `value` as its text. The cursor stays where it was.
    pub fn value(self, value: &str) -> (r: Self)
        ensures
            r@ == (FieldView {
                input: Buffer { text: value@, x: self@.input.x, y: self@.input.y },
                ..self@
            }),
    {
        let mut field = self;
        field.input.text = value.to_owned();
        field
    }

    /// The field, hidden.
    pub fn hidden(self) -> (r: Self)
        ensures
            r@ == (FieldView { hidden: true, ..self@ }),
    {
        let mut field = self;
        field.hidden = true;
        field
    }
}

/// What a form is for.
#[derive(Clone, Copy, Debug, PartialEq, Eq, Structural)]
pub enum FormKind {
    AddHeader,
    EditHeader,
    AddQueryParam,
    EditQueryParam,
    AddBodyFormField,
    EditBodyFormField,
}

/// A titled list of fields, one of which is selected.
pub struct Form {
    pub title: String,
    pub fields: Vec<FormField>,
    pub kind: FormKind,
    pub selected_field: usize,
}

/// What a [`Form`] stands for.
pub struct FormView {
    pub title: Seq<char>,
    pub fields: Seq<FieldView>,
    pub kind: FormKind,
    pub selected_field: nat,
}

/// What a list of fields stands for.
pub open spec fn field_views(fields: Seq<FormField>) -> Seq<FieldView> {
    Seq::new(fields.len(), |i: int| fields[i]@)
}

/// The fields that are shown, in order.
pub open spec fn visible(fields: Seq<FieldView>) -> Seq<FieldView>
    decreases fields.len(),
{
    if fields.len() == 0 {
        fields
    } else if fields.last().hidden {
        visible(fields.drop_last())
    } else {
        visible(fields.drop_last()).push(fields.last())
    }
}

/// The text of the last field named `name`, if there is such a field.
pub open spec fn field_text(fields: Seq<FieldView>, name: Seq<char>) -> Option<Seq<char>>
    decreases fields.len(),
{
    if fields.len() == 0 {
        None
    } else if fields.last().name == name {
        Some(fields.last().input.text)
    } else {
        field_text(fields.drop_last(), name)
    }
}

impl FormView {
    /// The form with the next shown field selected; after the last comes the
    /// first.
    pub open spec fn next(self) -> FormView {
        if visible(self.fields).len() - 1 == self.selected_field {
            FormView { selected_field: 0, ..self }
        } else {
            FormView { selected_field: self.selected_field + 1, ..self }
        }
    }

    /// The form with the previous shown field selected; before the first
    /// comes the last.
    pub open spec fn previous(self) -> FormView {
        if self.selected_field == 0 {
            FormView { selected_field: (visible(self.fields).len() - 1) as nat, ..self }
        } else {
            FormView { selected_field: (self.selected_field - 1) as nat, ..self }
        }
    }

    /// A field is shown, and the selection can still move on.
    pub open spec fn navigable(self) -> bool {
        &&& visible(self.fields).len() >= 1
        &&& self.selected_field < usize::MAX
    }

    /// The form after a step forward, where it can be navigated.
    pub open spec fn step_next(self) -> FormView {
        if self.navigable() {
            self.next()
        } else {
            self
        }
    }

    /// The form after a step backward, where it can be navigated.
    pub open spec fn step_previous(self) -> FormView {
        if self.navigable() {
            self.previous()
        } else {
            self
        }
    }

    /// The form after `command` was given to the text of the field whose
    /// place among all fields is the selected one. Where there is no such
    /// field, or the text does not admit the command, the form as it is.
    pub open spec fn edit_selected(self, command: EditCommand) -> FormView {
        if self.selected_field < self.fields.len() {
            let field = self.fields[self.selected_field as int];
            FormView {
                fields: self.fields.update(
                    self.selected_field as int,
                    FieldView { input: field.input.edit(command), ..field },
                ),
                ..self
            }
        } else {
            self
        }
    }
}

impl View for Form {
    type V = FormView;

    open spec fn view(&self) -> FormView {
        FormView {
            title: self.title@,
            fields: field_views(self.fields@),
            kind: self.kind,
            selected_field: self.selected_field as nat,
        }
    }
}

impl Clone for Form {
    fn clone(&self) -> (r: Self)
        ensures
            r@ == self@,
    {
        let mut fields: Vec<FormField> = Vec::new();
        let mut i: usize = 0;
        while i < self.fields.len()
            invariant
                i <= self.fields.len(),
                field_views(fields@) == field_views(self.fields@).take(i as int),
            decreases self.fields.len() - i,
        {
            let ghost before = field_views(fields@);
            fields.push(self.fields[i].clone());
            assert(field_views(fields@) =~= before.push(self.fields@[i as int]@));
            i += 1;
            assert(field_views(fields@) =~= field_views(self.fields@).take(i as int));
        }
        assert(field_views(self.fields@).take(i as int) =~= field_views(self.fields@));
        Self {
            title: self.title.clone(),
            fields,
            kind: self.kind,
            selected_field: self.selected_field,
        }
    }
}

impl Form {
    /// A form of the given kind with the given fields, no title, and the
    /// first field selected.
    pub fn new(kind: FormKind, fields: Vec<FormField>) -> (r: Self)
        ensures
            r@ == (FormView {
                title: Seq::<char>::empty(),
                fields: field_views(fields@),
                kind,
                selected_field: 0,
            }),
    {
        Self { title: String::new(), fields, kind, selected_field: 0 }
    }

    /// The form with `title` as its title.
    pub fn title(self, title: &str) -> (r: Self)
        ensures
            r@ == (FormView { title: title@, ..self@ }),
    {
        let mut form = self;
        form.title = title.to_owned();
        form
    }

    /// The fields that are not hidden, in order.
    pub fn visible_fields(&self) -> (r: Vec<FormField>)
        ensures
            field_views(r@) == visible(self@.fields),
    {
        let mut shown: Vec<FormField> = Vec::new();
        let mut i: usize = 0;
        while i < self.fields.len()
            invariant
                i <= self.fields.len(),
                field_views(shown@) == visible(field_views(self.fields@).take(i as int)),
            decreases self.fields.len() - i,
        {
            let ghost upto = field_views(self.fields@).take(i + 1);
            assert(upto.drop_last() =~= field_views(self.fields@).take(i as int));
            assert(upto.last() == self.fields@[i as int]@);
            if !self.fields[i].hidden {
                let ghost before = field_views(shown@);
                shown.push(self.fields[i].clone());
                assert(field_views(shown@) =~= before.push(upto.last()));
            }
            i += 1;
        }
        assert(field_views(self.fields@).take(i as int) =~= field_views(self.fields@));
        shown
    }

    /// The number of fields that are not hidden.
    pub fn visible_count(&self) -> (n: usize)
        ensures
            n == visible(self@.fields).len(),
    {
        let mut n: usize = 0;
        let mut i: usize = 0;
        while i < self.fields.len()
            invariant
                i <= self.fields.len(),
                n <= i,
                n == visible(field_views(self.fields@).take(i as int)).len(),
            decreases self.fields.len() - i,
        {
            let ghost upto = field_views(self.fields@).take(i + 1);
            assert(upto.drop_last() =~= field_views(self.fields@).take(i as int));
            assert(upto.last() == self.fields@[i as int]@);
            if !self.fields[i].hidden {
                n += 1;
            }
            i += 1;
        }
        assert(field_views(self.fields@).take(i as int) =~= field_views(self.fields@));
        n
    }
}

impl Form {
    /// The text of the last field named `name`, if there is such a field.
    pub fn field_text(&self, name: &str) -> (r: Option<String>)
        ensures
            r is Some <==> field_text(self@.fields, name@) is Some,
            r is Some ==> r->0@ == field_text(self@.fields, name@)->0,
    {
        let wanted = name.to_owned();
        let mut found: Option<String> = None;
        let mut i: usize = 0;
        while i < self.fields.len()
            invariant
                i <= self.fields.len(),
                wanted@ == name@,
                found is Some <==> field_text(field_views(self.fields@).take(i as int), name@)
                    is Some,
                found is Some ==> found->0@ == field_text(
                    field_views(self.fields@).take(i as int),
                    name@,
                )->0,
            decreases self.fields.len() - i,
        {
            let ghost upto = field_views(self.fields@).take(i + 1);
            assert(upto.drop_last() =~= field_views(self.fields@).take(i as int));
            assert(upto.last() == self.fields@[i as int]@);
            if self.fields[i].name == wanted {
                found = Some(self.fields[i].input.text.clone());
            }
            i += 1;
        }
        assert(field_views(self.fields@).take(i as int) =~= field_views(self.fields@));
        found
    }

    /// Gives `command` to the text of the field whose place among all fields
    /// is the selected one. Where there is no such field, or the text does
    /// not admit the command, nothing changes.
    pub fn edit_selected(&mut self, command: EditCommand)
        ensures
            final(self)@ == old(self)@.edit_selected(command),
    {
        let i = self.selected_field;
        if i < self.fields.len() {
            let ghost before = field_views(self.fields@);
            let mut field = self.fields.remove(i);
            let ghost was = field@;
            field.input.edit(command);
            self.fields.insert(i, field);
            assert(field_views(self.fields@) =~= before.update(
                i as int,
                FieldView { input: was.input.edit(command), ..was },
            ));
        }
    }

    /// Selects the next shown field, where a field is shown.
    pub fn step_next(&mut self)
        ensures
            final(self)@ == old(self)@.step_next(),
    {
        if self.visible_count() >= 1 && self.selected_field < usize::MAX {
            self.next();
        }
    }

    /// Selects the previous shown field, where a field is shown.
    pub fn step_previous(&mut self)
        ensures
            final(self)@ == old(self)@.step_previous(),
    {
        if self.visible_count() >= 1 && self.selected_field < usize::MAX {
            self.previous();
        }
    }
}

impl Navigation for Form {
    /// A field is shown, and the selection can still move on.
    open spec fn navigable(&self) -> bool {
        self@.navigable()
    }

    /// Selects the next shown field; after the last comes the first.
    fn next(&mut self)
        ensures
            final(self)@ == old(self)@.next(),
    {
        if self.visible_count() - 1 == self.selected_field {
            self.selected_field = 0;
            return ;
        }
        self.selected_field += 1;
    }

    /// Selects the previous shown field; before the first comes the last.
    fn previous(&mut self)
        ensures
            final(self)@ == old(self)@.previous(),
    {
        if self.selected_field == 0 {
            self.selected_field = self.visible_count() - 1;
            return ;
        }
        self.selected_field -= 1;
    }
}

} // verus!
