//! What a key press does to the state of the client, as a function from
//! state and key to the next state and what is to be done.

use vstd::prelude::*;
use crate::app::{AppView, BodyContentType, InputMode, PopupView, RequestView};
use crate::buffer::{Buffer, EditCommand};
use crate::form::{field_text, FieldView, FormKind, FormView};
use crate::navigation::{after, before, AppBlock, OrderNavigation, RequestTab};
use crate::pairs::{with_pair, without_key, Pair};

verus! {

/// A key press, as far as the client tells keys apart.
#[derive(Clone, Copy, Debug, PartialEq, Eq, Structural)]
pub enum Key {
    Char(char),
    Tab,
    BackTab,
    Enter,
    Up,
    Down,
    Left,
    Right,
    Backspace,
    Esc,
    Other,
}

/// What is to be done after a key press, besides showing the new state.
pub enum ActionView {
    Nothing,
    Send(RequestView),
    Quit,
}

/// A number of rows as a coordinate: the number itself, or the largest
/// coordinate where the number exceeds it.
pub open spec fn row_count(len: nat) -> u16 {
    if len > u16::MAX {
        u16::MAX
    } else {
        len as u16
    }
}

/// The row below `selected` among `quantity` rows; below the last comes the
/// first.
pub open spec fn row_below(selected: u16, quantity: u16) -> u16 {
    if selected < quantity - 1 {
        (selected + 1) as u16
    } else {
        0
    }
}

/// The row above `selected` among `quantity` rows; above the first comes the
/// last.
pub open spec fn row_above(selected: u16, quantity: u16) -> u16 {
    if selected > 0 {
        (selected - 1) as u16
    } else {
        (quantity - 1) as u16
    }
}

/// The selected row after the row at `selected` left a list that now has
/// `remaining` rows: the selection steps back where it stood on the last row.
pub open spec fn row_after_removal(selected: u16, remaining: nat) -> u16 {
    if selected == remaining && remaining != 0 {
        (selected - 1) as u16
    } else {
        selected
    }
}

/// The digit `d` as a character.
pub open spec fn digit(d: int) -> char {
    if d == 0 {
        '0'
    } else if d == 1 {
        '1'
    } else if d == 2 {
        '2'
    } else if d == 3 {
        '3'
    } else if d == 4 {
        '4'
    } else if d == 5 {
        '5'
    } else if d == 6 {
        '6'
    } else if d == 7 {
        '7'
    } else if d == 8 {
        '8'
    } else {
        '9'
    }
}

/// `n` written in decimal digits.
pub open spec fn decimal(n: nat) -> Seq<char>
    decreases n,
{
    if n < 10 {
        seq![digit(n as int)]
    } else {
        decimal(n / 10).push(digit((n % 10) as int))
    }
}

/// A field with the cursor at the start of its text.
pub open spec fn field(label: Seq<char>, name: Seq<char>, text: Seq<char>, hidden: bool)
    -> FieldView {
    FieldView { label, hidden, name, input: Buffer { text, x: 0, y: 0 } }
}

/// The form that asks for a new key and value.
pub open spec fn add_form(kind: FormKind, title: Seq<char>) -> FormView {
    FormView {
        title,
        fields: seq![
            field("Key"@, "key"@, Seq::<char>::empty(), false),
            field("Value"@, "value"@, Seq::<char>::empty(), false),
        ],
        kind,
        selected_field: 0,
    }
}

/// The form that shows a key and its value for editing, and carries along,
/// hidden, what tells the edited pair from the others.
pub open spec fn edit_form(
    kind: FormKind,
    title: Seq<char>,
    pair: Pair,
    hidden_label: Seq<char>,
    hidden_name: Seq<char>,
    hidden_text: Seq<char>,
) -> FormView {
    FormView {
        title,
        fields: seq![
            field("Key"@, "key"@, pair.0, false),
            field("Value"@, "value"@, pair.1, false),
            field(hidden_label, hidden_name, hidden_text, true),
        ],
        kind,
        selected_field: 0,
    }
}

/// `pairs` after a form gave `key` the value `value` in place of what was
/// kept under `current`.
pub open spec fn with_edited_pair(
    pairs: Seq<Pair>,
    current: Seq<char>,
    key: Seq<char>,
    value: Seq<char>,
) -> Seq<Pair> {
    if current == key {
        with_pair(pairs, key, value)
    } else {
        with_pair(without_key(pairs, current), key, value)
    }
}

/// The mode after `key`, while a form is shown: `i` starts the typing and
/// Esc ends it.
pub open spec fn mode_after_form_key(mode: InputMode, key: Key) -> InputMode {
    match mode {
        InputMode::Normal => if key == Key::Char('i') {
            InputMode::Insert
        } else {
            mode
        },
        InputMode::Insert => if key == Key::Esc {
            InputMode::Normal
        } else {
            mode
        },
    }
}

/// The form `form` after `key` in the mode `mode`. In normal mode `j` and
/// `k` move the selection and `i` puts the cursor behind the selected text.
/// In insert mode the tabulator keys move the selection, and the other keys
/// edit the selected text.
pub open spec fn form_after_key(form: FormView, mode: InputMode, key: Key) -> FormView {
    match mode {
        InputMode::Normal => match key {
            Key::Char(c) => if c == 'i' {
                form.edit_selected(EditCommand::EndOfSingleLine)
            } else if c == 'j' {
                form.step_next()
            } else if c == 'k' {
                form.step_previous()
            } else {
                form
            },
            _ => form,
        },
        InputMode::Insert => match key {
            Key::BackTab => form.step_previous().edit_selected(EditCommand::EndOfSingleLine),
            Key::Tab => form.step_next().edit_selected(EditCommand::EndOfSingleLine),
            Key::Left => form.edit_selected(EditCommand::MoveLeft),
            Key::Right => form.edit_selected(EditCommand::MoveRight),
            Key::Backspace => form.edit_selected(EditCommand::RemoveInSingleLine),
            Key::Char(c) => form.edit_selected(EditCommand::Insert(c)),
            _ => form,
        },
    }
}

impl AppView {
    /// The response pane scrolls two rows down, where it is selected.
    pub open spec fn scroll_down(self) -> AppView {
        if self.selected_block == AppBlock::Response {
            let row = if self.response_scroll.0 > u16::MAX - 2 {
                u16::MAX
            } else {
                (self.response_scroll.0 + 2) as u16
            };
            AppView { response_scroll: (row, self.response_scroll.1), ..self }
        } else {
            self
        }
    }

    /// The response pane scrolls two rows up, where it is selected, and not
    /// past the first row.
    pub open spec fn scroll_up(self) -> AppView {
        if self.selected_block == AppBlock::Response {
            let row = if self.response_scroll.0 > 2 {
                (self.response_scroll.0 - 2) as u16
            } else {
                0u16
            };
            AppView { response_scroll: (row, self.response_scroll.1), ..self }
        } else {
            self
        }
    }

    /// The state after `form` was accepted: its key and value go where the
    /// form's kind says. A form that lacks a field it is asked for changes
    /// nothing, and neither does one that edits a row that is not there.
    pub open spec fn submit(self, form: FormView) -> AppView {
        let key = field_text(form.fields, "key"@);
        let value = field_text(form.fields, "value"@);
        let current = field_text(form.fields, "current_key"@);
        if key is None || value is None {
            self
        } else {
            match form.kind {
                FormKind::AddHeader => AppView {
                    headers: with_pair(self.headers, key->0, value->0),
                    ..self
                },
                FormKind::EditHeader => if current is None {
                    self
                } else {
                    AppView {
                        headers: with_edited_pair(self.headers, current->0, key->0, value->0),
                        ..self
                    }
                },
                FormKind::AddQueryParam => AppView {
                    query_params: self.query_params.push((key->0, value->0)),
                    ..self
                },
                FormKind::EditQueryParam => if self.selected_query_param
                    < self.query_params.len() {
                    AppView {
                        query_params: self.query_params.update(
                            self.selected_query_param as int,
                            (key->0, value->0),
                        ),
                        ..self
                    }
                } else {
                    self
                },
                FormKind::AddBodyFormField => AppView {
                    body_form: with_pair(self.body_form, key->0, value->0),
                    ..self
                },
                FormKind::EditBodyFormField => if current is None {
                    self
                } else {
                    AppView {
                        body_form: with_edited_pair(self.body_form, current->0, key->0, value->0),
                        ..self
                    }
                },
            }
        }
    }

    /// The state after `key`, while the popup to pick a method is shown.
    pub open spec fn on_method_popup_key(self, key: Key) -> AppView {
        match key {
            Key::Char(c) => if c == 'k' {
                AppView { method: before(self.method), ..self }
            } else if c == 'j' {
                AppView { method: after(self.method), ..self }
            } else {
                self
            },
            Key::Enter => AppView { popup: None, ..self },
            Key::Esc => AppView { popup: None, ..self },
            _ => self,
        }
    }

    /// The state with `form` as its popup.
    pub open spec fn showing(self, form: FormView) -> AppView {
        AppView { popup: Some(PopupView::FormPopup(form)), ..self }
    }

    /// The state after `key`, while the form `form` is shown. Enter accepts
    /// the form and closes it; every other key leaves it open.
    pub open spec fn on_form_popup_key(self, form: FormView, key: Key) -> AppView {
        if key == Key::Enter {
            AppView { input_mode: InputMode::Normal, popup: None, ..self.submit(form) }
        } else {
            AppView { input_mode: mode_after_form_key(self.input_mode, key), ..self }.showing(
                form_after_key(form, self.input_mode, key),
            )
        }
    }

    /// The state after `key`, while a popup is shown. Without a popup, the
    /// state as it is.
    pub open spec fn on_popup_key(self, key: Key) -> AppView {
        match self.popup {
            None => self,
            Some(PopupView::ChangeMethod) => self.on_method_popup_key(key),
            Some(PopupView::FormPopup(form)) => self.on_form_popup_key(form, key),
        }
    }

    /// The state after a step down in the list that the request pane shows.
    pub open spec fn row_down(self) -> AppView {
        match self.request_tab {
            RequestTab::Headers => if row_count(self.headers.len()) == 0 {
                AppView { selected_query_param: 0, ..self }
            } else {
                AppView {
                    selected_header: row_below(self.selected_header, row_count(self.headers.len())),
                    ..self
                }
            },
            RequestTab::Query => if row_count(self.query_params.len()) == 0 {
                AppView { selected_query_param: 0, ..self }
            } else {
                AppView {
                    selected_query_param: row_below(
                        self.selected_query_param,
                        row_count(self.query_params.len()),
                    ),
                    ..self
                }
            },
            RequestTab::Body => if self.body_content_type != BodyContentType::Form {
                self
            } else if row_count(self.body_form.len()) == 0 {
                AppView { selected_form_field: 0, ..self }
            } else {
                AppView {
                    selected_form_field: row_below(
                        self.selected_form_field,
                        row_count(self.body_form.len()),
                    ),
                    ..self
                }
            },
            _ => self,
        }
    }

    /// The state after a step up in the list that the request pane shows.
    pub open spec fn row_up(self) -> AppView {
        match self.request_tab {
            RequestTab::Headers => if row_count(self.headers.len()) == 0 {
                AppView { selected_header: 0, ..self }
            } else {
                AppView {
                    selected_header: row_above(self.selected_header, row_count(self.headers.len())),
                    ..self
                }
            },
            RequestTab::Query => if row_count(self.query_params.len()) == 0 {
                AppView { selected_query_param: 0, ..self }
            } else {
                AppView {
                    selected_query_param: row_above(
                        self.selected_query_param,
                        row_count(self.query_params.len()),
                    ),
                    ..self
                }
            },
            RequestTab::Body => if self.body_content_type != BodyContentType::Form {
                self
            } else if row_count(self.body_form.len()) == 0 {
                AppView { selected_form_field: 0, ..self }
            } else {
                AppView {
                    selected_form_field: row_above(
                        self.selected_form_field,
                        row_count(self.body_form.len()),
                    ),
                    ..self
                }
            },
            _ => self,
        }
    }

    /// The state after the kind of body changed: from text to form, and from
    /// form to plain text.
    pub open spec fn toggle_body_kind(self) -> AppView {
        if self.request_tab == RequestTab::Body {
            match self.body_content_type {
                BodyContentType::Text(_) => AppView {
                    body_content_type: BodyContentType::Form,
                    ..self
                },
                BodyContentType::Form => AppView {
                    body_content_type: BodyContentType::Text(crate::app::BodyType::Raw),
                    ..self
                },
            }
        } else {
            self
        }
    }

    /// The state after the format of a text body changed to the one that
    /// follows: the content type header announces the new format.
    pub open spec fn cycle_body_format(self) -> AppView {
        if self.request_tab == RequestTab::Body {
            match self.body_content_type {
                BodyContentType::Text(format) => AppView {
                    headers: with_pair(self.headers, "Content-Type"@, format.following().mime()),
                    body_content_type: BodyContentType::Text(format.following()),
                    ..self
                },
                BodyContentType::Form => self,
            }
        } else {
            self
        }
    }

    /// The state with the form that adds a row to the list that the request
    /// pane shows.
    pub open spec fn open_add_form(self) -> AppView {
        match self.request_tab {
            RequestTab::Headers => self.showing(add_form(FormKind::AddHeader, "Add Header"@)),
            RequestTab::Query => self.showing(
                add_form(FormKind::AddQueryParam, "Add Query Param"@),
            ),
            RequestTab::Body => if self.body_content_type == BodyContentType::Form {
                self.showing(add_form(FormKind::AddBodyFormField, "Add Form Field"@))
            } else {
                self
            },
            _ => self,
        }
    }

    /// The state with the form that edits the selected row of the list that
    /// the request pane shows. Where no row is selected, the state as it is.
    pub open spec fn open_edit_form(self) -> AppView {
        match self.request_tab {
            RequestTab::Headers => if self.selected_header < self.headers.len() {
                let pair = self.headers[self.selected_header as int];
                self.showing(
                    edit_form(
                        FormKind::EditHeader,
                        "Edit Header"@,
                        pair,
                        "Current Key"@,
                        "current_key"@,
                        pair.0,
                    ),
                )
            } else {
                self
            },
            RequestTab::Query => if self.selected_query_param < self.query_params.len() {
                self.showing(
                    edit_form(
                        FormKind::EditQueryParam,
                        "Edit Query Param"@,
                        self.query_params[self.selected_query_param as int],
                        "Index"@,
                        "index"@,
                        decimal(self.selected_query_param as nat),
                    ),
                )
            } else {
                self
            },
            RequestTab::Body => if self.body_content_type == BodyContentType::Form
                && self.selected_form_field < self.body_form.len() {
                let pair = self.body_form[self.selected_form_field as int];
                self.showing(
                    edit_form(
                        FormKind::EditBodyFormField,
                        "Edit Form Field"@,
                        pair,
                        "Current Key"@,
                        "current_key"@,
                        pair.0,
                    ),
                )
            } else {
                self
            },
            _ => self,
        }
    }

    /// The state after the selected row left the list that the request pane
    /// shows. Where no row is selected, the state as it is.
    pub open spec fn delete_row(self) -> AppView {
        match self.request_tab {
            RequestTab::Headers => if self.selected_header < self.headers.len() {
                let rest = self.headers.remove(self.selected_header as int);
                AppView {
                    headers: rest,
                    selected_header: row_after_removal(self.selected_header, rest.len()),
                    ..self
                }
            } else {
                self
            },
            RequestTab::Query => if self.selected_query_param < self.query_params.len() {
                let rest = self.query_params.remove(self.selected_query_param as int);
                AppView {
                    query_params: rest,
                    selected_query_param: row_after_removal(self.selected_query_param, rest.len()),
                    ..self
                }
            } else {
                self
            },
            RequestTab::Body => if self.body_content_type == BodyContentType::Form
                && self.selected_form_field < self.body_form.len() {
                let rest = self.body_form.remove(self.selected_form_field as int);
                AppView {
                    body_form: rest,
                    selected_form_field: if self.selected_header == rest.len() && rest.len() != 0
                        && self.selected_form_field > 0 {
                        (self.selected_form_field - 1) as u16
                    } else {
                        self.selected_form_field
                    },
                    ..self
                }
            } else {
                self
            },
            _ => self,
        }
    }

    /// The state after a request was asked for, and the request.
    pub open spec fn sending(self) -> (AppView, ActionView) {
        let next = AppView { is_loading: true, ..self };
        (next, ActionView::Send(next.request()))
    }

    /// The state after the character `c` as a command of normal mode.
    pub open spec fn on_command(self, c: char) -> AppView {
        let in_content = self.selected_block == AppBlock::RequestContent;
        if c == 'i' {
            match self.selected_block {
                AppBlock::Endpoint => AppView {
                    input_mode: InputMode::Insert,
                    endpoint: self.endpoint.edit(EditCommand::EndOfSingleLine),
                    ..self
                },
                AppBlock::RequestContent => if self.request_tab == RequestTab::Body
                    && self.body_content_type != BodyContentType::Form {
                    AppView { input_mode: InputMode::Insert, ..self }
                } else {
                    self
                },
                _ => self,
            }
        } else if c == 'j' {
            match self.selected_block {
                AppBlock::Response => self.scroll_down(),
                AppBlock::Request => if self.request_tab.in_order() {
                    AppView { request_tab: before(self.request_tab), ..self }
                } else {
                    self
                },
                AppBlock::RequestContent => self.row_down(),
                AppBlock::Method => AppView { method: before(self.method), ..self },
                _ => self,
            }
        } else if c == 'k' {
            match self.selected_block {
                AppBlock::Response => self.scroll_up(),
                AppBlock::Request => if self.request_tab.in_order() {
                    AppView { request_tab: after(self.request_tab), ..self }
                } else {
                    self
                },
                AppBlock::RequestContent => self.row_up(),
                AppBlock::Method => AppView { method: after(self.method), ..self },
                _ => self,
            }
        } else if c == 'c' && in_content {
            self.toggle_body_kind()
        } else if c == 't' && in_content {
            self.cycle_body_format()
        } else if c == 'a' && in_content {
            self.open_add_form()
        } else if c == 'e' && in_content {
            self.open_edit_form()
        } else if c == 'd' && in_content {
            self.delete_row()
        } else {
            self
        }
    }

    /// The state after `key` in normal mode, and what is to be done.
    pub open spec fn on_normal_key(self, key: Key) -> (AppView, ActionView) {
        match key {
            Key::Char(c) => (self.on_command(c), ActionView::Nothing),
            Key::Tab => (
                AppView { selected_block: after(self.selected_block), ..self },
                ActionView::Nothing,
            ),
            Key::BackTab => (
                AppView { selected_block: before(self.selected_block), ..self },
                ActionView::Nothing,
            ),
            Key::Enter => match self.selected_block {
                AppBlock::Request => (
                    AppView { selected_block: AppBlock::RequestContent, ..self },
                    ActionView::Nothing,
                ),
                AppBlock::Method => (
                    AppView { popup: Some(PopupView::ChangeMethod), ..self },
                    ActionView::Nothing,
                ),
                _ => self.sending(),
            },
            _ => (self, ActionView::Nothing),
        }
    }

    /// The state after `command` was given to the text of the body.
    pub open spec fn edit_body(self, command: EditCommand) -> AppView {
        AppView { raw_body: self.raw_body.edit(command), ..self }
    }

    /// The state after `command` was given to the text of the address.
    pub open spec fn edit_endpoint(self, command: EditCommand) -> AppView {
        AppView { endpoint: self.endpoint.edit(command), ..self }
    }

    /// The state after `key` in insert mode, and what is to be done.
    pub open spec fn on_insert_key(self, key: Key) -> (AppView, ActionView) {
        let in_content = self.selected_block == AppBlock::RequestContent;
        let in_endpoint = self.selected_block == AppBlock::Endpoint;
        match key {
            Key::Char(c) => if in_endpoint {
                (self.edit_endpoint(EditCommand::Insert(c)), ActionView::Nothing)
            } else if in_content && self.request_tab == RequestTab::Body {
                (self.edit_body(EditCommand::Insert(c)), ActionView::Nothing)
            } else {
                (self, ActionView::Nothing)
            },
            Key::Up => if in_content {
                (self.edit_body(EditCommand::MoveUp), ActionView::Nothing)
            } else {
                (self, ActionView::Nothing)
            },
            Key::Down => if in_content {
                (self.edit_body(EditCommand::MoveDown), ActionView::Nothing)
            } else {
                (self, ActionView::Nothing)
            },
            Key::Right => if in_endpoint {
                (self.edit_endpoint(EditCommand::MoveRight), ActionView::Nothing)
            } else if in_content {
                (self.edit_body(EditCommand::MoveRight), ActionView::Nothing)
            } else {
                (self, ActionView::Nothing)
            },
            Key::Left => if in_endpoint {
                (self.edit_endpoint(EditCommand::MoveLeft), ActionView::Nothing)
            } else if in_content {
                (self.edit_body(EditCommand::MoveLeft), ActionView::Nothing)
            } else {
                (self, ActionView::Nothing)
            },
            Key::Enter => if in_content {
                (self.edit_body(EditCommand::Newline), ActionView::Nothing)
            } else if in_endpoint {
                let sent = self.sending();
                (AppView { input_mode: InputMode::Normal, ..sent.0 }, sent.1)
            } else {
                (self, ActionView::Nothing)
            },
            Key::Tab => if in_content {
                (
                    self.edit_body(EditCommand::Insert(' ')).edit_body(EditCommand::Insert(' ')),
                    ActionView::Nothing,
                )
            } else {
                (self, ActionView::Nothing)
            },
            Key::Backspace => if in_endpoint {
                (self.edit_endpoint(EditCommand::RemoveInSingleLine), ActionView::Nothing)
            } else if in_content {
                (self.edit_body(EditCommand::Remove), ActionView::Nothing)
            } else {
                (self, ActionView::Nothing)
            },
            Key::Esc => (AppView { input_mode: InputMode::Normal, ..self }, ActionView::Nothing),
            _ => (self, ActionView::Nothing),
        }
    }

    /// The state after `key`, and what is to be done. While a popup is shown
    /// the key goes to the popup; else it is a command or text, by the mode.
    pub open spec fn on_key(self, key: Key) -> (AppView, ActionView) {
        if self.popup is Some {
            (self.on_popup_key(key), ActionView::Nothing)
        } else {
            match self.input_mode {
                InputMode::Normal => self.on_normal_key(key),
                InputMode::Insert => self.on_insert_key(key),
            }
        }
    }

    /// The state after `key`, and what is to be done, where `q` in normal
    /// mode closes the popup that is shown or, without one, ends the client.
    pub open spec fn on_key_or_quit(self, key: Key) -> (AppView, ActionView) {
        if self.input_mode == InputMode::Normal && key == Key::Char('q') {
            if self.popup is Some {
                AppView { popup: None, ..self }.on_key(key)
            } else {
                (self, ActionView::Quit)
            }
        } else {
            self.on_key(key)
        }
    }
}

/// Accepting a form does not look at the popup and does not touch it.
pub proof fn lemma_submit_keeps_popup(v: AppView, popup: Option<PopupView>, form: FormView)
    ensures
        (AppView { popup, ..v }).submit(form) == (AppView { popup, ..v.submit(form) }),
{
}

} // verus!
