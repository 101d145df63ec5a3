//! The state of the client: what is being composed, what is selected, and
//! what came back.

use vstd::prelude::*;
use crate::buffer::Buffer;
use crate::form::{Form, FormView};
use crate::input::Input;
use crate::navigation::{AppBlock, RequestMethod, RequestTab};
use crate::pairs::{clone_pairs, pair_views, KeyValues, Pair};

verus! {

/// Whether keys are commands or text.
#[derive(Clone, Copy, Debug, PartialEq, Eq, Structural)]
pub enum InputMode {
    Normal,
    Insert,
}

/// What came back for a request.
#[derive(Debug)]
pub struct Response {
    pub status_code: u16,
    pub content_type: String,
    pub text: String,
}

/// What a [`Response`] stands for.
pub struct ResponseView {
    pub status_code: u16,
    pub content_type: Seq<char>,
    pub text: Seq<char>,
}

impl View for Response {
    type V = ResponseView;

    open spec fn view(&self) -> ResponseView {
        ResponseView {
            status_code: self.status_code,
            content_type: self.content_type@,
            text: self.text@,
        }
    }
}

/// The format of a text body.
#[derive(Clone, Copy, Debug, PartialEq, Eq, Structural)]
pub enum BodyType {
    Json,
    Raw,
    Xml,
}

impl BodyType {
    /// The format that follows this one when formats are cycled through.
    pub open spec fn following(self) -> BodyType {
        match self {
            BodyType::Raw => BodyType::Json,
            BodyType::Json => BodyType::Xml,
            BodyType::Xml => BodyType::Raw,
        }
    }

    /// The content type that announces this format.
    pub open spec fn mime(self) -> Seq<char> {
        match self {
            BodyType::Json => "application/json"@,
            BodyType::Raw => "text/plain"@,
            BodyType::Xml => "application/xml"@,
        }
    }

    /// The format that follows this one when formats are cycled through.
    pub fn next(self) -> (r: BodyType)
        ensures
            r == self.following(),
    {
        match self {
            BodyType::Raw => BodyType::Json,
            BodyType::Json => BodyType::Xml,
            BodyType::Xml => BodyType::Raw,
        }
    }

    /// The content type that announces this format.
    pub fn content_type(self) -> (r: String)
        ensures
            r@ == self.mime(),
    {
        match self {
            BodyType::Json => "application/json".to_owned(),
            BodyType::Raw => "text/plain".to_owned(),
            BodyType::Xml => "application/xml".to_owned(),
        }
    }
}

/// What the body of a request is made of.
#[derive(Clone, Copy, Debug, PartialEq, Eq, Structural)]
pub enum BodyContentType {
    Text(BodyType),
    Form,
}

/// What is shown on top of the panes.
pub enum AppPopup {
    ChangeMethod,
    FormPopup(Form),
}

/// What an [`AppPopup`] stands for.
pub enum PopupView {
    ChangeMethod,
    FormPopup(FormView),
}

impl View for AppPopup {
    type V = PopupView;

    open spec fn view(&self) -> PopupView {
        match self {
            AppPopup::ChangeMethod => PopupView::ChangeMethod,
            AppPopup::FormPopup(f) => PopupView::FormPopup(f@),
        }
    }
}

/// What an optional popup stands for.
pub open spec fn popup_view(popup: Option<AppPopup>) -> Option<PopupView> {
    match popup {
        Some(p) => Some(p@),
        None => None,
    }
}

/// What an optional response stands for.
pub open spec fn response_view(response: Option<Response>) -> Option<ResponseView> {
    match response {
        Some(r) => Some(r@),
        None => None,
    }
}

/// A request, ready to be sent.
pub struct Request {
    pub method: RequestMethod,
    pub endpoint: String,
    pub headers: KeyValues,
    pub query_params: Vec<(String, String)>,
    pub body: String,
    pub body_content_type: BodyContentType,
    pub body_form: KeyValues,
}

/// What a [`Request`] stands for.
pub struct RequestView {
    pub method: RequestMethod,
    pub endpoint: Seq<char>,
    pub headers: Seq<Pair>,
    pub query_params: Seq<Pair>,
    pub body: Seq<char>,
    pub body_content_type: BodyContentType,
    pub body_form: Seq<Pair>,
}

impl View for Request {
    type V = RequestView;

    open spec fn view(&self) -> RequestView {
        RequestView {
            method: self.method,
            endpoint: self.endpoint@,
            headers: self.headers@,
            query_params: pair_views(self.query_params@),
            body: self.body@,
            body_content_type: self.body_content_type,
            body_form: self.body_form@,
        }
    }
}

/// The whole state of the client.
pub struct App {
    pub input_mode: InputMode,
    pub endpoint: Input,
    pub method: RequestMethod,
    pub raw_body: Input,
    pub request_tab: RequestTab,
    pub selected_block: AppBlock,
    pub selected_header: u16,
    pub selected_query_param: u16,
    pub response: Option<Response>,
    pub is_loading: bool,
    pub body_content_type: BodyContentType,
    pub headers: KeyValues,
    pub query_params: Vec<(String, String)>,
    pub response_scroll: (u16, u16),
    pub body_form: KeyValues,
    pub selected_form_field: u16,
    pub popup: Option<AppPopup>,
}

/// What an [`App`] stands for.
pub struct AppView {
    pub input_mode: InputMode,
    pub endpoint: Buffer,
    pub method: RequestMethod,
    pub raw_body: Buffer,
    pub request_tab: RequestTab,
    pub selected_block: AppBlock,
    pub selected_header: u16,
    pub selected_query_param: u16,
    pub response: Option<ResponseView>,
    pub is_loading: bool,
    pub body_content_type: BodyContentType,
    pub headers: Seq<Pair>,
    pub query_params: Seq<Pair>,
    pub response_scroll: (u16, u16),
    pub body_form: Seq<Pair>,
    pub selected_form_field: u16,
    pub popup: Option<PopupView>,
}

impl View for App {
    type V = AppView;

    open spec fn view(&self) -> AppView {
        AppView {
            input_mode: self.input_mode,
            endpoint: self.endpoint@,
            method: self.method,
            raw_body: self.raw_body@,
            request_tab: self.request_tab,
            selected_block: self.selected_block,
            selected_header: self.selected_header,
            selected_query_param: self.selected_query_param,
            response: response_view(self.response),
            is_loading: self.is_loading,
            body_content_type: self.body_content_type,
            headers: self.headers@,
            query_params: pair_views(self.query_params@),
            response_scroll: self.response_scroll,
            body_form: self.body_form@,
            selected_form_field: self.selected_form_field,
            popup: popup_view(self.popup),
        }
    }
}

impl AppView {
    /// The request that this state describes.
    pub open spec fn request(self) -> RequestView {
        RequestView {
            method: self.method,
            endpoint: self.endpoint.text,
            headers: self.headers,
            query_params: self.query_params,
            body: self.raw_body.text,
            body_content_type: self.body_content_type,
            body_form: self.body_form,
        }
    }

    /// The state in which the client starts.
    pub open spec fn initial() -> AppView {
        AppView {
            input_mode: InputMode::Normal,
            endpoint: Buffer { text: "https://httpbin.org/get"@, x: 0, y: 0 },
            method: RequestMethod::Get,
            raw_body: Buffer { text: Seq::<char>::empty(), x: 0, y: 0 },
            request_tab: RequestTab::Body,
            selected_block: AppBlock::Endpoint,
            selected_header: 0,
            selected_query_param: 0,
            response: None,
            is_loading: false,
            body_content_type: BodyContentType::Text(BodyType::Json),
            headers: seq![("Content-Type"@, "application/json"@)],
            query_params: Seq::<Pair>::empty(),
            response_scroll: (0u16, 0u16),
            body_form: Seq::<Pair>::empty(),
            selected_form_field: 0,
            popup: None,
        }
    }
}

impl Request {
    /// The request that `app` describes.
    pub fn from_app(app: &App) -> (r: Self)
        ensures
            r@ == app@.request(),
    {
        Self {
            method: app.method,
            endpoint: app.endpoint.text.clone(),
            headers: app.headers.duplicate(),
            body: app.raw_body.text.clone(),
            query_params: clone_pairs(&app.query_params),
            body_content_type: app.body_content_type,
            body_form: app.body_form.duplicate(),
        }
    }
}

impl Default for App {
    /// The state in which the client starts.
    fn default() -> (r: Self)
        ensures
            r@ == AppView::initial(),
    {
        let mut headers = KeyValues::new();
        headers.insert("Content-Type".to_owned(), "application/json".to_owned());
        assert(headers@ =~= seq![("Content-Type"@, "application/json"@)]);
        let query_params: Vec<(String, String)> = Vec::new();
        assert(pair_views(query_params@) =~= Seq::<Pair>::empty());
        Self {
            input_mode: InputMode::Normal,
            endpoint: Input::new("https://httpbin.org/get".to_owned()),
            method: RequestMethod::Get,
            raw_body: Input::default(),
            request_tab: RequestTab::Body,
            selected_block: AppBlock::Endpoint,
            selected_header: 0,
            selected_query_param: 0,
            response: None,
            is_loading: false,
            body_content_type: BodyContentType::Text(BodyType::Json),
            headers,
            query_params,
            response_scroll: (0, 0),
            body_form: KeyValues::new(),
            selected_form_field: 0,
            popup: None,
        }
    }
}

/// What the command line gives: an address to start with, and a method.
pub struct Cli {
    pub url: Option<String>,
    pub method: Option<RequestMethod>,
}

impl AppView {
    /// The state with what the command line gave: the address and the method
    /// that it named replace those of the state.
    pub open spec fn with_cli(self, url: Option<Seq<char>>, method: Option<RequestMethod>)
        -> AppView {
        AppView {
            endpoint: match url {
                Some(text) => Buffer { text, ..self.endpoint },
                None => self.endpoint,
            },
            method: match method {
                Some(m) => m,
                None => self.method,
            },
            ..self
        }
    }

    /// The state after an answer came: it is the response now, and the
    /// client waits no longer.
    pub open spec fn received(self, response: Option<ResponseView>) -> AppView {
        AppView { response, is_loading: false, ..self }
    }
}

impl App {
    /// Takes over what the command line gave.
    pub fn apply_cli(&mut self, cli: Cli)
        ensures
            final(self)@ == old(self)@.with_cli(
                match cli.url {
                    Some(u) => Some(u@),
                    None => None,
                },
                cli.method,
            ),
    {
        let Cli { url, method } = cli;
        if let Some(text) = url {
            self.endpoint.text = text;
        }
        if let Some(m) = method {
            self.method = m;
        }
    }

    /// Takes in what came back for the request: a response, or none.
    pub fn receive(&mut self, response: Option<Response>)
        ensures
            final(self)@ == old(self)@.received(response_view(response)),
    {
        self.response = response;
        self.is_loading = false;
    }
}

} // verus!
