//! The editing core of a keyboard-driven terminal HTTP client.
//!
//! At its heart is a text of several lines with a cursor of two coordinates:
//! [`input::Input`] is the field that is edited, [`buffer::Buffer`] is what
//! it stands for, and [`laws`] holds what is proved of the editing
//! operations. [`lines`] cuts texts into lines and joins them again.
//!
//! Around it stands the state of the client ([`app`]), with its forms
//! ([`form`]), its lists of keys and values ([`pairs`]) and its cycles of
//! choices ([`navigation`]). [`transitions`] says what each key press does to
//! the state, and [`events`] does it. [`render`], [`layout`] and [`syntax`]
//! prepare what is drawn, [`cache`] keeps what was drawn, and [`request`]
//! decides what is sent and how an answer is kept.
//!
//! The terminal, the network and the clock are not touched here.

pub mod app;
pub mod buffer;
pub mod cache;
pub mod chars;
pub mod cursor;
pub mod events;
pub mod form;
pub mod input;
pub mod layout;
pub mod laws;
pub mod lines;
pub mod navigation;
pub mod pairs;
pub mod render;
pub mod request;
pub mod syntax;
pub mod transitions;
