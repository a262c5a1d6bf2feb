//! The events that the dashboard's sources produce.

use vstd::prelude::*;
use crate::api::Traffic;

verus! {

/// The key of a keyboard event, as far as the dashboard tells keys apart.
#[derive(Clone, Copy, Debug, PartialEq, Eq, Structural)]
pub enum KeyCode {
    Char(char),
    Esc,
    Other,
}

/// Whether a key went down, is held, or came up.
#[derive(Clone, Copy, Debug, PartialEq, Eq, Structural)]
pub enum KeyEventKind {
    Press,
    Repeat,
    Release,
}

/// A key and what happened to it.
#[derive(Clone, Copy, Debug, PartialEq, Eq, Structural)]
pub struct KeyEvent {
    pub code: KeyCode,
    pub kind: KeyEventKind,
}

/// A terminal event: a key, or anything else (resize, mouse, focus, paste).
#[derive(Clone, Copy, Debug, PartialEq, Eq, Structural)]
pub enum InputEvent {
    Key(KeyEvent),
    Other,
}

/// One row of the roster: group name, selected node, delay label.
pub type ProxyRow = (String, String, String);

/// What a [`ProxyRow`] is in contracts.
pub type RowView = (Seq<char>, Seq<char>, Seq<char>);

/// An event on the shared channel, one variant per kind of source.
#[derive(Debug, Clone, PartialEq, Eq)]
pub enum AppEvent {
    Input(InputEvent),
    Tick,
    Traffic(Traffic),
    Log(String),
    Roster(Vec<ProxyRow>),
}

/// What an [`AppEvent`] is in contracts.
pub enum EventView {
    Input(InputEvent),
    Tick,
    Traffic(Traffic),
    Log(Seq<char>),
    Roster(Seq<RowView>),
}

impl View for AppEvent {
    type V = EventView;

    open spec fn view(&self) -> EventView {
        match *self {
            AppEvent::Input(input) => EventView::Input(input),
            AppEvent::Tick => EventView::Tick,
            AppEvent::Traffic(traffic) => EventView::Traffic(traffic),
            AppEvent::Log(line) => EventView::Log(line@),
            AppEvent::Roster(rows) => EventView::Roster(rows.deep_view()),
        }
    }
}

/// The keys that end the session: `q` and Escape.
pub open spec fn is_quit_key(code: KeyCode) -> bool {
    code == KeyCode::Char('q') || code == KeyCode::Esc
}

/// An input asks to quit when it is a press of a quit key. A release or a
/// repeat of the same key does not.
pub open spec fn requests_quit(input: InputEvent) -> bool {
    match input {
        InputEvent::Key(key) => key.kind == KeyEventKind::Press && is_quit_key(key.code),
        InputEvent::Other => false,
    }
}

impl InputEvent {
    /// Whether this input is a press of `q` or Escape.
    pub fn is_quit_request(&self) -> (quit: bool)
        ensures
            quit == requests_quit(*self),
    {
        match self {
            InputEvent::Key(key) => {
                let pressed = match key.kind {
                    KeyEventKind::Press => true,
                    _ => false,
                };
                let quit_key = match key.code {
                    KeyCode::Char(c) => c == 'q',
                    KeyCode::Esc => true,
                    KeyCode::Other => false,
                };
                pressed && quit_key
            },
            InputEvent::Other => false,
        }
    }
}

} // verus!
