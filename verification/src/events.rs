//! Input decoding: a plain key representation mapped to the
//! application's tagged actions. Keeping the table a pure function
//! separates terminal input from state transitions.

use vstd::prelude::*;

verus! {

/// One key press, already freed of any terminal encoding. `Ctrl` carries
/// a character pressed together with the control modifier.
#[derive(PartialEq, Eq, Structural, Clone, Copy, Debug)]
pub enum Key {
    Char(char),
    Ctrl(char),
    Tab,
    BackTab,
    Enter,
    Esc,
    Up,
    Down,
    Left,
    Right,
    Backspace,
    Other,
}

/// The top-level views a key can select.
#[derive(PartialEq, Eq, Structural, Clone, Copy, Debug)]
pub enum ViewMode {
    Fields,
    Schemas,
    Endpoints,
    Graph,
    Stats,
}

/// The actions the application reacts to.
#[derive(PartialEq, Eq, Clone, Debug)]
pub enum AppEvent {
    Quit,
    NextPanel,
    PreviousPanel,
    Search(String),
    ClearSearch,
    Select,
    Back,
    ChangeView(ViewMode),
    Reload,
    ToggleHelp,
    NavigateUp,
    NavigateDown,
    NavigateLeft,
    NavigateRight,
    ShowEndpointDetails,
    HideEndpointDetails,
}

/// A character bound to one of the fixed actions rather than to search.
pub open spec fn is_bound_char(c: char) -> bool {
    c == 'q' || c == '/' || c == 'h' || c == 'r' || c == '1' || c == '2' || c == '3' || c == '4'
        || c == '5'
}

/// The event a bound character stands for.
pub open spec fn bound_char_event(c: char) -> AppEvent {
    if c == 'q' {
        AppEvent::Quit
    } else if c == '/' {
        AppEvent::ClearSearch
    } else if c == 'h' {
        AppEvent::ToggleHelp
    } else if c == 'r' {
        AppEvent::Reload
    } else if c == '1' {
        AppEvent::ChangeView(ViewMode::Fields)
    } else if c == '2' {
        AppEvent::ChangeView(ViewMode::Schemas)
    } else if c == '3' {
        AppEvent::ChangeView(ViewMode::Endpoints)
    } else if c == '4' {
        AppEvent::ChangeView(ViewMode::Graph)
    } else {
        AppEvent::ChangeView(ViewMode::Stats)
    }
}

/// The event a non-character key stands for, if any.
pub open spec fn plain_key_event(key: Key) -> Option<AppEvent> {
    match key {
        Key::Tab => Option::Some(AppEvent::NextPanel),
        Key::BackTab => Option::Some(AppEvent::PreviousPanel),
        Key::Enter => Option::Some(AppEvent::Select),
        Key::Esc => Option::Some(AppEvent::Back),
        Key::Up => Option::Some(AppEvent::NavigateUp),
        Key::Down => Option::Some(AppEvent::NavigateDown),
        Key::Left => Option::Some(AppEvent::NavigateLeft),
        Key::Right => Option::Some(AppEvent::NavigateRight),
        _ => Option::None,
    }
}

/// The fixed key table: quit on `q` and on control-q or control-c,
/// panels on tab, the views on the digits, movement on the arrows; any
/// unbound character becomes a one-character search fragment, and
/// backspace an empty one.
pub fn handle_key_event(key: Key) -> (r: Option<AppEvent>)
    ensures
        forall|c: char|
            key == Key::Ctrl(c) ==> if c == 'q' || c == 'c' {
                r == Option::Some(AppEvent::Quit)
            } else {
                r is None
            },
        forall|c: char|
            key == Key::Char(c) && is_bound_char(c) ==> r == Option::Some(bound_char_event(c)),
        forall|c: char|
            key == Key::Char(c) && !is_bound_char(c) ==> (r matches Option::Some(
                AppEvent::Search(s),
            ) && s@ == seq![c]),
        key == Key::Backspace ==> (r matches Option::Some(AppEvent::Search(s)) && s@
            == Seq::<char>::empty()),
        plain_key_event(key) is Some ==> r == plain_key_event(key),
        key == Key::Other ==> r is None,
{
    match key {
        Key::Ctrl(c) => if c == 'q' || c == 'c' {
            Option::Some(AppEvent::Quit)
        } else {
            Option::None
        },
        Key::Char(c) => if c == 'q' {
            Option::Some(AppEvent::Quit)
        } else if c == '/' {
            Option::Some(AppEvent::ClearSearch)
        } else if c == 'h' {
            Option::Some(AppEvent::ToggleHelp)
        } else if c == 'r' {
            Option::Some(AppEvent::Reload)
        } else if c == '1' {
            Option::Some(AppEvent::ChangeView(ViewMode::Fields))
        } else if c == '2' {
            Option::Some(AppEvent::ChangeView(ViewMode::Schemas))
        } else if c == '3' {
            Option::Some(AppEvent::ChangeView(ViewMode::Endpoints))
        } else if c == '4' {
            Option::Some(AppEvent::ChangeView(ViewMode::Graph))
        } else if c == '5' {
            Option::Some(AppEvent::ChangeView(ViewMode::Stats))
        } else {
            let mut s = String::new();
            crate::text::push_char(&mut s, c);
            proof {
                assert(s@ =~= seq![c]);
            }
            Option::Some(AppEvent::Search(s))
        },
        Key::Tab => Option::Some(AppEvent::NextPanel),
        Key::BackTab => Option::Some(AppEvent::PreviousPanel),
        Key::Enter => Option::Some(AppEvent::Select),
        Key::Esc => Option::Some(AppEvent::Back),
        Key::Up => Option::Some(AppEvent::NavigateUp),
        Key::Down => Option::Some(AppEvent::NavigateDown),
        Key::Left => Option::Some(AppEvent::NavigateLeft),
        Key::Right => Option::Some(AppEvent::NavigateRight),
        Key::Backspace => {
            let s = String::new();
            Option::Some(AppEvent::Search(s))
        },
        Key::Other => Option::None,
    }
}

} // verus!
