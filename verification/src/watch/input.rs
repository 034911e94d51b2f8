//! Keyboard mapping. While the cancel prompt is up it takes every key.

use vstd::prelude::*;

verus! {

/// A key, as far as bindings go.
#[derive(Debug, Clone, Copy, PartialEq, Eq, Structural)]
pub enum Key {
    Char(char),
    Esc,
    Tab,
    Up,
    Down,
    Enter,
    PageUp,
    PageDown,
    Other,
}

/// A command produced by one key press.
#[derive(Debug, Clone, Copy, PartialEq, Eq, Structural)]
pub enum Action {
    /// Leave.
    Quit,
    /// Move the selection.
    MoveUp,
    MoveDown,
    /// Open the selected job.
    OpenSelected,
    /// Switch between the panes.
    TogglePane,
    /// Toggle following the log.
    ToggleFollow,
    /// Scroll the log by a page.
    PageUp,
    PageDown,
    /// Ask whether to cancel.
    RequestCancel,
    /// Cancel.
    ConfirmCancel,
    /// Take the question back.
    DismissCancel,
    /// The key has no binding.
    Nothing,
}

/// The command of a key while no question is up.
pub open spec fn binding(key: Key) -> Action {
    match key {
        Key::Char('q') | Key::Esc => Action::Quit,
        Key::Char('c') => Action::RequestCancel,
        Key::Char('f') => Action::ToggleFollow,
        Key::Tab => Action::TogglePane,
        Key::Up | Key::Char('k') => Action::MoveUp,
        Key::Down | Key::Char('j') => Action::MoveDown,
        Key::Enter => Action::OpenSelected,
        Key::PageUp => Action::PageUp,
        Key::PageDown => Action::PageDown,
        _ => Action::Nothing,
    }
}

/// The command of a key.
pub open spec fn command_of(confirm_cancel: bool, key: Key, control: bool) -> Action {
    if confirm_cancel {
        if key == Key::Char('y') || key == Key::Char('Y') {
            Action::ConfirmCancel
        } else {
            Action::DismissCancel
        }
    } else if key == Key::Char('c') && control {
        Action::Quit
    } else {
        binding(key)
    }
}

/// Maps a key to a command; `confirm_cancel` when the cancel question is
/// up, `control` when the control key is held.
pub fn action_for(confirm_cancel: bool, key: Key, control: bool) -> (r: Action)
    ensures
        r == command_of(confirm_cancel, key, control),
{
    if confirm_cancel {
        return if key == Key::Char('y') || key == Key::Char('Y') {
            Action::ConfirmCancel
        } else {
            Action::DismissCancel
        };
    }
    if key == Key::Char('c') && control {
        return Action::Quit;
    }
    key_binding(key)
}

/// The command of a key while no question is up.
pub fn key_binding(key: Key) -> (r: Action)
    ensures
        r == binding(key),
{
    match key {
        Key::Char(c) => if c == 'q' {
            Action::Quit
        } else if c == 'c' {
            Action::RequestCancel
        } else if c == 'f' {
            Action::ToggleFollow
        } else if c == 'k' {
            Action::MoveUp
        } else if c == 'j' {
            Action::MoveDown
        } else {
            Action::Nothing
        },
        Key::Esc => Action::Quit,
        Key::Tab => Action::TogglePane,
        Key::Up => Action::MoveUp,
        Key::Down => Action::MoveDown,
        Key::Enter => Action::OpenSelected,
        Key::PageUp => Action::PageUp,
        Key::PageDown => Action::PageDown,
        Key::Other => Action::Nothing,
    }
}

/// A job is cancelled only by answering yes while the question is up, and
/// while it is up no key does anything else.
pub proof fn law_cancel_needs_confirmation(confirm_cancel: bool, key: Key, control: bool)
    ensures
        command_of(confirm_cancel, key, control) == Action::ConfirmCancel <==> confirm_cancel && (key
            == Key::Char('y') || key == Key::Char('Y')),
        confirm_cancel ==> command_of(confirm_cancel, key, control) == Action::ConfirmCancel
            || command_of(confirm_cancel, key, control) == Action::DismissCancel,
{
}

/// Without a question every key does one thing: `q`, Escape and Ctrl-C leave,
/// `c` alone asks about cancelling, `k` and `j` move as the arrows do, and a
/// key without a binding does nothing.
pub proof fn law_keys_do_one_thing(key: Key, control: bool, r: Action)
    requires
        call_ensures(action_for, (false, key, control), r),
    ensures
        r == Action::Quit <==> key == Key::Char('q') || key == Key::Esc || (key == Key::Char('c')
            && control),
        r == Action::RequestCancel <==> key == Key::Char('c') && !control,
        r == Action::ToggleFollow <==> key == Key::Char('f'),
        r == Action::TogglePane <==> key == Key::Tab,
        r == Action::MoveUp <==> key == Key::Up || key == Key::Char('k'),
        r == Action::MoveDown <==> key == Key::Down || key == Key::Char('j'),
        r == Action::OpenSelected <==> key == Key::Enter,
        r == Action::PageUp <==> key == Key::PageUp,
        r == Action::PageDown <==> key == Key::PageDown,
        r != Action::ConfirmCancel && r != Action::DismissCancel,
{
}

/// A key has the same binding wherever it is asked for.
pub proof fn law_binding_without_control(key: Key, r: Action, plain: Action)
    requires
        call_ensures(action_for, (false, key, false), r),
        call_ensures(key_binding, (key,), plain),
    ensures
        r == plain,
{
}

} // verus!
