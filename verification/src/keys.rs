//! What each key press asks of the program.
use vstd::prelude::*;

verus! {

/// A key, as far as the program tells keys apart.
#[derive(Debug, Clone, Copy, PartialEq, Eq, Structural)]
pub enum Key {
    Char(char),
    Up,
    Down,
    Home,
    End,
    PageUp,
    PageDown,
    Enter,
    Esc,
    Backspace,
    Tab,
    Other,
}

/// What a key press asks for.
#[derive(Debug, Clone, Copy, PartialEq, Eq, Structural)]
pub enum Command {
    Nothing,
    Quit,
    Confirm,
    Cancel,
    MoveUp,
    MoveDown,
    GoTop,
    GoBottom,
    PageUp,
    PageDown,
    Open,
    Back,
    ToggleBrowseMode,
    ToggleIgnore,
    ToggleSyncableOnly,
    AskSyncAll,
    SyncSelected,
    AskDeployAll,
    Diff,
    DeploySelected,
    IgnoreAll,
    ToggleShowAll,
    Refresh,
}

/// The key bindings in the browser (no question pending).
pub open spec fn key_binding(key: Key, shift: bool, ctrl: bool) -> Command {
    match key {
        Key::Char(c) => if c == 'Q' || c == 'q' {
            Command::Quit
        } else if c == 'k' {
            Command::MoveUp
        } else if c == 'j' {
            Command::MoveDown
        } else if c == 'g' {
            Command::GoTop
        } else if c == 'G' {
            Command::GoBottom
        } else if c == ' ' || c == 'i' {
            Command::ToggleIgnore
        } else if c == 'p' {
            Command::ToggleSyncableOnly
        } else if c == 'S' {
            Command::AskSyncAll
        } else if c == 's' && !shift {
            Command::SyncSelected
        } else if c == 'D' {
            Command::AskDeployAll
        } else if c == 'v' {
            Command::Diff
        } else if c == 'd' && !shift {
            Command::DeploySelected
        } else if c == 'a' && ctrl {
            Command::IgnoreAll
        } else if c == 'a' {
            Command::ToggleShowAll
        } else if c == 'r' {
            Command::Refresh
        } else {
            Command::Nothing
        },
        Key::Up => Command::MoveUp,
        Key::Down => Command::MoveDown,
        Key::Home => Command::GoTop,
        Key::End => Command::GoBottom,
        Key::PageUp => Command::PageUp,
        Key::PageDown => Command::PageDown,
        Key::Enter => Command::Open,
        Key::Esc | Key::Backspace => Command::Back,
        Key::Tab => Command::ToggleBrowseMode,
        Key::Other => Command::Nothing,
    }
}

/// What a key event asks for: nothing for a release or repeat, nothing
/// while a run is pending; while a question is pending `y` or `Y`
/// confirms and any other key cancels; else the key's binding.
pub fn key_command(is_press: bool, pending: bool, awaiting_confirm: bool, key: Key, shift: bool, ctrl: bool) -> (c: Command)
    ensures
        c == if !is_press || pending {
            Command::Nothing
        } else if awaiting_confirm {
            if key == Key::Char('y') || key == Key::Char('Y') {
                Command::Confirm
            } else {
                Command::Cancel
            }
        } else {
            key_binding(key, shift, ctrl)
        },
{
    if !is_press || pending {
        return Command::Nothing;
    }
    if awaiting_confirm {
        return match key {
            Key::Char(c) => if c == 'y' || c == 'Y' { Command::Confirm } else { Command::Cancel },
            _ => Command::Cancel,
        };
    }
    match key {
        Key::Char(c) => {
            if c == 'Q' || c == 'q' {
                Command::Quit
            } else if c == 'k' {
                Command::MoveUp
            } else if c == 'j' {
                Command::MoveDown
            } else if c == 'g' {
                Command::GoTop
            } else if c == 'G' {
                Command::GoBottom
            } else if c == ' ' || c == 'i' {
                Command::ToggleIgnore
            } else if c == 'p' {
                Command::ToggleSyncableOnly
            } else if c == 'S' {
                Command::AskSyncAll
            } else if c == 's' && !shift {
                Command::SyncSelected
            } else if c == 'D' {
                Command::AskDeployAll
            } else if c == 'v' {
                Command::Diff
            } else if c == 'd' && !shift {
                Command::DeploySelected
            } else if c == 'a' && ctrl {
                Command::IgnoreAll
            } else if c == 'a' {
                Command::ToggleShowAll
            } else if c == 'r' {
                Command::Refresh
            } else {
                Command::Nothing
            }
        },
        Key::Up => Command::MoveUp,
        Key::Down => Command::MoveDown,
        Key::Home => Command::GoTop,
        Key::End => Command::GoBottom,
        Key::PageUp => Command::PageUp,
        Key::PageDown => Command::PageDown,
        Key::Enter => Command::Open,
        Key::Esc | Key::Backspace => Command::Back,
        Key::Tab => Command::ToggleBrowseMode,
        Key::Other => Command::Nothing,
    }
}

/// Each arrow key moves the way its letter does, in the browser: ↓ and `j`
/// move down, ↑ and `k` move up, Home and `g` go to the top, End and `G`
/// to the bottom; Esc and Backspace both go back; ↑ and ↓ differ.
pub proof fn lemma_arrow_keys(shift: bool, ctrl: bool)
    ensures
        key_binding(Key::Down, shift, ctrl) == key_binding(Key::Char('j'), shift, ctrl),
        key_binding(Key::Down, shift, ctrl) == Command::MoveDown,
        key_binding(Key::Up, shift, ctrl) == key_binding(Key::Char('k'), shift, ctrl),
        key_binding(Key::Up, shift, ctrl) == Command::MoveUp,
        key_binding(Key::Up, shift, ctrl) != key_binding(Key::Down, shift, ctrl),
        key_binding(Key::Home, shift, ctrl) == key_binding(Key::Char('g'), shift, ctrl),
        key_binding(Key::Home, shift, ctrl) == Command::GoTop,
        key_binding(Key::End, shift, ctrl) == key_binding(Key::Char('G'), shift, ctrl),
        key_binding(Key::End, shift, ctrl) == Command::GoBottom,
        key_binding(Key::Esc, shift, ctrl) == key_binding(Key::Backspace, shift, ctrl),
{
}

} // verus!
