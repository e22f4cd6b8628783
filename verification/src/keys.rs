//! Keys as the state machine sees them, and the command that each key
//! stands for in a given mode with a given panel in focus.

use vstd::prelude::*;
use crate::input::EditOp;
use crate::panel::{ActivePanel, Mode};

verus! {

/// The key of a key press.
#[derive(Debug, Copy, Clone, PartialEq, Eq, Structural)]
pub enum KeyCode {
    Char(char),
    Enter,
    Esc,
    Tab,
    BackTab,
    Backspace,
    Delete,
    Left,
    Right,
    Home,
    End,
    /// Any key that stands for nothing here.
    Other,
}

/// A key press: the key, and whether the control modifier was held.
#[derive(Debug, Copy, Clone, PartialEq, Eq, Structural)]
pub struct KeyPress {
    pub code: KeyCode,
    pub ctrl: bool,
}

/// What a key press asks the application to do.
#[derive(Debug, Copy, Clone, PartialEq, Eq, Structural)]
pub enum Command {
    Nothing,
    DismissError,
    FocusNext,
    FocusPrev,
    EnterEdit,
    LeaveEdit,
    Send,
    NextMethod,
    PrevMethod,
    ToggleBodyMode,
    ScrollDown,
    ScrollUp,
    ScrollRight,
    ScrollLeft,
    Quit,
    Edit(EditOp),
}

/// The command of a key in normal mode. Tab and Shift+Tab move the focus,
/// Enter sends, `i` starts editing on a request panel, `m` and `M` cycle
/// the method, `b` and `B` switch the body mode, `q` quits; on the response
/// body `j`, `k`, `l` and `h` scroll. Every other key does nothing.
pub open spec fn normal_command(panel: ActivePanel, key: KeyPress) -> Command {
    match key.code {
        KeyCode::Tab => Command::FocusNext,
        KeyCode::BackTab => Command::FocusPrev,
        KeyCode::Enter => Command::Send,
        KeyCode::Char(c) => if c == 'i' {
            if panel.is_editable() {
                Command::EnterEdit
            } else {
                Command::Nothing
            }
        } else if c == 'm' {
            Command::NextMethod
        } else if c == 'M' {
            Command::PrevMethod
        } else if c == 'b' || c == 'B' {
            Command::ToggleBodyMode
        } else if c == 'q' {
            Command::Quit
        } else if panel == ActivePanel::ResBody && c == 'j' {
            Command::ScrollDown
        } else if panel == ActivePanel::ResBody && c == 'k' {
            Command::ScrollUp
        } else if panel == ActivePanel::ResBody && c == 'l' {
            Command::ScrollRight
        } else if panel == ActivePanel::ResBody && c == 'h' {
            Command::ScrollLeft
        } else {
            Command::Nothing
        },
        _ => Command::Nothing,
    }
}

/// The edit that a key stands for in a text field, if any: a character
/// typed without the control modifier is inserted; Backspace, Delete, the
/// arrows, Home and End edit at the cursor.
pub open spec fn edit_of(key: KeyPress) -> Option<EditOp> {
    match key.code {
        KeyCode::Char(c) => if key.ctrl {
            None
        } else {
            Some(EditOp::Insert(c))
        },
        KeyCode::Backspace => Some(EditOp::DeletePrev),
        KeyCode::Delete => Some(EditOp::DeleteNext),
        KeyCode::Left => Some(EditOp::Left),
        KeyCode::Right => Some(EditOp::Right),
        KeyCode::Home => Some(EditOp::Home),
        KeyCode::End => Some(EditOp::End),
        _ => None,
    }
}

/// The command of a key in edit mode. Esc leaves edit mode. Enter sends
/// from the URL field, and from any panel with the control modifier; in the
/// other fields it starts a new line. Keys that edit go to the focused
/// field. Every other key does nothing, and so does every key but Esc and
/// a sending Enter on a panel without a field.
pub open spec fn edit_command(panel: ActivePanel, key: KeyPress) -> Command {
    if key.code == KeyCode::Esc {
        Command::LeaveEdit
    } else if key.code == KeyCode::Enter {
        if panel == ActivePanel::Url || key.ctrl {
            Command::Send
        } else if panel.is_editable() {
            Command::Edit(EditOp::Insert('\n'))
        } else {
            Command::Nothing
        }
    } else {
        match edit_of(key) {
            Some(op) => if panel.is_editable() {
                Command::Edit(op)
            } else {
                Command::Nothing
            },
            None => Command::Nothing,
        }
    }
}

/// The command of a key. In normal mode a displayed error takes the key:
/// it is dismissed and nothing else happens.
pub open spec fn command_for(
    mode: Mode,
    panel: ActivePanel,
    has_error: bool,
    key: KeyPress,
) -> Command {
    match mode {
        Mode::Normal => if has_error {
            Command::DismissError
        } else {
            normal_command(panel, key)
        },
        Mode::Edit => edit_command(panel, key),
    }
}

/// The command of a key in normal mode.
fn decide_normal(panel: ActivePanel, key: KeyPress) -> (command: Command)
    ensures
        command == normal_command(panel, key),
{
    let on_body = match panel {
        ActivePanel::ResBody => true,
        _ => false,
    };
    match key.code {
        KeyCode::Tab => Command::FocusNext,
        KeyCode::BackTab => Command::FocusPrev,
        KeyCode::Enter => Command::Send,
        KeyCode::Char(c) => {
            if c == 'i' {
                if panel.is_editable() {
                    Command::EnterEdit
                } else {
                    Command::Nothing
                }
            } else if c == 'm' {
                Command::NextMethod
            } else if c == 'M' {
                Command::PrevMethod
            } else if c == 'b' || c == 'B' {
                Command::ToggleBodyMode
            } else if c == 'q' {
                Command::Quit
            } else if on_body && c == 'j' {
                Command::ScrollDown
            } else if on_body && c == 'k' {
                Command::ScrollUp
            } else if on_body && c == 'l' {
                Command::ScrollRight
            } else if on_body && c == 'h' {
                Command::ScrollLeft
            } else {
                Command::Nothing
            }
        },
        _ => Command::Nothing,
    }
}

/// The command of a key in edit mode.
fn decide_edit(panel: ActivePanel, key: KeyPress) -> (command: Command)
    ensures
        command == edit_command(panel, key),
{
    let on_url = match panel {
        ActivePanel::Url => true,
        _ => false,
    };
    let op = match key.code {
        KeyCode::Esc => {
            return Command::LeaveEdit;
        },
        KeyCode::Enter => {
            if on_url || key.ctrl {
                return Command::Send;
            }
            Some(EditOp::Insert('\n'))
        },
        KeyCode::Char(c) => {
            if key.ctrl {
                None
            } else {
                Some(EditOp::Insert(c))
            }
        },
        KeyCode::Backspace => Some(EditOp::DeletePrev),
        KeyCode::Delete => Some(EditOp::DeleteNext),
        KeyCode::Left => Some(EditOp::Left),
        KeyCode::Right => Some(EditOp::Right),
        KeyCode::Home => Some(EditOp::Home),
        KeyCode::End => Some(EditOp::End),
        _ => None,
    };
    match op {
        Some(op) => {
            if panel.is_editable() {
                Command::Edit(op)
            } else {
                Command::Nothing
            }
        },
        None => Command::Nothing,
    }
}

/// The command that a key press stands for. Every key has one in every
/// mode and on every panel, if only `Nothing`.
pub fn decide(mode: Mode, panel: ActivePanel, has_error: bool, key: KeyPress) -> (command: Command)
    ensures
        command == command_for(mode, panel, has_error, key),
{
    match mode {
        Mode::Normal => {
            if has_error {
                Command::DismissError
            } else {
                decide_normal(panel, key)
            }
        },
        Mode::Edit => decide_edit(panel, key),
    }
}

/// A key edits a field only in edit mode and only on a panel that has one.
pub proof fn lemma_edits_need_a_field(
    mode: Mode,
    panel: ActivePanel,
    has_error: bool,
    key: KeyPress,
)
    ensures
        command_for(mode, panel, has_error, key) is Edit ==> mode == Mode::Edit
            && panel.is_editable(),
        command_for(mode, panel, has_error, key) == Command::EnterEdit ==> panel.is_editable(),
{
}

} // verus!
