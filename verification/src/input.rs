//! Input handling for keyboard events.
//!
//! A key press is modeled as a [`KeyInput`]: the keycode plus whether
//! control is held. The terminal front end converts its own event type
//! into this one before the engine sees it.

use vstd::prelude::*;

use crate::tools::Tool;

verus! {

/// A keycode as the engine distinguishes them. Any key the tables below
/// do not name maps to `Other`.
#[derive(Clone, Copy, PartialEq, Eq, Structural, Debug)]
pub enum Key {
    /// A character key
    Char(char),
    /// Left arrow
    Left,
    /// Right arrow
    Right,
    /// Up arrow
    Up,
    /// Down arrow
    Down,
    /// Home key
    Home,
    /// End key
    End,
    /// Any other key
    Other,
}

/// A press-only key event: keycode plus the control modifier.
#[derive(Clone, Copy, PartialEq, Eq, Structural, Debug)]
pub struct KeyInput {
    pub code: Key,
    pub ctrl: bool,
}

impl KeyInput {
    /// A plain (unmodified) key press.
    pub fn plain(code: Key) -> (k: KeyInput)
        ensures
            k == (KeyInput { code, ctrl: false }),
    {
        KeyInput { code, ctrl: false }
    }

    /// A key press with control held.
    pub fn with_ctrl(code: Key) -> (k: KeyInput)
        ensures
            k == (KeyInput { code, ctrl: true }),
    {
        KeyInput { code, ctrl: true }
    }
}

/// Actions that can be triggered by input.
#[derive(Clone, Debug, PartialEq, Eq)]
pub enum Action {
    /// No action
    Nothing,
    /// Quit the application
    Quit,
    /// Move cursor
    Move(i16, i16),
    /// Jump to position
    Jump(JumpTarget),
    /// Draw at current position
    Draw,
    /// Select a tool
    SelectTool(Tool),
    /// Toggle symmetry mode
    ToggleSymmetry,
    /// Toggle grid display
    ToggleGrid,
    /// Toggle help overlay
    ToggleHelp,
    /// Select foreground color
    SelectColor(u8),
    /// Undo last operation
    Undo,
    /// Redo last undone operation
    Redo,
    /// Save file
    Save,
    /// Export to ANSI
    Export,
    /// Copy to clipboard
    Copy,
    /// Load file (with optional path)
    Load(Option<String>),
}

/// Jump target for cursor navigation.
#[derive(Clone, Copy, PartialEq, Eq, Structural, Debug)]
pub enum JumpTarget {
    /// Top-left corner (gg)
    TopLeft,
    /// Bottom-right corner (G)
    BottomRight,
    /// Start of current row (Home/0)
    LineStart,
    /// End of current row (End)
    LineEnd,
}

/// The single-key mapping table.
pub open spec fn decode_spec(key: KeyInput) -> Action {
    let ctrl = key.ctrl;
    match key.code {
        Key::Char(c) => if c == 'q' && !ctrl {
            Action::Quit
        } else if c == 'c' && ctrl {
            Action::Quit
        } else if c == 'h' && !ctrl {
            Action::Move(-1i16, 0i16)
        } else if c == 'l' && !ctrl {
            Action::Move(1i16, 0i16)
        } else if c == 'k' && !ctrl {
            Action::Move(0i16, -1i16)
        } else if c == 'j' && !ctrl {
            Action::Move(0i16, 1i16)
        } else if c == 'G' && !ctrl {
            Action::Jump(JumpTarget::BottomRight)
        } else if c == '0' && !ctrl {
            Action::Jump(JumpTarget::LineStart)
        } else if c == ' ' && !ctrl {
            Action::Draw
        } else if c == 'b' && !ctrl {
            Action::SelectTool(Tool::Brush)
        } else if c == 'e' && !ctrl {
            Action::SelectTool(Tool::Eraser)
        } else if c == 'f' && !ctrl {
            Action::SelectTool(Tool::Fill)
        } else if c == 's' && !ctrl {
            Action::ToggleSymmetry
        } else if c == 'g' && !ctrl {
            Action::ToggleGrid
        } else if c == '?' && !ctrl {
            Action::ToggleHelp
        } else if '1' <= c <= '9' && !ctrl {
            Action::SelectColor((c as u8 - '0' as u8) as u8)
        } else if c == 'a' && !ctrl {
            Action::SelectColor(10)
        } else if c == 'z' && ctrl {
            Action::Undo
        } else if c == 'y' && ctrl {
            Action::Redo
        } else if c == 'u' && !ctrl {
            Action::Undo
        } else if c == 'r' && ctrl {
            Action::Redo
        } else if c == 's' && ctrl {
            Action::Save
        } else if c == 'x' && ctrl {
            Action::Export
        } else if c == 'c' && !ctrl {
            Action::Copy
        } else {
            Action::Nothing
        },
        Key::Left => Action::Move(-1i16, 0i16),
        Key::Right => Action::Move(1i16, 0i16),
        Key::Up => Action::Move(0i16, -1i16),
        Key::Down => Action::Move(0i16, 1i16),
        Key::Home => Action::Jump(JumpTarget::LineStart),
        Key::End => Action::Jump(JumpTarget::LineEnd),
        Key::Other => Action::Nothing,
    }
}

/// Convert a key event to an action via the single-key table.
pub fn handle_key(key: KeyInput) -> (r: Action)
    ensures
        r == decode_spec(key),
{
    let ctrl = key.ctrl;
    match key.code {
        Key::Char(c) => {
            if c == 'q' && !ctrl {
                Action::Quit
            } else if c == 'c' && ctrl {
                Action::Quit
            } else if c == 'h' && !ctrl {
                Action::Move(-1, 0)
            } else if c == 'l' && !ctrl {
                Action::Move(1, 0)
            } else if c == 'k' && !ctrl {
                Action::Move(0, -1)
            } else if c == 'j' && !ctrl {
                Action::Move(0, 1)
            } else if c == 'G' && !ctrl {
                Action::Jump(JumpTarget::BottomRight)
            } else if c == '0' && !ctrl {
                Action::Jump(JumpTarget::LineStart)
            } else if c == ' ' && !ctrl {
                Action::Draw
            } else if c == 'b' && !ctrl {
                Action::SelectTool(Tool::Brush)
            } else if c == 'e' && !ctrl {
                Action::SelectTool(Tool::Eraser)
            } else if c == 'f' && !ctrl {
                Action::SelectTool(Tool::Fill)
            } else if c == 's' && !ctrl {
                Action::ToggleSymmetry
            } else if c == 'g' && !ctrl {
                Action::ToggleGrid
            } else if c == '?' && !ctrl {
                Action::ToggleHelp
            } else if '1' <= c && c <= '9' && !ctrl {
                Action::SelectColor(c as u8 - '0' as u8)
            } else if c == 'a' && !ctrl {
                Action::SelectColor(10)
            } else if c == 'z' && ctrl {
                Action::Undo
            } else if c == 'y' && ctrl {
                Action::Redo
            } else if c == 'u' && !ctrl {
                Action::Undo
            } else if c == 'r' && ctrl {
                Action::Redo
            } else if c == 's' && ctrl {
                Action::Save
            } else if c == 'x' && ctrl {
                Action::Export
            } else if c == 'c' && !ctrl {
                Action::Copy
            } else {
                Action::Nothing
            }
        },
        Key::Left => Action::Move(-1, 0),
        Key::Right => Action::Move(1, 0),
        Key::Up => Action::Move(0, -1),
        Key::Down => Action::Move(0, 1),
        Key::Home => Action::Jump(JumpTarget::LineStart),
        Key::End => Action::Jump(JumpTarget::LineEnd),
        Key::Other => Action::Nothing,
    }
}

/// Whether a key press starts the two-key 'g' sequence.
pub open spec fn starts_g_sequence(key: KeyInput) -> bool {
    key.code == Key::Char('g') && !key.ctrl
}

/// What `InputState::process` emits from the given sequence state and
/// key: the action and the next pending-'g' state.
pub open spec fn process_spec(pending_g: bool, key: KeyInput) -> (Action, bool) {
    if pending_g {
        if key.code == Key::Char('g') {
            (Action::Jump(JumpTarget::TopLeft), false)
        } else {
            (decode_spec(key), false)
        }
    } else if starts_g_sequence(key) {
        (Action::Nothing, true)
    } else {
        (decode_spec(key), false)
    }
}

/// State machine for handling multi-key sequences (like gg).
#[derive(Clone, Copy, PartialEq, Eq, Structural, Debug, Default)]
pub struct InputState {
    pub pending_g: bool,
}

impl InputState {
    /// A fresh decoder with no pending sequence.
    pub fn new() -> (s: InputState)
        ensures
            !s.pending_g,
    {
        InputState { pending_g: false }
    }

    /// Process a key event, returning the action. A lone unmodified 'g'
    /// emits nothing and arms the sequence; 'g' then 'g' jumps to the
    /// top-left corner; 'g' then any other key discards the pending 'g'
    /// and decodes the new key by the single-key table.
    pub fn process(&mut self, key: KeyInput) -> (r: Action)
        ensures
            r == process_spec(old(self).pending_g, key).0,
            final(self).pending_g == process_spec(old(self).pending_g, key).1,
    {
        if self.pending_g {
            self.pending_g = false;
            if matches!(key.code, Key::Char(c) if c == 'g') {
                return Action::Jump(JumpTarget::TopLeft);
            }
            return handle_key(key);
        }
        if matches!(key.code, Key::Char(c) if c == 'g') && !key.ctrl {
            self.pending_g = true;
            return Action::Nothing;
        }
        handle_key(key)
    }

    /// Reset the input state.
    pub fn reset(&mut self)
        ensures
            !final(self).pending_g,
    {
        self.pending_g = false;
    }
}

} // verus!
