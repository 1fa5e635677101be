use vstd::prelude::*;

verus! {

/// What the user did at the keyboard or to the terminal.
#[derive(Debug, Clone, Copy, PartialEq, Eq)]
pub enum InputEvent {
    Esc,
    Tab,
    Enter,
    Backspace,
    Delete,
    Character(char),
    CtrlBackspace,
    CtrlDelete,
    CtrlC,
    CtrlT,
    CtrlS,
    CtrlD,
    ArrowUp,
    ArrowRight,
    ArrowDown,
    ArrowLeft,
    CtrlShiftArrowLeft,
    CtrlShiftArrowRight,
    ShiftArrowUp,
    ShiftArrowRight,
    ShiftArrowDown,
    ShiftArrowLeft,
    AltArrowLeft,
    AltArrowRight,
    CtrlArrowRight,
    CtrlArrowLeft,
    /// The terminal has this many columns and rows now.
    Resize((u16, u16)),
    /// Anything else.
    Other,
}

/// The key of a key event.
#[derive(Debug, Clone, Copy, PartialEq, Eq, Structural)]
pub enum KeyCode {
    Esc,
    Tab,
    Enter,
    Backspace,
    Delete,
    Left,
    Right,
    Up,
    Down,
    Char(char),
    /// Any other key.
    Other,
}

/// The modifier keys that are held, one bit for each.
pub type KeyModifiers = u8;

pub const MOD_NONE: KeyModifiers = 0;

pub const MOD_SHIFT: KeyModifiers = 1;

pub const MOD_CONTROL: KeyModifiers = 2;

pub const MOD_ALT: KeyModifiers = 4;

pub const MOD_CONTROL_SHIFT: KeyModifiers = 3;

#[derive(Debug, Clone, Copy, PartialEq, Eq, Structural)]
pub enum KeyEventKind {
    Press,
    Repeat,
    Release,
}

/// What the terminal reports of one key.
#[derive(Debug, Clone, Copy, PartialEq, Eq, Structural)]
pub struct KeyEvent {
    pub code: KeyCode,
    pub modifiers: KeyModifiers,
    pub kind: KeyEventKind,
    /// The state of the keyboard, one bit for each lock; 0 for none.
    pub state: u8,
}

/// What the terminal reports.
#[derive(Debug, Clone, Copy, PartialEq, Eq, Structural)]
pub enum TerminalEvent {
    Key(KeyEvent),
    Resize(u16, u16),
    /// Anything else.
    Other,
}

/// What a letter that is typed with a modifier means, if anything.
pub open spec fn letter_event(c: char, modifiers: KeyModifiers) -> InputEvent {
    if modifiers == MOD_CONTROL && c == 'c' {
        InputEvent::CtrlC
    } else if modifiers == MOD_CONTROL && c == 't' {
        InputEvent::CtrlT
    } else if modifiers == MOD_CONTROL && c == 's' {
        InputEvent::CtrlS
    } else if modifiers == MOD_CONTROL && c == 'd' {
        InputEvent::CtrlD
    } else if modifiers == MOD_NONE || modifiers == MOD_SHIFT {
        InputEvent::Character(c)
    } else if modifiers == MOD_CONTROL && c == 'w' {
        InputEvent::CtrlBackspace
    } else if modifiers == MOD_ALT && c == 'd' {
        InputEvent::CtrlDelete
    } else {
        InputEvent::Other
    }
}

/// What the press of a key means. A key counts only while no lock of the
/// keyboard is reported with it. Letters are typed, with or without
/// shift; with control, `c`, `t`, `s`, `d` and `w` are commands, and so is
/// `d` with alt. Backspace and delete erase a character, and a word with
/// any modifier. The arrows to the left and the right move by a
/// character, with control by a word, and select with alt, shift, or
/// control and shift; the arrows up and down go with shift or without.
pub open spec fn key_event(key: KeyEvent) -> InputEvent {
    if key.kind != KeyEventKind::Press || key.state != 0 {
        InputEvent::Other
    } else {
        let m = key.modifiers;
        match key.code {
            KeyCode::Esc => if m == MOD_NONE {
                InputEvent::Esc
            } else {
                InputEvent::Other
            },
            KeyCode::Char(c) => letter_event(c, m),
            KeyCode::Tab => if m == MOD_NONE {
                InputEvent::Tab
            } else {
                InputEvent::Other
            },
            KeyCode::Enter => if m == MOD_NONE {
                InputEvent::Enter
            } else {
                InputEvent::Other
            },
            KeyCode::Backspace => if m == MOD_NONE {
                InputEvent::Backspace
            } else {
                InputEvent::CtrlBackspace
            },
            KeyCode::Delete => if m == MOD_NONE {
                InputEvent::Delete
            } else {
                InputEvent::CtrlDelete
            },
            KeyCode::Left => if m == MOD_SHIFT {
                InputEvent::ShiftArrowLeft
            } else if m == MOD_CONTROL {
                InputEvent::CtrlArrowLeft
            } else if m == MOD_ALT {
                InputEvent::AltArrowLeft
            } else if m == MOD_NONE {
                InputEvent::ArrowLeft
            } else if m == MOD_CONTROL_SHIFT {
                InputEvent::CtrlShiftArrowLeft
            } else {
                InputEvent::Other
            },
            KeyCode::Right => if m == MOD_SHIFT {
                InputEvent::ShiftArrowRight
            } else if m == MOD_CONTROL {
                InputEvent::CtrlArrowRight
            } else if m == MOD_ALT {
                InputEvent::AltArrowRight
            } else if m == MOD_NONE {
                InputEvent::ArrowRight
            } else if m == MOD_CONTROL_SHIFT {
                InputEvent::CtrlShiftArrowRight
            } else {
                InputEvent::Other
            },
            KeyCode::Up => if m == MOD_SHIFT {
                InputEvent::ShiftArrowUp
            } else if m == MOD_NONE {
                InputEvent::ArrowUp
            } else {
                InputEvent::Other
            },
            KeyCode::Down => if m == MOD_SHIFT {
                InputEvent::ShiftArrowDown
            } else if m == MOD_NONE {
                InputEvent::ArrowDown
            } else {
                InputEvent::Other
            },
            KeyCode::Other => InputEvent::Other,
        }
    }
}

/// What a report of the terminal means.
pub open spec fn input_event(event: TerminalEvent) -> InputEvent {
    match event {
        TerminalEvent::Key(key) => key_event(key),
        TerminalEvent::Resize(x, y) => InputEvent::Resize((x, y)),
        TerminalEvent::Other => InputEvent::Other,
    }
}

/// What the press of a letter with a modifier means.
fn decode_letter(c: char, modifiers: KeyModifiers) -> (r: InputEvent)
    ensures
        r == letter_event(c, modifiers),
{
    if modifiers == MOD_CONTROL && c == 'c' {
        InputEvent::CtrlC
    } else if modifiers == MOD_CONTROL && c == 't' {
        InputEvent::CtrlT
    } else if modifiers == MOD_CONTROL && c == 's' {
        InputEvent::CtrlS
    } else if modifiers == MOD_CONTROL && c == 'd' {
        InputEvent::CtrlD
    } else if modifiers == MOD_NONE || modifiers == MOD_SHIFT {
        InputEvent::Character(c)
    } else if modifiers == MOD_CONTROL && c == 'w' {
        InputEvent::CtrlBackspace
    } else if modifiers == MOD_ALT && c == 'd' {
        InputEvent::CtrlDelete
    } else {
        InputEvent::Other
    }
}

/// What an arrow key with a modifier means. `plain`, `shift`, and the
/// others say what it means with each of the modifiers that it knows.
fn decode_arrow(
    modifiers: KeyModifiers,
    plain: InputEvent,
    shift: InputEvent,
    control: Option<InputEvent>,
    alt: Option<InputEvent>,
    control_shift: Option<InputEvent>,
) -> (r: InputEvent)
    ensures
        r == (if modifiers == MOD_SHIFT {
            shift
        } else if modifiers == MOD_CONTROL && control is Some {
            control.unwrap()
        } else if modifiers == MOD_ALT && alt is Some {
            alt.unwrap()
        } else if modifiers == MOD_NONE {
            plain
        } else if modifiers == MOD_CONTROL_SHIFT && control_shift is Some {
            control_shift.unwrap()
        } else {
            InputEvent::Other
        }),
{
    if modifiers == MOD_SHIFT {
        return shift;
    }
    if modifiers == MOD_CONTROL {
        if let Some(event) = control {
            return event;
        }
    }
    if modifiers == MOD_ALT {
        if let Some(event) = alt {
            return event;
        }
    }
    if modifiers == MOD_NONE {
        return plain;
    }
    if modifiers == MOD_CONTROL_SHIFT {
        if let Some(event) = control_shift {
            return event;
        }
    }
    InputEvent::Other
}

/// What a report of the terminal means.
pub fn decode_event(event: TerminalEvent) -> (r: InputEvent)
    ensures
        r == input_event(event),
{
    let key = match event {
        TerminalEvent::Key(key) => key,
        TerminalEvent::Resize(x, y) => {
            return InputEvent::Resize((x, y));
        },
        TerminalEvent::Other => {
            return InputEvent::Other;
        },
    };
    match key.kind {
        KeyEventKind::Press => {},
        _ => {
            return InputEvent::Other;
        },
    }
    if key.state != 0 {
        return InputEvent::Other;
    }
    let m = key.modifiers;
    match key.code {
        KeyCode::Esc => if m == MOD_NONE {
            InputEvent::Esc
        } else {
            InputEvent::Other
        },
        KeyCode::Char(c) => decode_letter(c, m),
        KeyCode::Tab => if m == MOD_NONE {
            InputEvent::Tab
        } else {
            InputEvent::Other
        },
        KeyCode::Enter => if m == MOD_NONE {
            InputEvent::Enter
        } else {
            InputEvent::Other
        },
        KeyCode::Backspace => if m == MOD_NONE {
            InputEvent::Backspace
        } else {
            InputEvent::CtrlBackspace
        },
        KeyCode::Delete => if m == MOD_NONE {
            InputEvent::Delete
        } else {
            InputEvent::CtrlDelete
        },
        KeyCode::Left => decode_arrow(
            m,
            InputEvent::ArrowLeft,
            InputEvent::ShiftArrowLeft,
            Some(InputEvent::CtrlArrowLeft),
            Some(InputEvent::AltArrowLeft),
            Some(InputEvent::CtrlShiftArrowLeft),
        ),
        KeyCode::Right => decode_arrow(
            m,
            InputEvent::ArrowRight,
            InputEvent::ShiftArrowRight,
            Some(InputEvent::CtrlArrowRight),
            Some(InputEvent::AltArrowRight),
            Some(InputEvent::CtrlShiftArrowRight),
        ),
        KeyCode::Up => decode_arrow(m, InputEvent::ArrowUp, InputEvent::ShiftArrowUp, None, None, None),
        KeyCode::Down => decode_arrow(m, InputEvent::ArrowDown, InputEvent::ShiftArrowDown, None, None, None),
        KeyCode::Other => InputEvent::Other,
    }
}

} // verus!
