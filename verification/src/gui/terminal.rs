use vstd::prelude::*;
use crate::buffer::{BufferView, InputBuffer};
use crate::gui::{least, ActionToTake, ActionType, CursorPos, TerminalXY};
use crate::input::InputEvent;
use crate::enums::ArgType;
use crate::utils::{from_chars, short_path, short_path_text, to_chars};

verus! {

/// Where a cursor stands on the terminal.
pub type ArgPos = (u16, u16);

/// Where the drawing of a line is with regard to the selection.
#[derive(Debug, Clone, Copy, PartialEq, Eq, Structural)]
pub enum HighlightState {
    BeforeHighlight,
    InHighlight,
    AfterHighlight,
}

impl HighlightState {
    /// Steps into the selection, or out of it. Behind the selection
    /// there is no step.
    pub fn next(&mut self)
        requires
            *old(self) != HighlightState::AfterHighlight,
        ensures
            *final(self) == (match *old(self) {
                HighlightState::BeforeHighlight => HighlightState::InHighlight,
                _ => HighlightState::AfterHighlight,
            }),
    {
        match self {
            HighlightState::BeforeHighlight => {
                *self = HighlightState::InHighlight;
            },
            _ => {
                *self = HighlightState::AfterHighlight;
            },
        }
    }
}

/// The column and the row of the character at `pos` on a terminal of the
/// size `term_size`, counted from its first cell; the first cell on a
/// terminal without columns.
pub open spec fn xy_of(pos: u16, term_size: TerminalXY) -> (u16, u16) {
    if term_size.0 == 0 {
        (0, 0)
    } else {
        ((pos % term_size.0) as u16, (pos / term_size.0) as u16)
    }
}

pub fn pos_to_xy(pos: u16, term_size: TerminalXY) -> (r: (u16, u16))
    ensures
        r == xy_of(pos, term_size),
{
    if term_size.0 == 0 {
        (0, 0)
    } else {
        (pos % term_size.0, pos / term_size.0)
    }
}

/// `a + b` as a position on the terminal, which counts up to 65536 and
/// then from 0 again.
pub open spec fn wrapped(a: int, b: int) -> u16 {
    ((a + b) % 65536) as u16
}

fn wrapped_sum(a: usize, b: usize) -> (r: u16)
    ensures
        r == wrapped(a as int, b as int),
{
    let x = a % 65536;
    let y = b % 65536;
    proof {
        vstd::arithmetic::div_mod::lemma_add_mod_noop(a as int, b as int, 65536);
    }
    ((x + y) % 65536) as u16
}

/// Where the current argument starts in the line: the argument that the
/// caret stands in, or the last argument where the caret stands behind
/// all of them; the start of the line where it has no argument.
pub open spec fn current_arg_start(line: BufferView) -> int {
    if line.num_args() == 0 {
        0
    } else if line.curr_arg < line.num_args() {
        line.splits[2 * (line.curr_arg as int)] as int
    } else {
        line.splits[2 * (line.num_args() - 1)] as int
    }
}

/// What of the terminal the line itself takes care of.
#[derive(Debug)]
pub struct TerminalGUI {
    current_line: u16,
    short_cwd: String,
}

pub ghost struct TerminalView {
    pub current_line: u16,
    pub short_cwd: Seq<char>,
}

impl View for TerminalGUI {
    type V = TerminalView;

    closed spec fn view(&self) -> TerminalView {
        TerminalView { current_line: self.current_line, short_cwd: self.short_cwd@ }
    }
}

/// Whether the current argument of the line has a closest match to accept.
pub open spec fn has_match(line: BufferView) -> bool {
    line.curr_arg < line.hints.len() && line.hints[line.curr_arg as int].1.last_closest_match is Some
}

impl TerminalGUI {
    pub fn init() -> (r: Self)
        ensures
            r@ == (TerminalView { current_line: 0, short_cwd: Seq::empty() }),
    {
        Self { short_cwd: String::new(), current_line: 0 }
    }

    pub fn set_current_line(&mut self, line: u16)
        ensures
            final(self)@ == (TerminalView { current_line: line, ..old(self)@ }),
    {
        self.current_line = line;
    }

    pub fn current_line(&self) -> (r: u16)
        ensures
            r == self@.current_line,
    {
        self.current_line
    }

    /// The prompt, as it was last computed.
    pub fn short_cwd(&self) -> (r: &str)
        ensures
            r@ == self@.short_cwd,
    {
        self.short_cwd.as_str()
    }

    /// What the terminal itself makes of an event, before a view or the
    /// line see it: with hints in the table, the tab key is let through to
    /// the line where the current argument has a closest match to accept,
    /// and is taken away where it has none. Everything else is left to the
    /// view.
    pub fn action_before_write(buf: &InputBuffer, event: InputEvent) -> (r: Option<ActionToTake>)
        requires
            buf@.wf(),
        ensures
            r == if event == InputEvent::Tab && buf@.hints.len() > 0 {
                if has_match(buf@) {
                    Some(ActionToTake::WriteBuffer(ActionType::Standard))
                } else {
                    Some(ActionToTake::BlockBuffer)
                }
            } else {
                None
            },
    {
        if let InputEvent::Tab = event {
            let hints = buf.get_argument_hints();
            if hints.len() > 0 {
                let curr_arg = buf.get_curr_arg();
                if curr_arg >= hints.len() {
                    return Some(ActionToTake::BlockBuffer);
                }
                return if hints[curr_arg].1.last_closest_match().is_some() {
                    Some(ActionToTake::WriteBuffer(ActionType::Standard))
                } else {
                    Some(ActionToTake::BlockBuffer)
                };
            }
        }
        None
    }

    /// Computes the prompt for the directory `cwd`, and where on the
    /// terminal the caret, the end of the line and the start of the
    /// current argument come to stand behind it. The last is counted from
    /// the top of the terminal, the others from the line of the prompt.
    pub fn calculate_increased_length(&mut self, buffer: &InputBuffer, term_size: TerminalXY, cwd: &str) -> (r: (
        CursorPos,
        TerminalXY,
        ArgPos,
    ))
        requires
            buffer@.wf(),
        ensures
            final(self)@ == (TerminalView { short_cwd: short_path_text(cwd@), ..old(self)@ }),
            ({
                let prompt = short_path_text(cwd@).len() as int;
                let arg = xy_of(wrapped(current_arg_start(buffer@), prompt), term_size);
                &&& r.0 == xy_of(wrapped(buffer@.main_cursor.position as int, prompt), term_size)
                &&& r.1 == xy_of(wrapped(buffer@.content.len() as int, prompt), term_size)
                &&& r.2 == (arg.0, least(arg.1 + old(self)@.current_line, u16::MAX as int) as u16)
            }),
    {
        self.short_cwd = short_path(cwd);
        let prompt = to_chars(self.short_cwd.as_str()).len();
        let num_args = buffer.num_args();
        let arg_start = if num_args == 0 {
            0
        } else {
            let curr_arg = buffer.get_curr_arg();
            let index = if curr_arg < num_args {
                curr_arg
            } else {
                num_args - 1
            };
            buffer.arg_locs(index).0
        };
        let arg_pos = pos_to_xy(wrapped_sum(arg_start, prompt), term_size);
        let arg_row = if arg_pos.1 <= u16::MAX - self.current_line {
            arg_pos.1 + self.current_line
        } else {
            u16::MAX
        };
        (
            pos_to_xy(wrapped_sum(buffer.main_cur().position(), prompt), term_size),
            pos_to_xy(wrapped_sum(buffer.len(), prompt), term_size),
            (arg_pos.0, arg_row),
        )
    }
}

/// The look of a piece of the line.
#[derive(Debug, Clone, Copy, PartialEq, Eq, Structural)]
pub enum PieceStyle {
    Executable,
    Path,
    Text,
    /// What the closest match offers beyond what is typed.
    Hint,
}

/// A piece of the line that is drawn in one look.
#[derive(Debug)]
pub struct Piece {
    pub style: PieceStyle,
    /// Whether the piece lies in the selection.
    pub highlighted: bool,
    pub text: String,
}

pub ghost struct PieceView {
    pub style: PieceStyle,
    pub highlighted: bool,
    pub text: Seq<char>,
}

impl View for Piece {
    type V = PieceView;

    open spec fn view(&self) -> PieceView {
        PieceView { style: self.style, highlighted: self.highlighted, text: self.text@ }
    }
}

/// The views of pieces.
pub open spec fn piece_views(pieces: Seq<Piece>) -> Seq<PieceView> {
    Seq::new(pieces.len(), |i: int| pieces[i]@)
}

/// `i`, but not less than `low` and not more than `high`.
pub open spec fn within(i: int, low: int, high: int) -> int {
    if i < low {
        low
    } else if i > high {
        high
    } else {
        i
    }
}

/// The look of the stretch between the offsets `i` and `i + 1` of the
/// table of spans: an argument looks as its kind says, and what lies
/// between two arguments, or has no entry in the table of hints, is text.
pub open spec fn stretch_style(line: BufferView, i: int) -> PieceStyle {
    if i % 2 == 0 && i / 2 < line.hints.len() {
        match line.hints[i / 2].0 {
            ArgType::Executable => PieceStyle::Executable,
            ArgType::Path => PieceStyle::Path,
            ArgType::Text => PieceStyle::Text,
        }
    } else {
        PieceStyle::Text
    }
}

/// What the closest match of argument `k` offers beyond the first `typed`
/// characters of the argument, if it has one that reaches that far.
pub open spec fn offered(line: BufferView, k: int, typed: int) -> Option<Seq<char>> {
    if 0 <= k < line.hints.len() {
        let hint = line.hints[k].1;
        match hint.last_closest_match {
            Some(m) => if hint.disregard <= typed && typed - hint.disregard <= m.len() {
                Some(m.skip(typed - hint.disregard))
            } else {
                None
            },
            None => None,
        }
    } else {
        None
    }
}

/// The three pieces of the stretch between the offsets `i` and `i + 1`
/// of the table of spans. Without a selection, the argument that the
/// caret stands in is cut at the caret, and what its closest match offers
/// stands between the two parts. Every other stretch is cut where the
/// selection starts and where it ends, and what lies between is
/// highlighted. A piece may be empty.
pub open spec fn stretch_pieces(line: BufferView, i: int) -> Seq<PieceView> {
    let len = line.content.len() as int;
    let start = within(line.splits[i] as int, 0, len);
    let stop = within(line.splits[i + 1] as int, start, len);
    let (from, to) = line.cursor_range();
    let style = stretch_style(line, i);
    let plain = |a: int, b: int, highlighted: bool|
        PieceView { style, highlighted, text: line.content.subrange(a, b) };
    if from == to && i % 2 == 0 && start <= from <= stop && offered(line, i / 2, from - start) is Some {
        seq![
            plain(start, from as int, false),
            PieceView {
                style: PieceStyle::Hint,
                highlighted: false,
                text: offered(line, i / 2, from - start).unwrap(),
            },
            plain(from as int, stop, false),
        ]
    } else {
        let a = within(from as int, start, stop);
        let b = within(to as int, a, stop);
        seq![plain(start, a, false), plain(a, b, true), plain(b, stop, false)]
    }
}

/// The pieces of the first `n` stretches of the line.
pub open spec fn pieces_upto(line: BufferView, n: int) -> Seq<PieceView>
    decreases n,
{
    if n <= 0 {
        Seq::empty()
    } else {
        pieces_upto(line, n - 1) + stretch_pieces(line, n - 1)
    }
}

/// The pieces that the line is drawn in, from its start to the last
/// offset of the table of spans.
pub open spec fn pieces_of(line: BufferView) -> Seq<PieceView> {
    if line.content.len() == 0 || line.splits.len() == 0 {
        Seq::empty()
    } else {
        pieces_upto(line, line.splits.len() - 1)
    }
}

/// The pieces to draw the line in.
pub fn output_buffer(buf: &InputBuffer) -> (r: Vec<Piece>)
    requires
        buf@.wf(),
    ensures
        piece_views(r@) == pieces_of(buf@),
{
    let mut pieces: Vec<Piece> = Vec::new();
    let splits = buf.get_splits();
    let len = buf.len();
    if len == 0 || splits.len() == 0 {
        return pieces;
    }
    let content = buf.get_buffer();
    let (from, to) = buf.cursor_range();
    let arg_hints = buf.get_argument_hints();
    let ghost line = buf@;
    let mut i: usize = 0;
    while i < splits.len() - 1
        invariant
            i <= splits@.len() - 1,
            splits@ == line.splits,
            splits@.len() > 0,
            content@ == line.content,
            len == line.content.len(),
            (from, to) == line.cursor_range(),
            from <= to,
            crate::buffer::hint_views(arg_hints@) == line.hints,
            piece_views(pieces@) == pieces_upto(line, i as int),
        decreases splits@.len() - 1 - i,
    {
        let start = if splits[i] <= len {
            splits[i]
        } else {
            len
        };
        let stop = if splits[i + 1] < start {
            start
        } else if splits[i + 1] <= len {
            splits[i + 1]
        } else {
            len
        };
        let k = i / 2;
        let mut style = PieceStyle::Text;
        let mut hint_text: Option<String> = None;
        if i % 2 == 0 && k < arg_hints.len() {
            style = match arg_hints[k].0 {
                ArgType::Executable => PieceStyle::Executable,
                ArgType::Path => PieceStyle::Path,
                ArgType::Text => PieceStyle::Text,
            };
            if from == to && start <= from && from <= stop {
                let hint = &arg_hints[k].1;
                let typed = from - start;
                let disregard = hint.disregard();
                if let Some(m) = hint.last_closest_match() {
                    let chars = to_chars(m.as_str());
                    if disregard <= typed && typed - disregard <= chars.len() {
                        let rest = from_chars(chars.as_slice(), typed - disregard, chars.len());
                        hint_text = Some(rest);
                    }
                }
            }
        }
        match hint_text {
            Some(rest) => {
                pieces.push(Piece { style, highlighted: false, text: from_chars(content, start, from) });
                pieces.push(Piece { style: PieceStyle::Hint, highlighted: false, text: rest });
                pieces.push(Piece { style, highlighted: false, text: from_chars(content, from, stop) });
            },
            None => {
                let a = if from < start {
                    start
                } else if from > stop {
                    stop
                } else {
                    from
                };
                let b = if to < a {
                    a
                } else if to > stop {
                    stop
                } else {
                    to
                };
                pieces.push(Piece { style, highlighted: false, text: from_chars(content, start, a) });
                pieces.push(Piece { style, highlighted: true, text: from_chars(content, a, b) });
                pieces.push(Piece { style, highlighted: false, text: from_chars(content, b, stop) });
            },
        }
        i += 1;
    }
    pieces
}

} // verus!
