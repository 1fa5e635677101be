use vstd::prelude::*;
use crate::buffer::{BufferView, InputBuffer};
use crate::utils::{starts_with_chars, to_chars};

pub mod dropdown;
pub mod explorer;
pub mod table;
pub mod terminal;

verus! {

/// A place on the terminal, or its size: columns first, then rows.
pub type TerminalXY = (u16, u16);

/// The place of a cursor on the terminal.
pub type CursorPos = (u16, u16);

/// `a - 1`, or 0 for 0.
pub open spec fn pred(a: int) -> int {
    if a > 0 {
        a - 1
    } else {
        0
    }
}

/// The smaller of two numbers.
pub open spec fn least(a: int, b: int) -> int {
    if a <= b {
        a
    } else {
        b
    }
}

/// `a - b`, or 0 where `b` is greater.
pub open spec fn monus(a: int, b: int) -> int {
    if a >= b {
        a - b
    } else {
        0
    }
}

/// How many times `b` is needed to cover `a`; 0 where `b` is 0.
pub open spec fn ceil_div_spec(a: int, b: int) -> int {
    if b <= 0 {
        0
    } else if a % b == 0 {
        a / b
    } else {
        a / b + 1
    }
}

/// How many times `b` is needed to cover `a`; 0 where `b` is 0.
pub fn ceil_div(a: usize, b: usize) -> (r: usize)
    ensures
        r == ceil_div_spec(a as int, b as int),
{
    if b == 0 {
        0
    } else if a % b == 0 {
        a / b
    } else {
        assert(a / b < a) by (nonlinear_arith)
            requires
                a % b != 0,
                b > 0,
                a >= 0,
        {
        }
        a / b + 1
    }
}

/// The remainder of `a + b` by `n`, which is not 0.
pub fn add_mod(a: usize, b: usize, n: usize) -> (r: usize)
    requires
        n > 0,
    ensures
        r == (a + b) % (n as int),
{
    let x = a % n;
    let y = b % n;
    proof {
        vstd::arithmetic::div_mod::lemma_add_mod_noop(a as int, b as int, n as int);
    }
    if x < n - y {
        proof {
            vstd::arithmetic::div_mod::lemma_small_mod((x + y) as nat, n as nat);
        }
        x + y
    } else {
        proof {
            vstd::arithmetic::div_mod::lemma_mod_sub_multiples_vanish((x + y) as int, n as int);
            vstd::arithmetic::div_mod::lemma_small_mod((x + y - n) as nat, n as nat);
        }
        x - (n - y)
    }
}

/// The text of the current argument that takes part in matching, and the
/// candidates of its hint: what stands behind the disregard offset of the
/// hint, or nothing where the offset lies behind the text. Without a
/// current hint there is no text and no candidate.
pub open spec fn current_partial(line: BufferView) -> Seq<char> {
    if line.num_args() > 0 && line.hints.len() > 0 {
        let i = line.curr_hint_index();
        let arg = line.arg_text(i);
        let disregard = line.hints[i].1.disregard;
        if disregard <= arg.len() {
            arg.skip(disregard as int)
        } else {
            Seq::empty()
        }
    } else {
        Seq::empty()
    }
}

/// The candidates of the hint of the current argument.
pub open spec fn current_selection(line: BufferView) -> Seq<Seq<char>> {
    if line.num_args() > 0 && line.hints.len() > 0 {
        line.hints[line.curr_hint_index()].1.selection
    } else {
        Seq::empty()
    }
}

/// The disregard offset of the hint of the current argument.
pub open spec fn current_disregard(line: BufferView) -> nat {
    if line.num_args() > 0 && line.hints.len() > 0 {
        line.hints[line.curr_hint_index()].1.disregard
    } else {
        0
    }
}

/// The indices of those of the first `n` candidates that begin with
/// `partial`, in order.
pub open spec fn matching_indexes(selection: Seq<Seq<char>>, partial: Seq<char>, n: int) -> Seq<usize>
    decreases n,
{
    if n <= 0 {
        Seq::empty()
    } else if partial.is_prefix_of(selection[n - 1]) {
        matching_indexes(selection, partial, n - 1).push((n - 1) as usize)
    } else {
        matching_indexes(selection, partial, n - 1)
    }
}

/// The indices that `matching_indexes` gives are indices of candidates.
pub proof fn lemma_matching_indexes(selection: Seq<Seq<char>>, partial: Seq<char>, n: int)
    requires
        0 <= n <= selection.len() <= usize::MAX,
    ensures
        matching_indexes(selection, partial, n).len() <= n,
        forall|k: int|
            0 <= k < matching_indexes(selection, partial, n).len() ==> {
                &&& #[trigger] matching_indexes(selection, partial, n)[k] < n
                &&& partial.is_prefix_of(selection[matching_indexes(selection, partial, n)[k] as int])
            },
    decreases n,
{
    if n > 0 {
        lemma_matching_indexes(selection, partial, n - 1);
    }
}

/// The candidates of the hint of the current argument, the indices of
/// those among them that begin with what is typed of the argument, and
/// the disregard offset of the hint.
pub fn current_matches(buffer: &InputBuffer) -> (r: (&[String], Vec<usize>, usize))
    requires
        buffer@.wf(),
    ensures
        r.0.deep_view() == current_selection(buffer@),
        r.1@ == matching_indexes(
            current_selection(buffer@),
            current_partial(buffer@),
            current_selection(buffer@).len() as int,
        ),
        r.2 == current_disregard(buffer@),
{
    let empty: &[String] = &[];
    let mut indexes: Vec<usize> = Vec::new();
    match buffer.get_curr_hint_safe() {
        None => {
            (empty, indexes, 0)
        },
        Some((arg, hint)) => {
            let selection = hint.get_selection();
            let disregard = hint.disregard();
            let typed = to_chars(arg.as_str());
            let from = if disregard <= typed.len() {
                disregard
            } else {
                typed.len()
            };
            let partial = vstd::slice::slice_subrange(typed.as_slice(), from, typed.len());
            let ghost items = selection.deep_view();
            let mut i: usize = 0;
            while i < selection.len()
                invariant
                    i <= selection@.len(),
                    items == selection.deep_view(),
                    indexes@ == matching_indexes(items, partial@, i as int),
                decreases selection@.len() - i,
            {
                if starts_with_chars(selection[i].as_str(), partial) {
                    indexes.push(i);
                }
                i += 1;
            }
            (selection, indexes, disregard)
        },
    }
}

/// What a view makes of an event before the line sees it.
#[derive(Debug, PartialEq)]
pub enum ActionToTake {
    /// The view has taken the event; the line does not see it.
    BlockBuffer,
    WriteBuffer(ActionType),
}

#[derive(Debug, PartialEq)]
pub enum ActionType {
    /// The line handles the event as it would without a view.
    Standard,
    Other(ActionToExecute),
}

#[derive(Debug, PartialEq)]
pub enum ActionToExecute {
    /// Put this text in place of the line.
    SetBuffer(String),
    /// Make this text the closest match of the current argument.
    SetClosestMatch(String),
}

#[derive(Debug, Clone, Copy, PartialEq, Eq, Structural)]
pub enum AdditionalViewDraw {
    BeforeBuffer,
    AfterBuffer,
}

/// The views that can be shown below the line.
#[derive(Debug, Clone, Copy, PartialEq, Eq, Structural)]
pub enum ViewType {
    Table,
    Dropdown,
    Explorer,
}

} // verus!
