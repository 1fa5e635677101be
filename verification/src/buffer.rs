use vstd::prelude::*;
use crate::enums::ArgType;
use crate::hints::executables::{make_executables_hint, update_executables_hint};
use crate::hints::filesystem::{
    directory_hint_made, directory_hint_updated, located, make_directory_hints, target_view,
    update_directory_hints, Target,
};
use crate::hints::{closest_match_of, empty_hint, opt_view, Disregard, Hint, HintView};
use crate::history::HistoryEntry;
use crate::parser::{
    classification, grammar_slots_from, next_spec, slots_of, start_state, Argument,
    ArgumentIterator, ArgumentParser, Slot,
};
use crate::state::ProgramState;
use crate::utils::{from_chars, to_chars};
use crate::utils::paths::{last_segment_start, path_string, resolve};

verus! {

/// How many characters the line can hold.
pub const BUFFER_LENGTH: usize = 8192;

/// An offset into the line, counted in characters.
pub type BufferPosition = usize;

/// A direction along the line.
#[derive(Debug, Clone, Copy, PartialEq, Eq, Structural)]
pub enum Side {
    Left,
    Right,
    Neither,
}

#[derive(Debug)]
pub enum CursorType {
    Main,
    Secondary,
}

/// A place in the line. The main cursor is the caret; the secondary one
/// is the other end of a selection while it is active.
#[derive(Debug, Clone, Copy, PartialEq, Eq, Structural)]
pub struct Cursor {
    pub position: BufferPosition,
    pub active: bool,
}

impl Cursor {
    pub fn new(position: usize, active: bool) -> (r: Self)
        ensures
            r == (Cursor { position, active }),
    {
        Self { position, active }
    }

    pub fn position(&self) -> (r: BufferPosition)
        ensures
            r == self.position,
    {
        self.position
    }

    pub fn active(&self) -> (r: bool)
        ensures
            r == self.active,
    {
        self.active
    }
}

/// The line that is being typed: its characters, the two cursors, its
/// arguments as they were last told apart, and the hint kept for each.
#[derive(Debug)]
pub struct InputBuffer {
    buffer: Vec<char>,
    main_cursor: Cursor,
    secondary_cursor: Cursor,
    /// Where the arguments begin and end: argument `k` spans
    /// `split_locs[2 * k] .. split_locs[2 * k + 1]`.
    split_locs: Vec<BufferPosition>,
    quote_locs: Vec<BufferPosition>,
    argument_hints: Vec<(ArgType, Hint)>,
    curr_arg: usize,
}

/// The views of the hints with their kinds.
pub open spec fn hint_views(hints: Seq<(ArgType, Hint)>) -> Seq<(ArgType, HintView)> {
    Seq::new(hints.len(), |i: int| (hints[i].0, hints[i].1@))
}

/// A table of spans holds whole pairs of a start and a stop, no offset in
/// it is smaller than one before it, and each span stops before the next
/// one starts.
pub open spec fn spans_ordered(splits: Seq<usize>) -> bool {
    &&& splits.len() % 2 == 0
    &&& forall|i: int, j: int| 0 <= i <= j < splits.len() ==> splits[i] <= splits[j]
    &&& forall|k: int| 0 <= k && 2 * k + 2 < splits.len() ==> splits[2 * k + 1] < #[trigger] splits[2 * k + 2]
}

/// Whether a quotation is open behind the first `n` characters of `s`:
/// whether an odd number of them are quote characters.
pub open spec fn in_quotes(s: Seq<char>, n: int) -> bool
    decreases n,
{
    if n <= 0 {
        false
    } else if s[n - 1] == '"' {
        !in_quotes(s, n - 1)
    } else {
        in_quotes(s, n - 1)
    }
}

/// Whether the character at `i` parts two arguments: a space outside of
/// quotes.
pub open spec fn is_split(s: Seq<char>, i: int) -> bool {
    0 <= i < s.len() && s[i] == ' ' && !in_quotes(s, i)
}

/// Where the argument that is open behind the first `n` characters of `s`
/// starts: just behind the last split among them, or at 0.
pub open spec fn open_span_start(s: Seq<char>, n: int) -> int
    decreases n,
{
    if n <= 0 {
        0
    } else if is_split(s, n - 1) {
        n
    } else {
        open_span_start(s, n - 1)
    }
}

/// The spans of the arguments that a split among the first `n` characters
/// of `s` has closed, each as its start and its stop.
pub open spec fn closed_spans(s: Seq<char>, n: int) -> Seq<usize>
    decreases n,
{
    if n <= 0 {
        Seq::empty()
    } else if is_split(s, n - 1) {
        closed_spans(s, n - 1).push(open_span_start(s, n - 1) as usize).push((n - 1) as usize)
    } else {
        closed_spans(s, n - 1)
    }
}

/// The table of the spans of `s`. An empty line has no argument; any
/// other line has one more argument than it has splits, the last of them
/// reaching to the end of the line.
pub open spec fn span_table(s: Seq<char>) -> Seq<usize> {
    if s.len() == 0 {
        Seq::empty()
    } else {
        closed_spans(s, s.len() as int).push(open_span_start(s, s.len() as int) as usize).push(
            s.len() as usize,
        )
    }
}

/// Where the quote characters among the first `n` characters of `s` stand.
pub open spec fn quote_positions(s: Seq<char>, n: int) -> Seq<usize>
    decreases n,
{
    if n <= 0 {
        Seq::empty()
    } else if s[n - 1] == '"' {
        quote_positions(s, n - 1).push((n - 1) as usize)
    } else {
        quote_positions(s, n - 1)
    }
}

/// How many of the first `n` characters of `s` are splits.
pub open spec fn splits_before(s: Seq<char>, n: int) -> nat
    decreases n,
{
    if n <= 0 {
        0
    } else if is_split(s, n - 1) {
        splits_before(s, n - 1) + 1
    } else {
        splits_before(s, n - 1)
    }
}

/// The spans that the first `n` characters of a line close are in order,
/// two for each split, and the last of them stops just before the open
/// argument starts.
pub proof fn lemma_closed_spans(s: Seq<char>, n: int)
    requires
        0 <= n <= s.len() <= usize::MAX,
    ensures
        spans_ordered(closed_spans(s, n)),
        closed_spans(s, n).len() == 2 * splits_before(s, n),
        splits_before(s, n) <= n,
        0 <= open_span_start(s, n) <= n,
        closed_spans(s, n).len() > 0 ==> closed_spans(s, n).last() + 1 == open_span_start(s, n),
        closed_spans(s, n).len() > 0 ==> closed_spans(s, n)[0] == 0,
        closed_spans(s, n).len() == 0 ==> open_span_start(s, n) == 0,
    decreases n,
{
    if n > 0 {
        lemma_closed_spans(s, n - 1);
    }
}

/// The spans that the first `n` characters of a line close stop at the
/// splits among them, at each of them once, and each but the first starts
/// just behind the stop of the span before it.
pub proof fn lemma_spans_stop_at_splits(s: Seq<char>, n: int)
    requires
        0 <= n <= s.len() <= usize::MAX,
    ensures
        forall|k: int|
            0 <= k && 2 * k + 1 < closed_spans(s, n).len() ==> is_split(
                s,
                #[trigger] closed_spans(s, n)[2 * k + 1] as int,
            ) && closed_spans(s, n)[2 * k + 1] < n,
        forall|i: int|
            0 <= i < n && is_split(s, i) ==> exists|k: int|
                0 <= k && 2 * k + 1 < closed_spans(s, n).len() && #[trigger] closed_spans(s, n)[2 * k + 1]
                    == i,
        forall|k: int|
            0 < k && 2 * k < closed_spans(s, n).len() ==> #[trigger] closed_spans(s, n)[2 * k]
                == closed_spans(s, n)[2 * k - 1] + 1,
    decreases n,
{
    if n > 0 {
        lemma_spans_stop_at_splits(s, n - 1);
        lemma_closed_spans(s, n - 1);
        let before = closed_spans(s, n - 1);
        let table = closed_spans(s, n);
        if is_split(s, n - 1) {
            let m = before.len() as int / 2;
            assert(table[2 * m + 1] == n - 1);
            assert forall|i: int| 0 <= i < n && is_split(s, i) implies exists|k: int|
                0 <= k && 2 * k + 1 < table.len() && #[trigger] table[2 * k + 1] == i by {
                if i < n - 1 {
                    let k = choose|k: int| 0 <= k && 2 * k + 1 < before.len() && #[trigger] before[2 * k + 1] == i;
                    assert(table[2 * k + 1] == i);
                }
            }
            assert forall|k: int| 0 <= k && 2 * k + 1 < table.len() implies is_split(
                s,
                #[trigger] table[2 * k + 1] as int,
            ) && table[2 * k + 1] < n by {
                if 2 * k + 1 < before.len() {
                    assert(table[2 * k + 1] == before[2 * k + 1]);
                }
            }
            assert forall|k: int| 0 < k && 2 * k < table.len() implies #[trigger] table[2 * k] == table[2 * k
                - 1] + 1 by {
                if 2 * k < before.len() {
                    assert(table[2 * k] == before[2 * k]);
                    assert(table[2 * k - 1] == before[2 * k - 1]);
                } else {
                    assert(table[2 * k - 1] == before.last());
                }
            }
        }
    }
}

/// The table of spans of any line is in order. It starts at 0 and ends
/// with the line, and the line has one more argument than it has splits.
pub proof fn lemma_span_table_ordered(s: Seq<char>)
    requires
        s.len() <= usize::MAX,
    ensures
        spans_ordered(span_table(s)),
        forall|i: int| 0 <= i < span_table(s).len() ==> span_table(s)[i] <= s.len(),
        s.len() > 0 ==> span_table(s)[0] == 0 && span_table(s).last() == s.len(),
        s.len() > 0 ==> span_table(s).len() == 2 * (splits_before(s, s.len() as int) + 1),
        s.len() == 0 ==> span_table(s).len() == 0,
{
    let n = s.len() as int;
    if n > 0 {
        lemma_closed_spans(s, n);
        let before = closed_spans(s, n);
        let table = span_table(s);
    }
}

/// Whether the offset at `index` of the table is the one closest to `pos`,
/// lying on the side `side` of it. `Neither` is for a position that is on
/// an offset of the table, of which the first is taken, and for an empty
/// table, with index 0. Otherwise the closest offset is the last one
/// before `pos` or the first one behind it, whichever is nearer, and the
/// one behind it where both are as near.
pub open spec fn is_closest_split(splits: Seq<usize>, pos: usize, index: int, side: Side) -> bool {
    match side {
        Side::Neither => {
            ||| splits.len() == 0 && index == 0
            ||| {
                &&& 0 <= index < splits.len()
                &&& splits[index] == pos
                &&& forall|j: int| 0 <= j < index ==> splits[j] != pos
            }
        },
        Side::Left => {
            &&& 0 <= index < splits.len()
            &&& splits[index] < pos
            &&& index + 1 < splits.len() ==> {
                &&& splits[index + 1] > pos
                &&& pos - splits[index] < splits[index + 1] - pos
            }
        },
        Side::Right => {
            &&& 0 <= index < splits.len()
            &&& splits[index] > pos
            &&& index > 0 ==> {
                &&& splits[index - 1] < pos
                &&& splits[index] - pos <= pos - splits[index - 1]
            }
        },
    }
}

/// In a table that is in order, only one index and side are closest to a
/// position.
pub proof fn lemma_closest_split_unique(
    splits: Seq<usize>,
    pos: usize,
    index1: int,
    side1: Side,
    index2: int,
    side2: Side,
)
    requires
        spans_ordered(splits),
        is_closest_split(splits, pos, index1, side1),
        is_closest_split(splits, pos, index2, side2),
    ensures
        index1 == index2,
        side1 == side2,
{
}

/// The greatest offset of the table that lies before `pos`, or 0 where
/// none does.
pub open spec fn nearest_below(splits: Seq<usize>, pos: int) -> int
    decreases splits.len(),
{
    if splits.len() == 0 {
        0
    } else {
        let rest = nearest_below(splits.drop_last(), pos);
        if rest < splits.last() < pos {
            splits.last() as int
        } else {
            rest
        }
    }
}

/// The least offset of the table that lies behind `pos` and before
/// `limit`, or `limit` where none does.
pub open spec fn nearest_above(splits: Seq<usize>, pos: int, limit: int) -> int
    decreases splits.len(),
{
    if splits.len() == 0 {
        limit
    } else {
        let rest = nearest_above(splits.drop_last(), pos, limit);
        if pos < splits.last() < rest {
            splits.last() as int
        } else {
            rest
        }
    }
}

/// `nearest_below` is 0 or an offset of the table before `pos`, and no
/// offset of the table lies between it and `pos`.
pub proof fn lemma_nearest_below(splits: Seq<usize>, pos: int)
    ensures
        nearest_below(splits, pos) == 0 || (nearest_below(splits, pos) < pos && splits.contains(
            nearest_below(splits, pos) as usize,
        )),
        forall|i: int| 0 <= i < splits.len() && splits[i] < pos ==> splits[i] <= nearest_below(splits, pos),
    decreases splits.len(),
{
    if splits.len() > 0 {
        let head = splits.drop_last();
        lemma_nearest_below(head, pos);
        let rest = nearest_below(head, pos);
        if rest != 0 && !(rest < splits.last() < pos) {
            let i = choose|i: int| 0 <= i < head.len() && head[i] == rest as usize;
        }
        assert forall|i: int| 0 <= i < splits.len() && splits[i] < pos implies splits[i] <= nearest_below(
            splits,
            pos,
        ) by {
            if i < head.len() {
                assert(head[i] == splits[i]);
            }
        }
    }
}

/// `nearest_above` is `limit` or an offset of the table behind `pos` and
/// before `limit`, and no offset of the table lies between `pos` and it.
pub proof fn lemma_nearest_above(splits: Seq<usize>, pos: int, limit: int)
    ensures
        nearest_above(splits, pos, limit) == limit || (pos < nearest_above(splits, pos, limit) < limit
            && splits.contains(nearest_above(splits, pos, limit) as usize)),
        forall|i: int|
            0 <= i < splits.len() && splits[i] > pos ==> nearest_above(splits, pos, limit) <= splits[i],
    decreases splits.len(),
{
    if splits.len() > 0 {
        let head = splits.drop_last();
        lemma_nearest_above(head, pos, limit);
        let rest = nearest_above(head, pos, limit);
        if rest != limit && !(pos < splits.last() < rest) {
            let i = choose|i: int| 0 <= i < head.len() && head[i] == rest as usize;
        }
        assert forall|i: int| 0 <= i < splits.len() && splits[i] > pos implies nearest_above(
            splits,
            pos,
            limit,
        ) <= splits[i] by {
            if i < head.len() {
                assert(head[i] == splits[i]);
            }
        }
    }
}

/// The entry at `i` of a table of hints, if it has one.
pub open spec fn entry_at(hints: Seq<(ArgType, HintView)>, i: int) -> Option<(ArgType, HintView)> {
    if 0 <= i < hints.len() {
        Some(hints[i])
    } else {
        None
    }
}

/// Whether `entry` is an entry of the kind `kind`.
pub open spec fn has_kind(entry: Option<(ArgType, HintView)>, kind: ArgType) -> bool {
    match entry {
        Some((k, _)) => k == kind,
        None => false,
    }
}

/// The hint of an entry; of no entry, the hint that offers nothing.
pub open spec fn hint_of(entry: Option<(ArgType, HintView)>) -> HintView {
    match entry {
        Some((_, hint)) => hint,
        None => empty_hint(),
    }
}

/// `entry` is what the table of hints owes the argument `token` that the
/// slot `slot` is for, where the table held `before` for it. An entry of
/// the same kind is brought up to date: for an executable the closest
/// match is refreshed, for a path the hint follows the directory that the
/// token names now, and for text nothing changes. In place of no entry,
/// or of one of another kind, stands a fresh hint: for an executable it
/// offers `executables`, for a path the entries of the directory that the
/// token names, and for text nothing.
pub open spec fn entry_refreshed<D: Fn(&String) -> bool, L: Fn(&String) -> Vec<String>>(
    is_dir: &D,
    list_dir: &L,
    cwd: Seq<char>,
    executables: Seq<Seq<char>>,
    before: Option<(ArgType, HintView)>,
    slot: Slot,
    token: Seq<char>,
    entry: (ArgType, HintView),
) -> bool {
    let kept = has_kind(before, slot.kind);
    let held = hint_of(before);
    &&& entry.0 == slot.kind
    &&& match slot.kind {
        ArgType::Text => entry.1 == if kept {
            held
        } else {
            empty_hint()
        },
        ArgType::Executable => entry.1 == if kept {
            HintView { last_closest_match: closest_match_of(held.selection, held.inlay, token), ..held }
        } else {
            HintView {
                selection: executables,
                last_closest_match: closest_match_of(executables, None, token),
                ..empty_hint()
            }
        },
        ArgType::Path => exists|target: Target| #[trigger]
            located(is_dir, cwd, token, target) && if kept {
                directory_hint_updated(list_dir, target, held, entry.1)
            } else {
                directory_hint_made(list_dir, target, slot.inlay, entry.1)
            },
    }
}

/// `after` is the table of hints `before` brought up to date for the
/// arguments `tokens`, whose slots are `slots`: the table has one entry
/// for each argument, which is the entry that the argument is owed.
pub open spec fn hints_refreshed<D: Fn(&String) -> bool, L: Fn(&String) -> Vec<String>>(
    is_dir: &D,
    list_dir: &L,
    cwd: Seq<char>,
    executables: Seq<Seq<char>>,
    before: Seq<(ArgType, HintView)>,
    slots: Seq<Slot>,
    tokens: Seq<Seq<char>>,
    after: Seq<(ArgType, HintView)>,
) -> bool {
    &&& after.len() == tokens.len()
    &&& forall|i: int|
        0 <= i < tokens.len() ==> entry_refreshed(
            is_dir,
            list_dir,
            cwd,
            executables,
            entry_at(before, i),
            slots[i],
            tokens[i],
            #[trigger] after[i],
        )
}

/// What an `InputBuffer` holds, as mathematical values.
pub ghost struct BufferView {
    pub content: Seq<char>,
    pub main_cursor: Cursor,
    pub secondary_cursor: Cursor,
    pub splits: Seq<usize>,
    pub quotes: Seq<usize>,
    pub hints: Seq<(ArgType, HintView)>,
    pub curr_arg: nat,
}

impl BufferView {
    /// The line fits its capacity, the caret is active and inside the
    /// line, so is the other end of a selection, and the table of spans is
    /// in order.
    pub open spec fn wf(self) -> bool {
        &&& self.content.len() <= BUFFER_LENGTH
        &&& self.main_cursor.active
        &&& self.main_cursor.position <= self.content.len()
        &&& self.secondary_cursor.active ==> self.secondary_cursor.position <= self.content.len()
        &&& spans_ordered(self.splits)
    }

    /// The selection, first its smaller end: the range between the two
    /// cursors, or the empty range at the caret while the secondary cursor
    /// is not active.
    pub open spec fn cursor_range(self) -> (BufferPosition, BufferPosition) {
        if self.secondary_cursor.active {
            if self.secondary_cursor.position < self.main_cursor.position {
                (self.secondary_cursor.position, self.main_cursor.position)
            } else {
                (self.main_cursor.position, self.secondary_cursor.position)
            }
        } else {
            (self.main_cursor.position, self.main_cursor.position)
        }
    }

    /// The line with the caret moved to `p`, or to its end where `p` lies
    /// behind it.
    pub open spec fn with_main(self, p: BufferPosition) -> BufferView {
        BufferView {
            main_cursor: Cursor {
                position: if p <= self.content.len() {
                    p
                } else {
                    self.content.len() as usize
                },
                ..self.main_cursor
            },
            ..self
        }
    }

    /// The line with the secondary cursor moved to `p`, or to its end
    /// where `p` lies behind it, and made active or not.
    pub open spec fn with_secondary(self, p: BufferPosition, active: bool) -> BufferView {
        BufferView {
            secondary_cursor: Cursor {
                position: if p <= self.content.len() {
                    p
                } else {
                    self.content.len() as usize
                },
                active,
            },
            ..self
        }
    }

    /// The line after `s` was typed at the caret: `s` stands before what
    /// was at and behind the caret, and the caret behind `s`. A line that
    /// would outgrow its capacity stays as it is.
    pub open spec fn insert_str(self, s: Seq<char>) -> BufferView {
        if self.content.len() + s.len() > BUFFER_LENGTH {
            self
        } else {
            let at = self.main_cursor.position as int;
            BufferView {
                content: self.content.subrange(0, at) + s + self.content.subrange(
                    at,
                    self.content.len() as int,
                ),
                main_cursor: Cursor { position: (at + s.len()) as usize, ..self.main_cursor },
                ..self
            }
        }
    }

    /// The line after the selection was deleted: the caret stands where
    /// the selection began, and the selection is given up.
    pub open spec fn delete_between(self) -> BufferView {
        let (start, stop) = self.cursor_range();
        BufferView {
            content: self.content.subrange(0, start as int) + self.content.subrange(
                stop as int,
                self.content.len() as int,
            ),
            main_cursor: Cursor { position: start, ..self.main_cursor },
            secondary_cursor: Cursor { active: false, ..self.secondary_cursor },
            ..self
        }
    }

    /// The empty line: no characters, spans, quotes or hints, the caret at
    /// the start and no selection.
    pub open spec fn clear_all(self) -> BufferView {
        BufferView {
            content: Seq::empty(),
            main_cursor: Cursor { position: 0, ..self.main_cursor },
            secondary_cursor: Cursor { active: false, ..self.secondary_cursor },
            splits: Seq::empty(),
            quotes: Seq::empty(),
            hints: Seq::empty(),
            ..self
        }
    }

    /// The line after its arguments were told apart anew: the table of
    /// spans and the places of the quote characters are those of the
    /// characters it holds now, and the current argument is the one that
    /// the caret stands in or at the end of, which is as many arguments in
    /// as there are splits before the caret.
    pub open spec fn retokenize(self) -> BufferView {
        BufferView {
            splits: span_table(self.content),
            quotes: quote_positions(self.content, self.content.len() as int),
            curr_arg: splits_before(self.content, self.main_cursor.position as int),
            ..self
        }
    }

    /// Where a jump from `pos` to the left or to the right ends: at the
    /// nearest offset of the table of spans that lies on that side of
    /// `pos`, and at the start or the end of the line where there is
    /// none. It never ends behind the line.
    pub open spec fn jump_target(self, side: Side, pos: BufferPosition) -> int
        recommends
            side != Side::Neither,
    {
        let len = self.content.len() as int;
        if side == Side::Left {
            if nearest_below(self.splits, pos as int) <= len {
                nearest_below(self.splits, pos as int)
            } else {
                len
            }
        } else {
            nearest_above(self.splits, pos as int, len)
        }
    }

    /// Where a move by `n` characters from `pos` to the left or to the
    /// right ends: not before the start of the line to the left, not
    /// behind its end to the right.
    pub open spec fn move_target(self, side: Side, n: BufferPosition, pos: BufferPosition) -> int
        recommends
            side != Side::Neither,
    {
        if side == Side::Left {
            if pos >= n {
                pos - n
            } else {
                0
            }
        } else {
            if pos + n <= self.content.len() {
                pos + n
            } else {
                self.content.len() as int
            }
        }
    }

    /// The line with a selection from the caret to `target`, unless it
    /// has a selection that is not empty.
    pub open spec fn select_to(self, target: int) -> BufferView {
        if !self.secondary_cursor.active || self.secondary_cursor == self.main_cursor {
            BufferView { secondary_cursor: Cursor { position: target as usize, active: true }, ..self }
        } else {
            self
        }
    }

    /// The line after `command` was brought back from the history: it
    /// holds `command`, with the caret at its end and no selection. A
    /// command that the line cannot hold leaves it as it is.
    pub open spec fn load(self, command: Seq<char>) -> BufferView {
        if command.len() > BUFFER_LENGTH {
            self
        } else {
            BufferView {
                content: command,
                main_cursor: Cursor { position: command.len() as usize, ..self.main_cursor },
                secondary_cursor: Cursor { active: false, ..self.secondary_cursor },
                ..self
            }
        }
    }

    /// The index of the entry that stands for the current argument: the
    /// current argument itself, or the last one that is both an argument
    /// and has a hint, where the current argument lies behind that.
    pub open spec fn curr_hint_index(self) -> int
        recommends
            self.num_args() > 0,
            self.hints.len() > 0,
    {
        let last_arg = self.num_args() - 1;
        let last_hint = self.hints.len() - 1;
        let last = if last_arg <= last_hint {
            last_arg
        } else {
            last_hint
        };
        if self.curr_arg <= last {
            self.curr_arg as int
        } else {
            last
        }
    }

    /// How many arguments the table of spans holds.
    pub open spec fn num_args(self) -> nat {
        self.splits.len() / 2
    }

    /// The text of argument `k` by the table of spans. Where the line has
    /// become shorter than the table knows, the text ends with the line.
    pub open spec fn arg_text(self, k: int) -> Seq<char> {
        let len = self.content.len() as int;
        let start = if self.splits[2 * k] <= len {
            self.splits[2 * k] as int
        } else {
            len
        };
        let stop = if self.splits[2 * k + 1] <= len {
            self.splits[2 * k + 1] as int
        } else {
            len
        };
        self.content.subrange(start, stop)
    }

    /// The texts of all arguments.
    pub open spec fn tokens(self) -> Seq<Seq<char>> {
        Seq::new(self.num_args(), |k: int| self.arg_text(k))
    }
}

/// Typing `s` at the caret and then deleting the range that `s` stands in
/// leaves the characters of the line and the caret as they were. This is
/// so wherever the line has room for `s`.
pub proof fn lemma_insert_then_delete(line: BufferView, s: Seq<char>)
    requires
        line.wf(),
        line.content.len() + s.len() <= BUFFER_LENGTH,
    ensures
        line.insert_str(s).wf(),
        line.insert_str(s).with_secondary(line.main_cursor.position, true).delete_between().content
            == line.content,
        line.insert_str(s).with_secondary(line.main_cursor.position, true).delete_between().main_cursor
            == line.main_cursor,
{
    let at = line.main_cursor.position as int;
}

/// Typing `s` at the caret of a line without a selection and then
/// deleting as many characters to the left as `s` has leaves the
/// characters of the line and the caret as they were. This is so wherever
/// the line has room for `s`.
pub proof fn lemma_insert_then_del_n(line: BufferView, s: Seq<char>)
    requires
        line.wf(),
        !line.secondary_cursor.active,
        line.content.len() + s.len() <= BUFFER_LENGTH,
    ensures
        ({
            let typed = line.insert_str(s);
            let target = typed.move_target(Side::Left, s.len() as usize, typed.main_cursor.position);
            &&& typed.select_to(target).delete_between().content == line.content
            &&& typed.select_to(target).delete_between().main_cursor == line.main_cursor
        }),
{
}

/// After a line was emptied, telling its arguments apart finds none, and
/// the current argument is the first.
pub proof fn lemma_clear_then_update(line: BufferView)
    ensures
        line.clear_all().retokenize().num_args() == 0,
        line.clear_all().retokenize().splits.len() == 0,
        line.clear_all().retokenize().curr_arg == 0,
        line.clear_all().retokenize().content.len() == 0,
{
}

impl View for InputBuffer {
    type V = BufferView;

    closed spec fn view(&self) -> BufferView {
        BufferView {
            content: self.buffer@,
            main_cursor: self.main_cursor,
            secondary_cursor: self.secondary_cursor,
            splits: self.split_locs@,
            quotes: self.quote_locs@,
            hints: hint_views(self.argument_hints@),
            curr_arg: self.curr_arg as nat,
        }
    }
}

impl InputBuffer {
    /// An empty line.
    pub fn init() -> (r: Self)
        ensures
            r@.wf(),
            r@ == (BufferView {
                content: Seq::empty(),
                main_cursor: Cursor { position: 0, active: true },
                secondary_cursor: Cursor { position: 0, active: false },
                splits: Seq::empty(),
                quotes: Seq::empty(),
                hints: Seq::empty(),
                curr_arg: 0,
            }),
    {
        let r = Self {
            buffer: Vec::new(),
            main_cursor: Cursor::new(0, true),
            secondary_cursor: Cursor::new(0, false),
            split_locs: Vec::new(),
            quote_locs: Vec::new(),
            argument_hints: Vec::new(),
            curr_arg: 0,
        };
        assert(r@.hints =~= Seq::empty());
        r
    }

    /// The characters of the line.
    pub fn get_buffer(&self) -> (r: &[char])
        ensures
            r@ == self@.content,
    {
        self.buffer.as_slice()
    }

    /// The characters of the line, to change them in place.
    pub fn get_buffer_mut(&mut self) -> (r: &mut [char])
        requires
            old(self)@.wf(),
        ensures
            r@ == old(self)@.content,
            final(self)@ == (BufferView { content: final(r)@, ..old(self)@ }),
            final(r)@.len() == r@.len() ==> final(self)@.wf(),
    {
        self.buffer.as_mut_slice()
    }

    /// The characters from `start` up to `stop`, as a string.
    pub fn get_buffer_str(&self, range: (BufferPosition, BufferPosition)) -> (r: String)
        requires
            range.0 <= range.1 <= self@.content.len(),
        ensures
            r@ == self@.content.subrange(range.0 as int, range.1 as int),
    {
        from_chars(self.buffer.as_slice(), range.0, range.1)
    }

    /// The characters from `start` up to `stop`.
    pub fn get_buffer_range(&self, start: BufferPosition, stop: BufferPosition) -> (r: &[char])
        requires
            start <= stop <= self@.content.len(),
        ensures
            r@ == self@.content.subrange(start as int, stop as int),
    {
        vstd::slice::slice_subrange(self.buffer.as_slice(), start, stop)
    }

    /// Where the quote characters of the line stand, as last looked up.
    pub fn get_quotes(&self) -> (r: &[BufferPosition])
        ensures
            r@ == self@.quotes,
    {
        self.quote_locs.as_slice()
    }

    /// The kind and the hint of each argument.
    pub fn get_argument_hints(&self) -> (r: &[(ArgType, Hint)])
        ensures
            hint_views(r@) == self@.hints,
    {
        self.argument_hints.as_slice()
    }

    /// The table of spans.
    pub fn get_splits(&self) -> (r: &[BufferPosition])
        ensures
            r@ == self@.splits,
    {
        self.split_locs.as_slice()
    }

    /// The index of the argument that the caret stood in when the
    /// arguments were last told apart.
    pub fn get_curr_arg(&self) -> (r: usize)
        ensures
            r == self@.curr_arg,
    {
        self.curr_arg
    }

    /// How many characters the line holds.
    pub fn len(&self) -> (r: usize)
        ensures
            r == self@.content.len(),
    {
        self.buffer.len()
    }

    pub fn num_args(&self) -> (r: usize)
        ensures
            r == self@.num_args(),
    {
        self.split_locs.len() / 2
    }

    /// Where argument `arg_i` starts and stops.
    pub fn arg_locs(&self, arg_i: usize) -> (r: (BufferPosition, BufferPosition))
        requires
            arg_i < self@.num_args(),
        ensures
            r == (self@.splits[2 * arg_i], self@.splits[2 * arg_i + 1]),
    {
        let _ = self.split_locs.len();
        let start = self.split_locs[arg_i * 2];
        let stop = self.split_locs[arg_i * 2 + 1];
        (start, stop)
    }

    /// Where each argument starts and stops, in order.
    pub fn arg_locs_iterator(&self) -> (r: Vec<(BufferPosition, BufferPosition)>)
        ensures
            r@.len() == self@.num_args(),
            forall|k: int|
                0 <= k < r@.len() ==> #[trigger] r@[k] == (self@.splits[2 * k], self@.splits[2 * k + 1]),
    {
        let mut r: Vec<(BufferPosition, BufferPosition)> = Vec::new();
        let n = self.num_args();
        let mut k: usize = 0;
        while k < n
            invariant
                k <= n,
                n == self@.num_args(),
                r@.len() == k,
                forall|j: int|
                    0 <= j < k ==> #[trigger] r@[j] == (self@.splits[2 * j], self@.splits[2 * j + 1]),
            decreases n - k,
        {
            r.push(self.arg_locs(k));
            k += 1;
        }
        r
    }

    pub fn main_cur(&self) -> (r: &Cursor)
        ensures
            *r == self@.main_cursor,
    {
        &self.main_cursor
    }

    pub fn sec_cur(&self) -> (r: &Cursor)
        ensures
            *r == self@.secondary_cursor,
    {
        &self.secondary_cursor
    }

    /// Moves the caret to `p`, or to the end of the line where `p` lies
    /// behind it.
    pub fn main_cur_set(&mut self, p: BufferPosition)
        requires
            old(self)@.wf(),
        ensures
            final(self)@.wf(),
            final(self)@ == old(self)@.with_main(p),
    {
        self.main_cursor.position = if p <= self.buffer.len() {
            p
        } else {
            self.buffer.len()
        };
    }

    /// Moves the secondary cursor to `p`, or to the end of the line where
    /// `p` lies behind it, and sets whether it is active.
    pub fn sec_cur_set(&mut self, p: BufferPosition, active: bool)
        requires
            old(self)@.wf(),
        ensures
            final(self)@.wf(),
            final(self)@ == old(self)@.with_secondary(p, active),
    {
        self.secondary_cursor.position = if p <= self.buffer.len() {
            p
        } else {
            self.buffer.len()
        };
        self.secondary_cursor.active = active;
    }

    /// Starts a selection at the caret, unless there is one.
    pub fn enable_sec_cur_if_not_active(&mut self)
        requires
            old(self)@.wf(),
        ensures
            final(self)@.wf(),
            final(self)@ == (if old(self)@.secondary_cursor.active {
                old(self)@
            } else {
                BufferView {
                    secondary_cursor: Cursor { position: old(self)@.main_cursor.position, active: true },
                    ..old(self)@
                }
            }),
    {
        if !self.secondary_cursor.active {
            self.secondary_cursor.active = true;
            self.secondary_cursor.position = self.main_cursor.position;
        }
    }

    /// Gives the selection up.
    pub fn unset_secondary_cursor(&mut self)
        requires
            old(self)@.wf(),
        ensures
            final(self)@.wf(),
            final(self)@ == (BufferView {
                secondary_cursor: Cursor { active: false, ..old(self)@.secondary_cursor },
                ..old(self)@
            }),
    {
        self.secondary_cursor.active = false;
    }

    /// The selection, first its smaller end.
    pub fn cursor_range(&self) -> (r: (BufferPosition, BufferPosition))
        ensures
            r == self@.cursor_range(),
    {
        if self.secondary_cursor.active {
            if self.secondary_cursor.position < self.main_cursor.position {
                (self.secondary_cursor.position, self.main_cursor.position)
            } else {
                (self.main_cursor.position, self.secondary_cursor.position)
            }
        } else {
            (self.main_cursor.position, self.main_cursor.position)
        }
    }

    /// Types `c` at the caret. A full line stays as it is.
    pub fn insert_char_main_cursor(&mut self, c: char)
        requires
            old(self)@.wf(),
        ensures
            final(self)@.wf(),
            final(self)@ == old(self)@.insert_str(seq![c]),
    {
        if self.buffer.len() == BUFFER_LENGTH {
            return ;
        }
        self.buffer.insert(self.main_cursor.position, c);
        self.main_cursor.position += 1;
        assert(self@.content =~= old(self)@.insert_str(seq![c]).content);
    }

    /// Types `s` at the caret. Where the line cannot take all of `s`, it
    /// takes none of it.
    pub fn insert_str_main_cursor(&mut self, s: &str)
        requires
            old(self)@.wf(),
        ensures
            final(self)@.wf(),
            final(self)@ == old(self)@.insert_str(s@),
    {
        let chars = to_chars(s);
        let n = chars.len();
        let len = self.buffer.len();
        if n > BUFFER_LENGTH - len {
            return ;
        }
        let at = self.main_cursor.position;
        let ghost before = self.buffer@;
        // Make room at the end of the line.
        let mut k: usize = 0;
        while k < n
            invariant
                k <= n,
                self.buffer@.len() == len + k,
                len + n <= BUFFER_LENGTH,
                before.len() == len,
                forall|j: int| 0 <= j < len ==> self.buffer@[j] == before[j],
                self@ == (BufferView { content: self.buffer@, ..old(self)@ }),
            decreases n - k,
        {
            self.buffer.push(' ');
            k += 1;
        }
        // Move what stands at and behind the caret to the right.
        let mut i: usize = len;
        while i > at
            invariant
                at <= i <= len,
                before.len() == len,
                len + n <= BUFFER_LENGTH,
                self.buffer@.len() == len + n,
                forall|j: int| 0 <= j < i ==> self.buffer@[j] == before[j],
                forall|j: int| i <= j < len ==> self.buffer@[j + n] == before[j],
                self@ == (BufferView { content: self.buffer@, ..old(self)@ }),
            decreases i,
        {
            i -= 1;
            let moved = self.buffer[i];
            self.buffer.set(i + n, moved);
        }
        let mut k: usize = 0;
        while k < n
            invariant
                k <= n,
                n == chars@.len(),
                at <= len,
                before.len() == len,
                len + n <= BUFFER_LENGTH,
                self.buffer@.len() == len + n,
                forall|j: int| 0 <= j < at ==> self.buffer@[j] == before[j],
                forall|j: int| at <= j < len ==> self.buffer@[j + n] == before[j],
                forall|j: int| 0 <= j < k ==> self.buffer@[at + j] == chars@[j],
                self@ == (BufferView { content: self.buffer@, ..old(self)@ }),
            decreases n - k,
        {
            self.buffer.set(at + k, chars[k]);
            k += 1;
        }
        self.main_cursor.position += n;
        assert(self@.content =~= old(self)@.insert_str(s@).content);
    }

    /// Deletes the selection; without one, nothing is deleted.
    pub fn del_betw_curs(&mut self)
        requires
            old(self)@.wf(),
        ensures
            final(self)@.wf(),
            final(self)@ == old(self)@.delete_between(),
    {
        let (start, stop) = self.cursor_range();
        let len = self.buffer.len();
        let ghost before = self.buffer@;
        let mut i: usize = stop;
        while i < len
            invariant
                start <= stop <= i <= len,
                before.len() == len,
                self.buffer@.len() == len,
                forall|j: int| 0 <= j < start ==> self.buffer@[j] == before[j],
                forall|j: int| stop <= j < i ==> self.buffer@[j - stop + start] == before[j],
                forall|j: int| i <= j < len ==> self.buffer@[j] == before[j],
                self@ == (BufferView { content: self.buffer@, ..old(self)@ }),
            decreases len - i,
        {
            let moved = self.buffer[i];
            self.buffer.set(i - stop + start, moved);
            i += 1;
        }
        self.buffer.truncate(len - (stop - start));
        self.main_cursor.position = start;
        self.secondary_cursor.active = false;
        assert(self@.content =~= old(self)@.delete_between().content);
    }

    /// Tells the arguments of the line apart anew, in one pass over its
    /// characters.
    pub fn update(&mut self)
        requires
            old(self)@.wf(),
        ensures
            final(self)@.wf(),
            final(self)@ == old(self)@.retokenize(),
    {
        self.split_locs.clear();
        self.quote_locs.clear();
        self.curr_arg = 0;
        let mut in_quote = false;
        let mut last_split: usize = 0;
        let len = self.buffer.len();
        let caret = self.main_cursor.position;
        let ghost content = self.buffer@;
        let mut i: usize = 0;
        while i < len
            invariant
                i <= len == content.len() <= BUFFER_LENGTH,
                caret <= len,
                self.buffer@ == content,
                in_quote == in_quotes(content, i as int),
                last_split == open_span_start(content, i as int),
                last_split <= i,
                self.split_locs@ == closed_spans(content, i as int),
                self.quote_locs@ == quote_positions(content, i as int),
                self.curr_arg == splits_before(content, if i < caret { i as int } else { caret as int }),
                self.curr_arg <= i,
                self@ == (BufferView {
                    splits: self.split_locs@,
                    quotes: self.quote_locs@,
                    curr_arg: self.curr_arg as nat,
                    ..old(self)@
                }),
            decreases len - i,
        {
            let c = self.buffer[i];
            if c == '"' {
                in_quote = !in_quote;
                self.quote_locs.push(i);
            } else if c == ' ' && !in_quote {
                if i < caret {
                    self.curr_arg += 1;
                }
                self.split_locs.push(last_split);
                self.split_locs.push(i);
                last_split = i + 1;
            }
            i += 1;
        }
        if len > 0 {
            self.split_locs.push(last_split);
            self.split_locs.push(len);
        }
        proof {
            lemma_span_table_ordered(content);
        }
    }

    /// The offset of the table of spans that is closest to `pos`, as its
    /// index in the table, and the side of `pos` that it lies on.
    pub fn closest_split(&self, pos: BufferPosition) -> (r: (usize, Side))
        requires
            self@.wf(),
        ensures
            is_closest_split(self@.splits, pos, r.0 as int, r.1),
    {
        let n = self.split_locs.len();
        if n == 0 {
            return (0, Side::Neither);
        }
        let mut pos_gt: usize = 0;
        while pos_gt < n && self.split_locs[pos_gt] < pos
            invariant
                pos_gt <= n == self.split_locs@.len(),
                forall|j: int| 0 <= j < pos_gt ==> self.split_locs@[j] < pos,
            decreases n - pos_gt,
        {
            pos_gt += 1;
        }
        if pos_gt < n && self.split_locs[pos_gt] == pos {
            return (pos_gt, Side::Neither);
        }
        if pos_gt == 0 {
            return (0, Side::Right);
        }
        if pos_gt == n {
            return (n - 1, Side::Left);
        }
        let prev_dist = pos - self.split_locs[pos_gt - 1];
        let curr_dist = self.split_locs[pos_gt] - pos;
        if curr_dist <= prev_dist {
            (pos_gt, Side::Right)
        } else {
            (pos_gt - 1, Side::Left)
        }
    }

    /// Where a jump of `cursor` over a word to the left or to the right
    /// ends.
    pub fn jump(&self, side: Side, cursor: &Cursor) -> (r: BufferPosition)
        requires
            self@.wf(),
            cursor.active,
            side != Side::Neither,
        ensures
            r == self@.jump_target(side, cursor.position),
            r <= self@.content.len(),
    {
        let pos = cursor.position;
        let len = self.buffer.len();
        let n = self.split_locs.len();
        match side {
            Side::Left => {
                let mut r: usize = 0;
                let mut k: usize = 0;
                while k < n
                    invariant
                        k <= n == self.split_locs@.len(),
                        r == nearest_below(self.split_locs@.take(k as int), pos as int),
                    decreases n - k,
                {
                    assert(self.split_locs@.take(k + 1).drop_last() =~= self.split_locs@.take(k as int));
                    let b = self.split_locs[k];
                    if r < b && b < pos {
                        r = b;
                    }
                    k += 1;
                }
                assert(self.split_locs@.take(n as int) =~= self.split_locs@);
                if r <= len {
                    r
                } else {
                    len
                }
            },
            Side::Right => {
                let mut r: usize = len;
                let mut k: usize = 0;
                while k < n
                    invariant
                        k <= n == self.split_locs@.len(),
                        r <= len,
                        r == nearest_above(self.split_locs@.take(k as int), pos as int, len as int),
                    decreases n - k,
                {
                    assert(self.split_locs@.take(k + 1).drop_last() =~= self.split_locs@.take(k as int));
                    let b = self.split_locs[k];
                    if pos < b && b < r {
                        r = b;
                    }
                    k += 1;
                }
                assert(self.split_locs@.take(n as int) =~= self.split_locs@);
                r
            },
            Side::Neither => vstd::pervasive::unreached(),
        }
    }

    /// Where a move of `cursor` by `n` characters to the left or to the
    /// right ends.
    pub fn move_n(&self, side: Side, n: BufferPosition, cursor: &Cursor) -> (r: BufferPosition)
        requires
            self@.wf(),
            cursor.active,
            side != Side::Neither,
        ensures
            r == self@.move_target(side, n, cursor.position),
    {
        let pos = cursor.position;
        let len = self.buffer.len();
        match side {
            Side::Left => {
                if pos >= n {
                    pos - n
                } else {
                    0
                }
            },
            Side::Right => {
                if pos <= len && n <= len - pos {
                    pos + n
                } else {
                    len
                }
            },
            Side::Neither => vstd::pervasive::unreached(),
        }
    }

    /// Deletes the selection. Where there is none, or an empty one, the
    /// word from the caret to the left or to the right is deleted.
    pub fn del_jump(&mut self, side: Side)
        requires
            old(self)@.wf(),
            side != Side::Neither,
        ensures
            final(self)@.wf(),
            final(self)@ == old(self)@.select_to(
                old(self)@.jump_target(side, old(self)@.main_cursor.position),
            ).delete_between(),
    {
        if !self.secondary_cursor.active || self.secondary_cursor == self.main_cursor {
            let caret = self.main_cursor;
            let new_pos = self.jump(side, &caret);
            self.secondary_cursor.active = true;
            self.secondary_cursor.position = new_pos;
        }
        self.del_betw_curs();
    }

    /// Deletes the selection. Where there is none, or an empty one, the
    /// `n` characters from the caret to the left or to the right are
    /// deleted.
    pub fn del_n(&mut self, side: Side, n: BufferPosition)
        requires
            old(self)@.wf(),
            side != Side::Neither,
        ensures
            final(self)@.wf(),
            final(self)@ == old(self)@.select_to(
                old(self)@.move_target(side, n, old(self)@.main_cursor.position),
            ).delete_between(),
    {
        if !self.secondary_cursor.active || self.secondary_cursor == self.main_cursor {
            let caret = self.main_cursor;
            let new_pos = self.move_n(side, n, &caret);
            self.secondary_cursor.active = true;
            self.secondary_cursor.position = new_pos;
        }
        self.del_betw_curs();
    }

    /// Forces the closest match of the hint of argument `arg`; where the
    /// table of hints has no such entry, nothing changes.
    pub fn set_closest_match_on_hint(&mut self, arg: usize, s: String)
        requires
            old(self)@.wf(),
        ensures
            final(self)@.wf(),
            final(self)@ == (if arg < old(self)@.hints.len() {
                BufferView {
                    hints: old(self)@.hints.update(
                        arg as int,
                        (
                            old(self)@.hints[arg as int].0,
                            HintView { last_closest_match: Some(s@), ..old(self)@.hints[arg as int].1 },
                        ),
                    ),
                    ..old(self)@
                }
            } else {
                old(self)@
            }),
    {
        if arg < self.argument_hints.len() {
            self.argument_hints[arg].1.set_closest_match(s);
            assert(self@.hints =~= old(self)@.hints.update(
                arg as int,
                (
                    old(self)@.hints[arg as int].0,
                    HintView { last_closest_match: Some(s@), ..old(self)@.hints[arg as int].1 },
                ),
            ));
        }
    }

    /// The text of argument `k`, as the table of spans tells it.
    pub fn arg_text(&self, k: usize) -> (r: String)
        requires
            self@.wf(),
            k < self@.num_args(),
        ensures
            r@ == self@.arg_text(k as int),
    {
        let (start, stop) = self.arg_locs(k);
        let len = self.buffer.len();
        let start = if start <= len {
            start
        } else {
            len
        };
        let stop = if stop <= len {
            stop
        } else {
            len
        };
        from_chars(self.buffer.as_slice(), start, stop)
    }

    /// Whether the table of hints has no entry of the kind `target` at `i`.
    fn out_of_range_or_different(&self, i: usize, target: ArgType) -> (r: bool)
        ensures
            r == !has_kind(entry_at(self@.hints, i as int), target),
    {
        if i >= self.argument_hints.len() {
            true
        } else {
            self.argument_hints[i].0 != target
        }
    }

    /// Puts `val` in place of the entry at `i`, or behind the last entry
    /// where `i` is no entry.
    fn push_or_replace(&mut self, i: usize, val: (ArgType, Hint))
        ensures
            final(self)@ == (BufferView {
                hints: if i < old(self)@.hints.len() {
                    old(self)@.hints.update(i as int, (val.0, val.1@))
                } else {
                    old(self)@.hints.push((val.0, val.1@))
                },
                ..old(self)@
            }),
    {
        let ghost entry = (val.0, val.1@);
        if i < self.argument_hints.len() {
            self.argument_hints[i] = val;
            assert(self@.hints =~= old(self)@.hints.update(i as int, entry));
        } else {
            self.argument_hints.push(val);
            assert(self@.hints =~= old(self)@.hints.push(entry));
        }
    }

    /// The text of the argument that is being typed, and its hint; `None`
    /// while the line has no argument or no hint.
    pub fn get_curr_hint_safe(&self) -> (r: Option<(String, &Hint)>)
        requires
            self@.wf(),
        ensures
            r is Some <==> self@.num_args() > 0 && self@.hints.len() > 0,
            match r {
                Some((arg, hint)) => {
                    &&& arg@ == self@.arg_text(self@.curr_hint_index())
                    &&& hint@ == self@.hints[self@.curr_hint_index()].1
                },
                None => true,
            },
    {
        let num_args = self.num_args();
        let num_hints = self.argument_hints.len();
        if num_args != 0 && num_hints != 0 {
            let mut curr_arg = self.get_curr_arg();
            if curr_arg >= num_args {
                curr_arg = num_args - 1;
            }
            if curr_arg >= num_hints {
                curr_arg = num_hints - 1;
            }
            let arg = self.arg_text(curr_arg);
            let hint = &self.argument_hints[curr_arg].1;
            Some((arg, hint))
        } else {
            None
        }
    }

    /// Where the candidates for the path argument `s`, typed in the
    /// directory `cwd`, come from.
    pub fn arg_to_path<D: Fn(&String) -> bool>(s: &str, cwd: &str, is_dir: &D) -> (r: Option<
        (String, Disregard, String),
    >)
        requires
            forall|p: &String| #[trigger] is_dir.requires((p,)),
        ensures
            located(is_dir, cwd@, s@, target_view(r)),
    {
        let typed = to_chars(s);
        let disregard = last_segment_start(typed.as_slice());
        let (absolute, parts) = resolve(to_chars(cwd).as_slice(), typed.as_slice());
        let count = parts.len();
        let dirs = parts.as_slice();
        assert(parts.deep_view().take(count as int) =~= parts.deep_view());
        let full = path_string(absolute, dirs, count);
        if is_dir(&full) {
            let partial = from_chars(typed.as_slice(), disregard, typed.len());
            return Some((full, disregard, partial));
        }
        if count > 0 {
            let parent = path_string(absolute, dirs, count - 1);
            if is_dir(&parent) {
                let partial = from_chars(typed.as_slice(), disregard, typed.len());
                return Some((parent, disregard, partial));
            }
        }
        None
    }

    /// Gives argument `ind` an entry of the kind `arg_type` in the table
    /// of hints, or brings the one it has up to date.
    fn process_hint<D: Fn(&String) -> bool, L: Fn(&String) -> Vec<String>>(
        &mut self,
        ind: usize,
        arg_type: ArgType,
        inlay: Option<String>,
        program_state: &ProgramState,
        is_dir: &D,
        list_dir: &L,
    )
        requires
            old(self)@.wf(),
            ind < old(self)@.num_args(),
            ind <= old(self)@.hints.len(),
            forall|p: &String| #[trigger] is_dir.requires((p,)),
            forall|p: &String| #[trigger] list_dir.requires((p,)),
        ensures
            final(self)@.wf(),
            final(self)@ == (BufferView { hints: final(self)@.hints, ..old(self)@ }),
            final(self)@.hints.len() == if ind < old(self)@.hints.len() {
                old(self)@.hints.len()
            } else {
                (ind + 1) as nat
            },
            forall|j: int|
                0 <= j < old(self)@.hints.len() && j != ind ==> final(self)@.hints[j] == old(self)@.hints[j],
            entry_refreshed(
                is_dir,
                list_dir,
                program_state.current_working_directory@,
                program_state.executables.deep_view(),
                entry_at(old(self)@.hints, ind as int),
                Slot { kind: arg_type, inlay: opt_view(inlay) },
                old(self)@.arg_text(ind as int),
                final(self)@.hints[ind as int],
            ),
    {
        let arg = self.arg_text(ind);
        let executables = program_state.executables.as_slice();
        if self.out_of_range_or_different(ind, arg_type) {
            let hint = match arg_type {
                ArgType::Executable => make_executables_hint(executables, arg.as_str()),
                ArgType::Path => {
                    let target = Self::arg_to_path(
                        arg.as_str(),
                        program_state.current_working_directory.as_str(),
                        is_dir,
                    );
                    let hint = make_directory_hints(target, inlay, list_dir);
                    hint
                },
                ArgType::Text => Hint::default(),
            };
            self.push_or_replace(ind, (arg_type, hint));
        } else {
            if arg_type == ArgType::Path {
                let target = Self::arg_to_path(
                    arg.as_str(),
                    program_state.current_working_directory.as_str(),
                    is_dir,
                );
                update_directory_hints(&target, &mut self.argument_hints[ind].1, list_dir);
            } else if arg_type == ArgType::Executable {
                update_executables_hint(arg.as_str(), &mut self.argument_hints[ind].1);
            }
        }
    }

    /// Drops the entries of the table of hints behind the first `n`.
    fn truncate_hints(&mut self, n: usize)
        requires
            n <= old(self)@.hints.len(),
        ensures
            final(self)@ == (BufferView { hints: old(self)@.hints.take(n as int), ..old(self)@ }),
    {
        self.argument_hints.truncate(n);
        assert(self@.hints =~= old(self)@.hints.take(n as int));
    }

    /// Brings the table of hints up to date with the arguments of the
    /// line: each argument is classified, by the description that
    /// `arg_parser` holds or without one, and gets the entry that it is
    /// owed; entries that no argument is left for are dropped. `is_dir`
    /// and `list_dir` stand for the file system.
    pub fn update_arguments<D: Fn(&String) -> bool, L: Fn(&String) -> Vec<String>>(
        &mut self,
        arg_parser: &ArgumentParser,
        program_state: &ProgramState,
        is_dir: &D,
        list_dir: &L,
    )
        requires
            old(self)@.wf(),
            forall|p: &String| #[trigger] is_dir.requires((p,)),
            forall|p: &String| #[trigger] list_dir.requires((p,)),
        ensures
            final(self)@.wf(),
            final(self)@ == (BufferView { hints: final(self)@.hints, ..old(self)@ }),
            hints_refreshed(
                is_dir,
                list_dir,
                program_state.current_working_directory@,
                program_state.executables.deep_view(),
                old(self)@.hints,
                classification(arg_parser@, old(self)@.tokens()),
                old(self)@.tokens(),
                final(self)@.hints,
            ),
    {
        let num_args = self.num_args();
        let ghost tokens = self@.tokens();
        let ghost before = self@.hints;
        let ghost cwd = program_state.current_working_directory@;
        let ghost executables = program_state.executables.deep_view();
        if !arg_parser.has_command() {
            let ghost slots = classification(arg_parser@, tokens);
            let mut i: usize = 0;
            while i < num_args
                invariant
                    i <= num_args == tokens.len(),
                    self@.wf(),
                    self@ == (BufferView { hints: self@.hints, ..old(self)@ }),
                    tokens == old(self)@.tokens(),
                    before == old(self)@.hints,
                    cwd == program_state.current_working_directory@,
                    executables == program_state.executables.deep_view(),
                    slots == classification(arg_parser@, tokens),
                    !arg_parser@.has_command,
                    forall|p: &String| #[trigger] is_dir.requires((p,)),
                    forall|p: &String| #[trigger] list_dir.requires((p,)),
                    self@.hints.len() == if before.len() >= i {
                        before.len()
                    } else {
                        i as nat
                    },
                    forall|j: int|
                        0 <= j < i ==> entry_refreshed(
                            is_dir,
                            list_dir,
                            cwd,
                            executables,
                            entry_at(before, j),
                            slots[j],
                            tokens[j],
                            #[trigger] self@.hints[j],
                        ),
                    forall|j: int| i <= j < before.len() ==> #[trigger] self@.hints[j] == before[j],
                decreases num_args - i,
            {
                let kind = if i == 0 {
                    ArgType::Executable
                } else {
                    ArgType::Path
                };
                self.process_hint(i, kind, None, program_state, is_dir, list_dir);
                i += 1;
            }
            self.truncate_hints(num_args);
            return ;
        }
        let mut args: Vec<String> = Vec::new();
        let mut k: usize = 0;
        while k < num_args
            invariant
                k <= num_args == tokens.len(),
                self@.wf(),
                self@ == old(self)@,
                tokens == self@.tokens(),
                args@.len() == k,
                forall|j: int| 0 <= j < k ==> args@[j]@ == tokens[j],
            decreases num_args - k,
        {
            args.push(self.arg_text(k));
            k += 1;
        }
        let cmd = arg_parser.cmd();
        let mut iter = ArgumentIterator::new(arg_parser);
        iter.reinit(args);
        let ghost slots = grammar_slots_from(cmd@, tokens, start_state());
        let ghost mut done: Seq<Slot> = Seq::empty();
        let mut i: usize = 0;
        while i < num_args
            invariant
                i <= num_args == tokens.len(),
                self@.wf(),
                self@ == (BufferView { hints: self@.hints, ..old(self)@ }),
                tokens == old(self)@.tokens(),
                before == old(self)@.hints,
                cwd == program_state.current_working_directory@,
                executables == program_state.executables.deep_view(),
                cmd@ == arg_parser@.cmd,
                cmd@.args.len() <= usize::MAX,
                cmd@.flags.len() <= usize::MAX,
                cmd@.arg_flags.len() <= usize::MAX,
                iter.wf(),
                iter@.cmd == cmd@,
                iter@.args == tokens,
                iter@.state.arg_ind == i,
                done.len() == i,
                slots == done + grammar_slots_from(cmd@, tokens, iter@.state),
                forall|p: &String| #[trigger] is_dir.requires((p,)),
                forall|p: &String| #[trigger] list_dir.requires((p,)),
                self@.hints.len() == if before.len() >= i {
                    before.len()
                } else {
                    i as nat
                },
                forall|j: int|
                    0 <= j < i ==> entry_refreshed(
                        is_dir,
                        list_dir,
                        cwd,
                        executables,
                        entry_at(before, j),
                        done[j],
                        tokens[j],
                        #[trigger] self@.hints[j],
                    ),
                forall|j: int| i <= j < before.len() ==> #[trigger] self@.hints[j] == before[j],
            decreases num_args - i,
        {
            let ghost state = iter@.state;
            let ghost (argument, next) = next_spec(cmd@, tokens, state).unwrap();
            let ghost step = slots_of(cmd@, argument, i == 0, i + 1 < num_args);
            proof {
                crate::parser::lemma_next_in_tables(cmd@, tokens, state);
            }
            match iter.next() {
                None => {},
                Some(arg) => {
                    if i == 0 {
                        self.process_hint(i, ArgType::Executable, None, program_state, is_dir, list_dir);
                    } else {
                        match arg {
                            Argument::Other => {
                                self.process_hint(i, ArgType::Text, None, program_state, is_dir, list_dir);
                            },
                            Argument::Flag(_) => {
                                self.process_hint(i, ArgType::Text, None, program_state, is_dir, list_dir);
                            },
                            Argument::Arg(k) => {
                                let slot = &cmd.args[k];
                                self.process_hint(
                                    i,
                                    slot.arg_type,
                                    Some(slot.arg_hint.clone()),
                                    program_state,
                                    is_dir,
                                    list_dir,
                                );
                            },
                            Argument::ArgFlag(k) => {
                                self.process_hint(i, ArgType::Text, None, program_state, is_dir, list_dir);
                                if i + 1 < num_args {
                                    i += 1;
                                    let pair = &cmd.arg_flags[k];
                                    self.process_hint(
                                        i,
                                        pair.arg_type,
                                        Some(pair.arg_hint.clone()),
                                        program_state,
                                        is_dir,
                                        list_dir,
                                    );
                                }
                            },
                        }
                    }
                    i += 1;
                },
            }
            proof {
                done = done + step;
            }
        }
        self.truncate_hints(num_args);
    }

    /// The text of the first argument.
    pub fn first_arg(&self) -> (r: Option<String>)
        requires
            self@.wf(),
        ensures
            opt_view(r) == if self@.num_args() > 0 {
                Some(self@.arg_text(0))
            } else {
                None
            },
    {
        if self.num_args() > 0 {
            Some(self.arg_text(0))
        } else {
            None
        }
    }

    /// Brings `older`, the next older line of the history, into the line;
    /// without one the line stays.
    pub fn history_older(&mut self, older: Option<&HistoryEntry>)
        requires
            old(self)@.wf(),
        ensures
            final(self)@.wf(),
            final(self)@ == (match older {
                Some(entry) => old(self)@.load(entry@.command),
                None => old(self)@,
            }),
    {
        if let Some(older) = older {
            self.load(older.command());
        }
    }

    /// Brings `newer`, the next newer line of the history, into the line;
    /// without one the line stays.
    pub fn history_newer(&mut self, newer: Option<&HistoryEntry>)
        requires
            old(self)@.wf(),
        ensures
            final(self)@.wf(),
            final(self)@ == (match newer {
                Some(entry) => old(self)@.load(entry@.command),
                None => old(self)@,
            }),
    {
        if let Some(newer) = newer {
            self.load(newer.command());
        }
    }

    /// The line as the history is to record it; nothing for an empty line.
    pub fn history_push_current(&self) -> (r: Option<String>)
        ensures
            opt_view(r) == if self@.content.len() == 0 {
                None
            } else {
                Some(self@.content)
            },
    {
        if self.len() == 0 {
            return None;
        }
        let cmd = from_chars(self.buffer.as_slice(), 0, self.buffer.len());
        Some(cmd)
    }

    /// Puts `command` in place of the line.
    fn load(&mut self, command: &str)
        requires
            old(self)@.wf(),
        ensures
            final(self)@.wf(),
            final(self)@ == old(self)@.load(command@),
    {
        let chars = to_chars(command);
        if chars.len() > BUFFER_LENGTH {
            return ;
        }
        self.main_cursor.position = chars.len();
        self.secondary_cursor.active = false;
        self.buffer = chars;
    }

    /// Empties the line and forgets its arguments and hints.
    pub fn clear_all(&mut self)
        requires
            old(self)@.wf(),
        ensures
            final(self)@.wf(),
            final(self)@ == old(self)@.clear_all(),
    {
        self.buffer.clear();
        self.quote_locs.clear();
        self.split_locs.clear();
        self.argument_hints.clear();
        self.main_cursor.position = 0;
        self.secondary_cursor.active = false;
        assert(self@.hints =~= Seq::empty());
    }
}

} // verus!
