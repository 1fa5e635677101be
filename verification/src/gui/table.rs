use vstd::prelude::*;
use crate::buffer::InputBuffer;
use crate::gui::{
    ceil_div, ceil_div_spec, current_matches, current_partial, current_selection, least, matching_indexes,
    monus, pred, ActionToExecute, ActionToTake, ActionType, TerminalXY,
};
use crate::input::InputEvent;

verus! {

/// A grid of the candidates for the current argument, shown below the
/// line.
#[derive(Debug)]
pub struct TableGUI {
    /// The column and the row of the field that is marked.
    cursor_pos: TerminalXY,
    /// How many rows of the grid lie above the first row that is shown.
    table_scroll: usize,
    /// How many candidates there were when the grid was last shown.
    prev_len: usize,
    /// How many columns and rows the grid has.
    grid_slots: TerminalXY,
    /// How many candidates come before the marked one.
    preceding_cur: usize,
    /// How many candidates come behind the marked one.
    succeeding_cur: usize,
    /// The indices of the candidates to show, field by field.
    hints_iterator: Vec<usize>,
}

pub ghost struct TableView {
    pub cursor_pos: TerminalXY,
    pub table_scroll: usize,
    pub prev_len: usize,
    pub grid_slots: TerminalXY,
    pub preceding_cur: usize,
    pub succeeding_cur: usize,
    pub hints_iterator: Seq<usize>,
}

impl View for TableGUI {
    type V = TableView;

    closed spec fn view(&self) -> TableView {
        TableView {
            cursor_pos: self.cursor_pos,
            table_scroll: self.table_scroll,
            prev_len: self.prev_len,
            grid_slots: self.grid_slots,
            preceding_cur: self.preceding_cur,
            succeeding_cur: self.succeeding_cur,
            hints_iterator: self.hints_iterator@,
        }
    }
}

/// The column of the last of `a` fields in rows of `n`; 0 where `n` is 0.
pub open spec fn mod_sub_1_spec(a: int, n: int) -> int {
    if n <= 0 {
        0
    } else if a % n == 0 {
        n - 1
    } else {
        a % n - 1
    }
}

/// The column of the last of `a` fields in rows of `n`; 0 where `n` is 0.
pub fn mod_sub_1(a: usize, n: usize) -> (r: usize)
    ensures
        r == mod_sub_1_spec(a as int, n as int),
{
    if n == 0 {
        return 0;
    }
    let r = a % n;
    if r == 0 {
        n - 1
    } else {
        r - 1
    }
}

impl TableView {
    /// One row up: the mark moves up; from the first row the grid scrolls
    /// up; from its very start it goes to its last row, where the mark
    /// stays within the fields that are filled.
    pub open spec fn arrow_up(self, cur_pos_last: TerminalXY, scroll_max: usize) -> TableView {
        if self.cursor_pos.1 > 0 {
            TableView { cursor_pos: (self.cursor_pos.0, (self.cursor_pos.1 - 1) as u16), ..self }
        } else if self.table_scroll > 0 {
            TableView { table_scroll: (self.table_scroll - 1) as usize, ..self }
        } else {
            TableView {
                cursor_pos: (least(self.cursor_pos.0 as int, cur_pos_last.0 as int) as u16, cur_pos_last.1),
                table_scroll: scroll_max,
                ..self
            }
        }
    }

    /// One row down. While the grid can scroll further, the mark moves
    /// down and the grid scrolls from its last row; on the scroll to the
    /// end the mark goes to the last field. At the end of the grid the
    /// mark moves down, stays within the fields that are filled on the
    /// last row, and goes from there to the very start.
    pub open spec fn arrow_down(self, cur_pos_last: TerminalXY, scroll_max: usize, scroll_is_max: bool) -> TableView {
        if !scroll_is_max {
            if self.cursor_pos.1 < cur_pos_last.1 {
                TableView { cursor_pos: (self.cursor_pos.0, (self.cursor_pos.1 + 1) as u16), ..self }
            } else if self.table_scroll == pred(scroll_max as int) {
                TableView {
                    table_scroll: least(self.table_scroll + 1, usize::MAX as int) as usize,
                    cursor_pos: (cur_pos_last.0, self.cursor_pos.1),
                    ..self
                }
            } else {
                TableView { table_scroll: least(self.table_scroll + 1, usize::MAX as int) as usize, ..self }
            }
        } else {
            if self.cursor_pos.1 == pred(cur_pos_last.1 as int) {
                TableView {
                    cursor_pos: (least(self.cursor_pos.0 as int, cur_pos_last.0 as int) as u16, cur_pos_last.1),
                    ..self
                }
            } else if self.cursor_pos.1 < cur_pos_last.1 {
                TableView { cursor_pos: (self.cursor_pos.0, (self.cursor_pos.1 + 1) as u16), ..self }
            } else {
                TableView { cursor_pos: (self.cursor_pos.0, 0), table_scroll: 0, ..self }
            }
        }
    }

    /// One column to the left; from the first column to the last one of
    /// the row that is filled.
    pub open spec fn arrow_left(self, cur_pos_last: TerminalXY, scroll_max: usize, grid_slots: TerminalXY) -> TableView {
        if self.cursor_pos.0 > 0 {
            TableView { cursor_pos: ((self.cursor_pos.0 - 1) as u16, self.cursor_pos.1), ..self }
        } else if self.table_scroll == scroll_max && cur_pos_last.1 == self.cursor_pos.1 {
            TableView { cursor_pos: (cur_pos_last.0, self.cursor_pos.1), ..self }
        } else {
            TableView { cursor_pos: (pred(grid_slots.0 as int) as u16, self.cursor_pos.1), ..self }
        }
    }

    /// One column to the right; from the last column of the row that is
    /// filled to the first one.
    pub open spec fn arrow_right(self, cur_pos_last: TerminalXY, scroll_max: usize, grid_slots: TerminalXY) -> TableView {
        if self.cursor_pos.0 == cur_pos_last.0 && self.table_scroll == scroll_max && cur_pos_last.1
            == self.cursor_pos.1 {
            TableView { cursor_pos: (0, self.cursor_pos.1), ..self }
        } else if self.cursor_pos.0 < pred(grid_slots.0 as int) {
            TableView { cursor_pos: ((self.cursor_pos.0 + 1) as u16, self.cursor_pos.1), ..self }
        } else {
            TableView { cursor_pos: (0, self.cursor_pos.1), ..self }
        }
    }

    /// The grid as it starts over where the number of candidates is not
    /// `num_hints` any more.
    pub open spec fn reset_for(self, num_hints: usize) -> TableView {
        if self.prev_len != num_hints {
            TableView { prev_len: num_hints, cursor_pos: (0, 0), table_scroll: 0, ..self }
        } else {
            self
        }
    }

    /// The grid after an arrow key; any other event leaves it as it is.
    pub open spec fn moved(
        self,
        event: InputEvent,
        cur_pos_last: TerminalXY,
        scroll_max: usize,
        grid_slots: TerminalXY,
    ) -> TableView {
        match event {
            InputEvent::ArrowUp => self.arrow_up(cur_pos_last, scroll_max),
            InputEvent::ArrowDown => self.arrow_down(cur_pos_last, scroll_max, self.table_scroll == scroll_max),
            InputEvent::ArrowLeft => self.arrow_left(cur_pos_last, scroll_max, grid_slots),
            InputEvent::ArrowRight => self.arrow_right(cur_pos_last, scroll_max, grid_slots),
            _ => self,
        }
    }
}

/// Whether an event is an arrow key.
pub open spec fn is_arrow(event: InputEvent) -> bool {
    event == InputEvent::ArrowUp || event == InputEvent::ArrowDown || event == InputEvent::ArrowLeft || event
        == InputEvent::ArrowRight
}

/// How many columns and rows the grid has: a column for every
/// `max_field_len` columns of the terminal, and a row for every row of
/// the terminal below the line `write_from_line`.
pub open spec fn grid_of(term_size: TerminalXY, write_from_line: u16, max_field_len: u16) -> TerminalXY {
    let from = least(write_from_line + 1, term_size.1 as int);
    (
        if max_field_len == 0 {
            0
        } else {
            (term_size.0 / max_field_len) as u16
        },
        (term_size.1 - from) as u16,
    )
}

/// How many fields of the grid are shown: all of them while the grid can
/// scroll further, the filled ones of the last page at its end, and never
/// more than there are candidates.
pub open spec fn fields_shown(num_hints: int, grid: TerminalXY, scroll_is_max: bool) -> int {
    let slots = grid.0 * grid.1;
    if num_hints < slots {
        num_hints
    } else if !scroll_is_max {
        slots
    } else if grid.0 == 0 {
        0
    } else {
        monus(slots, grid.0 - num_hints % (grid.0 as int))
    }
}

/// The remainder of `a * b` by `n`, which is not 0.
fn mul_mod(a: usize, b: u16, n: usize) -> (r: usize)
    requires
        n > 0,
    ensures
        r == (a * b) % (n as int),
{
    assert(a * b <= 0xffff_ffff_ffff_ffff * 0xffff) by (nonlinear_arith)
        requires
            a <= 0xffff_ffff_ffff_ffff,
            b <= 0xffff,
    {
    }
    let product: u128 = (a as u128) * (b as u128);
    (product % (n as u128)) as usize
}

/// The indices of the candidates that the fields show: field `x` shows
/// the candidate `x + offset` of those that match, counted around their
/// end.
pub open spec fn fields(indexes: Seq<usize>, count: int, offset: int) -> Seq<usize> {
    Seq::new(count as nat, |x: int| indexes[(x + offset) % (indexes.len() as int)])
}

impl TableGUI {
    pub fn init() -> (r: Self)
        ensures
            r@ == (TableView {
                cursor_pos: (0u16, 0u16),
                table_scroll: 0,
                prev_len: 0,
                grid_slots: (0u16, 0u16),
                preceding_cur: 0,
                succeeding_cur: 0,
                hints_iterator: Seq::empty(),
            }),
    {
        Self {
            cursor_pos: (0, 0),
            table_scroll: 0,
            prev_len: 0,
            hints_iterator: Vec::new(),
            grid_slots: (0, 0),
            preceding_cur: 0,
            succeeding_cur: 0,
        }
    }

    pub fn cursor_pos(&self) -> (r: TerminalXY)
        ensures
            r == self@.cursor_pos,
    {
        self.cursor_pos
    }

    pub fn grid_slots(&self) -> (r: TerminalXY)
        ensures
            r == self@.grid_slots,
    {
        self.grid_slots
    }

    pub fn preceding_cur(&self) -> (r: usize)
        ensures
            r == self@.preceding_cur,
    {
        self.preceding_cur
    }

    pub fn succeeding_cur(&self) -> (r: usize)
        ensures
            r == self@.succeeding_cur,
    {
        self.succeeding_cur
    }

    pub fn hints_iterator(&self) -> (r: &[usize])
        ensures
            r@ == self@.hints_iterator,
    {
        self.hints_iterator.as_slice()
    }

    fn arrow_up(&mut self, cur_pos_last: TerminalXY, scroll_max: usize) -> (r: bool)
        ensures
            r,
            final(self)@ == old(self)@.arrow_up(cur_pos_last, scroll_max),
    {
        if self.cursor_pos.1 > 0 {
            self.cursor_pos.1 -= 1;
        } else if self.table_scroll > 0 {
            self.table_scroll -= 1;
        } else {
            self.cursor_pos.1 = cur_pos_last.1;
            self.table_scroll = scroll_max;
            if self.cursor_pos.0 > cur_pos_last.0 {
                self.cursor_pos.0 = cur_pos_last.0;
            }
        }
        true
    }

    fn arrow_down(&mut self, cur_pos_last: TerminalXY, scroll_max: usize, scroll_is_max: bool) -> (r: bool)
        ensures
            r,
            final(self)@ == old(self)@.arrow_down(cur_pos_last, scroll_max, scroll_is_max),
    {
        let before_max = if scroll_max > 0 {
            scroll_max - 1
        } else {
            0
        };
        let next_scroll = if self.table_scroll < usize::MAX {
            self.table_scroll + 1
        } else {
            usize::MAX
        };
        let before_last = if cur_pos_last.1 > 0 {
            cur_pos_last.1 - 1
        } else {
            0
        };
        if !scroll_is_max {
            if self.cursor_pos.1 < cur_pos_last.1 {
                self.cursor_pos.1 += 1;
            } else if self.table_scroll == before_max {
                self.table_scroll = next_scroll;
                self.cursor_pos.0 = cur_pos_last.0;
            } else {
                self.table_scroll = next_scroll;
            }
        } else {
            if self.cursor_pos.1 == before_last {
                self.cursor_pos.1 = cur_pos_last.1;
                if self.cursor_pos.0 > cur_pos_last.0 {
                    self.cursor_pos.0 = cur_pos_last.0;
                }
            } else if self.cursor_pos.1 < cur_pos_last.1 {
                self.cursor_pos.1 += 1;
            } else {
                self.cursor_pos.1 = 0;
                self.table_scroll = 0;
            }
        }
        true
    }

    fn arrow_left(&mut self, cur_pos_last: TerminalXY, scroll_max: usize, grid_slots: TerminalXY) -> (r: bool)
        ensures
            r,
            final(self)@ == old(self)@.arrow_left(cur_pos_last, scroll_max, grid_slots),
    {
        if self.cursor_pos.0 > 0 {
            self.cursor_pos.0 -= 1;
        } else if self.table_scroll == scroll_max && cur_pos_last.1 == self.cursor_pos.1 {
            self.cursor_pos.0 = cur_pos_last.0;
        } else {
            self.cursor_pos.0 = if grid_slots.0 > 0 {
                grid_slots.0 - 1
            } else {
                0
            };
        }
        true
    }

    fn arrow_right(&mut self, cur_pos_last: TerminalXY, scroll_max: usize, grid_slots: TerminalXY) -> (r: bool)
        ensures
            r,
            final(self)@ == old(self)@.arrow_right(cur_pos_last, scroll_max, grid_slots),
    {
        let last_column = if grid_slots.0 > 0 {
            grid_slots.0 - 1
        } else {
            0
        };
        if self.cursor_pos.0 == cur_pos_last.0 && self.table_scroll == scroll_max && cur_pos_last.1
            == self.cursor_pos.1 {
            self.cursor_pos.0 = 0;
        } else if self.cursor_pos.0 < last_column {
            self.cursor_pos.0 += 1;
        } else {
            self.cursor_pos.0 = 0;
        }
        true
    }
}

/// The column and the row of the last field that `n` candidates fill
/// while the end of the grid is shown.
pub open spec fn last_field(n: int, grid: TerminalXY) -> TerminalXY {
    (
        mod_sub_1_spec(n, grid.0 as int) as u16,
        pred(least(ceil_div_spec(n, grid.0 as int), grid.1 as int)) as u16,
    )
}

/// How many rows of `n` candidates can lie above the grid.
pub open spec fn max_scroll(n: int, grid: TerminalXY) -> usize {
    monus(ceil_div_spec(n, grid.0 as int), grid.1 as int) as usize
}

/// Which of the matching candidates is marked, counted from the first.
pub open spec fn marked(state: TableView, grid: TerminalXY) -> int {
    (state.cursor_pos.1 + state.table_scroll) * grid.0 + state.cursor_pos.0
}

fn grid_for(term_size: TerminalXY, write_from_line: u16, max_field_len: u16) -> (r: TerminalXY)
    ensures
        r == grid_of(term_size, write_from_line, max_field_len),
{
    let write_table_from_line = if write_from_line < term_size.1 {
        write_from_line + 1
    } else {
        term_size.1
    };
    (
        if max_field_len == 0 {
            0
        } else {
            term_size.0 / max_field_len
        },
        term_size.1 - write_table_from_line,
    )
}

fn bounds_for(num_hints: usize, grid: TerminalXY) -> (r: (TerminalXY, usize))
    ensures
        r.0 == last_field(num_hints as int, grid),
        r.1 == max_scroll(num_hints as int, grid),
{
    let columns = grid.0 as usize;
    let rows = grid.1 as usize;
    let filled_rows = ceil_div(num_hints, columns);
    let last_row = if filled_rows <= rows {
        filled_rows
    } else {
        rows
    };
    let cur_pos_last: TerminalXY = (
        mod_sub_1(num_hints, columns) as u16,
        if last_row > 0 {
            (last_row - 1) as u16
        } else {
            0
        },
    );
    let scroll_max = if filled_rows >= rows {
        filled_rows - rows
    } else {
        0
    };
    (cur_pos_last, scroll_max)
}

fn count_shown(num_hints: usize, grid: TerminalXY, scroll_is_max: bool) -> (r: usize)
    ensures
        r == fields_shown(num_hints as int, grid, scroll_is_max),
        r > 0 ==> num_hints > 0,
{
    let columns = grid.0 as usize;
    let rows = grid.1 as usize;
    assert(columns * rows <= 0xffff * 0xffff) by (nonlinear_arith)
        requires
            columns <= 0xffff,
            rows <= 0xffff,
    {
    }
    let grid_num_slots: usize = columns * rows;
    if num_hints < grid_num_slots {
        num_hints
    } else if !scroll_is_max {
        grid_num_slots
    } else if columns == 0 {
        0
    } else {
        let unfilled = columns - num_hints % columns;
        if grid_num_slots >= unfilled {
            grid_num_slots - unfilled
        } else {
            0
        }
    }
}

fn collect_fields(hint_indexes: &[usize], count: usize, scroll: usize, columns: u16) -> (r: Vec<usize>)
    requires
        count > 0 ==> hint_indexes@.len() > 0,
    ensures
        r@ == fields(hint_indexes@, count as int, scroll * columns),
{
    let num_hints = hint_indexes.len();
    let mut shown_now: Vec<usize> = Vec::new();
    if num_hints > 0 {
        let offset = mul_mod(scroll, columns, num_hints);
        let mut x: usize = 0;
        while x < count
            invariant
                x <= count,
                0 < num_hints == hint_indexes@.len(),
                offset == (scroll * columns) % (num_hints as int),
                shown_now@.len() == x,
                forall|k: int|
                    0 <= k < x ==> #[trigger] shown_now@[k] == hint_indexes@[(k + scroll * columns) % (
                    num_hints as int)],
            decreases count - x,
        {
            let at = crate::gui::add_mod(x, offset, num_hints);
            proof {
                vstd::arithmetic::div_mod::lemma_add_mod_noop_right(
                    x as int,
                    scroll * columns,
                    num_hints as int,
                );
            }
            shown_now.push(hint_indexes[at]);
            x += 1;
        }
    }
    shown_now
}

/// Which candidate is marked, if it is one of the `num_hints` that match,
/// and how many come before it and behind it.
fn marked_for(cursor_pos: TerminalXY, table_scroll: usize, columns: u16, num_hints: usize) -> (r: (
    Option<usize>,
    usize,
    usize,
))
    ensures
        ({
            let ind = (cursor_pos.1 + table_scroll) * columns + cursor_pos.0;
            &&& r.0 == if ind < num_hints {
                Some(ind as usize)
            } else {
                None
            }
            &&& r.1 == least(ind, usize::MAX as int)
            &&& r.2 == pred(monus(num_hints as int, ind))
        }),
{
    assert((cursor_pos.1 + table_scroll) * columns <= (0xffff + 0xffff_ffff_ffff_ffff) * 0xffff)
        by (nonlinear_arith)
        requires
            cursor_pos.1 <= 0xffff,
            table_scroll <= 0xffff_ffff_ffff_ffff,
            columns <= 0xffff,
    {
    }
    let ind: u128 = (cursor_pos.1 as u128 + table_scroll as u128) * (columns as u128) + cursor_pos.0 as u128;
    let preceding = if ind <= usize::MAX as u128 {
        ind as usize
    } else {
        usize::MAX
    };
    if ind < num_hints as u128 {
        (Some(ind as usize), preceding, num_hints - ind as usize - 1)
    } else {
        (None, preceding, 0)
    }
}

impl TableGUI {
    /// Prepares the grid for the line as it is, and lets an arrow key
    /// move the mark. The grid starts over where the number of matching
    /// candidates has changed. After an arrow key the candidate under the
    /// mark is to become the closest match of the current argument; any
    /// other event is left to the line.
    pub fn action_before_write(
        &mut self,
        event: InputEvent,
        buffer: &InputBuffer,
        term_size: TerminalXY,
        write_from_line: u16,
        max_field_len: u16,
    ) -> (r: ActionToTake)
        requires
            buffer@.wf(),
        ensures
            ({
                let selection = current_selection(buffer@);
                let indexes = matching_indexes(selection, current_partial(buffer@), selection.len() as int);
                let n = indexes.len() as int;
                let grid = grid_of(term_size, write_from_line, max_field_len);
                let scroll_max = max_scroll(n, grid);
                let state = old(self)@.reset_for(n as usize).moved(
                    event,
                    last_field(n, grid),
                    scroll_max,
                    grid,
                );
                let count = fields_shown(n, grid, state.table_scroll == scroll_max);
                let ind = marked(state, grid);
                &&& final(self)@ == (TableView {
                    grid_slots: grid,
                    hints_iterator: fields(indexes, count, state.table_scroll * grid.0),
                    preceding_cur: least(ind, usize::MAX as int) as usize,
                    succeeding_cur: pred(monus(n, ind)) as usize,
                    ..state
                })
                &&& match r {
                    ActionToTake::WriteBuffer(ActionType::Other(ActionToExecute::SetClosestMatch(s))) => {
                        &&& is_arrow(event)
                        &&& ind < n
                        &&& s@ == selection[indexes[ind] as int]
                    },
                    ActionToTake::WriteBuffer(ActionType::Standard) => !(is_arrow(event) && ind < n),
                    _ => false,
                }
            }),
    {
        let grid_slots = grid_for(term_size, write_from_line, max_field_len);
        self.grid_slots = grid_slots;
        let (hint, hint_indexes, _disregard) = current_matches(buffer);
        let _ = hint.len();
        let ghost selection = current_selection(buffer@);
        proof {
            crate::gui::lemma_matching_indexes(selection, current_partial(buffer@), selection.len() as int);
        }
        let num_hints = hint_indexes.len();
        if self.prev_len != num_hints {
            self.prev_len = num_hints;
            self.cursor_pos = (0, 0);
            self.table_scroll = 0;
        }
        let (cur_pos_last, scroll_max) = bounds_for(num_hints, grid_slots);
        let scroll_is_max = self.table_scroll == scroll_max;
        let should_set_closest = match event {
            InputEvent::ArrowUp => self.arrow_up(cur_pos_last, scroll_max),
            InputEvent::ArrowDown => self.arrow_down(cur_pos_last, scroll_max, scroll_is_max),
            InputEvent::ArrowLeft => self.arrow_left(cur_pos_last, scroll_max, grid_slots),
            InputEvent::ArrowRight => self.arrow_right(cur_pos_last, scroll_max, grid_slots),
            _ => false,
        };
        let scroll_is_max = self.table_scroll == scroll_max;
        let upper = count_shown(num_hints, grid_slots, scroll_is_max);
        self.hints_iterator = collect_fields(hint_indexes.as_slice(), upper, self.table_scroll, grid_slots.0);
        let (ind, preceding, succeeding) = marked_for(
            self.cursor_pos,
            self.table_scroll,
            grid_slots.0,
            num_hints,
        );
        self.preceding_cur = preceding;
        self.succeeding_cur = succeeding;
        match ind {
            Some(ind) => {
                if should_set_closest {
                    let hint_ind = hint_indexes[ind];
                    let chosen = hint[hint_ind].clone();
                    return ActionToTake::WriteBuffer(
                        ActionType::Other(ActionToExecute::SetClosestMatch(chosen)),
                    );
                }
            },
            None => {},
        }
        ActionToTake::WriteBuffer(ActionType::Standard)
    }
}

} // verus!
