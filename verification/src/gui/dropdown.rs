use vstd::prelude::*;
use crate::buffer::InputBuffer;
use crate::gui::{
    add_mod, ceil_div, ceil_div_spec, current_disregard, current_matches, current_partial, current_selection,
    least, matching_indexes, pred, ActionToExecute, ActionToTake, ActionType, CursorPos, TerminalXY,
};
use crate::input::InputEvent;

verus! {

/// A list of the candidates for the current argument, shown below it.
#[derive(Debug)]
pub struct DropdownGUI {
    /// The row of the list that is marked.
    cursor_pos: usize,
    /// How many candidates lie above the first row.
    table_scroll: usize,
    /// How many candidates there were when the list was last shown.
    prev_len: usize,
    /// The indices of the candidates to show, row by row.
    hints_iterator: Vec<usize>,
    /// Where on the terminal the matched part of the argument starts.
    arg_start: CursorPos,
}

pub ghost struct DropdownView {
    pub cursor_pos: usize,
    pub table_scroll: usize,
    pub prev_len: usize,
    pub hints_iterator: Seq<usize>,
    pub arg_start: CursorPos,
}

impl View for DropdownGUI {
    type V = DropdownView;

    closed spec fn view(&self) -> DropdownView {
        DropdownView {
            cursor_pos: self.cursor_pos,
            table_scroll: self.table_scroll,
            prev_len: self.prev_len,
            hints_iterator: self.hints_iterator@,
            arg_start: self.arg_start,
        }
    }
}

impl DropdownView {
    /// One row up: the mark moves up; from the first row the list scrolls
    /// up; from its very start it goes to its end, which is the row
    /// `cur_max` with `scroll_max` candidates above the list.
    pub open spec fn arrow_up(self, cur_max: usize, scroll_max: usize) -> DropdownView {
        if self.cursor_pos > 0 {
            DropdownView { cursor_pos: (self.cursor_pos - 1) as usize, ..self }
        } else if self.table_scroll > 0 {
            DropdownView { table_scroll: (self.table_scroll - 1) as usize, ..self }
        } else {
            DropdownView { table_scroll: scroll_max, cursor_pos: cur_max, ..self }
        }
    }

    /// One row down: the mark moves down; from the last row the list
    /// scrolls down; from its very end it goes to its start.
    pub open spec fn arrow_down(self, cur_max: usize, scroll_max: usize) -> DropdownView {
        if self.cursor_pos < cur_max {
            DropdownView { cursor_pos: (self.cursor_pos + 1) as usize, ..self }
        } else if self.table_scroll < scroll_max {
            DropdownView { table_scroll: (self.table_scroll + 1) as usize, ..self }
        } else {
            DropdownView { table_scroll: 0, cursor_pos: 0, ..self }
        }
    }

    /// The list as it starts over where the number of candidates is not
    /// `num_hints` any more.
    pub open spec fn reset_for(self, num_hints: usize) -> DropdownView {
        if self.prev_len != num_hints {
            DropdownView { prev_len: num_hints, cursor_pos: 0, table_scroll: 0, ..self }
        } else {
            self
        }
    }

    /// The list after an arrow key, between the bounds `cur_max` and
    /// `scroll_max`; any other event leaves it as it is.
    pub open spec fn moved(self, event: InputEvent, cur_max: usize, scroll_max: usize) -> DropdownView {
        match event {
            InputEvent::ArrowUp => self.arrow_up(cur_max, scroll_max),
            InputEvent::ArrowDown => self.arrow_down(cur_max, scroll_max),
            _ => self,
        }
    }
}

/// How many rows the list has: as many as the terminal has below the line
/// `write_from_line`, and `max_rows` at most.
pub open spec fn dropdown_rows(term_size: TerminalXY, write_from_line: u16, max_rows: u16) -> int {
    let from = least(write_from_line + 1, term_size.1 as int);
    least(term_size.1 - from, max_rows as int)
}

/// The indices of the candidates that the rows show: row `x` shows the
/// candidate `x + scroll` of those that match, counted around their end.
pub open spec fn shown(indexes: Seq<usize>, rows: int, scroll: int) -> Seq<usize> {
    Seq::new(least(rows, indexes.len() as int) as nat, |x: int| indexes[(x + scroll) % (indexes.len() as int)])
}

impl DropdownGUI {
    pub fn init() -> (r: Self)
        ensures
            r@ == (DropdownView {
                cursor_pos: 0,
                table_scroll: 0,
                prev_len: 0,
                hints_iterator: Seq::empty(),
                arg_start: (0u16, 0u16),
            }),
    {
        Self { cursor_pos: 0, table_scroll: 0, prev_len: 0, hints_iterator: Vec::new(), arg_start: (0, 0) }
    }

    /// Where on the terminal the matched part of the argument starts.
    pub fn arg_start(&self) -> (r: CursorPos)
        ensures
            r == self@.arg_start,
    {
        self.arg_start
    }

    /// The row that is marked.
    pub fn cursor_pos(&self) -> (r: usize)
        ensures
            r == self@.cursor_pos,
    {
        self.cursor_pos
    }

    /// The indices of the candidates to show, row by row.
    pub fn hints_iterator(&self) -> (r: &[usize])
        ensures
            r@ == self@.hints_iterator,
    {
        self.hints_iterator.as_slice()
    }

    fn arrow_up(&mut self, cur_max: usize, scroll_max: usize) -> (r: bool)
        ensures
            r,
            final(self)@ == old(self)@.arrow_up(cur_max, scroll_max),
    {
        if self.cursor_pos > 0 {
            self.cursor_pos -= 1;
        } else if self.table_scroll > 0 {
            self.table_scroll -= 1;
        } else {
            self.table_scroll = scroll_max;
            self.cursor_pos = cur_max;
        }
        true
    }

    fn arrow_down(&mut self, cur_max: usize, scroll_max: usize) -> (r: bool)
        ensures
            r,
            final(self)@ == old(self)@.arrow_down(cur_max, scroll_max),
    {
        if self.cursor_pos < cur_max {
            self.cursor_pos += 1;
        } else if self.table_scroll < scroll_max {
            self.table_scroll += 1;
        } else {
            self.table_scroll = 0;
            self.cursor_pos = 0;
        }
        true
    }

    /// Prepares the list for the line as it is, and lets an arrow key
    /// move the mark. The list starts over where the number of matching
    /// candidates has changed. After an arrow key the candidate under the
    /// mark is to become the closest match of the current argument; any
    /// other event is left to the line.
    pub fn action_before_write(
        &mut self,
        event: InputEvent,
        buffer: &InputBuffer,
        term_size: TerminalXY,
        write_from_line: u16,
        arg_pos: CursorPos,
        max_rows: u16,
    ) -> (r: ActionToTake)
        requires
            buffer@.wf(),
        ensures
            ({
                let selection = current_selection(buffer@);
                let indexes = matching_indexes(selection, current_partial(buffer@), selection.len() as int);
                let rows = dropdown_rows(term_size, write_from_line, max_rows);
                let scroll_max = pred(ceil_div_spec(indexes.len() as int, rows)) as usize;
                let cur_max = pred(least(rows, indexes.len() as int)) as usize;
                let state = old(self)@.reset_for(indexes.len() as usize).moved(event, cur_max, scroll_max);
                let ind = state.cursor_pos + state.table_scroll;
                &&& final(self)@ == (DropdownView {
                    hints_iterator: shown(indexes, cur_max + 1, state.table_scroll as int),
                    arg_start: (
                        least(arg_pos.0 + current_disregard(buffer@), u16::MAX as int) as u16,
                        arg_pos.1,
                    ),
                    ..state
                })
                &&& match r {
                    ActionToTake::WriteBuffer(ActionType::Other(ActionToExecute::SetClosestMatch(s))) => {
                        &&& event == InputEvent::ArrowUp || event == InputEvent::ArrowDown
                        &&& ind < indexes.len()
                        &&& s@ == selection[indexes[ind] as int]
                    },
                    ActionToTake::WriteBuffer(ActionType::Standard) => !((event == InputEvent::ArrowUp
                        || event == InputEvent::ArrowDown) && ind < indexes.len()),
                    _ => false,
                }
            }),
    {
        let write_table_from_line = if write_from_line < term_size.1 {
            write_from_line + 1
        } else {
            term_size.1
        };
        let rows_left = term_size.1 - write_table_from_line;
        let dropdown_rows = if rows_left <= max_rows {
            rows_left
        } else {
            max_rows
        } as usize;

        let (hint, hint_indexes, disregard) = current_matches(buffer);
        let _ = hint.len();
        let ghost selection = current_selection(buffer@);
        let ghost indexes = hint_indexes@;
        proof {
            crate::gui::lemma_matching_indexes(selection, current_partial(buffer@), selection.len() as int);
        }
        self.arg_start = (
            if disregard <= (u16::MAX - arg_pos.0) as usize {
                arg_pos.0 + disregard as u16
            } else {
                u16::MAX
            },
            arg_pos.1,
        );
        let num_hints = hint_indexes.len();
        if self.prev_len != num_hints {
            self.prev_len = num_hints;
            self.cursor_pos = 0;
            self.table_scroll = 0;
        }
        let pages = ceil_div(num_hints, dropdown_rows);
        let scroll_max = if pages > 0 {
            pages - 1
        } else {
            0
        };
        let rows = if dropdown_rows <= num_hints {
            dropdown_rows
        } else {
            num_hints
        };
        let cur_max = if rows > 0 {
            rows - 1
        } else {
            0
        };
        let should_set_closest = match event {
            InputEvent::ArrowUp => self.arrow_up(cur_max, scroll_max),
            InputEvent::ArrowDown => self.arrow_down(cur_max, scroll_max),
            _ => false,
        };
        let upper = if cur_max < num_hints {
            cur_max + 1
        } else {
            num_hints
        };
        let scroll = self.table_scroll;
        let mut shown_now: Vec<usize> = Vec::new();
        let mut x: usize = 0;
        while x < upper
            invariant
                x <= upper <= num_hints == indexes.len(),
                indexes == hint_indexes@,
                shown_now@.len() == x,
                forall|k: int|
                    0 <= k < x ==> #[trigger] shown_now@[k] == indexes[(k + scroll) % (num_hints as int)],
            decreases upper - x,
        {
            let at = add_mod(x, scroll, num_hints);
            shown_now.push(hint_indexes[at]);
            x += 1;
        }
        assert(shown_now@ =~= shown(indexes, cur_max + 1, scroll as int));
        self.hints_iterator = shown_now;
        let ind = if self.cursor_pos <= usize::MAX - self.table_scroll {
            self.cursor_pos + self.table_scroll
        } else {
            usize::MAX
        };
        if should_set_closest && ind < num_hints {
            let hint_ind = hint_indexes[ind];
            assert(selection[hint_ind as int] == hint@[hint_ind as int]@);
            let chosen = hint[hint_ind].clone();
            ActionToTake::WriteBuffer(ActionType::Other(ActionToExecute::SetClosestMatch(chosen)))
        } else {
            ActionToTake::WriteBuffer(ActionType::Standard)
        }
    }
}

} // verus!
