use vstd::prelude::*;
use crate::gui::TerminalXY;
use crate::utils::numbers::{decimal_value, parse_decimal};

verus! {

/// The character that starts every escape sequence.
pub const ESCAPE_CODE: char = '\x1B';

/// What has been read of a report of the terminal on where its cursor
/// is: the digits of the row, the digits of the column, and whether the
/// `;` between the two has been met.
pub ghost struct ReportSoFar {
    pub row: Seq<char>,
    pub col: Seq<char>,
    pub read_col: bool,
    pub done: bool,
}

/// What the first `n` bytes of a report say. The report ends with `R`.
/// Before that, a `;` parts the row from the column, digits belong to the
/// one that is being read, and every other byte says nothing.
pub open spec fn report_so_far(report: Seq<u8>, n: int) -> ReportSoFar
    decreases n,
{
    if n <= 0 {
        ReportSoFar { row: Seq::empty(), col: Seq::empty(), read_col: false, done: false }
    } else {
        let before = report_so_far(report, n - 1);
        let c = report[n - 1];
        if before.done {
            before
        } else if c == 'R' as u8 {
            ReportSoFar { done: true, ..before }
        } else if c == ';' as u8 {
            ReportSoFar { read_col: true, ..before }
        } else if '0' as u8 <= c <= '9' as u8 {
            if before.read_col {
                ReportSoFar { col: before.col.push(c as char), ..before }
            } else {
                ReportSoFar { row: before.row.push(c as char), ..before }
            }
        } else {
            before
        }
    }
}

/// The number that `digits` write, counted from 0 where the terminal
/// counts from 1; the first where they write none that a terminal has.
pub open spec fn counted_from_zero(digits: Seq<char>) -> u16 {
    match decimal_value(digits) {
        Some(v) => if v > u16::MAX {
            0
        } else if v == 0 {
            0
        } else {
            (v - 1) as u16
        },
        None => 0,
    }
}

/// Where the cursor is by a report of the terminal: its column and its
/// row, counted from 0.
pub open spec fn reported_position(report: Seq<u8>) -> TerminalXY {
    let read = report_so_far(report, report.len() as int);
    (counted_from_zero(read.col), counted_from_zero(read.row))
}

fn count_from_zero(digits: &[char]) -> (r: u16)
    ensures
        r == counted_from_zero(digits@),
{
    match parse_decimal(digits, u16::MAX as u64) {
        Some(v) => if v == 0 {
            0
        } else {
            (v - 1) as u16
        },
        None => 0,
    }
}

/// Where the cursor is by the report `report` of the terminal.
pub fn cursor_pos(report: &[u8]) -> (r: TerminalXY)
    ensures
        r == reported_position(report@),
{
    let mut col: Vec<char> = Vec::new();
    let mut row: Vec<char> = Vec::new();
    let mut read_col = false;
    let mut done = false;
    let mut i: usize = 0;
    while i < report.len()
        invariant
            i <= report@.len(),
            report_so_far(report@, i as int) == (ReportSoFar { row: row@, col: col@, read_col, done }),
        decreases report@.len() - i,
    {
        let c = report[i];
        if !done {
            if c == 'R' as u8 {
                done = true;
            } else if c == ';' as u8 {
                read_col = true;
            } else if '0' as u8 <= c && c <= '9' as u8 {
                if read_col {
                    col.push(c as char);
                } else {
                    row.push(c as char);
                }
            }
        }
        i += 1;
    }
    (count_from_zero(col.as_slice()), count_from_zero(row.as_slice()))
}

} // verus!
