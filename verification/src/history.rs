use vstd::prelude::*;
use crate::utils::{from_chars, starts_with_chars, to_chars};
use crate::utils::numbers::{
    decimal_chars,
    decimal_digits,
    decimal_value,
    lemma_decimal_digits,
    parse_decimal,
};

verus! {

/// A command line that was run, and when.
#[derive(Debug)]
pub struct HistoryEntry {
    timestamp: u64,
    command: String,
}

pub ghost struct HistoryEntryView {
    pub timestamp: u64,
    pub command: Seq<char>,
}

impl View for HistoryEntry {
    type V = HistoryEntryView;

    closed spec fn view(&self) -> HistoryEntryView {
        HistoryEntryView { timestamp: self.timestamp, command: self.command@ }
    }
}

/// Why a line of the history file is no entry.
#[derive(Debug, Clone, Copy, PartialEq, Eq, Structural)]
pub enum HistoryLineError {
    /// What stands before the first space is no time stamp.
    BadTimestamp,
    /// Nothing stands behind the first space of the line with this number.
    NoCommand(u32),
    /// The line with this number has no space.
    NoSpace(u32),
}

/// The line that the history file holds for an entry, without the line
/// break: the time stamp in decimal digits, a space, and the command.
pub open spec fn line_of(entry: HistoryEntryView) -> Seq<char> {
    decimal_digits(entry.timestamp as nat).push(' ') + entry.command
}

/// The index of the first space of `s` at or after `from`.
pub open spec fn first_space_from(s: Seq<char>, from: int) -> Option<int>
    decreases s.len() - from,
{
    if from < 0 || from >= s.len() {
        None
    } else if s[from] == ' ' {
        Some(from)
    } else {
        first_space_from(s, from + 1)
    }
}

/// What a line of the history file says: the time stamp is what stands
/// before the first space, in decimal digits, and the command is all that
/// stands behind it.
pub open spec fn parsed_line(line: Seq<char>, line_number: u32) -> Result<
    HistoryEntryView,
    HistoryLineError,
> {
    match first_space_from(line, 0) {
        None => Err(HistoryLineError::NoSpace(line_number)),
        Some(i) => match decimal_value(line.take(i)) {
            Some(t) => if t > u64::MAX {
                Err(HistoryLineError::BadTimestamp)
            } else if i + 1 >= line.len() {
                Err(HistoryLineError::NoCommand(line_number))
            } else {
                Ok(HistoryEntryView { timestamp: t as u64, command: line.skip(i + 1) })
            },
            None => Err(HistoryLineError::BadTimestamp),
        },
    }
}

/// Where `first_space_from` finds a space, it is the first from `from`.
pub proof fn lemma_first_space_from(s: Seq<char>, from: int, at: int)
    requires
        0 <= from <= at < s.len(),
        s[at] == ' ',
        forall|j: int| from <= j < at ==> s[j] != ' ',
    ensures
        first_space_from(s, from) == Some(at),
    decreases at - from,
{
    if from < at {
        lemma_first_space_from(s, from + 1, at);
    }
}

/// The line that is written for an entry with a command is read back as
/// that entry.
pub proof fn lemma_line_round_trip(entry: HistoryEntryView, line_number: u32)
    requires
        entry.command.len() > 0,
    ensures
        parsed_line(line_of(entry), line_number) == Ok::<HistoryEntryView, HistoryLineError>(entry),
{
    let digits = decimal_digits(entry.timestamp as nat);
    let line = line_of(entry);
    lemma_decimal_digits(entry.timestamp as nat);
    let at = digits.len() as int;
    lemma_first_space_from(line, 0, at);
    assert(line.take(at) =~= digits);
    assert(line.skip(at + 1) =~= entry.command);
}

impl HistoryEntry {
    pub fn new(timestamp: u64, command: String) -> (r: Self)
        ensures
            r@ == (HistoryEntryView { timestamp, command: command@ }),
    {
        Self { timestamp, command }
    }

    pub fn command(&self) -> (r: &str)
        ensures
            r@ == self@.command,
    {
        self.command.as_str()
    }

    /// When the command was run, in seconds since the epoch.
    pub fn timestamp(&self) -> (r: u64)
        ensures
            r == self@.timestamp,
    {
        self.timestamp
    }

    /// The line that the history file holds for the entry, with its line
    /// break.
    pub fn to_line(&self) -> (r: String)
        ensures
            r@ == line_of(self@).push('\n'),
    {
        let mut line = decimal_chars(self.timestamp);
        let command = to_chars(self.command.as_str());
        line.push(' ');
        let ghost head = line@;
        let mut k: usize = 0;
        while k < command.len()
            invariant
                k <= command@.len(),
                line@ == head + command@.take(k as int),
            decreases command@.len() - k,
        {
            line.push(command[k]);
            k += 1;
        }
        line.push('\n');
        let r = from_chars(line.as_slice(), 0, line.len());
        r
    }

    /// The entry that a line of the history file holds, without its line
    /// break.
    pub fn from_line(line: &str, line_number: u32) -> (r: Result<Self, HistoryLineError>)
        ensures
            match r {
                Ok(entry) => parsed_line(line@, line_number) == Ok::<HistoryEntryView, HistoryLineError>(
                    entry@,
                ),
                Err(e) => parsed_line(line@, line_number) == Err::<HistoryEntryView, HistoryLineError>(e),
            },
    {
        let chars = to_chars(line);
        let mut i: usize = 0;
        while i < chars.len()
            invariant
                i <= chars@.len(),
                chars@ == line@,
                first_space_from(chars@, 0) == first_space_from(chars@, i as int),
            decreases chars@.len() - i,
        {
            if chars[i] == ' ' {
                let head = vstd::slice::slice_subrange(chars.as_slice(), 0, i);
                let timestamp = match parse_decimal(head, u64::MAX) {
                    Some(t) => t,
                    None => {
                        return Err(HistoryLineError::BadTimestamp);
                    },
                };
                if chars.len() - i <= 1 {
                    return Err(HistoryLineError::NoCommand(line_number));
                }
                let command = from_chars(chars.as_slice(), i + 1, chars.len());
                return Ok(Self::new(timestamp, command));
            }
            i += 1;
        }
        Err(HistoryLineError::NoSpace(line_number))
    }
}

impl Clone for HistoryEntry {
    fn clone(&self) -> (r: Self)
        ensures
            r@ == self@,
    {
        Self { timestamp: self.timestamp, command: self.command.clone() }
    }
}

/// The views of the entries of a history.
pub open spec fn entry_views(entries: Seq<HistoryEntry>) -> Seq<HistoryEntryView> {
    Seq::new(entries.len(), |i: int| entries[i]@)
}

/// No entry is older than one before it.
pub open spec fn by_time(entries: Seq<HistoryEntryView>) -> bool {
    forall|i: int, j: int| 0 <= i <= j < entries.len() ==> entries[i].timestamp <= entries[j].timestamp
}

/// Whether the command of the entry at `i` is run again by a later entry.
pub open spec fn run_again(entries: Seq<HistoryEntryView>, i: int) -> bool {
    exists|j: int| i < j < entries.len() && #[trigger] entries[j].command == entries[i].command
}

/// Of the first `n` entries, those whose command no later entry of the
/// whole history runs again.
pub open spec fn last_runs(entries: Seq<HistoryEntryView>, n: int) -> Seq<HistoryEntryView>
    decreases n,
{
    if n <= 0 {
        Seq::empty()
    } else if run_again(entries, n - 1) {
        last_runs(entries, n - 1)
    } else {
        last_runs(entries, n - 1).push(entries[n - 1])
    }
}

/// The index of the newest of the first `n` entries whose command begins
/// with `cmd`.
pub open spec fn newest_match(entries: Seq<HistoryEntryView>, cmd: Seq<char>, n: int) -> Option<int>
    decreases n,
{
    if n <= 0 {
        None
    } else if cmd.is_prefix_of(entries[n - 1].command) {
        Some(n - 1)
    } else {
        newest_match(entries, cmd, n - 1)
    }
}

/// The entries that the first `n` of `lines` hold, in the order of the
/// lines; a line that is no entry is passed over. Lines are numbered
/// from 0.
pub open spec fn entries_of_lines(lines: Seq<Seq<char>>, n: int) -> Seq<HistoryEntryView>
    decreases n,
{
    if n <= 0 {
        Seq::empty()
    } else {
        match parsed_line(lines[n - 1], (n - 1) as u32) {
            Ok(entry) => entries_of_lines(lines, n - 1).push(entry),
            Err(_) => entries_of_lines(lines, n - 1),
        }
    }
}

/// Puts `entry` into `entries`, which are in the order of their time
/// stamps, behind every entry that is not newer than it.
fn insert_by_time(entries: &mut Vec<HistoryEntry>, entry: HistoryEntry)
    requires
        by_time(entry_views(old(entries)@)),
    ensures
        by_time(entry_views(final(entries)@)),
        entry_views(final(entries)@).to_multiset() == entry_views(old(entries)@).to_multiset().insert(
            entry@,
        ),
{
    let ghost before = entry_views(entries@);
    let ghost added = entry@;
    let mut at: usize = 0;
    while at < entries.len() && entries[at].timestamp <= entry.timestamp
        invariant
            at <= entries@.len(),
            entry_views(entries@) == before,
            forall|i: int| 0 <= i < at ==> before[i].timestamp <= entry.timestamp,
        decreases entries@.len() - at,
    {
        at += 1;
    }
    proof {
        if at < entries.len() {
            assert(before[at as int] == entries@[at as int]@);
        }
    }
    entries.insert(at, entry);
    proof {
        let after = entry_views(entries@);
        assert(after =~= before.insert(at as int, added));
        assert(after.remove(at as int) =~= before);
        vstd::seq_lib::to_multiset_remove(after, at as int);
        after.to_multiset_ensures();
    }
}

/// The entries that the lines of a history file hold, in the order of
/// their time stamps. A line that is no entry is passed over.
pub fn parse_history_lines(lines: &[String]) -> (r: Vec<HistoryEntry>)
    requires
        lines@.len() <= u32::MAX,
    ensures
        by_time(entry_views(r@)),
        entry_views(r@).to_multiset() == entries_of_lines(lines.deep_view(), lines@.len() as int).to_multiset(),
{
    let mut history: Vec<HistoryEntry> = Vec::new();
    let mut i: usize = 0;
    assert(entry_views(history@) =~= Seq::empty());
    while i < lines.len()
        invariant
            i <= lines@.len() <= u32::MAX,
            by_time(entry_views(history@)),
            entry_views(history@).to_multiset() == entries_of_lines(lines.deep_view(), i as int).to_multiset(),
        decreases lines@.len() - i,
    {
        match HistoryEntry::from_line(lines[i].as_str(), i as u32) {
            Ok(entry) => {
                proof {
                    vstd::seq_lib::to_multiset_build(entries_of_lines(lines.deep_view(), i as int), entry@);
                }
                insert_by_time(&mut history, entry);
            },
            Err(_) => {},
        }
        i += 1;
    }
    history
}

/// Whether a later entry of `history` than the one at `i` runs the same
/// command.
fn is_run_again(history: &[HistoryEntry], i: usize) -> (r: bool)
    requires
        i < history@.len(),
    ensures
        r == run_again(entry_views(history@), i as int),
{
    let ghost views = entry_views(history@);
    let _ = history.len();
    let mut j: usize = i + 1;
    while j < history.len()
        invariant
            i < j <= history@.len(),
            views == entry_views(history@),
            forall|k: int| i < k < j ==> views[k].command != views[i as int].command,
        decreases history@.len() - j,
    {
        if history[j].command == history[i].command {
            assert(views[j as int].command == views[i as int].command);
            return true;
        }
        j += 1;
    }
    false
}

/// The history without the entries whose command a later entry runs
/// again; what stays is in the order it was in.
pub fn reduce_history(history: Vec<HistoryEntry>) -> (r: Vec<HistoryEntry>)
    ensures
        entry_views(r@) == last_runs(entry_views(history@), history@.len() as int),
{
    let ghost views = entry_views(history@);
    let mut kept: Vec<HistoryEntry> = Vec::new();
    let mut i: usize = 0;
    while i < history.len()
        invariant
            i <= history@.len(),
            views == entry_views(history@),
            entry_views(kept@) == last_runs(views, i as int),
        decreases history@.len() - i,
    {
        if !is_run_again(history.as_slice(), i) {
            kept.push(history[i].clone());
        }
        i += 1;
    }
    kept
}

/// The lines that were run, the oldest first.
#[derive(Debug)]
pub struct DataLayerHistory {
    history: Vec<HistoryEntry>,
}

impl View for DataLayerHistory {
    type V = Seq<HistoryEntryView>;

    closed spec fn view(&self) -> Seq<HistoryEntryView> {
        entry_views(self.history@)
    }
}

impl DataLayerHistory {
    pub fn init(history: Vec<HistoryEntry>) -> (r: Self)
        ensures
            r@ == entry_views(history@),
    {
        Self { history }
    }

    pub fn len(&self) -> (r: usize)
        ensures
            r == self@.len(),
    {
        self.history.len()
    }

    /// Records that `cmd` was run at the time `timestamp`, and gives the
    /// line to write to the history file for it. An empty command is not
    /// recorded.
    pub fn add_to_history(&mut self, cmd: &str, timestamp: u64) -> (r: Option<String>)
        ensures
            cmd@.len() == 0 ==> r is None && final(self)@ == old(self)@,
            cmd@.len() > 0 ==> {
                let entry = HistoryEntryView { timestamp, command: cmd@ };
                &&& final(self)@ == old(self)@.push(entry)
                &&& crate::hints::opt_view(r) == Some(line_of(entry).push('\n'))
            },
    {
        if to_chars(cmd).len() == 0 {
            return None;
        }
        let entry = HistoryEntry::new(timestamp, cmd.to_owned());
        let line = entry.to_line();
        self.history.push(entry);
        Some(line)
    }

    /// The entry at `ind`, counted from the oldest.
    pub fn get_history(&self, ind: usize) -> (r: Option<&HistoryEntry>)
        ensures
            match r {
                Some(entry) => ind < self@.len() && entry@ == self@[ind as int],
                None => ind >= self@.len(),
            },
    {
        if ind >= self.history.len() {
            return None;
        }
        Some(&self.history[ind])
    }

    /// The newest entry whose command begins with `cmd`.
    pub fn find_first(&self, cmd: &str) -> (r: Option<&HistoryEntry>)
        ensures
            match r {
                Some(entry) => {
                    &&& newest_match(self@, cmd@, self@.len() as int) is Some
                    &&& entry@ == self@[newest_match(self@, cmd@, self@.len() as int).unwrap()]
                },
                None => newest_match(self@, cmd@, self@.len() as int) is None,
            },
    {
        let prefix = to_chars(cmd);
        let mut n: usize = self.history.len();
        while n > 0
            invariant
                n <= self.history@.len(),
                prefix@ == cmd@,
                newest_match(self@, cmd@, self@.len() as int) == newest_match(self@, cmd@, n as int),
            decreases n,
        {
            if starts_with_chars(self.history[n - 1].command.as_str(), prefix.as_slice()) {
                return Some(&self.history[n - 1]);
            }
            n -= 1;
        }
        None
    }
}

/// The view of an optional entry.
pub open spec fn opt_entry_view(entry: Option<HistoryEntry>) -> Option<HistoryEntryView> {
    match entry {
        Some(e) => Some(e@),
        None => None,
    }
}

/// What a process asks of the process that keeps the history.
#[derive(Debug)]
pub enum HistoryRequest {
    /// To end the connection.
    Exit,
    /// To record that this line was run.
    AddToHistory(String),
    /// For the newest entry whose command begins with this text.
    FindFirstOccurrence(String),
    /// For the entry at this index, counted from the oldest.
    GetHistoryInd(usize),
    /// For the number of entries.
    GetNumHistoryEntries,
}

/// What the process that keeps the history answers.
#[derive(Debug)]
pub enum HistoryResponse {
    HistoryVal(Option<HistoryEntry>),
    HistoryInd(usize),
    /// The request was carried out.
    Done,
}

pub ghost enum HistoryResponseView {
    HistoryVal(Option<HistoryEntryView>),
    HistoryInd(usize),
    Done,
}

impl View for HistoryResponse {
    type V = HistoryResponseView;

    open spec fn view(&self) -> HistoryResponseView {
        match self {
            HistoryResponse::HistoryVal(entry) => HistoryResponseView::HistoryVal(opt_entry_view(*entry)),
            HistoryResponse::HistoryInd(ind) => HistoryResponseView::HistoryInd(*ind),
            HistoryResponse::Done => HistoryResponseView::Done,
        }
    }
}

/// What is to be done for a request, besides the change to the history.
pub ghost struct Handled {
    pub response: HistoryResponseView,
    /// The line to write behind the history file, if any.
    pub line: Option<Seq<char>>,
    /// Whether the connection is to end.
    pub exit: bool,
}

/// The history after a request that comes at the time `now`: a line
/// that is not empty is recorded, and nothing else changes the history.
pub open spec fn history_after(
    history: Seq<HistoryEntryView>,
    request: HistoryRequest,
    now: u64,
) -> Seq<HistoryEntryView> {
    match request {
        HistoryRequest::AddToHistory(cmd) => if cmd@.len() > 0 {
            history.push(HistoryEntryView { timestamp: now, command: cmd@ })
        } else {
            history
        },
        _ => history,
    }
}

/// What is to be done for a request that comes at the time `now`.
pub open spec fn handled(history: Seq<HistoryEntryView>, request: HistoryRequest, now: u64) -> Handled {
    match request {
        HistoryRequest::Exit => Handled { response: HistoryResponseView::Done, line: None, exit: true },
        HistoryRequest::AddToHistory(cmd) => Handled {
            response: HistoryResponseView::Done,
            line: if cmd@.len() > 0 {
                Some(line_of(HistoryEntryView { timestamp: now, command: cmd@ }).push('\n'))
            } else {
                None
            },
            exit: false,
        },
        HistoryRequest::FindFirstOccurrence(cmd) => Handled {
            response: HistoryResponseView::HistoryVal(
                match newest_match(history, cmd@, history.len() as int) {
                    Some(i) => Some(history[i]),
                    None => None,
                },
            ),
            line: None,
            exit: false,
        },
        HistoryRequest::GetHistoryInd(ind) => Handled {
            response: HistoryResponseView::HistoryVal(
                if ind < history.len() {
                    Some(history[ind as int])
                } else {
                    None
                },
            ),
            line: None,
            exit: false,
        },
        HistoryRequest::GetNumHistoryEntries => Handled {
            response: HistoryResponseView::HistoryInd(history.len() as usize),
            line: None,
            exit: false,
        },
    }
}

impl DataLayerHistory {
    /// Carries out a request that comes at the time `now`. The answer
    /// holds the response, the line to write behind the history file, if
    /// any, and whether the connection is to end.
    pub fn handle_request(&mut self, request: HistoryRequest, now: u64) -> (r: (
        HistoryResponse,
        Option<String>,
        bool,
    ))
        ensures
            final(self)@ == history_after(old(self)@, request, now),
            (Handled { response: r.0@, line: crate::hints::opt_view(r.1), exit: r.2 }) == handled(
                old(self)@,
                request,
                now,
            ),
    {
        match request {
            HistoryRequest::Exit => (HistoryResponse::Done, None, true),
            HistoryRequest::AddToHistory(command) => {
                let line = self.add_to_history(command.as_str(), now);
                (HistoryResponse::Done, line, false)
            },
            HistoryRequest::FindFirstOccurrence(command) => {
                let found = match self.find_first(command.as_str()) {
                    Some(entry) => Some(entry.clone()),
                    None => None,
                };
                (HistoryResponse::HistoryVal(found), None, false)
            },
            HistoryRequest::GetNumHistoryEntries => (HistoryResponse::HistoryInd(self.len()), None, false),
            HistoryRequest::GetHistoryInd(ind) => {
                let found = match self.get_history(ind) {
                    Some(entry) => Some(entry.clone()),
                    None => None,
                };
                (HistoryResponse::HistoryVal(found), None, false)
            },
        }
    }
}

/// Where the user is in the history while walking through it. The
/// entries themselves are kept elsewhere and are asked for by their index,
/// counted from the oldest.
#[derive(Debug)]
pub struct History {
    /// The index of the entry that the line shows; the number of entries
    /// while it shows none of them.
    history_iter: usize,
    /// The line as it was before the walk began.
    history_uncommitted: Option<HistoryEntry>,
}

pub ghost struct HistoryView {
    pub history_iter: usize,
    pub history_uncommitted: Option<HistoryEntryView>,
}

impl View for History {
    type V = HistoryView;

    closed spec fn view(&self) -> HistoryView {
        HistoryView {
            history_iter: self.history_iter,
            history_uncommitted: opt_entry_view(self.history_uncommitted),
        }
    }
}

impl History {
    /// The walk before it began, in a history of `num_entries` entries.
    pub fn init(num_entries: usize) -> (r: Self)
        ensures
            r@ == (HistoryView { history_iter: num_entries, history_uncommitted: None }),
    {
        Self { history_iter: num_entries, history_uncommitted: None }
    }

    /// Ends the walk: the history holds `num_entries` entries now.
    pub fn add_to_history(&mut self, num_entries: usize)
        ensures
            final(self)@ == (HistoryView { history_iter: num_entries, history_uncommitted: None }),
    {
        self.history_uncommitted = None;
        self.history_iter = num_entries;
    }

    /// The index of the entry that a step to the older entries shows;
    /// none from the oldest entry.
    pub fn older_index(&self) -> (r: Option<usize>)
        ensures
            r == if self@.history_iter > 0 {
                Some((self@.history_iter - 1) as usize)
            } else {
                None
            },
    {
        if self.history_iter > 0 {
            Some(self.history_iter - 1)
        } else {
            None
        }
    }

    /// Steps to the next older entry, which is `answer`. The line `cmd`
    /// is kept where the walk begins with this step. From the oldest
    /// entry there is no step, and the line is to stay.
    pub fn get_older_history(&mut self, cmd: &[char], answer: Option<HistoryEntry>) -> (r: Option<
        HistoryEntry,
    >)
        ensures
            old(self)@.history_iter == 0 ==> r is None && final(self)@ == old(self)@,
            old(self)@.history_iter > 0 ==> {
                &&& opt_entry_view(r) == opt_entry_view(answer)
                &&& final(self)@.history_iter == old(self)@.history_iter - 1
                &&& final(self)@.history_uncommitted == (match old(self)@.history_uncommitted {
                    Some(kept) => Some(kept),
                    None => Some(HistoryEntryView { timestamp: 0, command: cmd@ }),
                })
            },
    {
        if self.history_iter > 0 {
            if self.history_uncommitted.is_none() {
                let line = from_chars(cmd, 0, cmd.len());
                assert(line@ =~= cmd@);
                self.history_uncommitted = Some(HistoryEntry::new(0, line));
            }
            self.history_iter -= 1;
            return answer;
        }
        None
    }

    /// The index of the entry that a step to the newer entries shows, if
    /// there is one.
    pub fn newer_index(&self) -> (r: usize)
        ensures
            r == if self@.history_iter < usize::MAX {
                (self@.history_iter + 1) as usize
            } else {
                usize::MAX
            },
    {
        if self.history_iter < usize::MAX {
            self.history_iter + 1
        } else {
            usize::MAX
        }
    }

    /// Steps to the next newer entry, which is `answer`. Without one the
    /// walk is over: the line that was kept comes back, and the history
    /// holds `num_entries` entries.
    pub fn get_newer_history(&mut self, answer: Option<HistoryEntry>, num_entries: usize) -> (r: Option<
        HistoryEntry,
    >)
        ensures
            match answer {
                Some(entry) => {
                    &&& opt_entry_view(r) == Some(entry@)
                    &&& final(self)@ == (HistoryView {
                        history_iter: if old(self)@.history_iter < usize::MAX {
                            (old(self)@.history_iter + 1) as usize
                        } else {
                            usize::MAX
                        },
                        ..old(self)@
                    })
                },
                None => {
                    &&& opt_entry_view(r) == old(self)@.history_uncommitted
                    &&& final(self)@ == (HistoryView { history_iter: num_entries, history_uncommitted: None })
                },
            },
    {
        if answer.is_some() {
            self.history_iter = self.newer_index();
            return answer;
        }
        self.history_iter = num_entries;
        let mut r: Option<HistoryEntry> = None;
        std::mem::swap(&mut r, &mut self.history_uncommitted);
        r
    }
}

} // verus!
