use vstd::prelude::*;
use crate::gui::{add_mod, ceil_div, ceil_div_spec, least, ActionToTake, ActionType, TerminalXY};
use crate::hints::opt_view;
use crate::input::InputEvent;
use crate::utils::{from_chars, to_chars};
use crate::utils::numbers::{decimal_chars, decimal_digits};
use crate::utils::paths::{last_segment_start, piece_start};

verus! {

/// How many columns the explorer shows.
pub const NUM_COLS: u16 = 3;

/// The date and the time of day, in universal time, that lie `secs`
/// seconds behind the start of 1970, written as year, month and day with
/// `-` between them, a space, and hour, minute and second with `:`
/// between them; nothing where the calendar does not reach that far.
pub uninterp spec fn formatted_time(secs: int) -> Option<Seq<char>>;

/// `chrono::DateTime::from_timestamp`, with no nanoseconds, and
/// `chrono::DateTime::format` of what it gives, with the format
/// `%Y-%m-%d %H:%M:%S`. The first gives nothing for a number of seconds
/// that is out of its range. The text depends on the number of seconds
/// alone: the time is in universal time and the format names no locale.
#[verifier::external_body]
fn format_time(secs: i64) -> (r: Option<String>)
    ensures
        opt_view(r) == formatted_time(secs as int),
{
    match chrono::DateTime::from_timestamp(secs, 0) {
        Some(t) => Some(t.format("%Y-%m-%d %H:%M:%S").to_string()),
        None => None,
    }
}

/// The text for a time that lies `secs` seconds behind the start of
/// 1970; empty where the calendar does not reach that far.
pub open spec fn time_text(secs: u64) -> Seq<char> {
    if secs <= i64::MAX {
        match formatted_time(secs as int) {
            Some(text) => text,
            None => Seq::empty(),
        }
    } else {
        Seq::empty()
    }
}

/// The text for a time, given what the calendar makes of it.
pub open spec fn shown_time(formatted: Option<Seq<char>>) -> Seq<char> {
    match formatted {
        Some(text) => text,
        None => Seq::empty(),
    }
}

/// The index just behind the last `.` among the first `n` characters of
/// `name`, or 0 where there is none.
pub open spec fn extension_start(name: Seq<char>, n: int) -> int
    decreases n,
{
    if n <= 0 {
        0
    } else if name[n - 1] == '.' {
        n
    } else {
        extension_start(name, n - 1)
    }
}

/// The extension of the file that `path` names: what stands behind the
/// last `.` of its name, unless the name has none or only begins with it.
pub open spec fn extension_of(path: Seq<char>) -> Seq<char> {
    let name = path.skip(piece_start(path, '/', path.len() as int));
    let at = extension_start(name, name.len() as int);
    if at <= 1 {
        Seq::empty()
    } else {
        name.skip(at)
    }
}

/// The size of a file of `len` bytes, in the greatest of the units B, KB,
/// MB and GB of which it holds one, without a fraction.
pub open spec fn size_text(len: u64) -> Seq<char> {
    if len < 1024 {
        decimal_digits(len as nat) + seq![' ', 'B']
    } else if len < 1048576 {
        decimal_digits((len / 1024) as nat) + seq![' ', 'K', 'B']
    } else if len < 1073741824 {
        decimal_digits((len / 1048576) as nat) + seq![' ', 'M', 'B']
    } else {
        decimal_digits((len / 1073741824) as nat) + seq![' ', 'G', 'B']
    }
}

/// What is shown of a file. Everything is kept as text, so that nothing
/// has to be formatted again when it is drawn.
#[derive(Debug)]
pub struct FileInfo {
    path: String,
    ftype: String,
    size: String,
    created_at: String,
    modified_at: String,
    accessed_at: String,
}

pub ghost struct FileInfoView {
    pub path: Seq<char>,
    pub ftype: Seq<char>,
    pub size: Seq<char>,
    pub created_at: Seq<char>,
    pub modified_at: Seq<char>,
    pub accessed_at: Seq<char>,
}

impl View for FileInfo {
    type V = FileInfoView;

    closed spec fn view(&self) -> FileInfoView {
        FileInfoView {
            path: self.path@,
            ftype: self.ftype@,
            size: self.size@,
            created_at: self.created_at@,
            modified_at: self.modified_at@,
            accessed_at: self.accessed_at@,
        }
    }
}

/// The text of a time of a file.
fn time_string(secs: u64) -> (r: String)
    ensures
        r@ == time_text(secs),
{
    if secs > i64::MAX as u64 {
        return String::new();
    }
    FileInfo::time_or_empty(format_time(secs as i64))
}

impl FileInfo {
    /// The text for a time, given what the calendar makes of it.
    pub fn time_or_empty(formatted: Option<String>) -> (r: String)
        ensures
            r@ == shown_time(opt_view(formatted)),
    {
        match formatted {
            Some(text) => text,
            None => String::new(),
        }
    }

    /// What is shown of the file `path` of `len` bytes, with the texts of
    /// its times.
    pub fn from_parts(
        path: String,
        len: u64,
        created_at: String,
        modified_at: String,
        accessed_at: String,
    ) -> (r: Self)
        ensures
            r@ == (FileInfoView {
                path: path@,
                ftype: extension_of(path@),
                size: size_text(len),
                created_at: created_at@,
                modified_at: modified_at@,
                accessed_at: accessed_at@,
            }),
    {
        let chars = to_chars(path.as_str());
        let name_at = last_segment_start(chars.as_slice());
        let name = vstd::slice::slice_subrange(chars.as_slice(), name_at, chars.len());
        let mut at: usize = 0;
        let mut i: usize = 0;
        while i < name.len()
            invariant
                i <= name@.len(),
                at <= i,
                at == extension_start(name@, i as int),
            decreases name@.len() - i,
        {
            if name[i] == '.' {
                at = i + 1;
            }
            i += 1;
        }
        let ftype = if at <= 1 {
            String::new()
        } else {
            let r = from_chars(name, at, name.len());
            r
        };
        let mut size = if len < 1024 {
            decimal_chars(len)
        } else if len < 1048576 {
            let mut size = decimal_chars(len / 1024);
            size.push(' ');
            size.push('K');
            size
        } else if len < 1073741824 {
            let mut size = decimal_chars(len / 1048576);
            size.push(' ');
            size.push('M');
            size
        } else {
            let mut size = decimal_chars(len / 1073741824);
            size.push(' ');
            size.push('G');
            size
        };
        if len < 1024 {
            size.push(' ');
        }
        size.push('B');
        let size = from_chars(size.as_slice(), 0, size.len());
        assert(size@ =~= size_text(len));
        Self { path, ftype, size, created_at, modified_at, accessed_at }
    }

    /// What is shown of the file `path` of `len` bytes, which was
    /// created, modified and accessed so many seconds behind the start of
    /// 1970.
    pub fn new(path: String, len: u64, created: u64, modified: u64, accessed: u64) -> (r: Self)
        ensures
            r@ == (FileInfoView {
                path: path@,
                ftype: extension_of(path@),
                size: size_text(len),
                created_at: time_text(created),
                modified_at: time_text(modified),
                accessed_at: time_text(accessed),
            }),
    {
        Self::from_parts(path, len, time_string(created), time_string(modified), time_string(accessed))
    }

    pub fn path(&self) -> (r: &str)
        ensures
            r@ == self@.path,
    {
        self.path.as_str()
    }

    pub fn ftype(&self) -> (r: &str)
        ensures
            r@ == self@.ftype,
    {
        self.ftype.as_str()
    }

    pub fn size(&self) -> (r: &str)
        ensures
            r@ == self@.size,
    {
        self.size.as_str()
    }

    pub fn created_at(&self) -> (r: &str)
        ensures
            r@ == self@.created_at,
    {
        self.created_at.as_str()
    }

    pub fn modified_at(&self) -> (r: &str)
        ensures
            r@ == self@.modified_at,
    {
        self.modified_at.as_str()
    }

    pub fn accessed_at(&self) -> (r: &str)
        ensures
            r@ == self@.accessed_at,
    {
        self.accessed_at.as_str()
    }
}

/// A directory with its entries, of which one is marked.
#[derive(Debug)]
pub struct DirInfo {
    scroll: usize,
    dir: String,
    entries: Vec<String>,
}

pub ghost struct DirInfoView {
    pub scroll: usize,
    pub dir: Seq<char>,
    pub entries: Seq<Seq<char>>,
}

impl View for DirInfo {
    type V = DirInfoView;

    closed spec fn view(&self) -> DirInfoView {
        DirInfoView { scroll: self.scroll, dir: self.dir@, entries: self.entries.deep_view() }
    }
}

/// The least index at or after `from` at which `entries` holds `path`.
pub open spec fn index_of_from(entries: Seq<Seq<char>>, path: Seq<char>, from: int) -> Option<int>
    decreases entries.len() - from,
{
    if from < 0 || from >= entries.len() {
        None
    } else if entries[from] == path {
        Some(from)
    } else {
        index_of_from(entries, path, from + 1)
    }
}

impl DirInfoView {
    /// The directory with the mark on the first entry that is `path`, if
    /// there is one.
    pub open spec fn scrolled_to(self, path: Seq<char>) -> DirInfoView {
        match index_of_from(self.entries, path, 0) {
            Some(i) => DirInfoView { scroll: i as usize, ..self },
            None => self,
        }
    }

    /// The mark one entry up; from the first entry it goes to the last.
    pub open spec fn scroll_up(self) -> DirInfoView {
        if self.scroll > 0 {
            DirInfoView { scroll: (self.scroll - 1) as usize, ..self }
        } else if self.entries.len() > 0 {
            DirInfoView { scroll: (self.entries.len() - 1) as usize, ..self }
        } else {
            self
        }
    }

    /// The mark one entry down; from the last entry it goes to the first.
    pub open spec fn scroll_down(self) -> DirInfoView {
        if self.scroll + 1 < self.entries.len() {
            DirInfoView { scroll: (self.scroll + 1) as usize, ..self }
        } else {
            DirInfoView { scroll: 0, ..self }
        }
    }

    /// The indices of the entries that `rows` rows show, from the top. No
    /// more rows are shown than there are entries. The entries follow
    /// each other around the end of the directory, and the first row
    /// shows the entry that lies half of the rows, rounded up, behind the
    /// marked one.
    pub open spec fn rows(self, rows: u16) -> Seq<usize> {
        let n = self.entries.len() as int;
        let upper = least(rows as int, n);
        let mid = ceil_div_spec(upper, 2);
        Seq::new(upper as nat, |i: int| ((i + (self.scroll + mid)) % n) as usize)
    }
}

impl DirInfo {
    /// The directory `dir` with the entries `entries`, the first of them
    /// marked.
    pub fn new(dir: String, entries: Vec<String>) -> (r: Self)
        ensures
            r@ == (DirInfoView { scroll: 0, dir: dir@, entries: entries.deep_view() }),
    {
        Self { scroll: 0, dir, entries }
    }

    /// The directory `parent` with the entries `entries`, which holds
    /// this directory; this directory is marked in it.
    pub fn new_to_parent(self, parent: String, entries: Vec<String>) -> (r: Self)
        ensures
            r@ == (DirInfoView { scroll: 0, dir: parent@, entries: entries.deep_view() }).scrolled_to(
                self@.dir,
            ),
    {
        let mut s = Self::new(parent, entries);
        s.try_scroll_to(self.dir.as_str());
        s
    }

    /// Marks the entry `path`, if the directory has it.
    pub fn try_scroll_to(&mut self, path: &str)
        ensures
            final(self)@ == old(self)@.scrolled_to(path@),
    {
        let wanted = path.to_owned();
        let mut i: usize = 0;
        while i < self.entries.len()
            invariant
                i <= self.entries@.len(),
                wanted@ == path@,
                self@ == old(self)@,
                index_of_from(self@.entries, path@, 0) == index_of_from(self@.entries, path@, i as int),
            decreases self.entries@.len() - i,
        {
            if self.entries[i] == wanted {
                self.scroll = i;
                return ;
            }
            i += 1;
        }
    }

    pub fn scroll_up(&mut self)
        ensures
            final(self)@ == old(self)@.scroll_up(),
    {
        if self.scroll > 0 {
            self.scroll -= 1;
        } else if self.entries.len() > 0 {
            self.scroll = self.entries.len() - 1;
        }
    }

    pub fn scroll_down(&mut self)
        ensures
            final(self)@ == old(self)@.scroll_down(),
    {
        let n = self.entries.len();
        if self.scroll < n && n - self.scroll > 1 {
            self.scroll += 1;
        } else {
            self.scroll = 0;
        }
    }

    /// The marked entry, if the mark is on one.
    pub fn get_entry(&self) -> (r: Option<&String>)
        ensures
            match r {
                Some(entry) => self@.scroll < self@.entries.len() && entry@ == self@.entries[self@.scroll as int],
                None => self@.scroll >= self@.entries.len(),
            },
    {
        if self.scroll < self.entries.len() {
            Some(&self.entries[self.scroll])
        } else {
            None
        }
    }

    pub fn dir(&self) -> (r: &str)
        ensures
            r@ == self@.dir,
    {
        self.dir.as_str()
    }

    pub fn entries(&self) -> (r: &[String])
        ensures
            r.deep_view() == self@.entries,
    {
        let r = self.entries.as_slice();
        r
    }

    pub fn scroll(&self) -> (r: usize)
        ensures
            r == self@.scroll,
    {
        self.scroll
    }

    /// The indices of the entries to draw on `rows` rows, from the top.
    pub fn rows(&self, rows: u16) -> (r: Vec<usize>)
        ensures
            r@ == self@.rows(rows),
    {
        let n = self.entries.len();
        let upper = if (rows as usize) <= n {
            rows as usize
        } else {
            n
        };
        let mid = ceil_div(upper, 2);
        let mut r: Vec<usize> = Vec::new();
        if n > 0 {
            let offset = add_mod(self.scroll, mid, n);
            let mut i: usize = 0;
            while i < upper
                invariant
                    i <= upper,
                    0 < n == self@.entries.len(),
                    offset == (self.scroll + mid) % (n as int),
                    r@.len() == i,
                    forall|k: int| 0 <= k < i ==> #[trigger] r@[k] == (k + (self.scroll + mid)) % (n as int),
                decreases upper - i,
            {
                let at = add_mod(i, offset, n);
                proof {
                    vstd::arithmetic::div_mod::lemma_add_mod_noop_right(
                        i as int,
                        self.scroll + mid,
                        n as int,
                    );
                }
                r.push(at);
                i += 1;
            }
        }
        r
    }
}

/// What the right column of the explorer shows of the marked entry.
#[derive(Debug)]
pub enum FinalCol {
    Dir(DirInfo),
    File(FileInfo),
}

/// How many rows the explorer has below the line `write_from_line`, and
/// how wide each of its columns is.
pub open spec fn explorer_layout(term_size: TerminalXY, write_from_line: u16) -> (u16, usize) {
    (
        if term_size.1 >= write_from_line {
            (term_size.1 - write_from_line) as u16
        } else {
            0
        },
        if term_size.0 / NUM_COLS > 0 {
            (term_size.0 / NUM_COLS - 1) as usize
        } else {
            0
        },
    )
}

/// How many rows the explorer has, and how wide each of its columns is.
pub fn layout(term_size: TerminalXY, write_from_line: u16) -> (r: (u16, usize))
    ensures
        r == explorer_layout(term_size, write_from_line),
{
    let rows = if term_size.1 >= write_from_line {
        term_size.1 - write_from_line
    } else {
        0
    };
    let third = term_size.0 / NUM_COLS;
    let width = if third > 0 {
        (third - 1) as usize
    } else {
        0
    };
    (rows, width)
}

pub ghost enum FinalColView {
    Dir(DirInfoView),
    File(FileInfoView),
}

impl View for FinalCol {
    type V = FinalColView;

    open spec fn view(&self) -> FinalColView {
        match self {
            FinalCol::Dir(dir) => FinalColView::Dir(dir@),
            FinalCol::File(file) => FinalColView::File(file@),
        }
    }
}

/// Three columns side by side: the directory that holds the current one,
/// the current directory, and what its marked entry is.
#[derive(Debug)]
pub struct FileExplorerGUI {
    num_rows: u16,
    col_width: usize,
    col_lef: DirInfo,
    col_mid: DirInfo,
    col_rig: FinalCol,
}

pub ghost struct ExplorerView {
    pub num_rows: u16,
    pub col_width: usize,
    pub col_lef: DirInfoView,
    pub col_mid: DirInfoView,
    pub col_rig: FinalColView,
}

impl View for FileExplorerGUI {
    type V = ExplorerView;

    closed spec fn view(&self) -> ExplorerView {
        ExplorerView {
            num_rows: self.num_rows,
            col_width: self.col_width,
            col_lef: self.col_lef@,
            col_mid: self.col_mid@,
            col_rig: self.col_rig@,
        }
    }
}

/// A directory without a name and without entries.
pub open spec fn no_directory() -> DirInfoView {
    DirInfoView { scroll: 0, dir: Seq::empty(), entries: Seq::empty() }
}

/// `col` is what `resolve` may answer for the entry `entry`.
pub open spec fn resolved_as<R: Fn(&String) -> FinalCol>(resolve: &R, entry: Seq<char>, col: FinalColView) -> bool {
    exists|e: String, c: FinalCol| e@ == entry && c@ == col && #[trigger] resolve.ensures((&e,), c)
}

/// `dir` is what `parent_of` may answer for the directory `of`.
pub open spec fn parent_answer<P: Fn(&String) -> Option<DirInfo>>(
    parent_of: &P,
    of: Seq<char>,
    dir: Option<DirInfoView>,
) -> bool {
    exists|d: String, p: Option<DirInfo>|
        d@ == of && opt_dir_view(p) == dir && #[trigger] parent_of.ensures((&d,), p)
}

/// The view of an optional directory.
pub open spec fn opt_dir_view(dir: Option<DirInfo>) -> Option<DirInfoView> {
    match dir {
        Some(d) => Some(d@),
        None => None,
    }
}

/// The right column for the middle column `mid`: what `resolve` answers
/// for its marked entry, and `rig` where no entry is marked.
pub open spec fn right_of<R: Fn(&String) -> FinalCol>(
    resolve: &R,
    mid: DirInfoView,
    rig: FinalColView,
    after: FinalColView,
) -> bool {
    if mid.scroll < mid.entries.len() {
        resolved_as(resolve, mid.entries[mid.scroll as int], after)
    } else {
        after == rig
    }
}

/// `after` is the explorer `before` after the event `event`. The arrows
/// up and down move the mark of the middle column, and the right column
/// follows it. The arrow to the left steps out: the columns move to the
/// right, and the left column becomes what `parent_of` answers for it;
/// nothing moves where it answers nothing. The arrow to the right steps
/// into the directory of the right column, if it is one with entries:
/// the columns move to the left, and the right column follows the new
/// middle one, or shows no directory where the middle one has no marked
/// entry. Every other event leaves the columns as they are.
pub open spec fn explorer_moved<R: Fn(&String) -> FinalCol, P: Fn(&String) -> Option<DirInfo>>(
    before: ExplorerView,
    event: InputEvent,
    resolve: &R,
    parent_of: &P,
    after: ExplorerView,
) -> bool {
    &&& after.num_rows == before.num_rows
    &&& after.col_width == before.col_width
    &&& match event {
        InputEvent::ArrowUp => {
            &&& after.col_lef == before.col_lef
            &&& after.col_mid == before.col_mid.scroll_up()
            &&& right_of(resolve, after.col_mid, before.col_rig, after.col_rig)
        },
        InputEvent::ArrowDown => {
            &&& after.col_lef == before.col_lef
            &&& after.col_mid == before.col_mid.scroll_down()
            &&& right_of(resolve, after.col_mid, before.col_rig, after.col_rig)
        },
        InputEvent::ArrowLeft => {
            ||| {
                &&& parent_answer(parent_of, before.col_lef.dir, None)
                &&& after == before
            }
            ||| {
                &&& parent_answer(parent_of, before.col_lef.dir, Some(after.col_lef))
                &&& after.col_mid == before.col_lef
                &&& after.col_rig == FinalColView::Dir(before.col_mid)
            }
        },
        InputEvent::ArrowRight => match before.col_rig {
            FinalColView::Dir(dir) => if dir.entries.len() > 0 {
                &&& after.col_lef == before.col_mid
                &&& after.col_mid == dir
                &&& right_of(resolve, dir, FinalColView::Dir(no_directory()), after.col_rig)
            } else {
                after == before
            },
            FinalColView::File(_) => after == before,
        },
        _ => after == before,
    }
}

impl FileExplorerGUI {
    pub fn init(col_lef: DirInfo, col_mid: DirInfo, col_rig: FinalCol) -> (r: Self)
        ensures
            r@ == (ExplorerView {
                num_rows: 0,
                col_width: 0,
                col_lef: col_lef@,
                col_mid: col_mid@,
                col_rig: col_rig@,
            }),
    {
        Self { col_width: 0, num_rows: 0, col_lef, col_mid, col_rig }
    }

    pub fn num_rows(&self) -> (r: u16)
        ensures
            r == self@.num_rows,
    {
        self.num_rows
    }

    pub fn col_width(&self) -> (r: usize)
        ensures
            r == self@.col_width,
    {
        self.col_width
    }

    pub fn col_lef(&self) -> (r: &DirInfo)
        ensures
            r@ == self@.col_lef,
    {
        &self.col_lef
    }

    pub fn col_mid(&self) -> (r: &DirInfo)
        ensures
            r@ == self@.col_mid,
    {
        &self.col_mid
    }

    pub fn col_rig(&self) -> (r: &FinalCol)
        ensures
            r@ == self@.col_rig,
    {
        &self.col_rig
    }

    /// Makes the right column follow the mark of the middle one.
    fn follow<R: Fn(&String) -> FinalCol>(&mut self, resolve: &R)
        requires
            forall|e: &String| #[trigger] resolve.requires((e,)),
        ensures
            final(self)@ == (ExplorerView { col_rig: final(self)@.col_rig, ..old(self)@ }),
            right_of(resolve, old(self)@.col_mid, old(self)@.col_rig, final(self)@.col_rig),
    {
        match self.col_mid.get_entry() {
            Some(entry) => {
                self.col_rig = resolve(entry);
            },
            None => {},
        }
    }

    /// Fits the explorer below the line `write_from_line`, and lets an
    /// arrow key move through the directories. `resolve` says what an
    /// entry is, and `parent_of` reads the directory that holds a
    /// directory. The explorer takes the arrow keys for itself.
    pub fn action_before_write<R: Fn(&String) -> FinalCol, P: Fn(&String) -> Option<DirInfo>>(
        &mut self,
        event: InputEvent,
        term_size: TerminalXY,
        write_from_line: u16,
        resolve: &R,
        parent_of: &P,
    ) -> (r: ActionToTake)
        requires
            forall|e: &String| #[trigger] resolve.requires((e,)),
            forall|d: &String| #[trigger] parent_of.requires((d,)),
        ensures
            explorer_takes(event) ==> r == ActionToTake::BlockBuffer,
            !explorer_takes(event) ==> r == ActionToTake::WriteBuffer(ActionType::Standard),
            (final(self)@.num_rows, final(self)@.col_width) == explorer_layout(term_size, write_from_line),
            explorer_moved(
                ExplorerView {
                    num_rows: final(self)@.num_rows,
                    col_width: final(self)@.col_width,
                    ..old(self)@
                },
                event,
                resolve,
                parent_of,
                final(self)@,
            ),
    {
        let (rows, width) = layout(term_size, write_from_line);
        self.num_rows = rows;
        self.col_width = width;
        match event {
            InputEvent::ArrowUp => {
                self.col_mid.scroll_up();
                self.follow(resolve);
            },
            InputEvent::ArrowDown => {
                self.col_mid.scroll_down();
                self.follow(resolve);
            },
            InputEvent::ArrowLeft => {
                let dir = self.col_lef.dir().to_owned();
                match parent_of(&dir) {
                    Some(parent) => {
                        let mut lef = parent;
                        std::mem::swap(&mut lef, &mut self.col_lef);
                        let mut mid = lef;
                        std::mem::swap(&mut mid, &mut self.col_mid);
                        self.col_rig = FinalCol::Dir(mid);
                    },
                    None => {},
                }
            },
            InputEvent::ArrowRight => {
                let enter = match &self.col_rig {
                    FinalCol::Dir(dir) => dir.entries().len() > 0,
                    FinalCol::File(_) => false,
                };
                if enter {
                    let mut rig = FinalCol::Dir(DirInfo::new(String::new(), Vec::new()));
                    std::mem::swap(&mut rig, &mut self.col_rig);
                    if let FinalCol::Dir(dir) = rig {
                        let mut mid = dir;
                        std::mem::swap(&mut mid, &mut self.col_mid);
                        self.col_lef = mid;
                        let nothing = DirInfo::new(String::new(), Vec::new());
                        assert(nothing@.entries =~= Seq::empty());
                        self.col_rig = FinalCol::Dir(nothing);
                        match self.col_mid.get_entry() {
                            Some(entry) => {
                                self.col_rig = resolve(entry);
                            },
                            None => {},
                        }
                    }
                }
            },
            _ => {},
        }
        explorer_action(event)
    }
}

/// Whether the explorer takes an event for itself: it takes the arrow
/// keys.
pub open spec fn explorer_takes(event: InputEvent) -> bool {
    event == InputEvent::ArrowUp || event == InputEvent::ArrowDown || event == InputEvent::ArrowLeft || event
        == InputEvent::ArrowRight
}

/// What the explorer makes of an event before the line sees it.
pub fn explorer_action(event: InputEvent) -> (r: ActionToTake)
    ensures
        explorer_takes(event) ==> r == ActionToTake::BlockBuffer,
        !explorer_takes(event) ==> r == ActionToTake::WriteBuffer(ActionType::Standard),
{
    match event {
        InputEvent::ArrowUp => ActionToTake::BlockBuffer,
        InputEvent::ArrowDown => ActionToTake::BlockBuffer,
        InputEvent::ArrowLeft => ActionToTake::BlockBuffer,
        InputEvent::ArrowRight => ActionToTake::BlockBuffer,
        _ => ActionToTake::WriteBuffer(ActionType::Standard),
    }
}

} // verus!
