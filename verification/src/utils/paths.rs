use vstd::prelude::*;
use crate::utils::push_char;

verus! {

/// Where the piece that is open behind the first `n` characters of `s`
/// begins: just behind the last `delimiter` among them, or at 0.
pub open spec fn piece_start(s: Seq<char>, delimiter: char, n: int) -> int
    decreases n,
{
    if n <= 0 {
        0
    } else if s[n - 1] == delimiter {
        n
    } else {
        piece_start(s, delimiter, n - 1)
    }
}

/// The pieces that a `delimiter` among the first `n` characters of `s`
/// has closed.
pub open spec fn closed_pieces(s: Seq<char>, delimiter: char, n: int) -> Seq<Seq<char>>
    decreases n,
{
    if n <= 0 {
        Seq::empty()
    } else if s[n - 1] == delimiter {
        closed_pieces(s, delimiter, n - 1).push(s.subrange(piece_start(s, delimiter, n - 1), n - 1))
    } else {
        closed_pieces(s, delimiter, n - 1)
    }
}

/// `s` cut at every `delimiter`; a piece may be empty, and there is always
/// one piece more than there are delimiters.
pub open spec fn split(s: Seq<char>, delimiter: char) -> Seq<Seq<char>> {
    closed_pieces(s, delimiter, s.len() as int).push(
        s.subrange(piece_start(s, delimiter, s.len() as int), s.len() as int),
    )
}

/// `parts` written one after the other with `delimiter` between each two.
pub open spec fn joined_with(parts: Seq<Seq<char>>, delimiter: char) -> Seq<char>
    decreases parts.len(),
{
    if parts.len() == 0 {
        Seq::empty()
    } else if parts.len() == 1 {
        parts[0]
    } else {
        joined_with(parts.drop_last(), delimiter).push(delimiter) + parts.last()
    }
}

/// Cuts `s` at every `delimiter`.
pub fn split_chars(s: &[char], delimiter: char) -> (r: Vec<Vec<char>>)
    ensures
        r.deep_view() == split(s@, delimiter),
{
    let mut pieces: Vec<Vec<char>> = Vec::new();
    let mut current: Vec<char> = Vec::new();
    let mut i: usize = 0;
    while i < s.len()
        invariant
            i <= s@.len(),
            pieces.deep_view() == closed_pieces(s@, delimiter, i as int),
            current@ == s@.subrange(piece_start(s@, delimiter, i as int), i as int),
            0 <= piece_start(s@, delimiter, i as int) <= i,
        decreases s@.len() - i,
    {
        if s[i] == delimiter {
            let mut piece: Vec<char> = Vec::new();
            std::mem::swap(&mut piece, &mut current);
            let ghost closed = piece@;
            assert(piece.deep_view() =~= closed);
            pieces.push(piece);
        } else {
            current.push(s[i]);
        }
        i += 1;
    }
    let ghost last = current@;
    assert(current.deep_view() =~= last);
    pieces.push(current);
    pieces
}

/// Writes `parts[start..stop]` behind `out`, with `delimiter` between
/// each two.
pub fn append_joined(out: &mut Vec<char>, parts: &[Vec<char>], start: usize, stop: usize, delimiter: char)
    requires
        start <= stop <= parts@.len(),
    ensures
        final(out)@ == old(out)@ + joined_with(
            parts.deep_view().subrange(start as int, stop as int),
            delimiter,
        ),
{
    let ghost all = parts.deep_view();
    let ghost head = out@;
    let mut i: usize = start;
    while i < stop
        invariant
            start <= i <= stop <= parts@.len(),
            all == parts.deep_view(),
            out@ == head + joined_with(all.subrange(start as int, i as int), delimiter),
        decreases stop - i,
    {
        let part = &parts[i];
        assert(all.subrange(start as int, i + 1).drop_last() =~= all.subrange(start as int, i as int));
        if i > start {
            out.push(delimiter);
        }
        let ghost base = out@;
        let mut j: usize = 0;
        while j < part.len()
            invariant
                j <= part@.len(),
                out@ == base + part@.take(j as int),
            decreases part@.len() - j,
        {
            out.push(part[j]);
            j += 1;
        }
        i += 1;
    }
}

/// One segment applied to the directories walked so far: an empty segment
/// and `.` stay where they are, `..` steps out of the last directory, and
/// any other segment steps into it.
pub open spec fn step_into(parts: Seq<Seq<char>>, segment: Seq<char>) -> Seq<Seq<char>> {
    if segment.len() == 0 || segment == seq!['.'] {
        parts
    } else if segment == seq!['.', '.'] {
        if parts.len() > 0 {
            parts.drop_last()
        } else {
            parts
        }
    } else {
        parts.push(segment)
    }
}

/// The segments of `segs` applied to `parts` one after the other.
pub open spec fn walk(parts: Seq<Seq<char>>, segs: Seq<Seq<char>>) -> Seq<Seq<char>>
    decreases segs.len(),
{
    if segs.len() == 0 {
        parts
    } else {
        step_into(walk(parts, segs.drop_last()), segs.last())
    }
}

/// A path in which no `.`, `..` or empty segment is left.
pub ghost struct PathView {
    pub absolute: bool,
    pub parts: Seq<Seq<char>>,
}

/// Whether the path `s` starts at the root.
pub open spec fn is_absolute(s: Seq<char>) -> bool {
    s.len() > 0 && s[0] == '/'
}

/// The path that `token` names when typed in the directory `cwd`: an
/// absolute token stands for itself, any other is walked from `cwd`.
pub open spec fn resolved_path(cwd: Seq<char>, token: Seq<char>) -> PathView {
    if is_absolute(token) {
        PathView { absolute: true, parts: walk(Seq::empty(), split(token, '/')) }
    } else {
        PathView {
            absolute: is_absolute(cwd),
            parts: walk(walk(Seq::empty(), split(cwd, '/')), split(token, '/')),
        }
    }
}

/// The text of a path: a leading `/` if it is absolute, then its parts.
pub open spec fn path_text(path: PathView) -> Seq<char> {
    if path.absolute {
        seq!['/'] + joined_with(path.parts, '/')
    } else {
        joined_with(path.parts, '/')
    }
}

/// The directory that holds `path`, for a path that has one.
pub open spec fn parent_path(path: PathView) -> PathView
    recommends
        path.parts.len() > 0,
{
    PathView { absolute: path.absolute, parts: path.parts.drop_last() }
}

/// The index just behind the last `/` of `s`, or 0 where it has none.
pub fn last_segment_start(s: &[char]) -> (r: usize)
    ensures
        r == piece_start(s@, '/', s@.len() as int),
        r <= s@.len(),
{
    let mut r: usize = 0;
    let mut i: usize = 0;
    while i < s.len()
        invariant
            i <= s@.len(),
            r <= i,
            r == piece_start(s@, '/', i as int),
        decreases s@.len() - i,
    {
        if s[i] == '/' {
            r = i + 1;
        }
        i += 1;
    }
    r
}

/// Applies one segment to the directories in `parts`.
fn apply_segment(parts: &mut Vec<Vec<char>>, segment: Vec<char>)
    ensures
        final(parts).deep_view() == step_into(old(parts).deep_view(), segment@),
{
    let n = segment.len();
    if n == 0 || (n == 1 && segment[0] == '.') {
        assert(n == 1 ==> segment@ =~= seq!['.']);
    } else if n == 2 && segment[0] == '.' && segment[1] == '.' {
        assert(segment@ =~= seq!['.', '.']);
        if parts.len() > 0 {
            parts.pop();
        }
    } else {
        let ghost pushed = segment@;
        assert(segment.deep_view() =~= pushed);
        parts.push(segment);
    }
}

/// Walks the path `s` from the directories in `parts`.
fn walk_from(parts: &mut Vec<Vec<char>>, s: &[char])
    ensures
        final(parts).deep_view() == walk(old(parts).deep_view(), split(s@, '/')),
{
    let ghost start = parts.deep_view();
    let mut current: Vec<char> = Vec::new();
    let mut i: usize = 0;
    while i < s.len()
        invariant
            i <= s@.len(),
            parts.deep_view() == walk(start, closed_pieces(s@, '/', i as int)),
            current@ == s@.subrange(piece_start(s@, '/', i as int), i as int),
            0 <= piece_start(s@, '/', i as int) <= i,
        decreases s@.len() - i,
    {
        if s[i] == '/' {
            let ghost closed = closed_pieces(s@, '/', i + 1);
            assert(closed.drop_last() =~= closed_pieces(s@, '/', i as int));
            let mut segment: Vec<char> = Vec::new();
            std::mem::swap(&mut segment, &mut current);
            apply_segment(parts, segment);
        } else {
            current.push(s[i]);
        }
        i += 1;
    }
    assert(split(s@, '/').drop_last() =~= closed_pieces(s@, '/', s@.len() as int));
    apply_segment(parts, current);
}

/// The parts of the path that `token` names when typed in `cwd`, and
/// whether that path is absolute.
pub fn resolve(cwd: &[char], token: &[char]) -> (r: (bool, Vec<Vec<char>>))
    ensures
        r.0 == resolved_path(cwd@, token@).absolute,
        r.1.deep_view() == resolved_path(cwd@, token@).parts,
{
    let mut parts: Vec<Vec<char>> = Vec::new();
    assert(parts.deep_view() =~= Seq::empty());
    if token.len() > 0 && token[0] == '/' {
        walk_from(&mut parts, token);
        (true, parts)
    } else {
        walk_from(&mut parts, cwd);
        walk_from(&mut parts, token);
        (cwd.len() > 0 && cwd[0] == '/', parts)
    }
}

/// The text of the path made of the first `count` of `parts`.
pub fn path_string(absolute: bool, parts: &[Vec<char>], count: usize) -> (r: String)
    requires
        count <= parts@.len(),
    ensures
        r@ == path_text(PathView { absolute, parts: parts.deep_view().take(count as int) }),
{
    let ghost all = parts.deep_view();
    let mut r = String::new();
    if absolute {
        push_char(&mut r, '/');
    }
    let ghost head = r@;
    let mut i: usize = 0;
    while i < count
        invariant
            i <= count <= parts@.len(),
            all == parts.deep_view(),
            r@ == head + joined_with(all.take(i as int), '/'),
        decreases count - i,
    {
        let part = &parts[i];
        assert(all.take(i + 1).drop_last() =~= all.take(i as int));
        if i > 0 {
            push_char(&mut r, '/');
        }
        let ghost base = r@;
        let mut j: usize = 0;
        while j < part.len()
            invariant
                j <= part@.len(),
                r@ == base + part@.take(j as int),
            decreases part@.len() - j,
        {
            push_char(&mut r, part[j]);
            j += 1;
        }
        i += 1;
    }
    r
}

} // verus!
