//! The section editor: finding a marker-delimited section in a sequence of
//! lines, and inserting, replacing or deleting it.
//!
//! A file is modelled as a `Seq<Seq<char>>`, one sequence of characters per
//! line. A marker is a line's full text; it delimits a section only where a
//! line equals it exactly.

use vstd::prelude::*;

verus! {

/// Both markers were found, but not in an order that delimits a section: the
/// end marker comes before the start marker, or one line is both.
#[derive(Debug, Clone, Copy, PartialEq, Eq)]
pub struct MalformedSection {
    /// Position of the first line equal to the start marker.
    pub start_index: usize,
    /// Position of the first line equal to the end marker.
    pub end_index: usize,
}

impl MalformedSection {
    /// The two positions as mathematical integers, start first.
    pub open spec fn positions(self) -> (int, int) {
        (self.start_index as int, self.end_index as int)
    }
}

/// `i` is the first position in `lines` whose line equals `marker`.
pub open spec fn is_first_match(lines: Seq<Seq<char>>, marker: Seq<char>, i: int) -> bool {
    &&& 0 <= i < lines.len()
    &&& lines[i] == marker
    &&& forall|j: int| 0 <= j < i ==> lines[j] != marker
}

/// Position of the first line equal to `marker`, if there is one.
pub open spec fn first_match(lines: Seq<Seq<char>>, marker: Seq<char>) -> Option<int> {
    if lines.contains(marker) {
        Some(choose|i: int| is_first_match(lines, marker, i))
    } else {
        None
    }
}

/// Positions of the first line equal to `start` and of the first line equal
/// to `end`, each searched over the whole of `lines`, in whatever order they
/// stand. `None` where either marker is absent.
pub open spec fn locate(lines: Seq<Seq<char>>, start: Seq<char>, end: Seq<char>) -> Option<
    (int, int),
> {
    match (first_match(lines, start), first_match(lines, end)) {
        (Some(a), Some(b)) => Some((a, b)),
        _ => None,
    }
}

/// A new section appended to `lines`: the start marker, the body, the end marker.
pub open spec fn with_new_section(
    lines: Seq<Seq<char>>,
    start: Seq<char>,
    end: Seq<char>,
    body: Seq<Seq<char>>,
) -> Seq<Seq<char>> {
    lines + seq![start] + body + seq![end]
}

/// `lines` with `body` in place of what stood strictly between positions `a` and `b`.
pub open spec fn with_body_replaced(
    lines: Seq<Seq<char>>,
    a: int,
    b: int,
    body: Seq<Seq<char>>,
) -> Seq<Seq<char>>
    recommends
        0 <= a < b < lines.len(),
{
    lines.subrange(0, a + 1) + body + lines.subrange(b, lines.len() as int)
}

/// `lines` without positions `a` through `b`, both included.
pub open spec fn without_range(lines: Seq<Seq<char>>, a: int, b: int) -> Seq<Seq<char>>
    recommends
        0 <= a <= b < lines.len(),
{
    lines.subrange(0, a) + lines.subrange(b + 1, lines.len() as int)
}

/// Insert-or-replace. Where both markers are found with the start marker
/// first, the lines between them give way to `body`; where either is absent,
/// a new section is appended. Markers found in any other order are an error
/// that carries their positions.
pub open spec fn upsert(
    lines: Seq<Seq<char>>,
    start: Seq<char>,
    end: Seq<char>,
    body: Seq<Seq<char>>,
) -> Result<Seq<Seq<char>>, (int, int)> {
    match locate(lines, start, end) {
        Some((a, b)) => if a < b {
            Ok(with_body_replaced(lines, a, b, body))
        } else {
            Err((a, b))
        },
        None => Ok(with_new_section(lines, start, end, body)),
    }
}

/// Delete. Where both markers are found, the lines from the start marker
/// through the end marker leave; where either is absent, nothing changes.
/// An end marker found before the start marker is an error that carries
/// their positions.
pub open spec fn remove(lines: Seq<Seq<char>>, start: Seq<char>, end: Seq<char>) -> Result<
    Seq<Seq<char>>,
    (int, int),
> {
    match locate(lines, start, end) {
        Some((a, b)) => if a <= b {
            Ok(without_range(lines, a, b))
        } else {
            Err((a, b))
        },
        None => Ok(lines),
    }
}

/// What `first_match` returns is the first match, and it returns one exactly
/// where the marker occurs.
pub proof fn lemma_first_match(lines: Seq<Seq<char>>, marker: Seq<char>)
    ensures
        match first_match(lines, marker) {
            Some(i) => is_first_match(lines, marker, i),
            None => forall|j: int| 0 <= j < lines.len() ==> lines[j] != marker,
        },
{
    if lines.contains(marker) {
        let k = choose|k: int| 0 <= k < lines.len() && lines[k] == marker;
        lemma_some_first_match(lines, marker, k);
    }
}

/// Below any position that holds the marker there is a first one.
proof fn lemma_some_first_match(lines: Seq<Seq<char>>, marker: Seq<char>, k: int)
    requires
        0 <= k < lines.len(),
        lines[k] == marker,
    ensures
        exists|i: int| is_first_match(lines, marker, i),
    decreases k,
{
    if exists|j: int| 0 <= j < k && lines[j] == marker {
        let j = choose|j: int| 0 <= j < k && lines[j] == marker;
        lemma_some_first_match(lines, marker, j);
    } else {
        assert(is_first_match(lines, marker, k));
    }
}

/// A first match is the one that `first_match` returns.
pub proof fn lemma_first_match_unique(lines: Seq<Seq<char>>, marker: Seq<char>, i: int)
    requires
        is_first_match(lines, marker, i),
    ensures
        first_match(lines, marker) == Some(i),
{
}

/// Position of the first line equal to `marker`.
fn find_line(lines: &[String], marker: &str) -> (found: Option<usize>)
    ensures
        match found {
            Some(i) => {
                &&& first_match(lines.deep_view(), marker@) == Some(i as int)
                &&& is_first_match(lines.deep_view(), marker@, i as int)
            },
            None => {
                &&& first_match(lines.deep_view(), marker@).is_none()
                &&& !lines.deep_view().contains(marker@)
            },
        },
{
    let wanted = marker.to_owned();
    let mut i: usize = 0;
    while i < lines.len()
        invariant
            i <= lines.len(),
            wanted@ == marker@,
            forall|j: int| 0 <= j < i ==> lines.deep_view()[j] != marker@,
        decreases lines.len() - i,
    {
        if lines[i] == wanted {
            proof {
                lemma_first_match_unique(lines.deep_view(), marker@, i as int);
            }
            return Some(i);
        }
        i += 1;
    }
    None
}

/// Finds the section that the two markers delimit: the position of the first
/// line equal to `start_marker` and that of the first line equal to
/// `end_marker`, whichever comes first in the file.
pub fn find_section(lines: &[String], start_marker: &str, end_marker: &str) -> (found: Option<
    (usize, usize),
>)
    ensures
        match found {
            Some((a, b)) => {
                &&& locate(lines.deep_view(), start_marker@, end_marker@) == Some(
                    (a as int, b as int),
                )
                &&& is_first_match(lines.deep_view(), start_marker@, a as int)
                &&& is_first_match(lines.deep_view(), end_marker@, b as int)
            },
            None => {
                &&& locate(lines.deep_view(), start_marker@, end_marker@).is_none()
                &&& !lines.deep_view().contains(start_marker@) || !lines.deep_view().contains(
                    end_marker@,
                )
            },
        },
{
    let start = match find_line(lines, start_marker) {
        Some(i) => i,
        None => { return None; },
    };
    let end = match find_line(lines, end_marker) {
        Some(i) => i,
        None => { return None; },
    };
    Some((start, end))
}

/// Appends a copy of each line of `extra` to `lines`, in order.
fn append_lines(lines: &mut Vec<String>, extra: &[String])
    ensures
        final(lines).deep_view() == old(lines).deep_view() + extra.deep_view(),
{
    let ghost before = lines.deep_view();
    let mut i: usize = 0;
    while i < extra.len()
        invariant
            i <= extra.len(),
            lines.deep_view() == before + extra.deep_view().subrange(0, i as int),
        decreases extra.len() - i,
    {
        let ghost sofar = lines.deep_view();
        let line = extra[i].clone();
        lines.push(line);
        assert(lines.deep_view() == sofar.push(extra.deep_view()[i as int]));
        i += 1;
    }
}

/// Inserts or replaces the section that the two markers delimit.
///
/// Where both markers are found, the start marker first, the lines strictly
/// between them are replaced by `body` and everything else stays. Where either
/// marker is absent, a new section is appended: the start marker, `body`, the
/// end marker. Where both are found but the start marker does not come first,
/// nothing is produced but the error, which carries the two positions.
pub fn upsert_section(
    lines: Vec<String>,
    start_marker: &str,
    end_marker: &str,
    body: &[String],
) -> (result: Result<Vec<String>, MalformedSection>)
    ensures
        match result {
            Ok(out) => upsert(lines.deep_view(), start_marker@, end_marker@, body.deep_view())
                == Ok::<Seq<Seq<char>>, (int, int)>(out.deep_view()),
            Err(e) => upsert(lines.deep_view(), start_marker@, end_marker@, body.deep_view())
                == Err::<Seq<Seq<char>>, (int, int)>(e.positions()),
        },
{
    let ghost given = lines.deep_view();
    let mut lines = lines;
    match find_section(lines.as_slice(), start_marker, end_marker) {
        Some((start, end)) => {
            if start >= end {
                return Err(MalformedSection { start_index: start, end_index: end });
            }
            let mut tail = lines.split_off(end);
            lines.truncate(start + 1);
            assert(lines.deep_view() == given.subrange(0, start + 1));
            append_lines(&mut lines, body);
            let ghost head = lines.deep_view();
            lines.append(&mut tail);
            assert(lines.deep_view() == head + given.subrange(
                end as int,
                given.len() as int,
            ));
        },
        None => {
            lines.push(start_marker.to_owned());
            assert(lines.deep_view() == given + seq![start_marker@]);
            append_lines(&mut lines, body);
            let ghost head = lines.deep_view();
            lines.push(end_marker.to_owned());
            assert(lines.deep_view() == head + seq![end_marker@]);
        },
    }
    Ok(lines)
}

/// Deletes the section that the two markers delimit, markers included.
///
/// Where either marker is absent the lines come back unchanged. Where the end
/// marker is found before the start marker, nothing is produced but the
/// error, which carries the two positions.
pub fn remove_section(lines: Vec<String>, start_marker: &str, end_marker: &str) -> (result: Result<
    Vec<String>,
    MalformedSection,
>)
    ensures
        match result {
            Ok(out) => remove(lines.deep_view(), start_marker@, end_marker@) == Ok::<
                Seq<Seq<char>>,
                (int, int),
            >(out.deep_view()),
            Err(e) => remove(lines.deep_view(), start_marker@, end_marker@) == Err::<
                Seq<Seq<char>>,
                (int, int),
            >(e.positions()),
        },
{
    let ghost given = lines.deep_view();
    let mut lines = lines;
    match find_section(lines.as_slice(), start_marker, end_marker) {
        Some((start, end)) => {
            if start > end {
                return Err(MalformedSection { start_index: start, end_index: end });
            }
            assert(end < lines.len());
            let mut tail = lines.split_off(end + 1);
            lines.truncate(start);
            assert(lines.deep_view() == given.subrange(0, start as int));
            let ghost head = lines.deep_view();
            lines.append(&mut tail);
            assert(lines.deep_view() == head + given.subrange(end + 1, given.len() as int));
        },
        None => {},
    }
    Ok(lines)
}

} // verus!
