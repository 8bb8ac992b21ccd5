//! What holds of the section editor over all files, markers and bodies.

use vstd::prelude::*;
use crate::section::{
    first_match, is_first_match, lemma_first_match, lemma_first_match_unique, locate, remove,
    upsert, with_body_replaced, with_new_section, without_range,
};

verus! {

/// The lines strictly between the two markers, where both are found with the
/// start marker first.
pub open spec fn section_body(lines: Seq<Seq<char>>, start: Seq<char>, end: Seq<char>) -> Option<
    Seq<Seq<char>>,
> {
    match locate(lines, start, end) {
        Some((a, b)) => if a < b {
            Some(lines.subrange(a + 1, b))
        } else {
            None
        },
        None => None,
    }
}

/// Where `marker` first stands in `lines`, or the length of `lines` where no
/// line of it equals `marker`.
pub open spec fn first_or_len(lines: Seq<Seq<char>>, marker: Seq<char>) -> int {
    match first_match(lines, marker) {
        Some(i) => i,
        None => lines.len() as int,
    }
}

/// The first match in a concatenation is the first match in its left part,
/// or else the first match in its right part, shifted.
proof fn lemma_first_match_concat(left: Seq<Seq<char>>, right: Seq<Seq<char>>, marker: Seq<char>)
    ensures
        first_match(left + right, marker) == match first_match(left, marker) {
            Some(i) => Some(i),
            None => match first_match(right, marker) {
                Some(j) => Some(left.len() + j),
                None => None,
            },
        },
{
    let whole = left + right;
    lemma_first_match(left, marker);
    lemma_first_match(right, marker);
    match (first_match(left, marker), first_match(right, marker)) {
        (Some(i), _) => lemma_first_match_unique(whole, marker, i),
        (None, Some(j)) => lemma_first_match_unique(whole, marker, left.len() + j),
        (None, None) => {},
    }
}

/// The first match in a single line.
proof fn lemma_first_match_single(line: Seq<char>, marker: Seq<char>)
    ensures
        first_match(seq![line], marker) == if line == marker {
            Some(0int)
        } else {
            None
        },
{
    if line == marker {
        lemma_first_match_unique(seq![line], marker, 0);
    }
}

/// Where the markers are found after a body was replaced: the start marker
/// where it was, the end marker at the first line of the new body that equals
/// it, or else right behind the body.
proof fn lemma_locate_replaced(
    lines: Seq<Seq<char>>,
    start: Seq<char>,
    end: Seq<char>,
    body: Seq<Seq<char>>,
    a: int,
    b: int,
)
    requires
        locate(lines, start, end) == Some((a, b)),
        a < b,
    ensures
        0 <= a < b < lines.len(),
        locate(with_body_replaced(lines, a, b, body), start, end) == Some(
            (a, a + 1 + first_or_len(body, end)),
        ),
{
    lemma_first_match(lines, start);
    lemma_first_match(lines, end);
    let head = lines.subrange(0, a + 1);
    let tail = lines.subrange(b, lines.len() as int);
    lemma_first_match_unique(head, start, a);
    lemma_first_match_concat(head, body, start);
    lemma_first_match_concat(head + body, tail, start);
    lemma_first_match_unique(tail, end, 0);
    lemma_first_match_concat(head, body, end);
    lemma_first_match_concat(head + body, tail, end);
}

/// Where the markers are found after a section was appended. The start
/// marker is found where it stood before, or else at the head of the new
/// section. The end marker is found where it stood before, or else at the
/// first line of the new section that equals it.
proof fn lemma_locate_appended(
    lines: Seq<Seq<char>>,
    start: Seq<char>,
    end: Seq<char>,
    body: Seq<Seq<char>>,
)
    ensures
        first_match(with_new_section(lines, start, end, body), start) == Some(
            first_or_len(lines, start),
        ),
        first_match(with_new_section(lines, start, end, body), end) == Some(
            match first_match(lines, end) {
                Some(b) => b,
                None => if start == end {
                    lines.len() as int
                } else {
                    lines.len() + 1 + first_or_len(body, end)
                },
            },
        ),
{
    lemma_first_match_single(start, start);
    lemma_first_match_single(end, end);
    lemma_first_match_concat(lines, seq![start], start);
    lemma_first_match_concat(lines + seq![start], body, start);
    lemma_first_match_concat((lines + seq![start]) + body, seq![end], start);
    lemma_first_match_concat(lines, seq![start], end);
    lemma_first_match_concat(lines + seq![start], body, end);
    lemma_first_match_concat((lines + seq![start]) + body, seq![end], end);
}

/// Round trip. After an upsert, locating the section again finds the body
/// that was supplied, exactly. This holds of a file that had neither marker,
/// and of one that had both with the start marker first, provided the two
/// markers differ and no line of the body equals the end marker.
pub proof fn lemma_upsert_then_locate(
    lines: Seq<Seq<char>>,
    start: Seq<char>,
    end: Seq<char>,
    body: Seq<Seq<char>>,
)
    requires
        start != end,
        !body.contains(end),
        lines.contains(start) <==> lines.contains(end),
    ensures
        upsert(lines, start, end, body) matches Ok(once) ==> {
            &&& locate(once, start, end) == Some(
                (
                    first_or_len(lines, start),
                    first_or_len(lines, start) + 1 + body.len(),
                ),
            )
            &&& section_body(once, start, end) == Some(body)
        },
{
    match locate(lines, start, end) {
        Some((a, b)) => {
            if a < b {
                lemma_locate_replaced(lines, start, end, body, a, b);
            }
        },
        None => {
            lemma_locate_appended(lines, start, end, body);
        },
    }
}

/// Idempotence. A second upsert with the same markers and the same body
/// changes nothing that the first one left. This holds of a file that had
/// neither marker, and of one that had both with the start marker first,
/// provided the two markers differ and no line of the body equals the end
/// marker.
pub proof fn lemma_upsert_idempotent(
    lines: Seq<Seq<char>>,
    start: Seq<char>,
    end: Seq<char>,
    body: Seq<Seq<char>>,
)
    requires
        start != end,
        !body.contains(end),
        lines.contains(start) <==> lines.contains(end),
    ensures
        upsert(lines, start, end, body) matches Ok(once) ==> upsert(once, start, end, body) == Ok::<
            Seq<Seq<char>>,
            (int, int),
        >(once),
{
    if let Ok(once) = upsert(lines, start, end, body) {
        lemma_upsert_then_locate(lines, start, end, body);
        let p = first_or_len(lines, start);
        assert(with_body_replaced(once, p, p + 1 + body.len(), body) == once) by {
            lemma_first_match(lines, start);
        }
    }
}

/// The conditions of idempotence are needed. A second upsert reproduces what
/// the first one left only where the two markers differ, no line of the body
/// equals the end marker, and the file had both markers or neither.
pub proof fn lemma_upsert_idempotent_only_if(
    lines: Seq<Seq<char>>,
    start: Seq<char>,
    end: Seq<char>,
    body: Seq<Seq<char>>,
    once: Seq<Seq<char>>,
)
    requires
        upsert(lines, start, end, body) == Ok::<Seq<Seq<char>>, (int, int)>(once),
        upsert(once, start, end, body) == Ok::<Seq<Seq<char>>, (int, int)>(once),
    ensures
        start != end,
        !body.contains(end),
        lines.contains(start) <==> lines.contains(end),
{
    lemma_first_match(lines, start);
    lemma_first_match(lines, end);
    lemma_first_match(body, end);
    let j = first_or_len(body, end);
    match locate(lines, start, end) {
        Some((a, b)) => {
            // The second upsert cuts at the first end marker. Where that one
            // stands in the body, the result grows.
            lemma_locate_replaced(lines, start, end, body, a, b);
            assert(with_body_replaced(once, a, a + 1 + j, body).len() == once.len() + body.len()
                - j);
        },
        None => {
            let n = lines.len() as int;
            lemma_locate_appended(lines, start, end, body);
            if lines.contains(start) {
                // The second upsert works from the old start marker, and so
                // puts an end marker where the first result has none.
                let a = first_match(lines, start).unwrap();
                let twice = with_body_replaced(once, a, n + 1 + j, body);
                assert(twice[a + 1 + j] == end);
                assert(once[a + 1 + j] != end);
            } else if !lines.contains(end) && start != end {
                // As above: an end marker in the body makes the result grow.
                assert(with_body_replaced(once, n, n + 1 + j, body).len() == once.len()
                    + body.len() - j);
            }
        },
    }
}

/// Removal undoes an upsert on a fresh file. Where the file holds neither
/// marker, the two markers differ and no line of the body equals the end
/// marker, upserting the section and then removing it gives back the file as
/// it was, line for line.
pub proof fn lemma_remove_undoes_upsert(
    lines: Seq<Seq<char>>,
    start: Seq<char>,
    end: Seq<char>,
    body: Seq<Seq<char>>,
)
    requires
        !lines.contains(start),
        !lines.contains(end),
        start != end,
        !body.contains(end),
    ensures
        upsert(lines, start, end, body) == Ok::<Seq<Seq<char>>, (int, int)>(
            with_new_section(lines, start, end, body),
        ),
        remove(with_new_section(lines, start, end, body), start, end) == Ok::<
            Seq<Seq<char>>,
            (int, int),
        >(lines),
{
    lemma_locate_appended(lines, start, end, body);
    let once = with_new_section(lines, start, end, body);
    let n = lines.len() as int;
    assert(without_range(once, n, n + 1 + body.len()) == lines);
}

/// The conditions of the round trip and of the undoing are needed. On a file
/// that holds neither marker, a section that was upserted is found again with
/// its body, or is removed without trace, only where the two markers differ
/// and no line of the body equals the end marker.
pub proof fn lemma_fresh_upsert_only_if(
    lines: Seq<Seq<char>>,
    start: Seq<char>,
    end: Seq<char>,
    body: Seq<Seq<char>>,
)
    requires
        !lines.contains(start),
        !lines.contains(end),
        section_body(with_new_section(lines, start, end, body), start, end) == Some(body)
            || remove(with_new_section(lines, start, end, body), start, end) == Ok::<
            Seq<Seq<char>>,
            (int, int),
        >(lines),
    ensures
        start != end,
        !body.contains(end),
{
    let once = with_new_section(lines, start, end, body);
    let n = lines.len() as int;
    let j = first_or_len(body, end);
    lemma_locate_appended(lines, start, end, body);
    lemma_first_match(body, end);
    if start == end {
        // One line is both markers: nothing lies between, and it alone leaves.
        assert(locate(once, start, end) == Some((n, n)));
        assert(without_range(once, n, n).len() == n + body.len() + 1);
    } else if body.contains(end) {
        // The section ends at the body's own end marker.
        assert(locate(once, start, end) == Some((n, n + 1 + j)));
        assert(once.subrange(n + 1, n + 1 + j).len() == j);
        assert(without_range(once, n, n + 1 + j).len() == n + body.len() - j);
    }
}

/// Removal of an absent section changes nothing. Where the file lacks the
/// start marker or the end marker, removing the section gives back the file
/// as it was.
pub proof fn lemma_remove_absent(lines: Seq<Seq<char>>, start: Seq<char>, end: Seq<char>)
    requires
        !lines.contains(start) || !lines.contains(end),
    ensures
        remove(lines, start, end) == Ok::<Seq<Seq<char>>, (int, int)>(lines),
{
}

/// Replacement leaves the surroundings alone. Where both markers are found,
/// at `a` and `b` with `a < b`, the upsert keeps every line up to and
/// including the start marker where it was, puts the body right behind it,
/// and keeps every line from the end marker on, in order, the end marker now
/// at `a + 1 + body.len()`.
pub proof fn lemma_upsert_keeps_surroundings(
    lines: Seq<Seq<char>>,
    start: Seq<char>,
    end: Seq<char>,
    body: Seq<Seq<char>>,
    a: int,
    b: int,
)
    requires
        locate(lines, start, end) == Some((a, b)),
        a < b,
    ensures
        upsert(lines, start, end, body) matches Ok(once) && {
            &&& 0 <= a < b < lines.len()
            &&& once.len() == lines.len() - (b - a - 1) + body.len()
            &&& forall|i: int| 0 <= i <= a ==> once[i] == lines[i]
            &&& forall|k: int| 0 <= k < body.len() ==> once[a + 1 + k] == body[k]
            &&& forall|i: int|
                b <= i < lines.len() ==> once[a + 1 + body.len() + (i - b)] == lines[i]
            &&& once[a] == start
            &&& once[a + 1 + body.len()] == end
        },
{
    lemma_first_match(lines, start);
    lemma_first_match(lines, end);
}

} // verus!
