//! The hot spot of an SVG cursor, read from a `Hotspot: x,y` comment.

use vstd::prelude::*;
use crate::seqs::{first_match, lemma_first_match_at, lemma_first_match_none};
use crate::text::{find, find_in_range, parse_u32, parse_u32_range, text_chars, trim, trim_range};

verus! {

/// The marker that introduces the hot spot.
pub open spec fn hotspot_marker() -> Seq<char> {
    seq!['H', 'o', 't', 's', 'p', 'o', 't', ':']
}

/// Characters equal to `c`.
pub open spec fn is_char(c: char) -> spec_fn(char) -> bool {
    |x: char| x == c
}

/// The lines of `s`: the pieces between line feeds, where a line feed at
/// the very end ends the last line instead of starting an empty one.
pub open spec fn lines(s: Seq<char>) -> Seq<Seq<char>>
    decreases s.len(),
{
    if s.len() == 0 {
        seq![]
    } else {
        match first_match(s, is_char('\n')) {
            Some(k) => {
                if 0 <= k < s.len() {
                    seq![s.take(k)] + lines(s.skip(k + 1))
                } else {
                    seq![s]
                }
            },
            None => seq![s],
        }
    }
}

/// One coordinate: the trimmed text as a number (0 when it is none),
/// capped at 128.
pub open spec fn coordinate(s: Seq<char>) -> u32 {
    let v = match parse_u32(trim(s)) {
        Some(x) => x,
        None => 0,
    };
    if v < 128 {
        v
    } else {
        128
    }
}

/// The hot spot that a line gives: after the first `Hotspot:` in it, the
/// trimmed rest split at its first comma.
pub open spec fn hotspot_of_line(line: Seq<char>) -> Option<(u32, u32)> {
    match find(line, hotspot_marker()) {
        None => None,
        Some(p) => {
            let rest = trim(line.skip(p + 8));
            match first_match(rest, is_char(',')) {
                None => None,
                Some(k) => Some((coordinate(rest.take(k)), coordinate(rest.skip(k + 1)))),
            }
        },
    }
}

/// The hot spot of the first line that gives one, else (1, 1).
pub open spec fn hotspot_in_lines(ls: Seq<Seq<char>>) -> (u32, u32)
    decreases ls.len(),
{
    if ls.len() == 0 {
        (1, 1)
    } else {
        match hotspot_of_line(ls[0]) {
            Some(h) => h,
            None => hotspot_in_lines(ls.drop_first()),
        }
    }
}

/// The first occurrence of `c` in the range `[lo, hi)` of `v`, as an index
/// into that range.
fn find_char(v: &Vec<char>, lo: usize, hi: usize, c: char) -> (r: Option<usize>)
    requires
        lo <= hi <= v@.len(),
    ensures
        match first_match(v@.subrange(lo as int, hi as int), is_char(c)) {
            Some(k) => r == Some(k as usize),
            None => r is None,
        },
{
    let ghost s = v@.subrange(lo as int, hi as int);
    let mut i = lo;
    while i < hi
        invariant
            lo <= i <= hi <= v@.len(),
            s == v@.subrange(lo as int, hi as int),
            forall|j: int| 0 <= j < i - lo ==> !is_char(c)(#[trigger] s[j]),
        decreases hi - i,
    {
        if v[i] == c {
            proof {
                lemma_first_match_at(s, is_char(c), i - lo);
            }
            return Some(i - lo);
        }
        i += 1;
    }
    proof {
        lemma_first_match_none(s, is_char(c));
    }
    None
}

/// One coordinate from the range `[lo, hi)` of `v`.
fn coordinate_in(v: &Vec<char>, lo: usize, hi: usize) -> (r: u32)
    requires
        lo <= hi <= v@.len(),
    ensures
        r == coordinate(v@.subrange(lo as int, hi as int)),
{
    let (a, b) = trim_range(v, lo, hi);
    let x = match parse_u32_range(v, a, b) {
        Some(x) => x,
        None => 0,
    };
    if x < 128 {
        x
    } else {
        128
    }
}

/// The hot spot that the line `[lo, hi)` of `v` gives.
fn hotspot_of_range(v: &Vec<char>, lo: usize, hi: usize, marker: &Vec<char>) -> (r: Option<(u32, u32)>)
    requires
        lo <= hi <= v@.len(),
        marker@ == hotspot_marker(),
    ensures
        r == hotspot_of_line(v@.subrange(lo as int, hi as int)),
{
    let ghost line = v@.subrange(lo as int, hi as int);
    let p = match find_in_range(v, lo, hi, marker) {
        Some(p) => p,
        None => return None,
    };
    proof {
        crate::text::lemma_find_in_bounds(line, hotspot_marker());
    }
    let start = lo + p + 8;
    assert(line.skip(p + 8) =~= v@.subrange(start as int, hi as int));
    let (a, b) = trim_range(v, start, hi);
    let ghost rest = v@.subrange(a as int, b as int);
    let k = match find_char(v, a, b, ',') {
        Some(k) => k,
        None => return None,
    };
    proof {
        crate::seqs::lemma_first_match_props(rest, is_char(','));
    }
    assert(rest.take(k as int) =~= v@.subrange(a as int, (a + k) as int));
    assert(rest.skip(k + 1) =~= v@.subrange((a + k + 1) as int, b as int));
    let x = coordinate_in(v, a, a + k);
    let y = coordinate_in(v, a + k + 1, b);
    Some((x, y))
}

/// The hot spot given by the first line of `svg_data` that holds
/// `Hotspot:` followed by a comma-separated pair; each coordinate is the
/// number written there (0 when it is none) capped at 128. Without such a
/// line the hot spot is (1, 1).
pub fn parse_hotspot(svg_data: &str) -> (r: (u32, u32))
    ensures
        r == hotspot_in_lines(lines(svg_data@)),
        r.0 <= 128 && r.1 <= 128,
{
    let v = text_chars(svg_data);
    let marker = vec!['H', 'o', 't', 's', 'p', 'o', 't', ':'];
    assert(marker@ =~= hotspot_marker());
    let n = v.len();
    let mut pos: usize = 0;
    assert(v@.skip(0) =~= v@);
    while pos < n
        invariant
            pos <= n == v@.len(),
            v@ == svg_data@,
            marker@ == hotspot_marker(),
            hotspot_in_lines(lines(svg_data@)) == hotspot_in_lines(lines(v@.skip(pos as int))),
        decreases n - pos,
    {
        let ghost t = v@.skip(pos as int);
        let mut end = pos;
        while end < n && v[end] != '\n'
            invariant
                pos <= end <= n == v@.len(),
                forall|j: int| pos <= j < end ==> v@[j] != '\n',
            decreases n - end,
        {
            end += 1;
        }
        proof {
            assert forall|j: int| 0 <= j < end - pos implies !is_char('\n')(#[trigger] t[j]) by {
                assert(t[j] == v@[pos + j]);
            }
            if end < n {
                assert(t[end - pos] == v@[end as int]);
                lemma_first_match_at(t, is_char('\n'), end - pos);
                assert(t.take(end - pos) =~= v@.subrange(pos as int, end as int));
                assert(t.skip(end - pos + 1) =~= v@.skip(end + 1));
            } else {
                lemma_first_match_none(t, is_char('\n'));
                assert(t =~= v@.subrange(pos as int, end as int));
            }
            assert(lines(t)[0] == v@.subrange(pos as int, end as int));
        }
        let h = hotspot_of_range(&v, pos, end, &marker);
        if let Some(p) = h {
            return p;
        }
        if end == n {
            proof {
                assert(lines(t).drop_first() =~= Seq::<Seq<char>>::empty());
                assert(hotspot_in_lines(Seq::<Seq<char>>::empty()) == (1u32, 1u32));
            }
            return (1, 1);
        }
        proof {
            assert(lines(t).drop_first() =~= lines(v@.skip(end + 1)));
        }
        pos = end + 1;
    }
    proof {
        assert(v@.skip(pos as int) =~= Seq::<char>::empty());
    }
    (1, 1)
}

/// The hot spot comes from the first line that gives one; when no line
/// does, it is (1, 1). A coordinate never exceeds 128.
pub proof fn lemma_hotspot_from_first_giving_line(ls: Seq<Seq<char>>)
    ensures
        (forall|i: int| 0 <= i < ls.len() ==> #[trigger] hotspot_of_line(ls[i]) is None) ==> hotspot_in_lines(ls)
            == (1u32, 1u32),
        forall|i: int|
            0 <= i < ls.len() && #[trigger] hotspot_of_line(ls[i]) is Some && (forall|j: int|
                0 <= j < i ==> hotspot_of_line(ls[j]) is None) ==> hotspot_in_lines(ls) == hotspot_of_line(
                ls[i],
            )->Some_0,
        hotspot_in_lines(ls).0 <= 128 && hotspot_in_lines(ls).1 <= 128,
    decreases ls.len(),
{
    if ls.len() > 0 {
        let t = ls.drop_first();
        lemma_hotspot_from_first_giving_line(t);
        if forall|i: int| 0 <= i < ls.len() ==> #[trigger] hotspot_of_line(ls[i]) is None {
            assert forall|i: int| 0 <= i < t.len() implies #[trigger] hotspot_of_line(t[i]) is None by {
                assert(t[i] == ls[i + 1]);
                assert(hotspot_of_line(ls[i + 1]) is None);
            }
        }
        assert forall|i: int|
            0 <= i < ls.len() && #[trigger] hotspot_of_line(ls[i]) is Some && (forall|j: int|
                0 <= j < i ==> hotspot_of_line(ls[j]) is None) implies hotspot_in_lines(ls) == hotspot_of_line(
            ls[i],
        )->Some_0 by {
            if i > 0 {
                assert(hotspot_of_line(ls[0]) is None);
                assert(t[i - 1] == ls[i]);
                assert forall|j: int| 0 <= j < i - 1 implies hotspot_of_line(t[j]) is None by {
                    assert(t[j] == ls[j + 1]);
                }
            }
        }
        if let Some(h) = hotspot_of_line(ls[0]) {
            lemma_line_coordinates_capped(ls[0]);
        }
    }
}

proof fn lemma_line_coordinates_capped(line: Seq<char>)
    ensures
        hotspot_of_line(line) matches Some(h) ==> h.0 <= 128 && h.1 <= 128,
{
}

} // verus!
