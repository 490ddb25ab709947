//! The `Link` header that GitHub uses for pagination.

use vstd::prelude::*;

use crate::text::{
    char_pos, chars_of, contains_block, find_char, lemma_char_pos, string_of, trim,
    trim_bounds, vec_contains_block,
};

verus! {

/// What one comma-separated part of a `Link` header says.
pub enum LinkPart {
    /// It names the next page: this address.
    Next(Seq<char>),
    /// It says `rel="next"` but lacks `<` or `>`: the header is unusable.
    Broken,
    /// Look at the following parts.
    Skip,
}

/// What the (untrimmed) part `raw` says.
pub open spec fn link_part(raw: Seq<char>) -> LinkPart {
    let seg = trim(raw);
    if !contains_block(seg, "rel=\"next\""@) {
        LinkPart::Skip
    } else {
        let lt = char_pos(seg, '<');
        let gt = char_pos(seg, '>');
        if lt < 0 || gt < 0 {
            LinkPart::Broken
        } else if gt > lt + 1 {
            LinkPart::Next(seg.subrange(lt + 1, gt))
        } else {
            LinkPart::Skip
        }
    }
}

/// The next page's address in `header`: the first part with `rel="next"` and a non-empty
/// `<...>`; none where such a part lacks `<` or `>` before one is found.
pub open spec fn next_link(header: Seq<char>) -> Option<Seq<char>>
    decreases header.len(),
{
    let comma = char_pos(header, ',');
    let raw = if comma < 0 {
        header
    } else {
        header.take(comma)
    };
    match link_part(raw) {
        LinkPart::Next(url) => Some(url),
        LinkPart::Broken => None,
        LinkPart::Skip => if comma < 0 {
            None
        } else {
            proof {
                lemma_char_pos(header, ',');
            }
            next_link(header.skip(comma + 1))
        },
    }
}

/// What one part says, read from `v[lo..hi]`.
fn read_part(v: &Vec<char>, lo: usize, hi: usize) -> (r: (u8, Option<String>))
    requires
        lo <= hi <= v@.len(),
    ensures
        match link_part(v@.subrange(lo as int, hi as int)) {
            LinkPart::Next(url) => r.0 == 0 && r.1 is Some && r.1->0@ == url,
            LinkPart::Broken => r.0 == 1,
            LinkPart::Skip => r.0 == 2,
        },
{
    let raw = string_of(v, lo, hi);
    let raw_v = chars_of(raw.as_str());
    let (a, b) = trim_bounds(&raw_v);
    let seg_s = string_of(&raw_v, a, b);
    let seg = chars_of(seg_s.as_str());
    let marker = chars_of("rel=\"next\"");
    if !vec_contains_block(&seg, &marker) {
        return (2, None);
    }
    let lt = find_char(&seg, '<');
    let gt = find_char(&seg, '>');
    proof {
        lemma_char_pos(seg@, '<');
        lemma_char_pos(seg@, '>');
    }
    match (lt, gt) {
        (Some(i), Some(j)) => {
            if j > i + 1 {
                (0, Some(string_of(&seg, i + 1, j)))
            } else {
                (2, None)
            }
        },
        _ => (1, None),
    }
}

/// The next page's address in a `Link` header.
pub fn link_next(header: Option<&str>) -> (r: Option<String>)
    ensures
        r.deep_view() == match header {
            Some(h) => next_link(h@),
            None => None,
        },
{
    match header {
        Some(h) => next_link_in(h),
        None => None,
    }
}

/// The next page's address in the text of a `Link` header.
fn next_link_in(header: &str) -> (r: Option<String>)
    ensures
        r.deep_view() == next_link(header@),
{
    let v = chars_of(header);
    let n = v.len();
    let mut lo: usize = 0;
    assert(v@.skip(0) =~= v@);
    loop
        invariant
            lo <= n == v@.len(),
            v@ == header@,
            next_link(header@) == next_link(v@.skip(lo as int)),
        decreases n - lo,
    {
        let ghost rest = v@.skip(lo as int);
        let mut comma: Option<usize> = None;
        let mut k = lo;
        while k < n
            invariant_except_break
                comma is None,
            invariant
                lo <= k <= n == v@.len(),
                rest == v@.skip(lo as int),
                forall|j: int| lo <= j < k ==> v@[j] != ',',
            ensures
                match comma {
                    Some(c) => lo <= c < n && v@[c as int] == ',' && forall|j: int|
                        lo <= j < c ==> v@[j] != ',',
                    None => forall|j: int| lo <= j < n ==> v@[j] != ',',
                },
            decreases n - k,
        {
            if v[k] == ',' {
                comma = Some(k);
                break ;
            }
            k = k + 1;
        }
        proof {
            lemma_char_pos(rest, ',');
        }
        let hi = match comma {
            Some(c) => c,
            None => n,
        };
        proof {
            match comma {
                Some(c) => {
                    assert(rest[c - lo] == ',');
                    assert(rest.contains(',')) by { assert(rest[c - lo] == ','); }
                    let p = char_pos(rest, ',');
                    if p < c - lo {
                        assert(v@[lo + p] != ',');
                    }
                    if p > c - lo {
                        assert(rest[c - lo] != ',');
                    }
                    assert(rest.take(c - lo) =~= v@.subrange(lo as int, c as int));
                    assert(rest.skip(c - lo + 1) =~= v@.skip(c + 1));
                },
                None => {
                    assert(!rest.contains(',')) by {
                        if rest.contains(',') {
                            let j = choose|j: int| 0 <= j < rest.len() && rest[j] == ',';
                            assert(v@[lo + j] == ',');
                        }
                    }
                    assert(rest =~= v@.subrange(lo as int, n as int));
                },
            }
        }
        let (kind, url) = read_part(&v, lo, hi);
        proof {
            assert(v@.subrange(lo as int, hi as int) == (if char_pos(rest, ',') < 0 {
                rest
            } else {
                rest.take(char_pos(rest, ','))
            }));
        }
        if kind == 0 {
            return url;
        }
        if kind == 1 {
            return None;
        }
        match comma {
            None => return None,
            Some(c) => {
                lo = c + 1;
            },
        }
    }
}

} // verus!
