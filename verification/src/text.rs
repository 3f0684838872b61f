//! Character-level text helpers: whitespace trimming and the segmentation
//! predicate that relates a message to the segments it was split into.

use vstd::prelude::*;

verus! {

/// The whitespace characters that trimming removes.
pub open spec fn is_ws_char(c: char) -> bool {
    c == ' ' || c == '\t' || c == '\n' || c == '\r'
}

/// The natural break points a reply may be split at.
pub open spec fn is_delimiter_char(c: char) -> bool {
    ||| c == '\n'
    ||| c == '。'
    ||| c == '.'
    ||| c == '!'
    ||| c == '?'
    ||| c == '！'
    ||| c == '？'
}

/// Number of leading whitespace characters.
pub open spec fn ltrim_index(s: Seq<char>) -> int
    decreases s.len(),
{
    if s.len() > 0 && is_ws_char(s[0]) {
        1 + ltrim_index(s.drop_first())
    } else {
        0
    }
}

/// Length of the sequence once trailing whitespace is removed.
pub open spec fn rtrim_index(s: Seq<char>) -> int
    decreases s.len(),
{
    if s.len() > 0 && is_ws_char(s.last()) {
        rtrim_index(s.drop_last())
    } else {
        s.len() as int
    }
}

/// The sequence with leading and trailing whitespace removed.
pub open spec fn spec_trim(s: Seq<char>) -> Seq<char> {
    if ltrim_index(s) <= rtrim_index(s) {
        s.subrange(ltrim_index(s), rtrim_index(s))
    } else {
        Seq::empty()
    }
}

pub proof fn lemma_ltrim_bounds(s: Seq<char>)
    ensures
        0 <= ltrim_index(s) <= s.len(),
    decreases s.len(),
{
    if s.len() > 0 && is_ws_char(s[0]) {
        lemma_ltrim_bounds(s.drop_first());
    }
}

pub proof fn lemma_rtrim_bounds(s: Seq<char>)
    ensures
        0 <= rtrim_index(s) <= s.len(),
    decreases s.len(),
{
    if s.len() > 0 && is_ws_char(s.last()) {
        lemma_rtrim_bounds(s.drop_last());
    }
}

/// The number of leading whitespace characters is pinned by the first
/// non-whitespace position.
pub proof fn lemma_ltrim_at(s: Seq<char>, i: int)
    requires
        0 <= i <= s.len(),
        forall|j: int| 0 <= j < i ==> is_ws_char(s[j]),
        i < s.len() ==> !is_ws_char(s[i]),
    ensures
        ltrim_index(s) == i,
    decreases s.len(),
{
    if i == 0 {
        if s.len() > 0 {
            assert(!is_ws_char(s[0]));
        }
    } else {
        assert(is_ws_char(s[0]));
        let t = s.drop_first();
        assert(forall|j: int| 0 <= j < i - 1 ==> is_ws_char(#[trigger] t[j]));
        assert(i - 1 < t.len() ==> !is_ws_char(t[i - 1]));
        lemma_ltrim_at(t, i - 1);
    }
}

/// The right-trimmed length is pinned by the last non-whitespace position.
pub proof fn lemma_rtrim_at(s: Seq<char>, i: int)
    requires
        0 <= i <= s.len(),
        forall|j: int| i <= j < s.len() ==> is_ws_char(s[j]),
        i > 0 ==> !is_ws_char(s[i - 1]),
    ensures
        rtrim_index(s) == i,
    decreases s.len(),
{
    if i == s.len() {
        if s.len() > 0 {
            assert(!is_ws_char(s.last()));
        }
    } else {
        assert(is_ws_char(s.last()));
        let t = s.drop_last();
        assert(forall|j: int| i <= j < t.len() ==> is_ws_char(#[trigger] t[j]));
        lemma_rtrim_at(t, i);
    }
}

/// Whether `c` is one of the whitespace characters trimming removes.
pub fn ws_char(c: char) -> (r: bool)
    ensures
        r == is_ws_char(c),
{
    c == ' ' || c == '\t' || c == '\n' || c == '\r'
}

/// Whether `c` is a natural break point.
pub fn delimiter_char(c: char) -> (r: bool)
    ensures
        r == is_delimiter_char(c),
{
    c == '\n' || c == '。' || c == '.' || c == '!' || c == '?' || c == '！' || c == '？'
}

/// Remove leading and trailing whitespace from `s`.
pub fn trim_str<'a>(s: &'a str) -> (r: &'a str)
    ensures
        r@ == spec_trim(s@),
{
    let n = s.unicode_len();
    let mut a: usize = 0;
    while a < n && ws_char(s.get_char(a))
        invariant
            0 <= a <= n,
            n == s@.len(),
            forall|j: int| 0 <= j < a ==> is_ws_char(s@[j]),
        decreases n - a,
    {
        a = a + 1;
    }
    if a == n {
        proof {
            lemma_ltrim_at(s@, n as int);
            lemma_rtrim_bounds(s@);
            if ltrim_index(s@) <= rtrim_index(s@) {
                assert(spec_trim(s@) =~= s@.subrange(n as int, n as int));
            }
        }
        let r = s.substring_char(n, n);
        assert(r@ =~= spec_trim(s@));
        return r;
    }
    proof {
        lemma_ltrim_at(s@, a as int);
    }
    let mut b: usize = n;
    while b > a && ws_char(s.get_char(b - 1))
        invariant
            a <= b <= n,
            n == s@.len(),
            a < n,
            !is_ws_char(s@[a as int]),
            forall|j: int| b <= j < n ==> is_ws_char(s@[j]),
        decreases b,
    {
        b = b - 1;
    }
    proof {
        assert(b > a) by {
            if b == a {
                assert(is_ws_char(s@[a as int]));
            }
        }
        assert(!is_ws_char(s@[b - 1]));
        lemma_rtrim_at(s@, b as int);
    }
    s.substring_char(a, b)
}

/// Segments arose from consecutive chunks of the message: `cuts` lists the
/// chunk boundaries, each segment is its chunk trimmed and non-empty, and
/// whatever follows the last cut is pure whitespace.
pub open spec fn is_chunked_segmentation(m: Seq<char>, segs: Seq<Seq<char>>, cuts: Seq<int>) -> bool {
    &&& cuts.len() == segs.len() + 1
    &&& cuts[0] == 0
    &&& forall|j: int| 0 <= j < segs.len() ==> #[trigger] cuts[j] <= cuts[j + 1]
    &&& forall|j: int| 0 <= j < cuts.len() ==> 0 <= #[trigger] cuts[j] <= m.len()
    &&& forall|j: int|
        0 <= j < segs.len() ==> #[trigger] segs[j] == spec_trim(
            m.subrange(cuts[j], cuts[j + 1]),
        ) && segs[j].len() > 0
    &&& spec_trim(m.subrange(cuts[segs.len() as int], m.len() as int)).len() == 0
}

/// What segmentation may return for message `m` under a segment limit:
/// between 1 and `max_segs` trimmed chunks that reproduce the message once
/// the trimmed separators are re-inserted, or the whole message untouched.
pub open spec fn valid_segmentation(m: Seq<char>, segs: Seq<Seq<char>>, max_segs: int) -> bool {
    &&& 1 <= segs.len()
    &&& segs.len() <= if max_segs < 1 {
        1int
    } else {
        max_segs
    }
    &&& {
        ||| exists|cuts: Seq<int>| is_chunked_segmentation(m, segs, cuts)
        ||| (segs.len() == 1 && segs[0] == m)
    }
}

} // verus!
