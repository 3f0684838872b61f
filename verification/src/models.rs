//! Chat data models: the shapes of messages, sessions and folders that the
//! core exchanges with its collaborators, and small helpers on them.

use vstd::prelude::*;
use vstd::string::StringExecFns;

verus! {

/// One chat turn, as the persistence layer and the AI backend exchange it.
#[derive(Debug, Clone)]
pub struct Message {
    pub id: Option<i64>,
    pub role: String,
    pub content: String,
    pub reasoning_content: Option<String>,
    pub file_metadata: Option<String>,
    pub search_metadata: Option<String>,
}

/// Session metadata with string-typed ids, as the UI sees it.
#[derive(Debug, Clone)]
pub struct Session {
    pub id: String,
    pub title: String,
    pub last_scroll_pos: i32,
    pub sort_order: i32,
    pub updated_at: String,
    pub folder_id: Option<String>,
}

/// A session folder with string-typed ids, as the UI sees it.
#[derive(Debug, Clone)]
pub struct Folder {
    pub id: String,
    pub name: String,
    pub sort_order: i32,
    pub is_collapsed: bool,
}

/// One web search hit.
#[derive(Debug, Clone)]
pub struct SearchResult {
    pub title: String,
    pub url: String,
    pub snippet: String,
}

/// One long-term memory record.
#[derive(Debug, Clone)]
pub struct FactRecord {
    pub id: String,
    pub content: String,
    pub mode: String,
    pub role_id: String,
    /// JSON text carrying is_instruction and timestamp.
    pub metadata: String,
}

/// Which site filter a web search should carry.
#[derive(Debug, Clone, Copy, PartialEq, Eq, Structural)]
pub enum SearchProvider {
    Developer,
    Academic,
    Wiki,
    All,
}

/// The site filter appended for developer searches.
pub open spec fn developer_sites() -> Seq<char> {
    " (site:github.com OR site:stackoverflow.com OR site:v2ex.com OR site:juejin.cn OR site:csdn.net OR site:cnblogs.com OR site:zhihu.com)"@
}

/// The site filter appended for academic searches.
pub open spec fn academic_sites() -> Seq<char> {
    " (site:arxiv.org OR site:scholar.google.com OR site:researchgate.net OR site:wikipedia.org OR site:baike.baidu.com OR filetype:pdf)"@
}

/// The site filter appended for encyclopedia searches.
pub open spec fn wiki_sites() -> Seq<char> {
    " (site:wikipedia.org OR site:baike.baidu.com)"@
}

/// Append the provider's site filter to the query; an unrestricted search
/// keeps the query as it is.
pub fn augment_query(query: &str, provider: SearchProvider) -> (r: String)
    ensures
        r@ == match provider {
            SearchProvider::Developer => query@ + developer_sites(),
            SearchProvider::Academic => query@ + academic_sites(),
            SearchProvider::Wiki => query@ + wiki_sites(),
            SearchProvider::All => query@,
        },
{
    let mut r = String::from_str(query);
    match provider {
        SearchProvider::Developer => {
            r.append(
                " (site:github.com OR site:stackoverflow.com OR site:v2ex.com OR site:juejin.cn OR site:csdn.net OR site:cnblogs.com OR site:zhihu.com)",
            );
        },
        SearchProvider::Academic => {
            r.append(
                " (site:arxiv.org OR site:scholar.google.com OR site:researchgate.net OR site:wikipedia.org OR site:baike.baidu.com OR filetype:pdf)",
            );
        },
        SearchProvider::Wiki => {
            r.append(" (site:wikipedia.org OR site:baike.baidu.com)");
        },
        SearchProvider::All => {},
    }
    r
}

/// A decimal digit.
pub open spec fn is_digit_char(c: char) -> bool {
    '0' <= c && c <= '9'
}

/// The value of one digit.
pub open spec fn digit_val(c: char) -> int {
    c as int - '0' as int
}

/// Every character is a digit.
pub open spec fn all_digits(s: Seq<char>) -> bool {
    forall|j: int| 0 <= j < s.len() ==> is_digit_char(#[trigger] s[j])
}

/// The number a digit string denotes.
pub open spec fn digits_value(s: Seq<char>) -> int
    decreases s.len(),
{
    if s.len() == 0 {
        0
    } else {
        digits_value(s.drop_last()) * 10 + digit_val(s.last())
    }
}

/// The digits of an id string, after an optional leading sign.
pub open spec fn id_digits(s: Seq<char>) -> Seq<char> {
    if s.len() > 0 && (s[0] == '+' || s[0] == '-') {
        s.drop_first()
    } else {
        s
    }
}

/// Whether the id string denotes a negative number.
pub open spec fn id_negative(s: Seq<char>) -> bool {
    s.len() > 0 && s[0] == '-'
}

/// A well-formed id: an optional sign followed by at least one digit.
pub open spec fn is_id_literal(s: Seq<char>) -> bool {
    id_digits(s).len() > 0 && all_digits(id_digits(s))
}

/// The number an id string denotes.
pub open spec fn id_value(s: Seq<char>) -> int {
    if id_negative(s) {
        -digits_value(id_digits(s))
    } else {
        digits_value(id_digits(s))
    }
}

/// A digit string denotes a non-negative number.
proof fn lemma_digits_value_nonneg(s: Seq<char>)
    requires
        all_digits(s),
    ensures
        digits_value(s) >= 0,
    decreases s.len(),
{
    if s.len() > 0 {
        let t = s.drop_last();
        assert(forall|j: int| 0 <= j < t.len() ==> is_digit_char(#[trigger] t[j]));
        lemma_digits_value_nonneg(t);
    }
}

/// Extending a digit string by one digit multiplies its value by ten and
/// adds the digit.
proof fn lemma_digits_value_snoc(s: Seq<char>, k: int)
    requires
        0 <= k < s.len(),
    ensures
        digits_value(s.subrange(0, k + 1)) == digits_value(s.subrange(0, k)) * 10 + digit_val(
            s[k],
        ),
{
    let t = s.subrange(0, k + 1);
    assert(t.drop_last() =~= s.subrange(0, k));
    assert(t.last() == s[k]);
}

/// A digit string is worth at least any of its prefixes.
proof fn lemma_digits_value_prefix(s: Seq<char>, k: int)
    requires
        all_digits(s),
        0 <= k <= s.len(),
    ensures
        digits_value(s) >= digits_value(s.subrange(0, k)),
    decreases s.len() - k,
{
    if k == s.len() {
        assert(s.subrange(0, k) =~= s);
    } else {
        lemma_digits_value_snoc(s, k);
        let p = s.subrange(0, k);
        assert(forall|j: int| 0 <= j < p.len() ==> is_digit_char(#[trigger] p[j]));
        lemma_digits_value_nonneg(p);
        assert(digits_value(s.subrange(0, k + 1)) >= digits_value(p));
        lemma_digits_value_prefix(s, k + 1);
    }
}

/// Parse a decimal id: an optional sign, at least one digit, value within
/// the 64-bit signed range — exactly the strings `i64` itself accepts.
pub fn parse_id(id: &str) -> (r: Result<i64, String>)
    ensures
        match r {
            Ok(v) => {
                &&& is_id_literal(id@)
                &&& i64::MIN <= id_value(id@) <= i64::MAX
                &&& v == id_value(id@)
            },
            Err(_) => !is_id_literal(id@) || id_value(id@) < i64::MIN || id_value(id@)
                > i64::MAX,
        },
{
    let n = id.unicode_len();
    let mut start: usize = 0;
    let mut neg = false;
    if n > 0 {
        let c0 = id.get_char(0);
        if c0 == '-' {
            neg = true;
            start = 1;
        } else if c0 == '+' {
            start = 1;
        }
    }
    let ghost digits = id_digits(id@);
    proof {
        assert(digits =~= id@.subrange(start as int, n as int));
    }
    if start >= n {
        // Empty input, or a bare sign: no digits at all.
        let mut e = String::from_str("无效的 ID 格式: ");
        e.append(id);
        return Err(e);
    }
    // The magnitude so far; it never exceeds 2^63, the magnitude of i64::MIN.
    let mut mag: u128 = 0;
    let mut i: usize = start;
    while i < n
        invariant
            start <= i <= n,
            n == id@.len(),
            start <= 1,
            start < n,
            digits == id_digits(id@),
            digits =~= id@.subrange(start as int, n as int),
            neg == id_negative(id@),
            all_digits(id@.subrange(start as int, i as int)),
            mag == digits_value(id@.subrange(start as int, i as int)),
            mag <= 0x8000_0000_0000_0000u128,
        decreases n - i,
    {
        let c = id.get_char(i);
        let code = c as u32;
        if code < 48 || code > 57 {
            // Not a digit: the string is no id literal.
            proof {
                assert(digits[i - start] == c);
                assert(!is_digit_char(c));
            }
            let mut e = String::from_str("无效的 ID 格式: ");
            e.append(id);
            return Err(e);
        }
        let d = (code - 48) as u128;
        let next = mag * 10 + d;
        proof {
            assert(d == digit_val(c));
            lemma_digits_value_snoc(id@, i as int);
            assert(id@.subrange(start as int, i as int) =~= id@.subrange(0, i as int).subrange(
                start as int,
                i as int,
            ));
        }
        if next > 0x8000_0000_0000_0000u128 {
            // Whatever follows, the magnitude can only grow further, so the
            // value cannot fit a 64-bit signed integer.
            proof {
                if is_id_literal(id@) {
                    lemma_digits_value_prefix(digits, i + 1 - start as int);
                    assert(digits.subrange(0, i + 1 - start as int) =~= id@.subrange(
                        start as int,
                        i as int + 1,
                    ));
                    assert(digits_value(id@.subrange(start as int, i as int + 1)) == next) by {
                        lemma_digits_subrange_snoc(id@, start as int, i as int);
                    }
                }
            }
            let mut e = String::from_str("无效的 ID 格式: ");
            e.append(id);
            return Err(e);
        }
        proof {
            lemma_digits_subrange_snoc(id@, start as int, i as int);
        }
        mag = next;
        i = i + 1;
    }
    proof {
        assert(id@.subrange(start as int, n as int) =~= digits);
    }
    if neg {
        if mag == 0x8000_0000_0000_0000u128 {
            Ok(i64::MIN)
        } else {
            Ok(-((mag as u64) as i64))
        }
    } else {
        if mag > i64::MAX as u128 {
            let mut e = String::from_str("无效的 ID 格式: ");
            e.append(id);
            return Err(e);
        }
        Ok(mag as i64)
    }
}

/// Consuming one more digit of a suffix multiplies its value by ten and adds
/// the digit.
proof fn lemma_digits_subrange_snoc(s: Seq<char>, start: int, i: int)
    requires
        0 <= start <= i < s.len(),
    ensures
        digits_value(s.subrange(start, i + 1)) == digits_value(s.subrange(start, i)) * 10
            + digit_val(s[i]),
{
    let t = s.subrange(start, i + 1);
    assert(t.drop_last() =~= s.subrange(start, i));
    assert(t.last() == s[i]);
}

} // verus!
