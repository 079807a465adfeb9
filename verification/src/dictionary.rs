//! Dictionary lookup support: the cached entry shape, key normalisation,
//! and the cleaning of a looked-up answer down to its JSON object.

use crate::text::find_char;
use crate::text::first_at;
use crate::text::lower_of;
use crate::text::spec_trim;
use crate::text::to_lowercase;
use crate::text::trim;
use vstd::prelude::*;
use vstd::string::StrSliceExecFns;

verus! {

/// One dictionary entry: the word, its definition and example sentences.
#[derive(Clone, Debug)]
pub struct DictionaryEntry {
    pub word: String,
    pub definition: String,
    pub examples: Vec<String>,
}

/// One cached entry together with the key it is stored under.
#[derive(Clone, Debug)]
pub struct DictionaryCacheEntry {
    pub key: String,
    pub entry: DictionaryEntry,
}

/// Normalises a word into a cache key: whitespace trimmed, then
/// lowercased.
pub fn normalise(word: &str) -> (r: String)
    ensures
        r@ == lower_of(spec_trim(word@)),
        spec_trim(word@).len() == 0 ==> r@.len() == 0,
{
    to_lowercase(trim(word))
}

/// Whether a run of characters starts with `p`.
pub open spec fn starts_with(s: Seq<char>, p: Seq<char>) -> bool {
    s.len() >= p.len() && s.take(p.len() as int) == p
}

/// Whether a run of characters ends with `p`.
pub open spec fn ends_with(s: Seq<char>, p: Seq<char>) -> bool {
    s.len() >= p.len() && s.skip(s.len() - p.len()) == p
}

/// What is left after every copy of the prefix `p` is stripped in turn.
pub open spec fn spec_strip_prefix_all(s: Seq<char>, p: Seq<char>) -> Seq<char>
    decreases s.len(),
{
    if p.len() == 0 || !starts_with(s, p) {
        s
    } else {
        spec_strip_prefix_all(s.skip(p.len() as int), p)
    }
}

/// What is left after every copy of the suffix `p` is stripped in turn.
pub open spec fn spec_strip_suffix_all(s: Seq<char>, p: Seq<char>) -> Seq<char>
    decreases s.len(),
{
    if p.len() == 0 || !ends_with(s, p) {
        s
    } else {
        spec_strip_suffix_all(s.take(s.len() - p.len()), p)
    }
}

/// The position of the last `c`, or -1 when there is none.
pub open spec fn last_at(s: Seq<char>, c: char) -> int
    decreases s.len(),
{
    if s.len() == 0 {
        -1
    } else if s.last() == c {
        s.len() - 1
    } else {
        last_at(s.drop_last(), c)
    }
}

/// Decides whether `s` starts with `p`.
fn has_prefix(s: &str, p: &str) -> (r: bool)
    ensures
        r == starts_with(s@, p@),
{
    let pl = p.unicode_len();
    let sl = s.unicode_len();
    if pl > sl {
        return false;
    }
    let mut i: usize = 0;
    while i < pl
        invariant
            0 <= i <= pl,
            pl == p@.len(),
            sl == s@.len(),
            pl <= sl,
            forall|j: int| 0 <= j < i ==> s@[j] == p@[j],
        decreases pl - i,
    {
        if s.get_char(i) != p.get_char(i) {
            proof {
                assert(s@.take(pl as int)[i as int] != p@[i as int]);
            }
            return false;
        }
        i = i + 1;
    }
    proof {
        assert(s@.take(pl as int) =~= p@);
    }
    true
}

/// Decides whether `s` ends with `p`.
fn has_suffix(s: &str, p: &str) -> (r: bool)
    ensures
        r == ends_with(s@, p@),
{
    let pl = p.unicode_len();
    let sl = s.unicode_len();
    if pl > sl {
        return false;
    }
    let off = sl - pl;
    let mut i: usize = 0;
    while i < pl
        invariant
            0 <= i <= pl,
            pl == p@.len(),
            sl == s@.len(),
            pl <= sl,
            off == sl - pl,
            forall|j: int| 0 <= j < i ==> s@[off + j] == p@[j],
        decreases pl - i,
    {
        if s.get_char(off + i) != p.get_char(i) {
            proof {
                assert(s@.skip(off as int)[i as int] != p@[i as int]);
            }
            return false;
        }
        i = i + 1;
    }
    proof {
        assert(s@.skip(off as int) =~= p@);
    }
    true
}

/// Strips every copy of the prefix `p` in turn.
fn strip_prefix_all<'a>(s: &'a str, p: &str) -> (r: &'a str)
    requires
        p@.len() >= 1,
    ensures
        r@ == spec_strip_prefix_all(s@, p@),
{
    let mut cur: &str = s;
    while has_prefix(cur, p)
        invariant
            p@.len() >= 1,
            spec_strip_prefix_all(cur@, p@) == spec_strip_prefix_all(s@, p@),
        decreases cur@.len(),
    {
        let next = cur.substring_char(p.unicode_len(), cur.unicode_len());
        proof {
            assert(next@ =~= cur@.skip(p@.len() as int));
        }
        cur = next;
    }
    cur
}

/// Strips every copy of the suffix `p` in turn.
fn strip_suffix_all<'a>(s: &'a str, p: &str) -> (r: &'a str)
    requires
        p@.len() >= 1,
    ensures
        r@ == spec_strip_suffix_all(s@, p@),
{
    let mut cur: &str = s;
    while has_suffix(cur, p)
        invariant
            p@.len() >= 1,
            spec_strip_suffix_all(cur@, p@) == spec_strip_suffix_all(s@, p@),
        decreases cur@.len(),
    {
        let next = cur.substring_char(0, cur.unicode_len() - p.unicode_len());
        proof {
            assert(next@ =~= cur@.take(cur@.len() - p@.len()));
        }
        cur = next;
    }
    cur
}

/// A found occurrence at `i`, with none after it, is the last.
proof fn lemma_last_at_found(s: Seq<char>, c: char, i: int)
    requires
        0 <= i < s.len(),
        s[i] == c,
        forall|j: int| i < j < s.len() ==> s[j] != c,
    ensures
        last_at(s, c) == i,
    decreases s.len(),
{
    if i < s.len() - 1 {
        lemma_last_at_found(s.drop_last(), c, i);
    }
}

/// With no occurrence at all, the last position is before the start.
proof fn lemma_last_at_absent(s: Seq<char>, c: char)
    requires
        forall|j: int| 0 <= j < s.len() ==> s[j] != c,
    ensures
        last_at(s, c) == -1,
    decreases s.len(),
{
    if s.len() > 0 {
        lemma_last_at_absent(s.drop_last(), c);
    }
}

/// Finds the last occurrence of `c`.
fn rfind_char(s: &str, c: char) -> (r: Option<usize>)
    ensures
        match r {
            Option::Some(i) => i == last_at(s@, c) && i < s@.len(),
            Option::None => last_at(s@, c) == -1,
        },
{
    let n = s.unicode_len();
    let mut i: usize = n;
    while i > 0
        invariant
            0 <= i <= n,
            n == s@.len(),
            forall|j: int| i <= j < n ==> s@[j] != c,
        decreases i,
    {
        i = i - 1;
        if s.get_char(i) == c {
            proof {
                lemma_last_at_found(s@, c, i as int);
            }
            return Some(i);
        }
    }
    proof {
        lemma_last_at_absent(s@, c);
    }
    None
}

/// The answer text after fencing is removed: trimmed, and with any leading
/// and trailing code fences stripped.
pub open spec fn spec_unfenced(raw: Seq<char>) -> Seq<char> {
    let t = spec_trim(raw);
    if starts_with(t, "```"@) {
        spec_trim(
            spec_strip_suffix_all(
                spec_strip_prefix_all(spec_strip_prefix_all(t, "```json"@), "```"@),
                "```"@,
            ),
        )
    } else {
        t
    }
}

/// What cleaning a looked-up answer yields: the unfenced text, narrowed to
/// the span from its first opening brace to its last closing brace and
/// trimmed, when such a span exists; the unfenced text itself otherwise.
pub open spec fn spec_clean(raw: Seq<char>) -> Seq<char> {
    let wf = spec_unfenced(raw);
    let fo = first_at(wf, '{');
    let lc = last_at(wf, '}');
    if fo < wf.len() && fo <= lc {
        spec_trim(wf.subrange(fo, lc + 1))
    } else {
        wf
    }
}

/// Cleans a looked-up answer down to the JSON object it should hold:
/// strips surrounding whitespace and code fences, then keeps the span from
/// the first `{` to the last `}` when one exists.
pub fn clean_json_response(raw: &str) -> (r: String)
    ensures
        r@ == spec_clean(raw@),
{
    proof {
        reveal_strlit("```");
        reveal_strlit("```json");
    }
    let trimmed = trim(raw);
    let without_fence: &str = if has_prefix(trimmed, "```") {
        let a = strip_prefix_all(trimmed, "```json");
        let b = strip_prefix_all(a, "```");
        let c = strip_suffix_all(b, "```");
        trim(c)
    } else {
        trimmed
    };
    proof {
        assert(without_fence@ == spec_unfenced(raw@));
    }
    let n = without_fence.unicode_len();
    let fo = find_char(without_fence, '{');
    let lc = rfind_char(without_fence, '}');
    match (fo, lc) {
        (Some(start), Some(end)) => {
            if start <= end {
                proof {
                    assert(end < n);
                }
                let inner = without_fence.substring_char(start, end + 1);
                proof {
                    assert(inner@ =~= without_fence@.subrange(start as int, end as int + 1));
                }
                let t = trim(inner);
                t.to_owned()
            } else {
                without_fence.to_owned()
            }
        },
        _ => without_fence.to_owned(),
    }
}

} // verus!
