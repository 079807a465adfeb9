//! Small verified text utilities: string equality and the decimal form of a
//! number, used to derive card identifiers and to compare them.

use vstd::prelude::*;
use vstd::string::StrSliceExecFns;
use vstd::string::StringExecFns;

verus! {

/// Whether two string slices hold the same characters.
pub fn str_eq(a: &str, b: &str) -> (r: bool)
    ensures
        r == (a@ == b@),
{
    let la = a.unicode_len();
    let lb = b.unicode_len();
    if la != lb {
        return false;
    }
    let mut i: usize = 0;
    while i < la
        invariant
            0 <= i <= la,
            la == a@.len(),
            la == b@.len(),
            forall|j: int| 0 <= j < i ==> a@[j] == b@[j],
        decreases la - i,
    {
        if a.get_char(i) != b.get_char(i) {
            return false;
        }
        i = i + 1;
    }
    proof {
        assert(a@ =~= b@);
    }
    true
}

/// The character for one decimal digit.
pub open spec fn digit_char(d: nat) -> char {
    if d == 0 {
        '0'
    } else if d == 1 {
        '1'
    } else if d == 2 {
        '2'
    } else if d == 3 {
        '3'
    } else if d == 4 {
        '4'
    } else if d == 5 {
        '5'
    } else if d == 6 {
        '6'
    } else if d == 7 {
        '7'
    } else if d == 8 {
        '8'
    } else {
        '9'
    }
}

/// The decimal digits of `n`, most significant first.
pub open spec fn spec_decimal(n: nat) -> Seq<char>
    decreases n,
{
    if n < 10 {
        seq![digit_char(n)]
    } else {
        spec_decimal(n / 10) + seq![digit_char(n % 10)]
    }
}

/// One decimal digit as a string slice.
fn digit_str(d: u64) -> (r: &'static str)
    requires
        d < 10,
    ensures
        r@ == seq![digit_char(d as nat)],
{
    proof {
        reveal_strlit("0");
        reveal_strlit("1");
        reveal_strlit("2");
        reveal_strlit("3");
        reveal_strlit("4");
        reveal_strlit("5");
        reveal_strlit("6");
        reveal_strlit("7");
        reveal_strlit("8");
        reveal_strlit("9");
    }
    let r: &'static str = if d == 0 {
        "0"
    } else if d == 1 {
        "1"
    } else if d == 2 {
        "2"
    } else if d == 3 {
        "3"
    } else if d == 4 {
        "4"
    } else if d == 5 {
        "5"
    } else if d == 6 {
        "6"
    } else if d == 7 {
        "7"
    } else if d == 8 {
        "8"
    } else {
        "9"
    };
    proof {
        assert(r@ =~= seq![digit_char(d as nat)]);
    }
    r
}

/// Appends the decimal digits of `n` to what `out` already holds.
fn append_decimal(out: &mut String, n: u64)
    ensures
        final(out)@ == old(out)@ + spec_decimal(n as nat),
    decreases n,
{
    if n < 10 {
        out.append(digit_str(n));
    } else {
        append_decimal(out, n / 10);
        out.append(digit_str(n % 10));
        proof {
            assert(old(out)@ + spec_decimal((n / 10) as nat) + seq![digit_char((n % 10) as nat)]
                =~= old(out)@ + spec_decimal(n as nat));
        }
    }
}

/// The decimal form of `n`, most significant digit first.
pub fn decimal_string(n: u64) -> (r: String)
    ensures
        r@ == spec_decimal(n as nat),
{
    let mut out = String::new();
    append_decimal(&mut out, n);
    proof {
        assert(out@ =~= spec_decimal(n as nat));
    }
    out
}

/// The characters with the Unicode White_Space property, the set that
/// whitespace trimming and splitting go by.
pub open spec fn is_space(c: char) -> bool {
    ||| c == '\u{0009}'
    ||| c == '\u{000A}'
    ||| c == '\u{000B}'
    ||| c == '\u{000C}'
    ||| c == '\u{000D}'
    ||| c == '\u{0020}'
    ||| c == '\u{0085}'
    ||| c == '\u{00A0}'
    ||| c == '\u{1680}'
    ||| ('\u{2000}' <= c && c <= '\u{200A}')
    ||| c == '\u{2028}'
    ||| c == '\u{2029}'
    ||| c == '\u{202F}'
    ||| c == '\u{205F}'
    ||| c == '\u{3000}'
}

/// Decides the Unicode White_Space property.
pub fn char_is_space(c: char) -> (r: bool)
    ensures
        r == is_space(c),
{
    c == '\u{0009}' || c == '\u{000A}' || c == '\u{000B}' || c == '\u{000C}' || c == '\u{000D}'
        || c == '\u{0020}' || c == '\u{0085}' || c == '\u{00A0}' || c == '\u{1680}' || ('\u{2000}'
        <= c && c <= '\u{200A}') || c == '\u{2028}' || c == '\u{2029}' || c == '\u{202F}' || c
        == '\u{205F}' || c == '\u{3000}'
}

/// What is left of a run of characters after leading whitespace goes.
pub open spec fn spec_trim_start(s: Seq<char>) -> Seq<char>
    decreases s.len(),
{
    if s.len() == 0 {
        s
    } else if is_space(s[0]) {
        spec_trim_start(s.drop_first())
    } else {
        s
    }
}

/// What is left of a run of characters after trailing whitespace goes.
pub open spec fn spec_trim_end(s: Seq<char>) -> Seq<char>
    decreases s.len(),
{
    if s.len() == 0 {
        s
    } else if is_space(s.last()) {
        spec_trim_end(s.drop_last())
    } else {
        s
    }
}

/// A run of characters without its leading and trailing whitespace.
pub open spec fn spec_trim(s: Seq<char>) -> Seq<char> {
    spec_trim_end(spec_trim_start(s))
}

/// The first position at or after `i` whose character is not whitespace,
/// or the length when only whitespace remains.
pub open spec fn skip_spaces(s: Seq<char>, i: int) -> int
    decreases s.len() - i,
{
    if i < 0 || i >= s.len() {
        s.len() as int
    } else if is_space(s[i]) {
        skip_spaces(s, i + 1)
    } else {
        i
    }
}

/// The first position at or after `i` whose character is whitespace, or
/// the length when none is.
pub open spec fn skip_nonspaces(s: Seq<char>, i: int) -> int
    decreases s.len() - i,
{
    if i < 0 || i >= s.len() {
        s.len() as int
    } else if !is_space(s[i]) {
        skip_nonspaces(s, i + 1)
    } else {
        i
    }
}

/// Finds the first non-whitespace position at or after `from`.
pub fn scan_spaces(s: &str, from: usize) -> (r: usize)
    requires
        from <= s@.len(),
    ensures
        r == skip_spaces(s@, from as int),
        from <= r <= s@.len(),
{
    let n = s.unicode_len();
    let mut cur = from;
    while cur < n && char_is_space(s.get_char(cur))
        invariant
            from <= cur <= n,
            n == s@.len(),
            skip_spaces(s@, from as int) == skip_spaces(s@, cur as int),
        decreases n - cur,
    {
        cur = cur + 1;
    }
    cur
}

/// Finds the first whitespace position at or after `from`.
pub fn scan_nonspaces(s: &str, from: usize) -> (r: usize)
    requires
        from <= s@.len(),
    ensures
        r == skip_nonspaces(s@, from as int),
        from <= r <= s@.len(),
{
    let n = s.unicode_len();
    let mut cur = from;
    while cur < n && !char_is_space(s.get_char(cur))
        invariant
            from <= cur <= n,
            n == s@.len(),
            skip_nonspaces(s@, from as int) == skip_nonspaces(s@, cur as int),
        decreases n - cur,
    {
        cur = cur + 1;
    }
    cur
}

/// What a whitespace scan promises: everything passed over is whitespace,
/// and the character it stops on is not.
pub proof fn lemma_skip_spaces_props(s: Seq<char>, i: int)
    requires
        0 <= i <= s.len(),
    ensures
        i <= skip_spaces(s, i) <= s.len(),
        forall|j: int| i <= j < skip_spaces(s, i) ==> is_space(s[j]),
        skip_spaces(s, i) < s.len() ==> !is_space(s[skip_spaces(s, i)]),
    decreases s.len() - i,
{
    if i < s.len() && is_space(s[i]) {
        lemma_skip_spaces_props(s, i + 1);
    }
}

/// Leading whitespace is exactly what `skip_spaces` passes over.
proof fn lemma_trim_start_skip(s: Seq<char>, i: int)
    requires
        0 <= i <= s.len(),
        forall|j: int| 0 <= j < i ==> is_space(s[j]),
    ensures
        spec_trim_start(s) == spec_trim_start(s.skip(i)),
    decreases i,
{
    if i > 0 {
        assert(s.skip(0) =~= s);
        lemma_trim_start_skip(s, i - 1);
        assert(s.skip(i - 1).drop_first() =~= s.skip(i));
        assert(s.skip(i - 1)[0] == s[i - 1]);
    } else {
        assert(s.skip(0) =~= s);
    }
}

/// Trailing whitespace is exactly what a backwards scan passes over.
proof fn lemma_trim_end_take(s: Seq<char>, i: int)
    requires
        0 <= i <= s.len(),
        forall|j: int| i <= j < s.len() ==> is_space(s[j]),
    ensures
        spec_trim_end(s) == spec_trim_end(s.take(i)),
    decreases s.len() - i,
{
    if i < s.len() {
        assert(s.take(s.len() as int) =~= s);
        lemma_trim_end_take(s, i + 1);
        assert(s.take(i + 1).drop_last() =~= s.take(i));
        assert(s.take(i + 1).last() == s[i]);
    } else {
        assert(s.take(s.len() as int) =~= s);
    }
}

/// A run of characters without its leading and trailing whitespace, as
/// `str::trim` yields it.
pub fn trim(s: &str) -> (r: &str)
    ensures
        r@ == spec_trim(s@),
{
    let n = s.unicode_len();
    let start = scan_spaces(s, 0);
    proof {
        lemma_skip_spaces_props(s@, 0);
        lemma_trim_start_skip(s@, start as int);
        if start < n {
            assert(!is_space(s@.skip(start as int)[0]));
        } else {
            assert(s@.skip(start as int) =~= Seq::<char>::empty());
        }
        assert(spec_trim_start(s@) == s@.skip(start as int));
    }
    let mut end = n;
    while end > start && char_is_space(s.get_char(end - 1))
        invariant
            start <= end <= n,
            n == s@.len(),
            spec_trim_start(s@) == s@.skip(start as int),
            forall|j: int| end <= j < n ==> is_space(s@[j]),
        decreases end,
    {
        end = end - 1;
    }
    let r = s.substring_char(start, end);
    proof {
        let t = s@.skip(start as int);
        assert(spec_trim(s@) == spec_trim_end(t));
        lemma_trim_end_sub(s@, start as int, end as int);
        assert(r@ =~= s@.subrange(start as int, end as int));
    }
    r
}

/// Within the tail that starts at `start`, trailing whitespace after `end`
/// trims away, and position `end - 1`, not being whitespace, stops the
/// trimming.
proof fn lemma_trim_end_sub(s: Seq<char>, start: int, end: int)
    requires
        0 <= start <= end <= s.len(),
        forall|j: int| end <= j < s.len() ==> is_space(s[j]),
        end > start ==> !is_space(s[end - 1]),
    ensures
        spec_trim_end(s.skip(start)) == s.subrange(start, end),
    decreases s.len() - end,
{
    let t = s.skip(start);
    if end == s.len() {
        if end > start {
            assert(t.last() == s[end - 1]);
            assert(t =~= s.subrange(start, end));
        } else {
            assert(t =~= s.subrange(start, end));
        }
    } else {
        lemma_trim_end_take_one(s, start, end);
    }
}

/// Helper for the backwards induction of `lemma_trim_end_sub`.
proof fn lemma_trim_end_take_one(s: Seq<char>, start: int, end: int)
    requires
        0 <= start <= end < s.len(),
        forall|j: int| end <= j < s.len() ==> is_space(s[j]),
        end > start ==> !is_space(s[end - 1]),
    ensures
        spec_trim_end(s.skip(start)) == s.subrange(start, end),
    decreases s.len() - end,
{
    let t = s.skip(start);
    assert(forall|j: int| end - start <= j < t.len() ==> is_space(t[j]));
    lemma_trim_end_take(t, end - start);
    assert(t.take(end - start) =~= s.subrange(start, end));
    let u = s.subrange(start, end);
    if end > start {
        assert(u.last() == s[end - 1]);
    }
}

/// The lowercase form of a run of characters, named after the Unicode
/// lowercasing that `str::to_lowercase` performs: a function of the
/// characters alone, whose full definition this library does not restate.
pub uninterp spec fn lower_of(s: Seq<char>) -> Seq<char>;

/// Relies on str::to_lowercase: the Unicode lowercase mapping of the
/// characters, depending on the characters alone; an empty string
/// lowercases to an empty string.
#[verifier::external_body]
pub(crate) fn to_lowercase(s: &str) -> (r: String)
    ensures
        r@ == lower_of(s@),
        s@.len() == 0 ==> r@.len() == 0,
{
    s.to_lowercase()
}

/// The numeric value of a character with ASCII uppercase folded to
/// lowercase, the comparison `str::eq_ignore_ascii_case` goes by.
pub open spec fn spec_ascii_lower(x: int) -> int {
    if 65 <= x <= 90 {
        x + 32
    } else {
        x
    }
}

/// Whether two runs of characters agree up to ASCII case.
pub open spec fn ascii_case_eq(a: Seq<char>, b: Seq<char>) -> bool {
    a.len() == b.len() && forall|i: int|
        0 <= i < a.len() ==> spec_ascii_lower(a[i] as int) == spec_ascii_lower(b[i] as int)
}

/// Compares two string slices ignoring ASCII case.
pub fn str_eq_ignore_ascii_case(a: &str, b: &str) -> (r: bool)
    ensures
        r == ascii_case_eq(a@, b@),
{
    let la = a.unicode_len();
    let lb = b.unicode_len();
    if la != lb {
        return false;
    }
    let mut i: usize = 0;
    while i < la
        invariant
            0 <= i <= la,
            la == a@.len(),
            la == b@.len(),
            forall|j: int|
                0 <= j < i ==> spec_ascii_lower(a@[j] as int) == spec_ascii_lower(b@[j] as int),
        decreases la - i,
    {
        let x = a.get_char(i) as u32;
        let y = b.get_char(i) as u32;
        let xl = if 65 <= x && x <= 90 {
            x + 32
        } else {
            x
        };
        let yl = if 65 <= y && y <= 90 {
            y + 32
        } else {
            y
        };
        if xl != yl {
            return false;
        }
        i = i + 1;
    }
    true
}

/// The position of the first `c`, or the length when there is none.
pub open spec fn first_at(s: Seq<char>, c: char) -> int
    decreases s.len(),
{
    if s.len() == 0 {
        0
    } else if s[0] == c {
        0
    } else {
        1 + first_at(s.drop_first(), c)
    }
}

/// A found occurrence at `i`, with none before it, is the first.
pub proof fn lemma_first_at_found(s: Seq<char>, c: char, i: int)
    requires
        0 <= i < s.len(),
        s[i] == c,
        forall|j: int| 0 <= j < i ==> s[j] != c,
    ensures
        first_at(s, c) == i,
    decreases i,
{
    if i > 0 {
        lemma_first_at_found(s.drop_first(), c, i - 1);
    }
}

/// With no occurrence at all, the first position is the length.
pub proof fn lemma_first_at_absent(s: Seq<char>, c: char)
    requires
        forall|j: int| 0 <= j < s.len() ==> s[j] != c,
    ensures
        first_at(s, c) == s.len(),
    decreases s.len(),
{
    if s.len() > 0 {
        lemma_first_at_absent(s.drop_first(), c);
    }
}

/// Finds the first occurrence of `c`.
pub fn find_char(s: &str, c: char) -> (r: Option<usize>)
    ensures
        match r {
            Option::Some(i) => i == first_at(s@, c) && i < s@.len(),
            Option::None => first_at(s@, c) == s@.len(),
        },
{
    let n = s.unicode_len();
    let mut i: usize = 0;
    while i < n
        invariant
            0 <= i <= n,
            n == s@.len(),
            forall|j: int| 0 <= j < i ==> s@[j] != c,
        decreases n - i,
    {
        if s.get_char(i) == c {
            proof {
                lemma_first_at_found(s@, c, i as int);
            }
            return Some(i);
        }
        i = i + 1;
    }
    proof {
        lemma_first_at_absent(s@, c);
    }
    None
}

} // verus!
