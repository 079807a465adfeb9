//! Administrative authentication support: the configured state, the
//! authenticated user, the bearer-token extraction from an Authorization
//! header value, and the parsing of the allowed-email list.

use crate::text::ascii_case_eq;
use crate::text::find_char;
use crate::text::first_at;
use crate::text::lower_of;
use crate::text::scan_nonspaces;
use crate::text::scan_spaces;
use crate::text::skip_nonspaces;
use crate::text::skip_spaces;
use crate::text::spec_trim;
use crate::text::str_eq_ignore_ascii_case;
use crate::text::to_lowercase;
use crate::text::trim;
use std::collections::HashSet;
use vstd::prelude::*;
use vstd::string::StrSliceExecFns;

verus! {

/// The configuration the administrative endpoints run under.
pub struct AdminAuthState {
    pub supabase_url: String,
    pub anon_key: String,
    pub allowed_emails: HashSet<String>,
}

/// An authenticated administrator.
pub struct AdminUser {
    pub email: String,
}

/// The token an Authorization header value carries: its first
/// whitespace-separated word must be "Bearer" up to ASCII case, and the
/// second word is the token; anything else carries none.
pub open spec fn spec_extract_bearer(h: Seq<char>) -> Option<Seq<char>> {
    let a = skip_spaces(h, 0);
    let b = skip_nonspaces(h, a);
    let c = skip_spaces(h, b);
    let d = skip_nonspaces(h, c);
    if a == h.len() || c == h.len() {
        Option::None
    } else if ascii_case_eq(h.subrange(a, b), "Bearer"@) {
        Option::Some(h.subrange(c, d))
    } else {
        Option::None
    }
}

/// Extracts the bearer token from an Authorization header value, if the
/// header carries one.
pub fn extract_bearer(header: &str) -> (r: Option<String>)
    ensures
        match r {
            Option::Some(t) => spec_extract_bearer(header@) == Option::Some(t@),
            Option::None => spec_extract_bearer(header@) is None,
        },
{
    let n = header.unicode_len();
    let a = scan_spaces(header, 0);
    if a == n {
        return None;
    }
    let b = scan_nonspaces(header, a);
    let c = scan_spaces(header, b);
    if c == n {
        return None;
    }
    let d = scan_nonspaces(header, c);
    let scheme = header.substring_char(a, b);
    if str_eq_ignore_ascii_case(scheme, "Bearer") {
        let token = header.substring_char(c, d);
        Some(token.to_owned())
    } else {
        None
    }
}

/// The mathematical values of a listing of strings, in its order.
pub open spec fn email_views(s: Seq<String>) -> Seq<Seq<char>>
    decreases s.len(),
{
    if s.len() == 0 {
        Seq::empty()
    } else {
        email_views(s.drop_last()).push(s.last()@)
    }
}

/// Appending one string appends its value.
proof fn lemma_email_views_push(s: Seq<String>, e: String)
    ensures
        email_views(s.push(e)) == email_views(s).push(e@),
{
    assert(s.push(e).drop_last() =~= s);
    assert(s.push(e).last() == e);
}

/// The allowed emails a comma-separated configuration value names: each
/// comma-separated piece trimmed and lowercased, empty pieces dropped, in
/// their order.
pub open spec fn spec_allowed_emails(s: Seq<char>) -> Seq<Seq<char>>
    decreases s.len(),
    via spec_allowed_emails_decreases
{
    let k = first_at(s, ',');
    let piece = if k >= s.len() {
        lower_of(spec_trim(s))
    } else {
        lower_of(spec_trim(s.take(k)))
    };
    let head: Seq<Seq<char>> = if piece.len() == 0 {
        Seq::empty()
    } else {
        seq![piece]
    };
    if k >= s.len() {
        head
    } else {
        head + spec_allowed_emails(s.skip(k + 1))
    }
}

/// The first occurrence of a character lies within the run.
proof fn lemma_first_at_bounds(s: Seq<char>, c: char)
    ensures
        0 <= first_at(s, c) <= s.len(),
    decreases s.len(),
{
    if s.len() > 0 && s[0] != c {
        lemma_first_at_bounds(s.drop_first(), c);
    }
}

#[via_fn]
proof fn spec_allowed_emails_decreases(s: Seq<char>) {
    lemma_first_at_bounds(s, ',');
}

/// Parses the allowed-email configuration value: splits at commas, trims
/// and lowercases each piece, and keeps the non-empty ones in order.
pub fn parse_allowed_emails(raw: &str) -> (r: Vec<String>)
    ensures
        email_views(r@) == spec_allowed_emails(raw@),
{
    let n = raw.unicode_len();
    let mut out: Vec<String> = Vec::new();
    let mut i: usize = 0;
    proof {
        assert(raw@.skip(0) =~= raw@);
        assert(email_views(out@) + spec_allowed_emails(raw@) =~= spec_allowed_emails(raw@));
    }
    loop
        invariant
            0 <= i <= n,
            n == raw@.len(),
            spec_allowed_emails(raw@) == email_views(out@) + spec_allowed_emails(
                raw@.skip(i as int),
            ),
        decreases n - i,
    {
        let rest = raw.substring_char(i, n);
        proof {
            assert(rest@ =~= raw@.skip(i as int));
            lemma_first_at_bounds(rest@, ',');
        }
        match find_char(rest, ',') {
            Option::None => {
                let piece = to_lowercase(trim(rest));
                let ghost before = out@;
                if !piece.as_str().is_empty() {
                    out.push(piece);
                    proof {
                        lemma_email_views_push(before, piece);
                    }
                }
                proof {
                    assert(spec_allowed_emails(raw@) =~= email_views(out@));
                }
                return out;
            },
            Option::Some(k) => {
                let piece_str = rest.substring_char(0, k);
                proof {
                    assert(piece_str@ =~= rest@.take(k as int));
                }
                let piece = to_lowercase(trim(piece_str));
                let ghost before = out@;
                if !piece.as_str().is_empty() {
                    out.push(piece);
                    proof {
                        lemma_email_views_push(before, piece);
                    }
                }
                proof {
                    assert(rest@.skip(k as int + 1) =~= raw@.skip(i as int + k + 1));
                    assert(spec_allowed_emails(raw@) =~= email_views(out@) + spec_allowed_emails(
                        raw@.skip(i as int + k + 1),
                    ));
                }
                i = i + k + 1;
            },
        }
    }
}

} // verus!
