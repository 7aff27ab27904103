//! Small text helpers for list rendering: truncation with an ellipsis,
//! domain extraction from a service URL, and status colouring.

use vstd::prelude::*;
use crate::strutil::{chars_starts_with, chars_string, is_prefix_of, str_eq, string_chars};

verus! {

/// What `truncate` keeps of an over-long string.
pub open spec fn spec_truncate(s: Seq<char>, max_len: int) -> Seq<char> {
    if s.len() <= max_len {
        s
    } else {
        let keep = if max_len >= 3 {
            max_len - 3
        } else {
            0
        };
        s.take(keep) + "..."@
    }
}

/// Truncate a string to at most `max_len` characters, ending in `...` when
/// something was cut.
pub fn truncate(s: &str, max_len: usize) -> (r: String)
    ensures
        r@ == spec_truncate(s@, max_len as int),
{
    let cs = string_chars(s);
    if cs.len() <= max_len {
        chars_string(&cs)
    } else {
        let keep: usize = if max_len >= 3 {
            max_len - 3
        } else {
            0
        };
        let mut out: Vec<char> = Vec::new();
        let mut i: usize = 0;
        while i < keep
            invariant
                keep <= cs@.len(),
                cs@ == s@,
                0 <= i <= keep,
                out@ == s@.take(i as int),
            decreases keep - i,
        {
            out.push(cs[i]);
            proof {
                assert(s@.take(i as int).push(s@[i as int]) =~= s@.take(i as int + 1));
            }
            i += 1;
        }
        let mut r = chars_string(&out);
        r.append("...");
        r
    }
}

/// The scheme prefix removed, if one is present.
pub open spec fn spec_strip_scheme(s: Seq<char>) -> Seq<char> {
    if is_prefix_of("https://"@, s) {
        s.skip("https://"@.len() as int)
    } else if is_prefix_of("http://"@, s) {
        s.skip("http://"@.len() as int)
    } else {
        s
    }
}

/// The characters before the first `/`.
pub open spec fn spec_until_slash(s: Seq<char>) -> Seq<char>
    decreases s.len(),
{
    if s.len() == 0 {
        s
    } else if s[0] == '/' {
        Seq::empty()
    } else {
        seq![s[0]] + spec_until_slash(s.drop_first())
    }
}

proof fn lemma_until_slash_at(s: Seq<char>, i: int)
    requires
        0 <= i <= s.len(),
        forall|j: int| 0 <= j < i ==> s[j] != '/',
        i == s.len() || s[i] == '/',
    ensures
        spec_until_slash(s) == s.take(i),
    decreases i,
{
    if s.len() == 0 {
        assert(s.take(0) =~= s);
    } else if i == 0 {
        if s[0] == '/' {
            assert(s.take(0) =~= Seq::<char>::empty());
        }
    } else {
        lemma_until_slash_at(s.drop_first(), i - 1);
        assert(s.drop_first().take(i - 1) =~= s.take(i).drop_first());
        assert(seq![s[0]] + s.take(i).drop_first() =~= s.take(i));
    }
}

/// Extract the host part of a service URL: drop an `http://` or `https://`
/// scheme and everything from the first `/` on.
pub fn extract_domain(url: &str) -> (r: String)
    ensures
        r@ == spec_until_slash(spec_strip_scheme(url@)),
{
    let cs = string_chars(url);
    let https = string_chars("https://");
    let http = string_chars("http://");
    let off: usize = if chars_starts_with(&cs, &https) {
        https.len()
    } else if chars_starts_with(&cs, &http) {
        http.len()
    } else {
        0
    };
    let ghost t = spec_strip_scheme(url@);
    proof {
        assert(t =~= url@.skip(off as int));
    }
    let n = cs.len();
    let mut out: Vec<char> = Vec::new();
    let mut i: usize = off;
    while i < n
        invariant
            off <= i <= n,
            n == cs@.len(),
            cs@ == url@,
            t == spec_strip_scheme(url@),
            t == url@.skip(off as int),
            out@ == t.take(i - off),
            forall|j: int| 0 <= j < i - off ==> t[j] != '/',
        decreases n - i,
    {
        let c = cs[i];
        proof {
            assert(t[i - off] == url@[i as int]);
        }
        if c == '/' {
            proof {
                lemma_until_slash_at(t, i - off);
            }
            return chars_string(&out);
        }
        out.push(c);
        proof {
            assert(t.take(i - off).push(t[i - off]) =~= t.take(i + 1 - off));
        }
        i += 1;
    }
    proof {
        lemma_until_slash_at(t, n - off);
        assert(t.take(n - off) =~= t);
    }
    chars_string(&out)
}

/// Display colour categories for an issue status.
#[derive(Debug, Clone, Copy, PartialEq, Eq, Structural)]
pub enum StatusColor {
    /// Completed statuses.
    Green,
    /// In-progress statuses.
    Yellow,
    /// Everything else.
    White,
}

/// The colour category for a status name.
pub open spec fn spec_status_color(s: Seq<char>) -> StatusColor {
    if s == "Done"@ || s == "Closed"@ || s == "Resolved"@ {
        StatusColor::Green
    } else if s == "In Progress"@ || s == "In Review"@ {
        StatusColor::Yellow
    } else {
        StatusColor::White
    }
}

/// The display colour for an issue status.
pub fn status_color(status: &str) -> (r: StatusColor)
    ensures
        r == spec_status_color(status@),
{
    if str_eq(status, "Done") || str_eq(status, "Closed") || str_eq(status, "Resolved") {
        StatusColor::Green
    } else if str_eq(status, "In Progress") || str_eq(status, "In Review") {
        StatusColor::Yellow
    } else {
        StatusColor::White
    }
}

} // verus!
