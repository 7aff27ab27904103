//! Query keys for the remote issue-tracker API: stable cache hashes and
//! human-readable descriptions.
//!
//! A query key normalizes its parameters (case-folded, whitespace-trimmed
//! JQL) and hashes them with SHA-256 so that equivalent queries share one
//! fixed-length cache key.

use vstd::prelude::*;
use vstd::string::StrSliceExecFns;
use vstd::utf8::encode_utf8;
use crate::strutil::{spec_decimal, u64_string};
use sha2::Digest;

verus! {

/// The SHA-256 digest of a byte sequence.
pub uninterp spec fn sha256_of(b: Seq<u8>) -> Seq<u8>;

/// A string with leading and trailing whitespace removed.
pub uninterp spec fn trim_of(s: Seq<char>) -> Seq<char>;

/// A string converted to lowercase.
pub uninterp spec fn lower_of(s: Seq<char>) -> Seq<char>;

/// Relies on `sha2::Sha256` (via the `Digest` trait): a 32-byte digest that
/// depends on the input bytes alone.
#[verifier::external_body]
fn sha256_digest(b: &Vec<u8>) -> (r: Vec<u8>)
    ensures
        r@ == sha256_of(b@),
        r@.len() == 32,
{
    sha2::Sha256::digest(b).to_vec()
}

/// Lowercase hexadecimal digit characters.
pub open spec fn hex_digit(n: u8) -> char {
    if n == 0 { '0' }
    else if n == 1 { '1' }
    else if n == 2 { '2' }
    else if n == 3 { '3' }
    else if n == 4 { '4' }
    else if n == 5 { '5' }
    else if n == 6 { '6' }
    else if n == 7 { '7' }
    else if n == 8 { '8' }
    else if n == 9 { '9' }
    else if n == 10 { 'a' }
    else if n == 11 { 'b' }
    else if n == 12 { 'c' }
    else if n == 13 { 'd' }
    else if n == 14 { 'e' }
    else { 'f' }
}

/// Lowercase hexadecimal rendering of a byte sequence, two digits per byte,
/// high nibble first.
pub open spec fn spec_hex(bs: Seq<u8>) -> Seq<char>
    decreases bs.len(),
{
    if bs.len() == 0 {
        Seq::empty()
    } else {
        seq![hex_digit(bs[0] / 16), hex_digit(bs[0] % 16)] + spec_hex(bs.drop_first())
    }
}

/// Hexadecimal rendering is two digits per byte.
pub proof fn lemma_spec_hex_len(bs: Seq<u8>)
    ensures
        spec_hex(bs).len() == 2 * bs.len(),
    decreases bs.len(),
{
    if bs.len() > 0 {
        lemma_spec_hex_len(bs.drop_first());
    }
}

/// Relies on `hex::encode`: lowercase hexadecimal, two digits per byte,
/// high nibble first.
#[verifier::external_body]
fn hex_encode(b: &Vec<u8>) -> (r: String)
    ensures
        r@ == spec_hex(b@),
{
    hex::encode(b)
}

/// Relies on `str::trim`: removes leading and trailing whitespace; the
/// result is a substring of the input.
#[verifier::external_body]
pub(crate) fn trimmed(s: &str) -> (r: String)
    ensures
        r@ == trim_of(s@),
        r@.len() <= s@.len(),
        s@.len() == 0 ==> r@.len() == 0,
{
    s.trim().to_owned()
}

/// Relies on `str::to_lowercase`: the result depends on the characters
/// alone; an empty string stays empty.
#[verifier::external_body]
pub(crate) fn lowercased(s: &str) -> (r: String)
    ensures
        r@ == lower_of(s@),
        s@.len() == 0 ==> r@.len() == 0,
{
    s.to_lowercase()
}

/// Normalized JQL, for case- and whitespace-insensitive cache keys.
pub open spec fn spec_norm_jql(s: Seq<char>) -> Seq<char> {
    lower_of(trim_of(s))
}

/// Normalize JQL for consistent hashing: trim whitespace, fold case.
pub fn normalize_jql(jql: &str) -> (r: String)
    ensures
        r@ == spec_norm_jql(jql@),
{
    let t = trimmed(jql);
    lowercased(t.as_str())
}

/// Query key types for the remote issue-tracker API.
#[derive(Debug, Clone)]
pub enum JiraQueryKey {
    /// Search issues with JQL.
    IssueSearch { jql: String },
    /// Issues of a specific board, optionally filtered.
    BoardIssues { board_id: u64, jql: Option<String> },
    /// List boards, optionally restricted to a project.
    Boards { project: Option<String> },
    /// A single issue by key.
    IssueDetail { key: String },
}

/// The normalized text a query key is hashed from.
pub open spec fn spec_hash_input(k: &JiraQueryKey) -> Seq<char> {
    match k {
        JiraQueryKey::IssueSearch { jql } => "issue_search:"@ + spec_norm_jql(jql@),
        JiraQueryKey::BoardIssues { board_id, jql } => "board_issues:"@ + spec_decimal(
            *board_id as int,
        ) + ":"@ + (match jql {
            Some(j) => spec_norm_jql(j@),
            None => Seq::empty(),
        }),
        JiraQueryKey::Boards { project } => "boards:"@ + (match project {
            Some(p) => p@,
            None => Seq::empty(),
        }),
        JiraQueryKey::IssueDetail { key } => "issue_detail:"@ + key@,
    }
}

/// The human-readable description of a query key.
pub open spec fn spec_description(k: &JiraQueryKey) -> Seq<char> {
    match k {
        JiraQueryKey::IssueSearch { jql } => "issues: "@ + jql@,
        JiraQueryKey::BoardIssues { board_id, jql } => match jql {
            Some(j) => "board "@ + spec_decimal(*board_id as int) + " issues: "@ + j@,
            None => "board "@ + spec_decimal(*board_id as int) + " issues"@,
        },
        JiraQueryKey::Boards { project } => match project {
            Some(p) => "boards for project "@ + p@,
            None => "all boards"@,
        },
        JiraQueryKey::IssueDetail { key } => "issue "@ + key@,
    }
}

impl JiraQueryKey {
    /// Stable, fixed-length cache key: the lowercase hexadecimal SHA-256
    /// digest of the normalized query text.
    pub fn cache_hash(&self) -> (r: String)
        ensures
            r@ == spec_hex(sha256_of(encode_utf8(spec_hash_input(self)))),
            r@.len() == 64,
    {
        let mut input = String::new();
        match self {
            JiraQueryKey::IssueSearch { jql } => {
                input.append("issue_search:");
                let n = normalize_jql(jql.as_str());
                input.append(n.as_str());
            }
            JiraQueryKey::BoardIssues { board_id, jql } => {
                input.append("board_issues:");
                let d = u64_string(*board_id);
                input.append(d.as_str());
                input.append(":");
                match jql {
                    Some(j) => {
                        let n = normalize_jql(j.as_str());
                        input.append(n.as_str());
                    }
                    None => {}
                }
            }
            JiraQueryKey::Boards { project } => {
                input.append("boards:");
                match project {
                    Some(p) => {
                        input.append(p.as_str());
                    }
                    None => {}
                }
            }
            JiraQueryKey::IssueDetail { key } => {
                input.append("issue_detail:");
                input.append(key.as_str());
            }
        }
        proof {
            assert(input@ =~= spec_hash_input(self));
        }
        let bytes = input.as_str().as_bytes_vec();
        let digest = sha256_digest(&bytes);
        proof {
            lemma_spec_hex_len(digest@);
        }
        hex_encode(&digest)
    }

    /// Human-readable description of the query.
    pub fn description(&self) -> (r: String)
        ensures
            r@ == spec_description(self),
    {
        let mut out = String::new();
        match self {
            JiraQueryKey::IssueSearch { jql } => {
                out.append("issues: ");
                out.append(jql.as_str());
            }
            JiraQueryKey::BoardIssues { board_id, jql } => {
                out.append("board ");
                let d = u64_string(*board_id);
                out.append(d.as_str());
                match jql {
                    Some(j) => {
                        out.append(" issues: ");
                        out.append(j.as_str());
                    }
                    None => {
                        out.append(" issues");
                    }
                }
            }
            JiraQueryKey::Boards { project } => {
                match project {
                    Some(p) => {
                        out.append("boards for project ");
                        out.append(p.as_str());
                    }
                    None => {
                        out.append("all boards");
                    }
                }
            }
            JiraQueryKey::IssueDetail { key } => {
                out.append("issue ");
                out.append(key.as_str());
            }
        }
        proof {
            assert(out@ =~= spec_description(self));
        }
        out
    }
}

} // verus!
