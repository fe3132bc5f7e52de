//! How git is run for a project: the clone command and the authentication
//! header it sends with a GitHub App installation token.
use vstd::prelude::*;
use vstd::utf8::encode_utf8;

use base64::engine::general_purpose::STANDARD;
use base64::Engine;

use crate::text::{owned, push_str};

verus! {

/// The character of the standard base64 alphabet for `n < 64`.
pub open spec fn base64_char(n: int) -> char {
    if n < 26 {
        (('A' as u32) + n) as char
    } else if n < 52 {
        (('a' as u32) + n - 26) as char
    } else if n < 62 {
        (('0' as u32) + n - 52) as char
    } else if n == 62 {
        '+'
    } else {
        '/'
    }
}

/// Standard base64 (RFC 4648, with `=` padding): each group of three bytes as four
/// characters; a last group of one or two bytes as two or three, padded to four.
pub open spec fn base64_spec(b: Seq<u8>) -> Seq<char>
    decreases b.len(),
{
    if b.len() == 0 {
        Seq::empty()
    } else if b.len() == 1 {
        seq![base64_char(b[0] as int / 4), base64_char((b[0] % 4) * 16), '=', '=']
    } else if b.len() == 2 {
        seq![
            base64_char(b[0] as int / 4),
            base64_char((b[0] % 4) * 16 + b[1] / 16),
            base64_char((b[1] % 16) * 4),
            '=',
        ]
    } else {
        seq![
            base64_char(b[0] as int / 4),
            base64_char((b[0] % 4) * 16 + b[1] / 16),
            base64_char((b[1] % 16) * 4 + b[2] / 64),
            base64_char(b[2] as int % 64),
        ] + base64_spec(b.skip(3))
    }
}

/// `base64::Engine::encode` with the `STANDARD` engine. The crate sizes its buffer
/// with a checked multiplication; for a slice that fits in memory it cannot overflow.
#[verifier::external_body]
fn base64_encode(data: &[u8]) -> (r: String)
    ensures
        r@ == base64_spec(data@),
{
    STANDARD.encode(data)
}

/// The user name git presents with an installation token.
pub const TOKEN_USER_PREFIX: &'static str = "x-access-token:";

/// The start of the header value.
pub const AUTHORIZATION_PREFIX: &'static str = "AUTHORIZATION: basic ";

/// The `http.extraHeader` value for an installation token: basic authentication as
/// `x-access-token:<token>`.
pub open spec fn basic_auth_header_of(token: Seq<char>) -> Seq<char> {
    AUTHORIZATION_PREFIX@ + base64_spec(encode_utf8(TOKEN_USER_PREFIX@ + token))
}

/// Builds the `http.extraHeader` config value for a GitHub App installation token,
/// suitable for `git -c http.extraHeader=<value>` or the `GIT_CONFIG_VALUE_n` env var.
pub fn basic_auth_header_value(token: &str) -> (r: String)
    ensures
        r@ == basic_auth_header_of(token@),
{
    let mut user = owned(TOKEN_USER_PREFIX);
    push_str(&mut user, token);
    let encoded = base64_encode(user.as_str().as_bytes());
    let mut out = owned(AUTHORIZATION_PREFIX);
    push_str(&mut out, encoded.as_str());
    out
}

/// The arguments of `git` that clone `git_url` into `working_dir` at `branch`; with an
/// installation token, it goes as an extra HTTP header rather than in the URL.
pub open spec fn clone_args_of(git_url: Seq<char>, working_dir: Seq<char>, branch: Seq<char>, token: Option<Seq<char>>) -> Seq<Seq<char>> {
    (match token {
        Some(t) => seq!["-c"@, "http.extraHeader="@ + basic_auth_header_of(t)],
        None => Seq::empty(),
    }) + seq!["clone"@, "--branch"@, branch, git_url, working_dir]
}

/// The arguments of the `git` command that clones a project's repository.
pub fn clone_args(git_url: &str, working_dir: &str, branch: &str, gh_token: Option<&str>) -> (r: Vec<String>)
    ensures
        r@.map_values(|s: String| s@) == clone_args_of(
            git_url@,
            working_dir@,
            branch@,
            match gh_token {
                Some(t) => Some(t@),
                None => None,
            },
        ),
{
    let mut out: Vec<String> = Vec::new();
    if let Some(token) = gh_token {
        out.push(owned("-c"));
        let mut header = owned("http.extraHeader=");
        let value = basic_auth_header_value(token);
        push_str(&mut header, value.as_str());
        out.push(header);
    }
    out.push(owned("clone"));
    out.push(owned("--branch"));
    out.push(owned(branch));
    out.push(owned(git_url));
    out.push(owned(working_dir));
    proof {
        assert(out@.map_values(|s: String| s@) =~= clone_args_of(
            git_url@,
            working_dir@,
            branch@,
            match gh_token {
                Some(t) => Some(t@),
                None => None,
            },
        ));
    }
    out
}

/// The reason given when `git clone` fails, with what it printed on stderr.
pub fn clone_failure(stderr: &str) -> (r: String)
    ensures
        r@ == "git clone failed: "@ + stderr@,
{
    let mut out = owned("git clone failed: ");
    push_str(&mut out, stderr);
    out
}

} // verus!
