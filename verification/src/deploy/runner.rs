//! The output of a deploy command, and the failure summary sent for it.
use vstd::prelude::*;

use crate::patterns::{regex_compiles, regex_replace_all, regex_replaced, regex_valid};
use crate::text::{
    chars_of, decimal, decimal_padded, push_char, push_decimal_padded, push_str, string_from, zeros,
};
use crate::webhook::payload::{first_index_of, join};

verus! {

/// What a finished command printed, and whether it exited successfully.
pub struct CommandOutput {
    pub stdout: String,
    pub stderr: String,
    pub success: bool,
}

/// The expression that matches an ANSI escape sequence (colour, cursor movement).
pub const ANSI_ESCAPE_PATTERN: &'static str = r"\x1b(\[[0-9;]*[A-Za-z]|\([A-Za-z0-9])";

/// How many lines of output a failure summary keeps.
pub const MAX_SUMMARY_LINES: usize = 8;

/// Unicode white space (`char::is_whitespace`).
pub open spec fn is_white(c: char) -> bool {
    let x = c as u32;
    (0x9 <= x && x <= 0xd) || x == 0x20 || x == 0x85 || x == 0xa0 || x == 0x1680 || (0x2000 <= x
        && x <= 0x200a) || x == 0x2028 || x == 0x2029 || x == 0x202f || x == 0x205f || x == 0x3000
}

/// Whether `s` is empty once white space is trimmed from both ends.
pub open spec fn blank(s: Seq<char>) -> bool {
    forall|i: int| 0 <= i < s.len() ==> is_white(#[trigger] s[i])
}

/// A line without the `\r` of a `\r\n` ending.
pub open spec fn strip_cr(line: Seq<char>) -> Seq<char> {
    if line.len() > 0 && line.last() == '\r' {
        line.drop_last()
    } else {
        line
    }
}

/// The lines of `s` as `str::lines` gives them: split at `\n` (a `\r` before it is
/// dropped), with no empty line after a final `\n`.
pub open spec fn lines_of(s: Seq<char>) -> Seq<Seq<char>>
    decreases s.len(),
{
    if s.len() == 0 {
        Seq::empty()
    } else if first_index_of(s, '\n') < 0 {
        seq![s]
    } else {
        proof {
            lemma_first_index_bound(s, '\n');
        }
        seq![strip_cr(s.take(first_index_of(s, '\n')))] + lines_of(s.skip(first_index_of(s, '\n') + 1))
    }
}

pub proof fn lemma_first_index_bound(s: Seq<char>, c: char)
    ensures
        -1 <= first_index_of(s, c) < s.len(),
        first_index_of(s, c) >= 0 ==> s[first_index_of(s, c)] == c,
        forall|k: int| 0 <= k < (if first_index_of(s, c) < 0 { s.len() as int } else { first_index_of(s, c) }) ==> s[k] != c,
    decreases s.len(),
{
    if s.len() > 0 && s[0] != c {
        lemma_first_index_bound(s.drop_first(), c);
        assert forall|k: int| 1 <= k < (if first_index_of(s, c) < 0 { s.len() as int } else { first_index_of(s, c) }) implies s[k] != c by {
            assert(s[k] == s.drop_first()[k - 1]);
        }
    }
}

/// The text a summary is built from: stderr, or stdout when stderr is blank, with
/// ANSI escape sequences removed.
pub open spec fn summary_source(out: CommandOutput) -> Seq<char> {
    let source = if blank(out.stderr@) {
        out.stdout@
    } else {
        out.stderr@
    };
    if regex_valid(ANSI_ESCAPE_PATTERN@) {
        regex_replaced(ANSI_ESCAPE_PATTERN@, source, ""@)
    } else {
        source
    }
}

/// The last (at most) `n` elements of `s`.
pub open spec fn last_n<T>(s: Seq<T>, n: int) -> Seq<T> {
    if s.len() <= n {
        s
    } else {
        s.skip(s.len() - n)
    }
}

/// The summary of a cleaned output text: its last 8 lines, or a pointer to the
/// project's log folder when it has none.
pub open spec fn summary_text_of(text: Seq<char>, name: Seq<char>) -> Seq<char> {
    let tail = last_n(lines_of(text), MAX_SUMMARY_LINES as int);
    if tail.len() == 0 {
        "exit failure, see "@ + name + "/ log folder"@
    } else {
        "exit failure:\n"@ + join(tail, seq!['\n'])
    }
}

/// A failure summary: the summary of the output it is built from.
pub open spec fn failure_summary_of(out: CommandOutput, name: Seq<char>) -> Seq<char> {
    summary_text_of(summary_source(out), name)
}

fn is_white_exec(c: char) -> (r: bool)
    ensures
        r == is_white(c),
{
    let x = c as u32;
    (0x9 <= x && x <= 0xd) || x == 0x20 || x == 0x85 || x == 0xa0 || x == 0x1680 || (0x2000 <= x
        && x <= 0x200a) || x == 0x2028 || x == 0x2029 || x == 0x202f || x == 0x205f || x == 0x3000
}

fn is_blank(s: &str) -> (r: bool)
    ensures
        r == blank(s@),
{
    let v = chars_of(s);
    let mut i: usize = 0;
    while i < v.len()
        invariant
            i <= v@.len(),
            v@ == s@,
            forall|k: int| 0 <= k < i ==> is_white(#[trigger] v@[k]),
        decreases v@.len() - i,
    {
        if !is_white_exec(v[i]) {
            return false;
        }
        i = i + 1;
    }
    true
}

/// The lines of `v` from position `from` on.
fn split_lines(v: &Vec<char>) -> (r: Vec<Vec<char>>)
    ensures
        r@.map_values(|l: Vec<char>| l@) == lines_of(v@),
{
    let mut r: Vec<Vec<char>> = Vec::new();
    let mut pos: usize = 0;
    assert(v@.skip(0) =~= v@);
    while pos < v.len()
        invariant
            pos <= v@.len(),
            r@.map_values(|l: Vec<char>| l@) + lines_of(v@.skip(pos as int)) == lines_of(v@),
        decreases v@.len() - pos,
    {
        let ghost rest = v@.skip(pos as int);
        let mut end: usize = pos;
        while end < v.len() && v[end] != '\n'
            invariant
                pos <= end <= v@.len(),
                forall|k: int| pos <= k < end ==> v@[k] != '\n',
            decreases v@.len() - end,
        {
            end = end + 1;
        }
        let mut line: Vec<char> = Vec::new();
        let mut k: usize = pos;
        while k < end
            invariant
                pos <= k <= end <= v@.len(),
                line@ == v@.subrange(pos as int, k as int),
            decreases end - k,
        {
            line.push(v[k]);
            k = k + 1;
            proof {
                assert(line@ =~= v@.subrange(pos as int, k as int));
            }
        }
        let ghost prev = r@;
        if end < v.len() {
            // a line ended by `\n`: drop a `\r` before it
            proof {
                lemma_first_index_bound(rest, '\n');
                let idx = first_index_of(rest, '\n');
                if 0 <= idx < end - pos {
                    assert(rest[idx] == v@[pos + idx]);
                    assert(false);
                }
                if idx < 0 || idx > end - pos {
                    assert(rest[end - pos] == v@[end as int]);
                    assert(false);
                }
                assert(first_index_of(rest, '\n') == end - pos);
                assert(rest.take(end - pos) =~= line@);
                assert(rest.skip(end - pos + 1) =~= v@.skip(end + 1));
            }
            if line.len() > 0 && line[line.len() - 1] == '\r' {
                line.pop();
            }
            r.push(line);
            pos = end + 1;
        } else {
            proof {
                lemma_first_index_bound(rest, '\n');
                let idx = first_index_of(rest, '\n');
                assert(rest.len() == end - pos);
                if idx >= 0 {
                    assert(rest[idx] == v@[pos + idx]);
                    assert(false);
                }
                assert(rest =~= line@);
                assert(v@.skip(end as int) =~= Seq::<char>::empty());
            }
            r.push(line);
            pos = end;
        }
        proof {
            assert(r@.map_values(|l: Vec<char>| l@) =~= prev.map_values(|l: Vec<char>| l@).push(
                r@.last()@,
            ));
        }
    }
    proof {
        assert(v@.skip(pos as int) =~= Seq::<char>::empty());
        assert(r@.map_values(|l: Vec<char>| l@) =~= lines_of(v@));
    }
    r
}

/// The summary of an output text from which escape sequences were removed: its last
/// lines, or a pointer to the project's log folder when it has none.
pub fn summary_text(text: &str, name: &str) -> (r: String)
    ensures
        r@ == summary_text_of(text@, name@),
{
    let chars = chars_of(text);
    let lines = split_lines(&chars);
    let ghost all = lines@.map_values(|l: Vec<char>| l@);
    let n = lines.len();
    if n == 0 {
        let mut out = crate::text::owned("exit failure, see ");
        push_str(&mut out, name);
        push_str(&mut out, "/ log folder");
        proof {
            assert(last_n(all, MAX_SUMMARY_LINES as int).len() == 0);
        }
        return out;
    }
    let start: usize = if n > MAX_SUMMARY_LINES { n - MAX_SUMMARY_LINES } else { 0 };
    let ghost tail = last_n(all, MAX_SUMMARY_LINES as int);
    proof {
        assert(tail =~= all.skip(start as int));
    }
    let mut out = crate::text::owned("exit failure:\n");
    let ghost head = out@;
    let mut i: usize = start;
    while i < n
        invariant
            start <= i <= n,
            n == lines@.len(),
            start < n,
            all == lines@.map_values(|l: Vec<char>| l@),
            tail == all.skip(start as int),
            out@ == head + join(tail.take(i - start), seq!['\n']),
        decreases n - i,
    {
        if i > start {
            push_char(&mut out, '\n');
        }
        let l = string_from(lines[i].as_slice());
        push_str(&mut out, l.as_str());
        proof {
            assert(tail.take(i - start + 1).drop_last() =~= tail.take(i - start));
            assert(tail.take(i - start + 1).last() == lines@[i as int]@);
            if i == start {
                assert(tail.take(1) =~= seq![lines@[i as int]@]);
            }
        }
        i = i + 1;
        proof {
            assert(out@ =~= head + join(tail.take(i - start), seq!['\n']));
        }
    }
    proof {
        assert(tail.take(n - start) =~= tail);
    }
    out
}

impl CommandOutput {
    /// Builds a short failure summary for notifications: the last few lines of
    /// stderr, falling back to stdout if stderr is blank. ANSI escape codes
    /// (color, cursor movement) are stripped since notifications are plain text.
    pub fn failure_summary(&self, name: &str) -> (r: String)
        ensures
            r@ == failure_summary_of(*self, name@),
    {
        let source = if is_blank(self.stderr.as_str()) {
            self.stdout.as_str()
        } else {
            self.stderr.as_str()
        };
        let cleaned = if regex_compiles(ANSI_ESCAPE_PATTERN) {
            regex_replace_all(ANSI_ESCAPE_PATTERN, source, "")
        } else {
            crate::text::owned(source)
        };
        summary_text(cleaned.as_str(), name)
    }
}

/// One variable of a command's environment, when set.
pub open spec fn env_if(pair: Option<(Seq<char>, Seq<char>)>) -> Seq<(Seq<char>, Seq<char>)> {
    match pair {
        Some(p) => seq![p],
        None => Seq::empty(),
    }
}

/// The variables added to a command's environment: `extra_env` as it is, and
/// `extra_git_config` as the one entry of git's environment configuration, which any
/// `git` run inside the command picks up.
pub open spec fn command_env_of(
    extra_env: Option<(Seq<char>, Seq<char>)>,
    extra_git_config: Option<(Seq<char>, Seq<char>)>,
) -> Seq<(Seq<char>, Seq<char>)> {
    env_if(extra_env) + match extra_git_config {
        Some((key, value)) => seq![
            ("GIT_CONFIG_COUNT"@, "1"@),
            ("GIT_CONFIG_KEY_0"@, key),
            ("GIT_CONFIG_VALUE_0"@, value),
        ],
        None => Seq::empty(),
    }
}

/// A pair of texts by their views.
pub open spec fn pair_view(p: Option<(&str, &str)>) -> Option<(Seq<char>, Seq<char>)> {
    match p {
        Some((a, b)) => Some((a@, b@)),
        None => None,
    }
}

fn env_pair(key: &str, value: &str) -> (r: (String, String))
    ensures
        r.0@ == key@ && r.1@ == value@,
{
    (crate::text::owned(key), crate::text::owned(value))
}

/// The variables to add to the environment of a deploy command. Secrets travel
/// this way rather than in the command line, so they never show in process listings.
pub fn command_env(extra_env: Option<(&str, &str)>, extra_git_config: Option<(&str, &str)>) -> (r:
    Vec<(String, String)>)
    ensures
        r@.map_values(|p: (String, String)| (p.0@, p.1@)) == command_env_of(
            pair_view(extra_env),
            pair_view(extra_git_config),
        ),
{
    let mut out: Vec<(String, String)> = Vec::new();
    if let Some((key, value)) = extra_env {
        out.push(env_pair(key, value));
    }
    if let Some((key, value)) = extra_git_config {
        out.push(env_pair("GIT_CONFIG_COUNT", "1"));
        out.push(env_pair("GIT_CONFIG_KEY_0", key));
        out.push(env_pair("GIT_CONFIG_VALUE_0", value));
    }
    proof {
        assert(out@.map_values(|p: (String, String)| (p.0@, p.1@)) =~= command_env_of(
            pair_view(extra_env),
            pair_view(extra_git_config),
        ));
    }
    out
}

/// The arguments given to the shell: the command is run with `-c`.
pub fn shell_args(cmd: &str) -> (r: Vec<String>)
    ensures
        r@.map_values(|s: String| s@) == seq!["-c"@, cmd@],
{
    let mut out: Vec<String> = Vec::new();
    out.push(crate::text::owned("-c"));
    out.push(crate::text::owned(cmd));
    proof {
        assert(out@.map_values(|s: String| s@) =~= seq!["-c"@, cmd@]);
    }
    out
}

/// The reason given when a command cannot be started.
pub fn spawn_failure(cmd: &str) -> (r: String)
    ensures
        r@ == "Failed to spawn command: "@ + cmd@,
{
    let mut out = crate::text::owned("Failed to spawn command: ");
    push_str(&mut out, cmd);
    out
}

/// The reason given when a command outlives its timeout of `secs` seconds.
pub fn timeout_failure(secs: u64, cmd: &str) -> (r: String)
    ensures
        r@ == "Command timed out after "@ + decimal(secs as nat) + "s: "@ + cmd@,
{
    let mut out = crate::text::owned("Command timed out after ");
    push_decimal_padded(&mut out, secs, 0);
    proof {
        assert(zeros(0 - decimal(secs as nat).len()) =~= Seq::<char>::empty());
        assert(decimal_padded(secs as nat, 0) =~= decimal(secs as nat));
    }
    push_str(&mut out, "s: ");
    push_str(&mut out, cmd);
    out
}

} // verus!
