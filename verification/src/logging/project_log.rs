//! The per-project command log: where it lies and what one entry holds.
use vstd::prelude::*;

use std::path::{Path, PathBuf};

use crate::deploy::runner::CommandOutput;
use crate::logging::calendar::{civil_date, date_string, date_text, SECS_PER_DAY};
use crate::text::{chars_of, decimal, decimal_digits, push_char, push_str};

verus! {

#[verifier::external_type_specification]
#[verifier::external_body]
pub struct ExPath(Path);

#[verifier::external_type_specification]
#[verifier::external_body]
pub struct ExPathBuf(PathBuf);

/// What `std::path::Path::join` builds from `base` and `part`: `part` adjoined to
/// `base` by the rules of the platform the program runs on.
pub uninterp spec fn path_joined(base: &Path, part: Seq<char>) -> PathBuf;

/// The path that `std::path::PathBuf::as_path` borrows from a `PathBuf`.
pub uninterp spec fn path_of(p: &PathBuf) -> &Path;

/// `std::path::Path::join`: a pure function of its arguments on a given platform.
/// The contract names its result; what the path holds is left unsaid.
#[verifier::external_body]
fn path_join(base: &Path, part: &str) -> (r: PathBuf)
    ensures
        r == path_joined(base, part@),
{
    base.join(part)
}

/// `std::path::PathBuf::as_path`: the path held by `p`, borrowed.
pub assume_specification[ PathBuf::as_path ](p: &PathBuf) -> (r: &Path)
    ensures
        r == path_of(p),
;

/// The name of the log file of the day of the instant `epoch_secs`: `YYYY-MM-DD.log`.
pub open spec fn log_file_name_of(epoch_secs: nat) -> Seq<char> {
    date_text(civil_date(epoch_secs as int / SECS_PER_DAY as int)) + ".log"@
}

/// The name of the log file of the day of the instant `epoch_secs`.
pub fn log_file_name(epoch_secs: u64) -> (r: String)
    ensures
        r@ == log_file_name_of(epoch_secs as nat),
{
    let mut name = date_string(epoch_secs);
    push_str(&mut name, ".log");
    name
}

/// Text that ends with a line break: `s` itself, or `s` with one added.
pub open spec fn with_newline(s: Seq<char>) -> Seq<char> {
    if s.len() > 0 && s.last() == '\n' {
        s
    } else {
        s.push('\n')
    }
}

/// What a log entry holds of a stream: nothing when it is empty, else its text
/// ending with a line break, after `header` when there is one.
pub open spec fn stream_part(header: Seq<char>, s: Seq<char>) -> Seq<char> {
    if s.len() == 0 {
        Seq::empty()
    } else {
        header + with_newline(s)
    }
}

/// One entry of a project log: a header line with the time, the step and its status,
/// the command, then its standard output and its standard error, each when not empty.
pub open spec fn log_entry_of(epoch_secs: nat, step: Seq<char>, cmd: Seq<char>, out: CommandOutput) -> Seq<
    char,
> {
    "==== unix="@ + decimal(epoch_secs) + " step="@ + step + " status="@ + (if out.success {
        "ok"@
    } else {
        "failed"@
    }) + "\n$ "@ + cmd + "\n"@ + stream_part(Seq::empty(), out.stdout@) + stream_part(
        "-- stderr --\n"@,
        out.stderr@,
    )
}

fn push_stream(body: &mut String, header: &str, s: &str)
    ensures
        final(body)@ == old(body)@ + stream_part(header@, s@),
{
    if s.is_empty() {
        proof {
            assert(body@ =~= old(body)@ + stream_part(header@, s@));
        }
        return ;
    }
    push_str(body, header);
    push_str(body, s);
    let chars = chars_of(s);
    if chars[chars.len() - 1] != '\n' {
        push_char(body, '\n');
    }
    proof {
        assert(body@ =~= old(body)@ + stream_part(header@, s@));
    }
}

/// The text appended to the project log for one command of a deploy.
pub fn log_entry(epoch_secs: u64, step: &str, cmd: &str, out: &CommandOutput) -> (r: String)
    ensures
        r@ == log_entry_of(epoch_secs as nat, step@, cmd@, *out),
{
    let mut body = String::new();
    push_str(&mut body, "==== unix=");
    let digits = decimal_digits(epoch_secs);
    let mut i: usize = 0;
    while i < digits.len()
        invariant
            i <= digits@.len(),
            body@ == "==== unix="@ + digits@.take(i as int),
        decreases digits@.len() - i,
    {
        push_char(&mut body, digits[i]);
        i = i + 1;
        proof {
            assert(body@ =~= "==== unix="@ + digits@.take(i as int));
        }
    }
    proof {
        assert(digits@.take(digits@.len() as int) =~= digits@);
    }
    push_str(&mut body, " step=");
    push_str(&mut body, step);
    push_str(&mut body, " status=");
    if out.success {
        push_str(&mut body, "ok");
    } else {
        push_str(&mut body, "failed");
    }
    push_str(&mut body, "\n$ ");
    push_str(&mut body, cmd);
    push_str(&mut body, "\n");
    push_stream(&mut body, "", out.stdout.as_str());
    push_stream(&mut body, "-- stderr --\n", out.stderr.as_str());
    proof {
        reveal_strlit("");
        assert(""@ =~= Seq::<char>::empty());
        assert(body@ =~= log_entry_of(epoch_secs as nat, step@, cmd@, *out));
    }
    body
}

/// The raw output of each deploy step of one project, kept in
/// `<log_dir>/<project>/<YYYY-MM-DD>.log`, apart from the application's own log.
pub struct ProjectLog {
    dir: PathBuf,
}

impl ProjectLog {
    /// The directory the project's log files are kept in.
    pub closed spec fn directory(self) -> PathBuf {
        self.dir
    }

    pub fn new(log_dir: &Path, project: &str) -> (r: Self)
        ensures
            r.directory() == path_joined(log_dir, project@),
    {
        ProjectLog { dir: path_join(log_dir, project) }
    }

    /// The project's log directory.
    pub fn dir(&self) -> (r: &PathBuf)
        ensures
            *r == self.directory(),
    {
        &self.dir
    }

    /// The file of the day of the instant `epoch_secs`, in the project's directory.
    pub fn file_for(&self, epoch_secs: u64) -> (r: PathBuf)
        ensures
            r == path_joined(path_of(&self.directory()), log_file_name_of(epoch_secs as nat)),
    {
        let name = log_file_name(epoch_secs);
        path_join(self.dir.as_path(), name.as_str())
    }
}

} // verus!
