//! Which pushes a project deploys: branch and commit filters.
use vstd::prelude::*;

use crate::configure::loader::CommitFilter;
use crate::configure::types::FilterMode;
use crate::patterns::{
    glob_compiles, glob_match, glob_matches, glob_valid, regex_compiles, regex_is_match,
    regex_matches, regex_valid,
};
use crate::text::{str_eq, views};
use crate::webhook::payload::{branch_of, CommitInfo, PushEvent};

verus! {

/// Whether the push went to the `expected` branch.
pub fn branch_matches(event: &PushEvent, expected: &str) -> (r: bool)
    ensures
        r == (branch_of(event.git_ref@) == expected@),
{
    str_eq(event.branch_name(), expected)
}

/// The files a commit touches: added, removed, modified.
pub open spec fn commit_files(c: CommitInfo) -> Seq<Seq<char>> {
    views(c.added@) + views(c.removed@) + views(c.modified@)
}

/// The files a push touches, commit by commit.
pub open spec fn push_files(commits: Seq<CommitInfo>) -> Seq<Seq<char>>
    decreases commits.len(),
{
    if commits.len() == 0 {
        Seq::empty()
    } else {
        push_files(commits.drop_last()) + commit_files(commits.last())
    }
}

/// Whether one of the globs compiles.
pub open spec fn some_glob_valid(globs: Seq<Seq<char>>) -> bool {
    exists|k: int| 0 <= k < globs.len() && glob_valid(#[trigger] globs[k])
}

/// Whether one of the globs that compile matches `file`.
pub open spec fn file_hit(globs: Seq<Seq<char>>, file: Seq<char>) -> bool {
    exists|k: int| 0 <= k < globs.len() && glob_valid(#[trigger] globs[k]) && glob_matches(globs[k], file)
}

/// Whether one of the patterns compiles.
pub open spec fn some_regex_valid(patterns: Seq<Seq<char>>) -> bool {
    exists|k: int| 0 <= k < patterns.len() && regex_valid(#[trigger] patterns[k])
}

/// Whether one of the patterns that compile matches the commit message `msg`.
pub open spec fn message_hit(patterns: Seq<Seq<char>>, msg: Seq<char>) -> bool {
    exists|k: int|
        0 <= k < patterns.len() && regex_valid(#[trigger] patterns[k]) && regex_matches(patterns[k], msg)
}

/// Whether some file is matched by a glob.
pub open spec fn some_file_hit(globs: Seq<Seq<char>>, files: Seq<Seq<char>>) -> bool {
    exists|i: int| 0 <= i < files.len() && #[trigger] file_hit(globs, files[i])
}

/// Whether every file is matched by a glob.
pub open spec fn every_file_hit(globs: Seq<Seq<char>>, files: Seq<Seq<char>>) -> bool {
    forall|i: int| 0 <= i < files.len() ==> #[trigger] file_hit(globs, files[i])
}

/// Whether some commit message is matched by a pattern.
pub open spec fn some_message_hit(patterns: Seq<Seq<char>>, commits: Seq<CommitInfo>) -> bool {
    exists|j: int| 0 <= j < commits.len() && #[trigger] message_hit(patterns, commits[j].message@)
}

/// Whether every commit message is matched by a pattern.
pub open spec fn every_message_hit(patterns: Seq<Seq<char>>, commits: Seq<CommitInfo>) -> bool {
    forall|j: int| 0 <= j < commits.len() ==> #[trigger] message_hit(patterns, commits[j].message@)
}

/// Whether a push passes a commit filter. Globs and patterns that do not compile
/// are ignored; with none left every push passes.
/// Include: deploy when some changed file matches a glob, or some commit message
/// matches a pattern.
/// Exclude: skip only when every changed file (of at least one) matches a glob, or
/// every commit message (of at least one) matches a pattern.
pub open spec fn filter_passes(commits: Seq<CommitInfo>, f: CommitFilter) -> bool {
    let globs = views(f.globs@);
    let patterns = views(f.message_patterns@);
    let files = push_files(commits);
    if !some_glob_valid(globs) && !some_regex_valid(patterns) {
        true
    } else {
        match f.mode {
            FilterMode::Include => some_file_hit(globs, files) || some_message_hit(
                patterns,
                commits,
            ),
            FilterMode::Exclude => !((some_glob_valid(globs) && files.len() > 0 && every_file_hit(
                globs,
                files,
            )) || (some_regex_valid(patterns) && commits.len() > 0 && every_message_hit(
                patterns,
                commits,
            ))),
        }
    }
}

fn any_glob_valid(globs: &Vec<String>) -> (r: bool)
    ensures
        r == some_glob_valid(views(globs@)),
{
    let mut k: usize = 0;
    while k < globs.len()
        invariant
            k <= globs@.len(),
            forall|m: int| 0 <= m < k ==> !glob_valid(#[trigger] views(globs@)[m]),
        decreases globs@.len() - k,
    {
        assert(views(globs@)[k as int] == globs@[k as int]@);
        if glob_compiles(globs[k].as_str()) {
            return true;
        }
        k = k + 1;
    }
    false
}

fn any_regex_valid(patterns: &Vec<String>) -> (r: bool)
    ensures
        r == some_regex_valid(views(patterns@)),
{
    let mut k: usize = 0;
    while k < patterns.len()
        invariant
            k <= patterns@.len(),
            forall|m: int| 0 <= m < k ==> !regex_valid(#[trigger] views(patterns@)[m]),
        decreases patterns@.len() - k,
    {
        assert(views(patterns@)[k as int] == patterns@[k as int]@);
        if regex_compiles(patterns[k].as_str()) {
            return true;
        }
        k = k + 1;
    }
    false
}

fn file_hit_exec(globs: &Vec<String>, file: &String) -> (r: bool)
    ensures
        r == file_hit(views(globs@), file@),
{
    let mut k: usize = 0;
    while k < globs.len()
        invariant
            k <= globs@.len(),
            forall|m: int|
                0 <= m < k ==> !(glob_valid(#[trigger] views(globs@)[m]) && glob_matches(
                    views(globs@)[m],
                    file@,
                )),
        decreases globs@.len() - k,
    {
        assert(views(globs@)[k as int] == globs@[k as int]@);
        let g = globs[k].as_str();
        if glob_compiles(g) {
            if glob_match(g, file.as_str()) {
                return true;
            }
        }
        k = k + 1;
    }
    false
}

fn message_hit_exec(patterns: &Vec<String>, msg: &String) -> (r: bool)
    ensures
        r == message_hit(views(patterns@), msg@),
{
    let mut k: usize = 0;
    while k < patterns.len()
        invariant
            k <= patterns@.len(),
            forall|m: int|
                0 <= m < k ==> !(regex_valid(#[trigger] views(patterns@)[m]) && regex_matches(
                    views(patterns@)[m],
                    msg@,
                )),
        decreases patterns@.len() - k,
    {
        assert(views(patterns@)[k as int] == patterns@[k as int]@);
        let p = patterns[k].as_str();
        if regex_compiles(p) {
            if regex_is_match(p, msg.as_str()) {
                return true;
            }
        }
        k = k + 1;
    }
    false
}

/// All files of the push, in order.
fn collect_files(commits: &[CommitInfo]) -> (r: Vec<String>)
    ensures
        views(r@) == push_files(commits@),
{
    let mut r: Vec<String> = Vec::new();
    let mut j: usize = 0;
    while j < commits.len()
        invariant
            j <= commits@.len(),
            views(r@) == push_files(commits@.take(j as int)),
        decreases commits@.len() - j,
    {
        let files = commits[j].all_files();
        let ghost before = r@;
        let mut i: usize = 0;
        while i < files.len()
            invariant
                i <= files@.len(),
                views(r@) == views(before) + views(files@).take(i as int),
            decreases files@.len() - i,
        {
            let ghost prev = r@;
            r.push(crate::text::owned(files[i].as_str()));
            proof {
                assert(views(r@) =~= views(prev).push(files@[i as int]@));
                assert(views(files@).take(i + 1) =~= views(files@).take(i as int).push(
                    files@[i as int]@,
                ));
            }
            i = i + 1;
        }
        proof {
            assert(views(files@).take(files@.len() as int) =~= views(files@));
            assert(commits@.take(j + 1).drop_last() =~= commits@.take(j as int));
            assert(commits@.take(j + 1).last() == commits@[j as int]);
        }
        j = j + 1;
    }
    proof {
        assert(commits@.take(commits@.len() as int) =~= commits@);
    }
    r
}

/// Returns true if the deploy should proceed based on the commit filter: see
/// [`filter_passes`].
#[verifier::loop_isolation(false)]
pub fn commit_filter_passes(commits: &[CommitInfo], filter: &CommitFilter) -> (r: bool)
    ensures
        r == filter_passes(commits@, *filter),
{
    let ghost globs = views(filter.globs@);
    let ghost patterns = views(filter.message_patterns@);
    let has_globs = any_glob_valid(&filter.globs);
    let has_patterns = any_regex_valid(&filter.message_patterns);
    if !has_globs && !has_patterns {
        return true;
    }
    let files = collect_files(commits);
    let ghost fs = views(files@);
    match filter.mode {
        FilterMode::Include => {
            let mut i: usize = 0;
            while i < files.len()
                invariant
                    i <= files@.len(),
                    fs == views(files@),
                    forall|m: int| 0 <= m < i ==> !#[trigger] file_hit(globs, fs[m]),
                decreases files@.len() - i,
            {
                assert(fs[i as int] == files@[i as int]@);
                if file_hit_exec(&filter.globs, &files[i]) {
                    return true;
                }
                i = i + 1;
            }
            let mut j: usize = 0;
            while j < commits.len()
                invariant
                    j <= commits@.len(),
                    forall|m: int| 0 <= m < j ==> !#[trigger] message_hit(patterns, commits@[m].message@),
                decreases commits@.len() - j,
            {
                if message_hit_exec(&filter.message_patterns, &commits[j].message) {
                    return true;
                }
                j = j + 1;
            }
            false
        },
        FilterMode::Exclude => {
            // skip when every file is matched
            if has_globs && files.len() > 0 {
                let mut i: usize = 0;
                let mut all = true;
                while i < files.len()
                    invariant
                        i <= files@.len(),
                        fs == views(files@),
                        all,
                        forall|m: int| 0 <= m < i ==> #[trigger] file_hit(globs, fs[m]),
                    decreases files@.len() - i,
                {
                    assert(fs[i as int] == files@[i as int]@);
                    if !file_hit_exec(&filter.globs, &files[i]) {
                        all = false;
                        break;
                    }
                    i = i + 1;
                }
                if all {
                    return false;
                }
            }
            if has_patterns && commits.len() > 0 {
                let mut j: usize = 0;
                let mut all = true;
                while j < commits.len()
                    invariant
                        j <= commits@.len(),
                        all,
                        forall|m: int| 0 <= m < j ==> #[trigger] message_hit(patterns, commits@[m].message@),
                    decreases commits@.len() - j,
                {
                    if !message_hit_exec(&filter.message_patterns, &commits[j].message) {
                        all = false;
                        break;
                    }
                    j = j + 1;
                }
                if all {
                    return false;
                }
            }
            true
        },
    }
}

/// Whether a compiling glob of `globs` matches `file`.
pub open spec fn glob_hit(globs: Seq<Seq<char>>, file: Seq<char>) -> bool {
    exists|g: int| 0 <= g < globs.len() && glob_valid(globs[g]) && glob_matches(globs[g], file)
}

/// Whether a compiling pattern of `patterns` matches the message `msg`.
pub open spec fn pattern_hit(patterns: Seq<Seq<char>>, msg: Seq<char>) -> bool {
    exists|g: int|
        0 <= g < patterns.len() && regex_valid(patterns[g]) && regex_matches(patterns[g], msg)
}

proof fn lemma_hits_agree(globs: Seq<Seq<char>>, patterns: Seq<Seq<char>>, file: Seq<char>, msg: Seq<char>)
    ensures
        glob_hit(globs, file) == file_hit(globs, file),
        pattern_hit(patterns, msg) == message_hit(patterns, msg),
{
    if glob_hit(globs, file) {
        let g = choose|g: int|
            0 <= g < globs.len() && glob_valid(globs[g]) && glob_matches(globs[g], file);
        assert(glob_valid(globs[g]));
    }
    if file_hit(globs, file) {
        let g = choose|g: int|
            0 <= g < globs.len() && glob_valid(#[trigger] globs[g]) && glob_matches(globs[g], file);
        assert(glob_valid(globs[g]) && glob_matches(globs[g], file));
    }
    if pattern_hit(patterns, msg) {
        let g = choose|g: int|
            0 <= g < patterns.len() && regex_valid(patterns[g]) && regex_matches(patterns[g], msg);
        assert(regex_valid(patterns[g]));
    }
    if message_hit(patterns, msg) {
        let g = choose|g: int|
            0 <= g < patterns.len() && regex_valid(#[trigger] patterns[g]) && regex_matches(
                patterns[g],
                msg,
            );
        assert(regex_valid(patterns[g]) && regex_matches(patterns[g], msg));
    }
}

/// Exclude mode skips a push that changes at least one file when every changed file
/// is matched by a compiling glob, whatever the message patterns say.
pub proof fn lemma_exclude_skips_matched_files(commits: Seq<CommitInfo>, f: CommitFilter)
    requires
        f.mode == FilterMode::Exclude,
        push_files(commits).len() > 0,
        forall|i: int|
            0 <= i < push_files(commits).len() ==> glob_hit(
                views(f.globs@),
                #[trigger] push_files(commits)[i],
            ),
    ensures
        !filter_passes(commits, f),
{
    let globs = views(f.globs@);
    let files = push_files(commits);
    assert forall|i: int| 0 <= i < files.len() implies #[trigger] file_hit(globs, files[i]) by {
        lemma_hits_agree(globs, Seq::empty(), files[i], Seq::empty());
    }
    assert(file_hit(globs, files[0]));
    let g = choose|g: int| 0 <= g < globs.len() && glob_valid(#[trigger] globs[g]) && glob_matches(
        globs[g],
        files[0],
    );
    assert(some_glob_valid(globs));
}

/// Exclude mode skips a push of at least one commit when every commit message is
/// matched by a compiling pattern, whatever the globs say.
pub proof fn lemma_exclude_skips_matched_messages(commits: Seq<CommitInfo>, f: CommitFilter)
    requires
        f.mode == FilterMode::Exclude,
        commits.len() > 0,
        forall|j: int|
            0 <= j < commits.len() ==> pattern_hit(
                views(f.message_patterns@),
                (#[trigger] commits[j]).message@,
            ),
    ensures
        !filter_passes(commits, f),
{
    let patterns = views(f.message_patterns@);
    assert forall|j: int| 0 <= j < commits.len() implies #[trigger] message_hit(
        patterns,
        commits[j].message@,
    ) by {
        lemma_hits_agree(Seq::empty(), patterns, Seq::empty(), commits[j].message@);
    }
    assert(message_hit(patterns, commits[0].message@));
    let g = choose|g: int|
        0 <= g < patterns.len() && regex_valid(#[trigger] patterns[g]) && regex_matches(
            patterns[g],
            commits[0].message@,
        );
    assert(some_regex_valid(patterns));
}

/// Exclude mode deploys a push that has a changed file no compiling glob matches (or
/// no changed file at all) and a commit message no compiling pattern matches (or no
/// commit at all).
pub proof fn lemma_exclude_deploys_unmatched(commits: Seq<CommitInfo>, f: CommitFilter)
    requires
        f.mode == FilterMode::Exclude,
        push_files(commits).len() == 0 || exists|i: int|
            0 <= i < push_files(commits).len() && !glob_hit(
                views(f.globs@),
                #[trigger] push_files(commits)[i],
            ),
        commits.len() == 0 || exists|j: int|
            0 <= j < commits.len() && !pattern_hit(
                views(f.message_patterns@),
                (#[trigger] commits[j]).message@,
            ),
    ensures
        filter_passes(commits, f),
{
    let globs = views(f.globs@);
    let patterns = views(f.message_patterns@);
    let files = push_files(commits);
    if files.len() > 0 {
        let i = choose|i: int| 0 <= i < files.len() && !glob_hit(globs, #[trigger] files[i]);
        lemma_hits_agree(globs, patterns, files[i], Seq::empty());
        assert(!file_hit(globs, files[i]));
    }
    if commits.len() > 0 {
        let j = choose|j: int| 0 <= j < commits.len() && !pattern_hit(patterns, (#[trigger] commits[j]).message@);
        lemma_hits_agree(globs, patterns, Seq::empty(), commits[j].message@);
        assert(!message_hit(patterns, commits[j].message@));
    }
}

/// Include mode deploys a push as soon as a compiling glob matches one of its
/// changed files, or a compiling pattern matches one of its commit messages.
pub proof fn lemma_include_deploys_matched(commits: Seq<CommitInfo>, f: CommitFilter)
    requires
        f.mode == FilterMode::Include,
        (exists|i: int|
            0 <= i < push_files(commits).len() && glob_hit(
                views(f.globs@),
                #[trigger] push_files(commits)[i],
            )) || (exists|j: int|
            0 <= j < commits.len() && pattern_hit(
                views(f.message_patterns@),
                (#[trigger] commits[j]).message@,
            )),
    ensures
        filter_passes(commits, f),
{
    let globs = views(f.globs@);
    let patterns = views(f.message_patterns@);
    let files = push_files(commits);
    if exists|i: int| 0 <= i < files.len() && glob_hit(globs, #[trigger] files[i]) {
        let i = choose|i: int| 0 <= i < files.len() && glob_hit(globs, #[trigger] files[i]);
        lemma_hits_agree(globs, patterns, files[i], Seq::empty());
        let g = choose|g: int| 0 <= g < globs.len() && glob_valid(#[trigger] globs[g]) && glob_matches(
            globs[g],
            files[i],
        );
        assert(some_glob_valid(globs));
        assert(some_file_hit(globs, files));
    } else {
        let j = choose|j: int| 0 <= j < commits.len() && pattern_hit(patterns, (#[trigger] commits[j]).message@);
        lemma_hits_agree(globs, patterns, Seq::empty(), commits[j].message@);
        let g = choose|g: int|
            0 <= g < patterns.len() && regex_valid(#[trigger] patterns[g]) && regex_matches(
                patterns[g],
                commits[j].message@,
            );
        assert(some_regex_valid(patterns));
        assert(some_message_hit(patterns, commits));
    }
}

/// Include mode skips a push when some glob or pattern compiles but none matches a
/// changed file or a commit message.
pub proof fn lemma_include_skips_unmatched(commits: Seq<CommitInfo>, f: CommitFilter)
    requires
        f.mode == FilterMode::Include,
        (exists|g: int| 0 <= g < f.globs@.len() && glob_valid(#[trigger] f.globs@[g]@)) || (exists|
            g: int,
        | 0 <= g < f.message_patterns@.len() && regex_valid(#[trigger] f.message_patterns@[g]@)),
        forall|i: int|
            0 <= i < push_files(commits).len() ==> !glob_hit(
                views(f.globs@),
                #[trigger] push_files(commits)[i],
            ),
        forall|j: int|
            0 <= j < commits.len() ==> !pattern_hit(
                views(f.message_patterns@),
                (#[trigger] commits[j]).message@,
            ),
    ensures
        !filter_passes(commits, f),
{
    let globs = views(f.globs@);
    let patterns = views(f.message_patterns@);
    let files = push_files(commits);
    if exists|g: int| 0 <= g < f.globs@.len() && glob_valid(#[trigger] f.globs@[g]@) {
        let g = choose|g: int| 0 <= g < f.globs@.len() && glob_valid(#[trigger] f.globs@[g]@);
        assert(glob_valid(globs[g]));
    } else {
        let g = choose|g: int|
            0 <= g < f.message_patterns@.len() && regex_valid(#[trigger] f.message_patterns@[g]@);
        assert(regex_valid(patterns[g]));
    }
    assert forall|i: int| 0 <= i < files.len() implies !#[trigger] file_hit(globs, files[i]) by {
        lemma_hits_agree(globs, patterns, files[i], Seq::empty());
    }
    assert forall|j: int| 0 <= j < commits.len() implies !#[trigger] message_hit(
        patterns,
        commits[j].message@,
    ) by {
        lemma_hits_agree(globs, patterns, Seq::empty(), commits[j].message@);
    }
}

/// With no glob and no pattern that compiles, every push passes.
pub proof fn lemma_nothing_compiles_passes(commits: Seq<CommitInfo>, f: CommitFilter)
    requires
        forall|g: int| 0 <= g < f.globs@.len() ==> !glob_valid(#[trigger] f.globs@[g]@),
        forall|g: int|
            0 <= g < f.message_patterns@.len() ==> !regex_valid(#[trigger] f.message_patterns@[g]@),
    ensures
        filter_passes(commits, f),
{
    let globs = views(f.globs@);
    let patterns = views(f.message_patterns@);
    if some_glob_valid(globs) {
        let g = choose|g: int| 0 <= g < globs.len() && glob_valid(#[trigger] globs[g]);
        assert(globs[g] == f.globs@[g]@);
    }
    if some_regex_valid(patterns) {
        let g = choose|g: int| 0 <= g < patterns.len() && regex_valid(#[trigger] patterns[g]);
        assert(patterns[g] == f.message_patterns@[g]@);
    }
}

} // verus!
