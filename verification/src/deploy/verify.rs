//! Who may push commits that get deployed.
use vstd::prelude::*;

use crate::configure::loader::CommitVerify;
use crate::text::{
    chars_eq_ignore_ascii_case, chars_of, eq_ignore_ascii_case, owned, push_str, unicode_lowercase,
    views,
};
use crate::webhook::payload::{identities_of, opt_lower, owner_repo_of, CommitInfo, PushEvent};

verus! {

/// Whether one of the identities of a commit equals, ignoring ASCII case, one of
/// the allowed authors.
pub open spec fn commit_allowed(c: CommitInfo, allowed: Seq<Seq<char>>) -> bool {
    exists|i: int, k: int|
        0 <= i < identities_of(c).len() && 0 <= k < allowed.len() && eq_ignore_ascii_case(
            #[trigger] allowed[k],
            #[trigger] identities_of(c)[i],
        )
}

/// Whether a push may be deployed: the allowlist is empty, or every commit has an
/// author or committer identity (e-mail or username) in it, ASCII case ignored.
pub open spec fn authors_allowed_spec(commits: Seq<CommitInfo>, allowed: Seq<Seq<char>>) -> bool {
    allowed.len() == 0 || forall|j: int| 0 <= j < commits.len() ==> #[trigger] commit_allowed(
        commits[j],
        allowed,
    )
}

fn identity_allowed(id: &String, allowed: &[String]) -> (r: bool)
    ensures
        r == exists|k: int| 0 <= k < allowed@.len() && eq_ignore_ascii_case(
            #[trigger] views(allowed@)[k],
            id@,
        ),
{
    let idc = chars_of(id.as_str());
    let mut k: usize = 0;
    while k < allowed.len()
        invariant
            k <= allowed@.len(),
            idc@ == id@,
            forall|m: int| 0 <= m < k ==> !eq_ignore_ascii_case(#[trigger] views(allowed@)[m], id@),
        decreases allowed@.len() - k,
    {
        let a = chars_of(allowed[k].as_str());
        if chars_eq_ignore_ascii_case(a.as_slice(), idc.as_slice()) {
            assert(views(allowed@)[k as int] == allowed@[k as int]@);
            return true;
        }
        assert(views(allowed@)[k as int] == allowed@[k as int]@);
        k = k + 1;
    }
    false
}

fn commit_allowed_exec(c: &CommitInfo, allowed: &[String]) -> (r: bool)
    ensures
        r == commit_allowed(*c, views(allowed@)),
{
    let ghost al = views(allowed@);
    let ids = c.identities();
    let mut i: usize = 0;
    while i < ids.len()
        invariant
            i <= ids@.len(),
            views(ids@) == identities_of(*c),
            al == views(allowed@),
            forall|n: int, k: int|
                0 <= n < i && 0 <= k < al.len() ==> !eq_ignore_ascii_case(
                    #[trigger] al[k],
                    #[trigger] identities_of(*c)[n],
                ),
        decreases ids@.len() - i,
    {
        let ok = identity_allowed(&ids[i], allowed);
        assert(views(ids@)[i as int] == ids@[i as int]@);
        if ok {
            return true;
        }
        i = i + 1;
    }
    false
}

/// Returns true if every commit's author/committer identity (email or username)
/// is present in `verify`'s allowlist. An empty allowlist allows everything.
pub fn authors_allowed(commits: &[CommitInfo], verify: &CommitVerify) -> (r: bool)
    ensures
        r == authors_allowed_spec(commits@, views(verify.allowed_authors@)),
{
    let allowed = verify.allowed_authors.as_slice();
    let ghost al = views(allowed@);
    if allowed.len() == 0 {
        return true;
    }
    let mut j: usize = 0;
    while j < commits.len()
        invariant
            j <= commits@.len(),
            allowed@ == verify.allowed_authors@,
            al == views(allowed@),
            allowed@.len() > 0,
            forall|m: int| 0 <= m < j ==> #[trigger] commit_allowed(commits@[m], al),
        decreases commits@.len() - j,
    {
        if !commit_allowed_exec(&commits[j], allowed) {
            return false;
        }
        j = j + 1;
    }
    true
}

/// Where the GitHub REST API describes a commit of `owner/repo`.
pub open spec fn commit_api_url(owner: Seq<char>, repo: Seq<char>, id: Seq<char>) -> Seq<char> {
    "https://api.github.com/repos/"@ + owner + "/"@ + repo + "/commits/"@ + id
}

/// Why the signatures of a push cannot be checked.
pub const NOT_OWNER_REPO: &'static str =
    "cannot verify commit signatures: repository.full_name is not owner/repo";

/// The API URLs of a push's commits, in order, when its repository is named
/// `owner/repo`.
pub open spec fn commit_api_urls_of(event: PushEvent) -> Option<Seq<Seq<char>>> {
    match owner_repo_of(event.repository.full_name@) {
        Some((owner, repo)) => Some(
            event.commits@.map_values(|c: CommitInfo| commit_api_url(owner, repo, c.id@)),
        ),
        None => None,
    }
}

/// The URLs whose `commit.verification.verified` tells whether each commit of the
/// push is signed; `Err` with the reason when the repository is not named
/// `owner/repo`. The push is deployed when every answer says verified.
pub fn commit_api_urls(event: &PushEvent) -> (r: Result<Vec<String>, &'static str>)
    ensures
        match (r, commit_api_urls_of(*event)) {
            (Ok(v), Some(u)) => v@.map_values(|s: String| s@) == u,
            (Err(e), None) => e@ == NOT_OWNER_REPO@,
            _ => false,
        },
{
    let (owner, repo) = match event.repository.owner_repo() {
        Some(p) => p,
        None => return Err(NOT_OWNER_REPO),
    };
    let mut out: Vec<String> = Vec::new();
    let mut i: usize = 0;
    while i < event.commits.len()
        invariant
            i <= event.commits@.len(),
            out@.len() == i,
            forall|k: int|
                0 <= k < i ==> (#[trigger] out@[k])@ == commit_api_url(
                    owner@,
                    repo@,
                    event.commits@[k].id@,
                ),
        decreases event.commits@.len() - i,
    {
        let mut url = owned("https://api.github.com/repos/");
        push_str(&mut url, owner);
        push_str(&mut url, "/");
        push_str(&mut url, repo);
        push_str(&mut url, "/commits/");
        push_str(&mut url, event.commits[i].id.as_str());
        out.push(url);
        i = i + 1;
    }
    proof {
        assert(out@.map_values(|s: String| s@) =~= event.commits@.map_values(
            |c: CommitInfo| commit_api_url(owner@, repo@, c.id@),
        ));
    }
    Ok(out)
}

/// Whether every commit is signed, given the `verified` answer for each.
pub fn all_verified(answers: &[bool]) -> (r: bool)
    ensures
        r == (forall|i: int| 0 <= i < answers@.len() ==> answers@[i]),
{
    let mut i: usize = 0;
    while i < answers.len()
        invariant
            i <= answers@.len(),
            forall|k: int| 0 <= k < i ==> answers@[k],
        decreases answers@.len() - i,
    {
        if !answers[i] {
            return false;
        }
        i = i + 1;
    }
    true
}

/// Whether `id` equals, ASCII case ignored, an entry of `allowed`.
pub open spec fn on_list(allowed: Seq<Seq<char>>, id: Seq<char>) -> bool {
    exists|k: int| 0 <= k < allowed.len() && eq_ignore_ascii_case(#[trigger] allowed[k], id)
}

/// The lower-cased form of an optional identity that is set and on the list.
pub open spec fn counts(allowed: Seq<Seq<char>>, id: Option<String>) -> bool {
    id is Some && on_list(allowed, unicode_lowercase(id->0@))
}

/// Each of the four identities of a commit counts when it is set: the commit is
/// allowed exactly when its author e-mail, author username, committer e-mail or
/// committer username, lower-cased, is on the allowlist (ASCII case ignored).
pub proof fn lemma_each_identity_counts(c: CommitInfo, allowed: Seq<Seq<char>>)
    ensures
        commit_allowed(c, allowed) <==> (counts(allowed, c.author.email) || counts(
            allowed,
            c.author.username,
        ) || counts(allowed, c.committer.email) || counts(allowed, c.committer.username)),
{
    let a = opt_lower(c.author.email);
    let b = opt_lower(c.author.username);
    let d = opt_lower(c.committer.email);
    let e = opt_lower(c.committer.username);
    let ids = identities_of(c);
    assert(ids == a + b + d + e);
    let parts = seq![(c.author.email, 0int), (c.author.username, a.len() as int), (
        c.committer.email,
        (a.len() + b.len()) as int,
    ), (c.committer.username, (a.len() + b.len() + d.len()) as int)];
    assert forall|p: int| 0 <= p < 4 && counts(allowed, #[trigger] parts[p].0) implies commit_allowed(
        c,
        allowed,
    ) by {
        let id = parts[p].0;
        let at = parts[p].1;
        assert(ids[at] == unicode_lowercase(id->0@));
        let k = choose|k: int|
            0 <= k < allowed.len() && eq_ignore_ascii_case(
                #[trigger] allowed[k],
                unicode_lowercase(id->0@),
            );
        assert(0 <= at < ids.len() && 0 <= k < allowed.len() && eq_ignore_ascii_case(
            allowed[k],
            ids[at],
        ));
    }
    if counts(allowed, c.author.email) {
        assert(counts(allowed, parts[0].0));
    }
    if counts(allowed, c.author.username) {
        assert(counts(allowed, parts[1].0));
    }
    if counts(allowed, c.committer.email) {
        assert(counts(allowed, parts[2].0));
    }
    if counts(allowed, c.committer.username) {
        assert(counts(allowed, parts[3].0));
    }
    if commit_allowed(c, allowed) {
        let (i, k) = choose|i: int, k: int|
            0 <= i < ids.len() && 0 <= k < allowed.len() && eq_ignore_ascii_case(
                #[trigger] allowed[k],
                #[trigger] ids[i],
            );
        if i < a.len() {
            assert(on_list(allowed, ids[i]));
        } else if i < a.len() + b.len() {
            assert(ids[i] == b[i - a.len()]);
            assert(on_list(allowed, ids[i]));
        } else if i < a.len() + b.len() + d.len() {
            assert(ids[i] == d[i - a.len() - b.len()]);
            assert(on_list(allowed, ids[i]));
        } else {
            assert(ids[i] == e[i - a.len() - b.len() - d.len()]);
            assert(on_list(allowed, ids[i]));
        }
    }
}

/// A push passes the allowlist when the list is empty, and otherwise exactly when
/// every commit has one of its four identities on the list.
pub proof fn lemma_push_allowed(commits: Seq<CommitInfo>, allowed: Seq<Seq<char>>)
    ensures
        authors_allowed_spec(commits, allowed) <==> (allowed.len() == 0 || forall|j: int|
            0 <= j < commits.len() ==> (counts(allowed, (#[trigger] commits[j]).author.email)
                || counts(allowed, commits[j].author.username) || counts(
                allowed,
                commits[j].committer.email,
            ) || counts(allowed, commits[j].committer.username))),
{
    if allowed.len() > 0 {
        if authors_allowed_spec(commits, allowed) {
            assert forall|j: int| 0 <= j < commits.len() implies (counts(
                allowed,
                (#[trigger] commits[j]).author.email,
            ) || counts(allowed, commits[j].author.username) || counts(
                allowed,
                commits[j].committer.email,
            ) || counts(allowed, commits[j].committer.username)) by {
                assert(commit_allowed(commits[j], allowed));
                lemma_each_identity_counts(commits[j], allowed);
            }
        }
        if forall|j: int|
            0 <= j < commits.len() ==> (counts(allowed, (#[trigger] commits[j]).author.email)
                || counts(allowed, commits[j].author.username) || counts(
                allowed,
                commits[j].committer.email,
            ) || counts(allowed, commits[j].committer.username)) {
            assert forall|j: int| 0 <= j < commits.len() implies #[trigger] commit_allowed(
                commits[j],
                allowed,
            ) by {
                lemma_each_identity_counts(commits[j], allowed);
            }
        }
    }
}

} // verus!
