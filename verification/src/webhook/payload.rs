//! The GitHub webhook payloads the server reads, and the commit summary it renders.
use vstd::prelude::*;

use crate::text::{
    chars_of, decimal, escape_html_spec, opt_view, owned, push_char, push_decimal_padded,
    push_escaped, push_str, to_lowercase, unicode_lowercase, views,
};

verus! {

/// A `push` event.
pub struct PushEvent {
    /// The full ref, e.g. `refs/heads/main`.
    pub git_ref: String,
    pub after: String,
    pub before: String,
    pub commits: Vec<CommitInfo>,
    pub compare: String,
    pub repository: RepositoryInfo,
}

/// The repository a push went to.
pub struct RepositoryInfo {
    pub full_name: String,
}

/// One commit of a push.
pub struct CommitInfo {
    pub id: String,
    pub message: String,
    pub url: String,
    pub added: Vec<String>,
    pub removed: Vec<String>,
    pub modified: Vec<String>,
    pub author: CommitAuthor,
    pub committer: CommitAuthor,
}

/// The author or committer of a commit.
pub struct CommitAuthor {
    pub email: Option<String>,
    pub username: Option<String>,
}

/// A `ping` event.
pub struct PingEvent {
    pub zen: String,
}

/// The index of the first `c` in `s`, or -1.
pub open spec fn first_index_of(s: Seq<char>, c: char) -> int
    decreases s.len(),
{
    if s.len() == 0 {
        -1
    } else if s[0] == c {
        0
    } else if first_index_of(s.drop_first(), c) < 0 {
        -1
    } else {
        first_index_of(s.drop_first(), c) + 1
    }
}

/// The prefix of the ref of a branch.
pub const BRANCH_REF_PREFIX: &'static str = "refs/heads/";

/// `refs/heads/` as characters.
pub open spec fn branch_ref_prefix() -> Seq<char> {
    seq!['r', 'e', 'f', 's', '/', 'h', 'e', 'a', 'd', 's', '/']
}

/// The branch name of a ref: all that follows `refs/heads/` (a branch name may
/// itself hold `/`), or the whole ref when it is not a branch's.
pub open spec fn branch_of(r: Seq<char>) -> Seq<char> {
    if r.len() >= 11 && r.take(11) == branch_ref_prefix() {
        r.skip(11)
    } else {
        r
    }
}

proof fn lemma_first_index(s: Seq<char>, c: char, i: int)
    requires
        -1 <= i < s.len(),
        i >= 0 ==> s[i] == c,
        forall|k: int| 0 <= k < (if i < 0 { s.len() as int } else { i }) ==> s[k] != c,
    ensures
        first_index_of(s, c) == i,
    decreases s.len(),
{
    if s.len() > 0 && i != 0 {
        lemma_first_index(s.drop_first(), c, if i < 0 { -1 } else { i - 1 });
    }
}

/// Scans for the first `c` in `v`.
pub fn find_first(v: &Vec<char>, c: char) -> (r: Option<usize>)
    ensures
        match r {
            Some(i) => i < v@.len() && first_index_of(v@, c) == i,
            None => first_index_of(v@, c) == -1,
        },
{
    let mut i: usize = 0;
    while i < v.len()
        invariant
            i <= v@.len(),
            forall|k: int| 0 <= k < i ==> v@[k] != c,
        decreases v@.len() - i,
    {
        if v[i] == c {
            proof {
                lemma_first_index(v@, c, i as int);
            }
            return Some(i);
        }
        i = i + 1;
    }
    proof {
        lemma_first_index(v@, c, -1);
    }
    None
}

/// The two halves of `s` around its first `/`, if it has one.
pub open spec fn owner_repo_of(s: Seq<char>) -> Option<(Seq<char>, Seq<char>)> {
    if first_index_of(s, '/') < 0 {
        None
    } else {
        Some((s.take(first_index_of(s, '/')), s.skip(first_index_of(s, '/') + 1)))
    }
}

impl RepositoryInfo {
    pub fn full_name(&self) -> (r: &str)
        ensures
            r@ == self.full_name@,
    {
        self.full_name.as_str()
    }

    /// Splits `owner/repo` at its first `/`, for use with the GitHub REST API.
    pub fn owner_repo(&self) -> (r: Option<(&str, &str)>)
        ensures
            match r {
                Some((o, p)) => owner_repo_of(self.full_name@) == Some((o@, p@)),
                None => owner_repo_of(self.full_name@) is None,
            },
    {
        let v = chars_of(self.full_name.as_str());
        match find_first(&v, '/') {
            Some(i) => {
                let s = self.full_name.as_str();
                let owner = s.substring_char(0, i);
                let n = v.len();
                let repo = s.substring_char(i + 1, n);
                proof {
                    assert(owner@ =~= v@.take(i as int));
                    assert(repo@ =~= v@.skip(i + 1));
                }
                Some((owner, repo))
            },
            None => None,
        }
    }
}

/// The number of bytes of the UTF-8 encoding of `c`.
pub open spec fn utf8_width(c: char) -> nat {
    if (c as u32) < 0x80 {
        1
    } else if (c as u32) < 0x800 {
        2
    } else if (c as u32) < 0x10000 {
        3
    } else {
        4
    }
}

/// The number of bytes of the UTF-8 encoding of `s`.
pub open spec fn utf8_len(s: Seq<char>) -> nat
    decreases s.len(),
{
    if s.len() == 0 {
        0
    } else {
        utf8_width(s[0]) + utf8_len(s.drop_first())
    }
}

/// How many leading characters of `s` fit, whole, in `budget` bytes.
pub open spec fn chars_within(s: Seq<char>, budget: int) -> nat
    decreases s.len(),
{
    if s.len() == 0 || utf8_width(s[0]) > budget {
        0
    } else {
        1 + chars_within(s.drop_first(), budget - utf8_width(s[0]))
    }
}

/// How many bytes the leading characters of `s` that fit in `budget` take.
pub open spec fn bytes_within(s: Seq<char>, budget: int) -> nat
    decreases s.len(),
{
    if s.len() == 0 || utf8_width(s[0]) > budget {
        0
    } else {
        utf8_width(s[0]) + bytes_within(s.drop_first(), budget - utf8_width(s[0]))
    }
}

/// Whether the first 8 bytes of a commit id end on a character boundary, or the
/// id is shorter than 8 bytes: exactly when it can be shortened.
pub open spec fn id_shortenable(id: Seq<char>) -> bool {
    utf8_len(id) < 8 || bytes_within(id, 8) == 8
}

/// Whether `id` can be cut after its first 8 bytes.
pub fn id_is_shortenable(id: &str) -> (r: bool)
    ensures
        r == id_shortenable(id@),
{
    let v = chars_of(id);
    let mut i: usize = 0;
    let mut used: usize = 0;
    assert(v@.skip(0) =~= v@);
    while i < v.len() && used + utf8_width_of(v[i]) <= 8
        invariant
            i <= v@.len(),
            used <= 8,
            v@ == id@,
            bytes_within(v@, 8) == used + bytes_within(v@.skip(i as int), 8 - used),
            utf8_len(v@) == used + utf8_len(v@.skip(i as int)),
        decreases v@.len() - i,
    {
        proof {
            assert(v@.skip(i as int).drop_first() =~= v@.skip(i + 1));
            assert(v@.skip(i as int)[0] == v@[i as int]);
        }
        used = used + utf8_width_of(v[i]);
        i = i + 1;
    }
    proof {
        if i < v@.len() {
            assert(v@.skip(i as int)[0] == v@[i as int]);
        } else {
            assert(v@.skip(i as int).len() == 0);
        }
    }
    used == 8 || i == v.len()
}

/// The short form of a commit id: its first 8 bytes, or the whole id when shorter.
pub open spec fn short_id_of(id: Seq<char>) -> Seq<char> {
    id.take(chars_within(id, 8) as int)
}

/// The first line of a commit message.
pub open spec fn title_of(message: Seq<char>) -> Seq<char> {
    if first_index_of(message, '\n') < 0 {
        message
    } else {
        message.take(first_index_of(message, '\n'))
    }
}

/// A commit rendered as `<a href="url">shortid</a>: title`, url and title HTML-escaped.
pub open spec fn display_of(c: CommitInfo) -> Seq<char> {
    "<a href=\""@ + escape_html_spec(c.url@) + "\">"@ + short_id_of(c.id@) + "</a>: "@
        + escape_html_spec(title_of(c.message@))
}

/// The texts `parts` joined with `sep` between them.
pub open spec fn join(parts: Seq<Seq<char>>, sep: Seq<char>) -> Seq<char>
    decreases parts.len(),
{
    if parts.len() == 0 {
        Seq::empty()
    } else if parts.len() == 1 {
        parts[0]
    } else {
        join(parts.drop_last(), sep) + sep + parts.last()
    }
}

/// `repository:branch`, both HTML-escaped.
pub open spec fn ref_label(e: PushEvent) -> Seq<char> {
    escape_html_spec(e.repository.full_name@) + ":"@ + escape_html_spec(branch_of(e.git_ref@))
}

/// The HTML summary of a push: its single commit, or the count of its commits
/// with each of them on a line of its own.
pub open spec fn commit_summary_of(e: PushEvent) -> Seq<char> {
    if e.commits@.len() == 1 {
        "🔨 <a href=\""@ + escape_html_spec(e.commits@[0].url@) + "\">1 new commit</a> <b>to "@
            + ref_label(e) + "</b>:\n\n"@ + display_of(e.commits@[0])
    } else {
        "🔨 <a href=\""@ + escape_html_spec(e.compare@) + "\">"@ + decimal(e.commits@.len())
            + " new commits</a> <b>to "@ + ref_label(e) + "</b>:\n\n"@ + join(
            e.commits@.map_values(|c: CommitInfo| display_of(c)),
            seq!['\n'],
        )
    }
}

fn utf8_width_of(c: char) -> (w: usize)
    ensures
        w == utf8_width(c),
{
    let x = c as u32;
    if x < 0x80 {
        1
    } else if x < 0x800 {
        2
    } else if x < 0x10000 {
        3
    } else {
        4
    }
}

impl CommitInfo {
    /// A commit with only an author and a committer e-mail.
    pub fn for_test(author_email: Option<String>, committer_email: Option<String>) -> (r: CommitInfo)
        ensures
            r.id@.len() == 0 && r.message@.len() == 0 && r.url@.len() == 0,
            r.added@.len() == 0 && r.removed@.len() == 0 && r.modified@.len() == 0,
            opt_view(r.author.email) == opt_view(author_email),
            r.author.username is None,
            opt_view(r.committer.email) == opt_view(committer_email),
            r.committer.username is None,
    {
        CommitInfo {
            id: String::new(),
            message: String::new(),
            url: String::new(),
            added: Vec::new(),
            removed: Vec::new(),
            modified: Vec::new(),
            author: CommitAuthor { email: author_email, username: None },
            committer: CommitAuthor { email: committer_email, username: None },
        }
    }

    pub fn id(&self) -> (r: &str)
        ensures
            r@ == self.id@,
    {
        self.id.as_str()
    }

    pub fn url(&self) -> (r: &str)
        ensures
            r@ == self.url@,
    {
        self.url.as_str()
    }

    pub fn message(&self) -> (r: &str)
        ensures
            r@ == self.message@,
    {
        self.message.as_str()
    }

    /// Every file the commit touches: added, then removed, then modified.
    pub fn all_files(&self) -> (r: Vec<String>)
        ensures
            views(r@) == views(self.added@) + views(self.removed@) + views(self.modified@),
    {
        let mut r: Vec<String> = Vec::new();
        push_all(&mut r, &self.added);
        push_all(&mut r, &self.removed);
        push_all(&mut r, &self.modified);
        r
    }

    /// Author and committer e-mail and username, those that are set, in that order,
    /// lower-cased, for allowlist checks.
    pub fn identities(&self) -> (r: Vec<String>)
        ensures
            views(r@) == identities_of(*self),
    {
        let mut r: Vec<String> = Vec::new();
        push_lower(&mut r, &self.author.email);
        push_lower(&mut r, &self.author.username);
        push_lower(&mut r, &self.committer.email);
        push_lower(&mut r, &self.committer.username);
        r
    }

    /// This commit as `<a href="url">shortid</a>: first line of message`.
    fn display(&self) -> (r: String)
        requires
            id_shortenable(self.id@),
        ensures
            r@ == display_of(*self),
    {
        let mut out = String::new();
        push_str(&mut out, "<a href=\"");
        let url = chars_of(self.url.as_str());
        push_escaped(&mut out, url.as_slice());
        push_str(&mut out, "\">");
        let id = chars_of(self.id.as_str());
        // the characters that fit in 8 bytes
        let mut i: usize = 0;
        let mut used: usize = 0;
        assert(id@.skip(0) =~= id@);
        while i < id.len() && used + utf8_width_of(id[i]) <= 8
            invariant
                i <= id@.len(),
                used <= 8,
                i + chars_within(id@.skip(i as int), 8 - used) == chars_within(id@, 8),
            decreases id@.len() - i,
        {
            proof {
                assert(id@.skip(i as int).drop_first() =~= id@.skip(i + 1));
            }
            used = used + utf8_width_of(id[i]);
            i = i + 1;
        }
        proof {
            if i < id@.len() {
                assert(id@.skip(i as int)[0] == id@[i as int]);
            }
        }
        let mut k: usize = 0;
        let ghost before = out@;
        while k < i
            invariant
                k <= i <= id@.len(),
                out@ == before + id@.take(k as int),
            decreases i - k,
        {
            push_char(&mut out, id[k]);
            k = k + 1;
            proof {
                assert(out@ =~= before + id@.take(k as int));
            }
        }
        push_str(&mut out, "</a>: ");
        let msg = chars_of(self.message.as_str());
        match find_first(&msg, '\n') {
            Some(n) => {
                let title = slice_to(&msg, n);
                push_escaped(&mut out, title.as_slice());
            },
            None => {
                push_escaped(&mut out, msg.as_slice());
            },
        }
        proof {
            assert(out@ =~= display_of(*self));
        }
        out
    }
}

/// The author and committer identities of a commit that are set, lower-cased.
pub open spec fn identities_of(c: CommitInfo) -> Seq<Seq<char>> {
    opt_lower(c.author.email) + opt_lower(c.author.username) + opt_lower(c.committer.email)
        + opt_lower(c.committer.username)
}

/// An optional text, lower-cased, as a sequence of zero or one texts.
pub open spec fn opt_lower(s: Option<String>) -> Seq<Seq<char>> {
    match s {
        Some(t) => seq![unicode_lowercase(t@)],
        None => Seq::empty(),
    }
}

fn push_all(r: &mut Vec<String>, v: &Vec<String>)
    ensures
        views(final(r)@) == views(old(r)@) + views(v@),
{
    let ghost start = views(r@);
    let mut i: usize = 0;
    while i < v.len()
        invariant
            i <= v@.len(),
            views(r@) == start + views(v@).take(i as int),
        decreases v@.len() - i,
    {
        let ghost before = r@;
        r.push(owned(v[i].as_str()));
        proof {
            assert(r@ =~= before.push(r@[r@.len() - 1]));
            assert(views(r@) =~= views(before).push(v@[i as int]@));
            assert(views(v@).take(i + 1) =~= views(v@).take(i as int).push(v@[i as int]@));
        }
        i = i + 1;
    }
    proof {
        assert(views(v@).take(v@.len() as int) =~= views(v@));
    }
}

fn push_lower(r: &mut Vec<String>, s: &Option<String>)
    ensures
        views(final(r)@) == views(old(r)@) + opt_lower(*s),
{
    match s {
        Some(t) => {
            r.push(to_lowercase(t.as_str()));
            proof {
                assert(views(r@) =~= views(old(r)@) + opt_lower(*s));
            }
        },
        None => {
            proof {
                assert(views(r@) =~= views(old(r)@) + opt_lower(*s));
            }
        },
    }
}

/// The first `n` characters of `v`.
fn slice_to(v: &Vec<char>, n: usize) -> (r: Vec<char>)
    requires
        n <= v@.len(),
    ensures
        r@ == v@.take(n as int),
{
    let mut r: Vec<char> = Vec::new();
    let mut i: usize = 0;
    while i < n
        invariant
            i <= n <= v@.len(),
            r@ == v@.take(i as int),
        decreases n - i,
    {
        r.push(v[i]);
        i = i + 1;
        proof {
            assert(r@ =~= v@.take(i as int));
        }
    }
    r
}

impl PushEvent {
    pub fn git_ref(&self) -> (r: &str)
        ensures
            r@ == self.git_ref@,
    {
        self.git_ref.as_str()
    }

    pub fn after(&self) -> (r: &str)
        ensures
            r@ == self.after@,
    {
        self.after.as_str()
    }

    pub fn before(&self) -> (r: &str)
        ensures
            r@ == self.before@,
    {
        self.before.as_str()
    }

    pub fn commits(&self) -> (r: &[CommitInfo])
        ensures
            r@ == self.commits@,
    {
        self.commits.as_slice()
    }

    pub fn repository(&self) -> (r: &RepositoryInfo)
        ensures
            *r == self.repository,
    {
        &self.repository
    }

    /// The branch pushed to: the ref without its `refs/heads/` prefix.
    pub fn branch_name(&self) -> (r: &str)
        ensures
            r@ == branch_of(self.git_ref@),
    {
        let v = chars_of(self.git_ref.as_str());
        let p = chars_of(BRANCH_REF_PREFIX);
        proof {
            reveal_strlit("refs/heads/");
            assert(p@ =~= branch_ref_prefix());
        }
        if v.len() < p.len() {
            return self.git_ref.as_str();
        }
        let mut i: usize = 0;
        while i < p.len()
            invariant
                i <= p@.len(),
                p@ == branch_ref_prefix(),
                p@.len() <= v@.len(),
                v@ == self.git_ref@,
                forall|k: int| 0 <= k < i ==> v@[k] == p@[k],
            decreases p@.len() - i,
        {
            if v[i] != p[i] {
                proof {
                    assert(v@.take(11)[i as int] != branch_ref_prefix()[i as int]);
                }
                return self.git_ref.as_str();
            }
            i = i + 1;
        }
        proof {
            assert(v@.take(11) =~= branch_ref_prefix());
        }
        let n = v.len();
        let r = self.git_ref.as_str().substring_char(11, n);
        proof {
            assert(r@ =~= v@.skip(11));
        }
        r
    }

    /// Whether every commit id of the push can be cut to its short form.
    pub fn ids_shortenable(&self) -> (r: bool)
        ensures
            r == forall|k: int|
                0 <= k < self.commits@.len() ==> id_shortenable(#[trigger] self.commits@[k].id@),
    {
        let mut k: usize = 0;
        while k < self.commits.len()
            invariant
                k <= self.commits@.len(),
                forall|j: int| 0 <= j < k ==> id_shortenable(#[trigger] self.commits@[j].id@),
            decreases self.commits@.len() - k,
        {
            if !id_is_shortenable(self.commits[k].id.as_str()) {
                return false;
            }
            k = k + 1;
        }
        true
    }

    /// An HTML summary of the commits in this push, for a Telegram notification.
    pub fn render_commit_summary(&self) -> (r: String)
        requires
            forall|k: int| 0 <= k < self.commits@.len() ==> id_shortenable(#[trigger] self.commits@[k].id@),
        ensures
            r@ == commit_summary_of(*self),
    {
        let mut label = String::new();
        let name = chars_of(self.repository.full_name.as_str());
        push_escaped(&mut label, name.as_slice());
        push_str(&mut label, ":");
        let branch = chars_of(self.branch_name());
        push_escaped(&mut label, branch.as_slice());
        let mut out = String::new();
        push_str(&mut out, "🔨 <a href=\"");
        if self.commits.len() == 1 {
            let c = &self.commits[0];
            let url = chars_of(c.url.as_str());
            push_escaped(&mut out, url.as_slice());
            push_str(&mut out, "\">1 new commit</a> <b>to ");
            push_str(&mut out, label.as_str());
            push_str(&mut out, "</b>:\n\n");
            let d = c.display();
            push_str(&mut out, d.as_str());
            proof {
                assert(out@ =~= commit_summary_of(*self));
            }
        } else {
            let compare_chars = chars_of(self.compare.as_str());
            push_escaped(&mut out, compare_chars.as_slice());
            push_str(&mut out, "\">");
            push_decimal_padded(&mut out, self.commits.len() as u64, 0);
            proof {
                assert(crate::text::zeros(0 - decimal(self.commits@.len()).len()) =~= Seq::<
                    char,
                >::empty());
            }
            push_str(&mut out, " new commits</a> <b>to ");
            push_str(&mut out, label.as_str());
            push_str(&mut out, "</b>:\n\n");
            let ghost parts = self.commits@.map_values(|c: CommitInfo| display_of(c));
            let ghost before = out@;
            let mut k: usize = 0;
            while k < self.commits.len()
                invariant
                    k <= self.commits@.len(),
                    parts == self.commits@.map_values(|c: CommitInfo| display_of(c)),
                    forall|j: int|
                        0 <= j < self.commits@.len() ==> id_shortenable(
                            #[trigger] self.commits@[j].id@,
                        ),
                    out@ == before + join(parts.take(k as int), seq!['\n']),
                decreases self.commits@.len() - k,
            {
                let d = self.commits[k].display();
                proof {
                    assert(parts.take(k + 1).drop_last() =~= parts.take(k as int));
                    assert(parts.take(k + 1).last() == d@);
                }
                if k > 0 {
                    push_char(&mut out, '\n');
                }
                push_str(&mut out, d.as_str());
                k = k + 1;
                proof {
                    if k == 1 {
                        assert(parts.take(1) =~= seq![d@]);
                    }
                    assert(out@ =~= before + join(parts.take(k as int), seq!['\n']));
                }
            }
            proof {
                assert(parts.take(self.commits@.len() as int) =~= parts);
                assert(out@ =~= commit_summary_of(*self));
            }
        }
        out
    }
}

impl PingEvent {
    pub fn zen(&self) -> (r: &str)
        ensures
            r@ == self.zen@,
    {
        self.zen.as_str()
    }
}

} // verus!
