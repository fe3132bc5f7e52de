//! The configuration as it is written in `config.toml` and `deploy.toml`.
use vstd::prelude::*;

use crate::text::{chars_of, opt_view, owned_opt, string_from};

verus! {

/// The pull command used when a project configures none.
pub const DEFAULT_PULL_COMMAND: &'static str =
    "git fetch origin && git reset --hard origin/$(git rev-parse --abbrev-ref HEAD)";

/// The deploy commands of a project. A command may mention another one as
/// `@name` (`@stop`, `@pull`, `@init`, `@update`, `@start`, `@restart`).
pub struct TomlCommands {
    pub stop: Option<String>,
    pub pull: Option<String>,
    pub no_pull: Option<bool>,
    pub init: Option<String>,
    pub update: Option<String>,
    pub start: Option<String>,
    pub restart: Option<String>,
}

impl Default for TomlCommands {
    fn default() -> (r: Self)
        ensures
            r.stop is None && r.pull is None && r.no_pull is None && r.init is None
                && r.update is None && r.start is None && r.restart is None,
    {
        TomlCommands {
            stop: None,
            pull: None,
            no_pull: None,
            init: None,
            update: None,
            start: None,
            restart: None,
        }
    }
}

/// The number of command fields that `@name` can refer to.
pub open spec fn num_fields() -> nat {
    6
}

/// The texts of the command fields, in the order 0 stop, 1 pull, 2 init,
/// 3 update, 4 start, 5 restart.
pub open spec fn command_texts(c: TomlCommands) -> Seq<Option<Seq<char>>> {
    seq![
        opt_view(c.stop),
        opt_view(c.pull),
        opt_view(c.init),
        opt_view(c.update),
        opt_view(c.start),
        opt_view(c.restart),
    ]
}

/// The text of command field `k`.
pub open spec fn field_text(texts: Seq<Option<Seq<char>>>, k: usize) -> Option<Seq<char>> {
    if k < texts.len() {
        texts[k as int]
    } else {
        None
    }
}

/// The field that a name refers to, if it names one.
pub open spec fn field_index(name: Seq<char>) -> Option<usize> {
    if name.len() == 4 && name[0] == 's' && name[1] == 't' && name[2] == 'o' && name[3] == 'p' {
        Some(0)
    } else if name.len() == 4 && name[0] == 'p' && name[1] == 'u' && name[2] == 'l' && name[3] == 'l' {
        Some(1)
    } else if name.len() == 4 && name[0] == 'i' && name[1] == 'n' && name[2] == 'i' && name[3] == 't' {
        Some(2)
    } else if name.len() == 6 && name[0] == 'u' && name[1] == 'p' && name[2] == 'd' && name[3] == 'a'
        && name[4] == 't' && name[5] == 'e' {
        Some(3)
    } else if name.len() == 5 && name[0] == 's' && name[1] == 't' && name[2] == 'a' && name[3] == 'r'
        && name[4] == 't' {
        Some(4)
    } else if name.len() == 7 && name[0] == 'r' && name[1] == 'e' && name[2] == 's' && name[3] == 't'
        && name[4] == 'a' && name[5] == 'r' && name[6] == 't' {
        Some(5)
    } else {
        None
    }
}

/// Characters that may make up a field name after `@`.
pub open spec fn is_name_char(c: char) -> bool {
    ('a' <= c && c <= 'z') || ('A' <= c && c <= 'Z') || c == '_'
}

/// The length of the longest prefix of `s` made of name characters.
pub open spec fn name_len(s: Seq<char>) -> nat
    decreases s.len(),
{
    if s.len() == 0 || !is_name_char(s[0]) {
        0
    } else {
        1 + name_len(s.drop_first())
    }
}

/// How many of the fields are not yet being expanded.
pub open spec fn free_count(active: Seq<usize>, k: nat) -> nat
    decreases k,
{
    if k == 0 {
        0
    } else {
        free_count(active, (k - 1) as nat) + if active.contains((k - 1) as usize) {
            0nat
        } else {
            1nat
        }
    }
}

pub proof fn lemma_name_len_bound(s: Seq<char>)
    ensures
        name_len(s) <= s.len(),
    decreases s.len(),
{
    if s.len() > 0 && is_name_char(s[0]) {
        lemma_name_len_bound(s.drop_first());
    }
}

pub proof fn lemma_free_count_push(active: Seq<usize>, j: usize, k: nat)
    requires
        !active.contains(j),
    ensures
        free_count(active.push(j), k) <= free_count(active, k),
        j < k ==> free_count(active.push(j), k) < free_count(active, k),
    decreases k,
{
    if k > 0 {
        lemma_free_count_push(active, j, (k - 1) as nat);
        let x = (k - 1) as usize;
        if x != j {
            assert(active.push(j).contains(x) <==> active.contains(x)) by {
                if active.push(j).contains(x) {
                    let i = choose|i: int| 0 <= i < active.push(j).len() && active.push(j)[i] == x;
                    assert(i < active.len());
                    assert(active[i] == x);
                }
                if active.contains(x) {
                    let i = choose|i: int| 0 <= i < active.len() && active[i] == x;
                    assert(active.push(j)[i] == x);
                }
            }
        } else {
            assert(active.push(j)[active.len() as int] == j);
        }
    }
}

/// The text of `raw` with every `@name` token that names a set command field,
/// not already being expanded (in `active`), replaced by that field's own expansion.
/// Any other `@` token (an empty name, an unknown or unset field, a cycle) stays literal.
pub open spec fn expand_spec(c: Seq<Option<Seq<char>>>, raw: Seq<char>, active: Seq<usize>) -> Seq<char>
    decreases free_count(active, num_fields()), raw.len(),
{
    if raw.len() == 0 {
        Seq::empty()
    } else if raw[0] != '@' {
        seq![raw[0]] + expand_spec(c, raw.drop_first(), active)
    } else {
        let after = raw.drop_first();
        let n = name_len(after);
        let name = after.take(n as int);
        let rest = after.skip(n as int);
        proof {
            lemma_name_len_bound(after);
        }
        let piece = if field_index(name) is Some && !active.contains(field_index(name)->0)
            && field_text(c, field_index(name)->0) is Some {
            proof {
                lemma_free_count_push(active, field_index(name)->0, num_fields());
            }
            expand_spec(
                c,
                field_text(c, field_index(name)->0)->0,
                active.push(field_index(name)->0),
            )
        } else {
            seq!['@'] + name
        };
        piece + expand_spec(c, rest, active)
    }
}

/// A command that mentions no other command (has no `@`) runs as it is written.
pub proof fn lemma_plain_text_unchanged(c: Seq<Option<Seq<char>>>, raw: Seq<char>, active: Seq<usize>)
    requires
        forall|i: int| 0 <= i < raw.len() ==> raw[i] != '@',
    ensures
        expand_spec(c, raw, active) == raw,
    decreases raw.len(),
{
    if raw.len() > 0 {
        assert forall|i: int| 0 <= i < raw.drop_first().len() implies raw.drop_first()[i] != '@' by {
            assert(raw.drop_first()[i] == raw[i + 1]);
        }
        lemma_plain_text_unchanged(c, raw.drop_first(), active);
        assert(seq![raw[0]] + raw.drop_first() =~= raw);
    }
}

/// The name a command is referred to by after `@`: 0 `stop`, 1 `pull`, 2 `init`,
/// 3 `update`, 4 `start`, 5 `restart`.
pub open spec fn command_name(k: int) -> Seq<char> {
    if k == 0 {
        seq!['s', 't', 'o', 'p']
    } else if k == 1 {
        seq!['p', 'u', 'l', 'l']
    } else if k == 2 {
        seq!['i', 'n', 'i', 't']
    } else if k == 3 {
        seq!['u', 'p', 'd', 'a', 't', 'e']
    } else if k == 4 {
        seq!['s', 't', 'a', 'r', 't']
    } else {
        seq!['r', 'e', 's', 't', 'a', 'r', 't']
    }
}

/// A reference `@name` to any of the six commands that is set and not already being
/// expanded is replaced by that command's own expansion; what follows the name
/// (when it does not continue the name with a letter or `_`) is expanded in turn.
pub proof fn lemma_reference_expands(
    c: Seq<Option<Seq<char>>>,
    k: int,
    rest: Seq<char>,
    active: Seq<usize>,
)
    requires
        c.len() == 6,
        0 <= k < 6,
        c[k] is Some,
        !active.contains(k as usize),
        rest.len() == 0 || !(('a' <= rest[0] && rest[0] <= 'z') || ('A' <= rest[0] && rest[0] <= 'Z')
            || rest[0] == '_'),
    ensures
        expand_spec(c, seq!['@'] + command_name(k) + rest, active) == expand_spec(
            c,
            c[k]->0,
            active.push(k as usize),
        ) + expand_spec(c, rest, active),
{
    let name = command_name(k);
    let raw = seq!['@'] + name + rest;
    let after = raw.drop_first();
    assert(after =~= name + rest);
    assert forall|i: int| 0 <= i < name.len() implies is_name_char(#[trigger] after[i]) by {
        assert(after[i] == name[i]);
    }
    if rest.len() > 0 {
        assert(after[name.len() as int] == rest[0]);
    }
    lemma_name_len_exact(after, name.len() as int);
    assert(after.take(name.len() as int) =~= name);
    assert(after.skip(name.len() as int) =~= rest);
    assert(field_index(name) == Some(k as usize));
    assert(field_text(c, k as usize) == c[k]);
}

/// A command as it is run: its `@name` references expanded.
pub open spec fn resolved(c: Seq<Option<Seq<char>>>, raw: Option<Seq<char>>) -> Option<Seq<char>> {
    match raw {
        Some(r) => Some(expand_spec(c, r, Seq::empty())),
        None => None,
    }
}

/// The pull command as it is run: none when `no_pull` is set, else the
/// configured one, else [`DEFAULT_PULL_COMMAND`].
pub open spec fn resolved_pull(c: Seq<Option<Seq<char>>>, no_pull: Option<bool>) -> Option<
    Seq<char>,
> {
    if no_pull == Some(true) {
        None
    } else {
        match resolved(c, field_text(c, 1)) {
            Some(p) => Some(p),
            None => Some(DEFAULT_PULL_COMMAND@),
        }
    }
}

/// Field-wise: the value of `other` where it has one, else that of `base`.
pub open spec fn or_else_view(other: Option<String>, base: Option<String>) -> Option<Seq<char>> {
    if other is Some {
        opt_view(other)
    } else {
        opt_view(base)
    }
}

proof fn lemma_name_len_exact(s: Seq<char>, m: int)
    requires
        0 <= m <= s.len(),
        forall|i: int| 0 <= i < m ==> is_name_char(#[trigger] s[i]),
        m == s.len() || !is_name_char(s[m]),
    ensures
        name_len(s) == m,
    decreases m,
{
    if m > 0 {
        lemma_name_len_exact(s.drop_first(), m - 1);
    }
}

fn is_name_char_exec(c: char) -> (r: bool)
    ensures
        r == is_name_char(c),
{
    ('a' <= c && c <= 'z') || ('A' <= c && c <= 'Z') || c == '_'
}

/// The field that `raw[from..to]` names, if any.
fn field_index_of(raw: &[char], from: usize, to: usize) -> (r: Option<usize>)
    requires
        from <= to <= raw@.len(),
    ensures
        r == field_index(raw@.subrange(from as int, to as int)),
{
    let ghost name = raw@.subrange(from as int, to as int);
    let n = to - from;
    if n == 4 && raw[from] == 's' && raw[from + 1] == 't' && raw[from + 2] == 'o' && raw[from + 3] == 'p' {
        Some(0)
    } else if n == 4 && raw[from] == 'p' && raw[from + 1] == 'u' && raw[from + 2] == 'l' && raw[from + 3] == 'l' {
        Some(1)
    } else if n == 4 && raw[from] == 'i' && raw[from + 1] == 'n' && raw[from + 2] == 'i' && raw[from + 3] == 't' {
        Some(2)
    } else if n == 6 && raw[from] == 'u' && raw[from + 1] == 'p' && raw[from + 2] == 'd' && raw[from + 3] == 'a'
        && raw[from + 4] == 't' && raw[from + 5] == 'e' {
        Some(3)
    } else if n == 5 && raw[from] == 's' && raw[from + 1] == 't' && raw[from + 2] == 'a' && raw[from + 3] == 'r'
        && raw[from + 4] == 't' {
        Some(4)
    } else if n == 7 && raw[from] == 'r' && raw[from + 1] == 'e' && raw[from + 2] == 's' && raw[from + 3] == 't'
        && raw[from + 4] == 'a' && raw[from + 5] == 'r' && raw[from + 6] == 't' {
        Some(5)
    } else {
        None
    }
}

fn contains_index(active: &Vec<usize>, k: usize) -> (r: bool)
    ensures
        r == active@.contains(k),
{
    let mut i: usize = 0;
    while i < active.len()
        invariant
            i <= active@.len(),
            forall|j: int| 0 <= j < i ==> active@[j] != k,
        decreases active@.len() - i,
    {
        if active[i] == k {
            return true;
        }
        i = i + 1;
    }
    false
}

impl TomlCommands {
    /// The text of command field `k`.
    fn field_at(&self, k: usize) -> (r: Option<&String>)
        ensures
            match r {
                Some(v) => field_text(command_texts(*self), k) == Some(v@),
                None => field_text(command_texts(*self), k) is None,
            },
    {
        if k == 0 {
            self.stop.as_ref()
        } else if k == 1 {
            self.pull.as_ref()
        } else if k == 2 {
            self.init.as_ref()
        } else if k == 3 {
            self.update.as_ref()
        } else if k == 4 {
            self.start.as_ref()
        } else if k == 5 {
            self.restart.as_ref()
        } else {
            None
        }
    }

    /// The command field named `name`, if `name` names one and it is set.
    pub fn field(&self, name: &[char]) -> (r: Option<&String>)
        ensures
            match r {
                Some(v) => field_index(name@) is Some && field_text(command_texts(*self), field_index(name@)->0)
                    == Some(v@),
                None => field_index(name@) is None || field_text(command_texts(*self), field_index(name@)->0) is None,
            },
    {
        assert(name@.subrange(0, name@.len() as int) =~= name@);
        match field_index_of(name, 0, name.len()) {
            Some(k) => self.field_at(k),
            None => None,
        }
    }

    /// Expands every `@field` token of `raw` with that field's own, recursively
    /// expanded, text. `active` holds the fields being expanded on this call
    /// stack; a token naming one of them is a cycle and stays literal.
    fn expand(&self, raw: &[char], active: &mut Vec<usize>) -> (out: Vec<char>)
        ensures
            out@ == expand_spec(command_texts(*self), raw@, old(active)@),
            final(active)@ == old(active)@,
        decreases free_count(old(active)@, num_fields()), raw@.len(),
    {
        let ghost a = active@;
        let mut out: Vec<char> = Vec::new();
        let mut pos: usize = 0;
        assert(raw@.skip(0) =~= raw@);
        while pos < raw.len()
            invariant
                pos <= raw@.len(),
                active@ == a,
                old(active)@ == a,
                out@ + expand_spec(command_texts(*self), raw@.skip(pos as int), a) == expand_spec(command_texts(*self), raw@, a),
            decreases raw@.len() - pos,
        {
            let ghost tail = raw@.skip(pos as int);
            let c = raw[pos];
            if c != '@' {
                proof {
                    assert(tail.drop_first() =~= raw@.skip(pos + 1));
                    assert(out@.push(c) + expand_spec(command_texts(*self), raw@.skip(pos + 1), a) =~= out@
                        + expand_spec(command_texts(*self), tail, a));
                }
                out.push(c);
                pos = pos + 1;
            } else {
                let mut end: usize = pos + 1;
                while end < raw.len() && is_name_char_exec(raw[end])
                    invariant
                        pos + 1 <= end <= raw@.len(),
                        forall|i: int| pos + 1 <= i < end ==> is_name_char(#[trigger] raw@[i]),
                    decreases raw@.len() - end,
                {
                    end = end + 1;
                }
                let ghost after = tail.drop_first();
                let ghost name = raw@.subrange(pos + 1, end as int);
                proof {
                    assert(after =~= raw@.skip(pos + 1));
                    assert forall|i: int| 0 <= i < end - pos - 1 implies is_name_char(
                        #[trigger] after[i],
                    ) by {
                        assert(after[i] == raw@[pos + 1 + i]);
                    }
                    lemma_name_len_exact(after, end - pos - 1);
                    assert(after.take(end - pos - 1) =~= name);
                    assert(after.skip(end - pos - 1) =~= raw@.skip(end as int));
                }
                let idx = field_index_of(raw, pos + 1, end);
                let mut expanded = false;
                if let Some(k) = idx {
                    if !contains_index(active, k) {
                        if let Some(value) = self.field_at(k) {
                            let value_chars = chars_of(value.as_str());
                            proof {
                                lemma_free_count_push(a, k, num_fields());
                            }
                            active.push(k);
                            proof {
                                assert(k < num_fields());
                                assert(active@ == a.push(k));
                            }
                            let sub = self.expand(value_chars.as_slice(), active);
                            active.pop();
                            proof {
                                assert(active@ =~= a);
                            }
                            let mut i: usize = 0;
                            let ghost before = out@;
                            while i < sub.len()
                                invariant
                                    i <= sub@.len(),
                                    out@ == before + sub@.take(i as int),
                                decreases sub@.len() - i,
                            {
                                out.push(sub[i]);
                                i = i + 1;
                                proof {
                                    assert(out@ =~= before + sub@.take(i as int));
                                }
                            }
                            proof {
                                assert(sub@.take(sub@.len() as int) =~= sub@);
                            }
                            expanded = true;
                        }
                    }
                }
                if !expanded {
                    out.push('@');
                    let mut i: usize = pos + 1;
                    let ghost before = out@;
                    while i < end
                        invariant
                            pos + 1 <= i <= end <= raw@.len(),
                            out@ == before + raw@.subrange(pos + 1, i as int),
                        decreases end - i,
                    {
                        out.push(raw[i]);
                        i = i + 1;
                        proof {
                            assert(out@ =~= before + raw@.subrange(pos + 1, i as int));
                        }
                    }
                }
                proof {
                    let piece = if field_index(name) is Some && !a.contains(field_index(name)->0)
                        && field_text(command_texts(*self), field_index(name)->0) is Some {
                        expand_spec(
                            command_texts(*self),
                            field_text(command_texts(*self), field_index(name)->0)->0,
                            a.push(field_index(name)->0),
                        )
                    } else {
                        seq!['@'] + name
                    };
                    assert(expand_spec(command_texts(*self), tail, a) == piece + expand_spec(
                        command_texts(*self),
                        raw@.skip(end as int),
                        a,
                    ));
                    if !expanded {
                        assert(seq!['@'] + name =~= seq!['@'] + raw@.subrange(pos + 1, end as int));
                    }
                    assert(out@ + expand_spec(command_texts(*self), raw@.skip(end as int), a) =~= expand_spec(
                        command_texts(*self),
                        raw@,
                        a,
                    ));
                }
                pos = end;
            }
        }
        proof {
            assert(raw@.skip(pos as int) =~= Seq::<char>::empty());
            assert(out@ =~= expand_spec(command_texts(*self), raw@, a));
        }
        out
    }

    /// The command `raw` with its references expanded.
    fn resolve(&self, raw: Option<&String>) -> (r: Option<String>)
        ensures
            opt_view(r) == resolved(
                command_texts(*self),
                match raw {
                    Some(s) => Some(s@),
                    None => None,
                },
            ),
    {
        match raw {
            Some(s) => {
                let chars = chars_of(s.as_str());
                let mut active: Vec<usize> = Vec::new();
                let out = self.expand(chars.as_slice(), &mut active);
                Some(string_from(out.as_slice()))
            },
            None => None,
        }
    }

    /// The stop command, references expanded.
    pub fn stop(&self) -> (r: Option<String>)
        ensures
            opt_view(r) == resolved(command_texts(*self), opt_view(self.stop)),
    {
        self.resolve(self.stop.as_ref())
    }

    /// The pull command: none when `no_pull` is set, otherwise the configured
    /// command (references expanded) or [`DEFAULT_PULL_COMMAND`].
    pub fn pull(&self) -> (r: Option<String>)
        ensures
            opt_view(r) == resolved_pull(command_texts(*self), self.no_pull),
    {
        if self.no_pull == Some(true) {
            return None;
        }
        match self.resolve(self.pull.as_ref()) {
            Some(p) => Some(p),
            None => Some(DEFAULT_PULL_COMMAND.to_owned()),
        }
    }

    /// The init command, references expanded.
    pub fn init(&self) -> (r: Option<String>)
        ensures
            opt_view(r) == resolved(command_texts(*self), opt_view(self.init)),
    {
        self.resolve(self.init.as_ref())
    }

    /// The update command, references expanded.
    pub fn update(&self) -> (r: Option<String>)
        ensures
            opt_view(r) == resolved(command_texts(*self), opt_view(self.update)),
    {
        self.resolve(self.update.as_ref())
    }

    /// The start command, references expanded.
    pub fn start(&self) -> (r: Option<String>)
        ensures
            opt_view(r) == resolved(command_texts(*self), opt_view(self.start)),
    {
        self.resolve(self.start.as_ref())
    }

    /// The restart command, references expanded.
    pub fn restart(&self) -> (r: Option<String>)
        ensures
            opt_view(r) == resolved(command_texts(*self), opt_view(self.restart)),
    {
        self.resolve(self.restart.as_ref())
    }

    /// These commands overridden field by field by those set in `other`.
    pub fn merge_from(&self, other: &TomlCommands) -> (r: TomlCommands)
        ensures
            opt_view(r.stop) == or_else_view(other.stop, self.stop),
            opt_view(r.pull) == or_else_view(other.pull, self.pull),
            r.no_pull == (if other.no_pull is Some { other.no_pull } else { self.no_pull }),
            opt_view(r.init) == or_else_view(other.init, self.init),
            opt_view(r.update) == or_else_view(other.update, self.update),
            opt_view(r.start) == or_else_view(other.start, self.start),
            opt_view(r.restart) == or_else_view(other.restart, self.restart),
    {
        TomlCommands {
            stop: if other.stop.is_some() { owned_opt(&other.stop) } else { owned_opt(&self.stop) },
            pull: if other.pull.is_some() { owned_opt(&other.pull) } else { owned_opt(&self.pull) },
            no_pull: if other.no_pull.is_some() { other.no_pull } else { self.no_pull },
            init: if other.init.is_some() { owned_opt(&other.init) } else { owned_opt(&self.init) },
            update: if other.update.is_some() {
                owned_opt(&other.update)
            } else {
                owned_opt(&self.update)
            },
            start: if other.start.is_some() { owned_opt(&other.start) } else { owned_opt(&self.start) },
            restart: if other.restart.is_some() {
                owned_opt(&other.restart)
            } else {
                owned_opt(&self.restart)
            },
        }
    }
}


/// The top level of `config.toml`.
pub struct TomlConfig {
    pub bind: String,
    pub log_dir: String,
    pub default_timeout: Option<u64>,
    pub log_keep_days: Option<u64>,
    pub state_file: Option<String>,
    pub shell: Option<String>,
    pub telegram: Option<TomlTelegram>,
    pub github_app: Option<TomlGithubApp>,
    pub projects: Vec<TomlProject>,
}

/// The state file used when none is configured.
pub const DEFAULT_STATE_FILE: &'static str = "state.json";

/// The shell used when none is configured.
pub const DEFAULT_SHELL: &'static str = "sh";

/// The command timeout, in seconds, used when none is configured.
pub const DEFAULT_TIMEOUT_SECS: u64 = 30;

/// How many days log files are kept when nothing is configured.
pub const DEFAULT_LOG_KEEP_DAYS: u64 = 30;

/// The configured value, or the default when it is unset.
pub open spec fn text_or(v: Option<String>, default: Seq<char>) -> Seq<char> {
    match v {
        Some(s) => s@,
        None => default,
    }
}

impl TomlConfig {
    pub fn bind(&self) -> (r: &str)
        ensures
            r@ == self.bind@,
    {
        self.bind.as_str()
    }

    pub fn log_dir(&self) -> (r: &str)
        ensures
            r@ == self.log_dir@,
    {
        self.log_dir.as_str()
    }

    /// The command timeout in seconds; 30 when unset.
    pub fn default_timeout(&self) -> (r: u64)
        ensures
            r == (match self.default_timeout {
                Some(t) => t,
                None => DEFAULT_TIMEOUT_SECS,
            }),
    {
        match self.default_timeout {
            Some(t) => t,
            None => DEFAULT_TIMEOUT_SECS,
        }
    }

    /// How many days log files are kept; 30 when unset.
    pub fn log_keep_days(&self) -> (r: u64)
        ensures
            r == (match self.log_keep_days {
                Some(t) => t,
                None => DEFAULT_LOG_KEEP_DAYS,
            }),
    {
        match self.log_keep_days {
            Some(t) => t,
            None => DEFAULT_LOG_KEEP_DAYS,
        }
    }

    /// The state file; `state.json` when unset.
    pub fn state_file(&self) -> (r: &str)
        ensures
            r@ == text_or(self.state_file, DEFAULT_STATE_FILE@),
    {
        match &self.state_file {
            Some(s) => s.as_str(),
            None => DEFAULT_STATE_FILE,
        }
    }

    /// The shell deploy commands run in; `sh` when unset.
    pub fn shell(&self) -> (r: &str)
        ensures
            r@ == text_or(self.shell, DEFAULT_SHELL@),
    {
        match &self.shell {
            Some(s) => s.as_str(),
            None => DEFAULT_SHELL,
        }
    }

    pub fn telegram(&self) -> (r: Option<&TomlTelegram>)
        ensures
            r == match self.telegram {
                Some(t) => Some(&t),
                None => None::<&TomlTelegram>,
            },
    {
        self.telegram.as_ref()
    }

    pub fn github_app(&self) -> (r: Option<&TomlGithubApp>)
        ensures
            r == match self.github_app {
                Some(t) => Some(&t),
                None => None::<&TomlGithubApp>,
            },
    {
        self.github_app.as_ref()
    }

    pub fn projects(&self) -> (r: &[TomlProject])
        ensures
            r@ == self.projects@,
    {
        self.projects.as_slice()
    }
}

/// The `[github_app]` table.
pub struct TomlGithubApp {
    pub app_id: u64,
    pub private_key_path: String,
    pub public_base_url: Option<String>,
}

impl TomlGithubApp {
    pub fn app_id(&self) -> (r: u64)
        ensures
            r == self.app_id,
    {
        self.app_id
    }

    pub fn private_key_path(&self) -> (r: &str)
        ensures
            r@ == self.private_key_path@,
    {
        self.private_key_path.as_str()
    }

    pub fn public_base_url(&self) -> (r: Option<&str>)
        ensures
            opt_str_view(r) == opt_view(self.public_base_url),
    {
        match &self.public_base_url {
            Some(s) => Some(s.as_str()),
            None => None,
        }
    }
}

/// The view of an optional string slice.
pub open spec fn opt_str_view(s: Option<&str>) -> Option<Seq<char>> {
    match s {
        Some(t) => Some(t@),
        None => None,
    }
}

/// One element of a `send_to` array, as written in the configuration.
pub enum SendToItem {
    Text(String),
    Integer(i64),
    /// Any other kind of value.
    Other,
}

/// The `send_to` value: a chat ID as an integer or a string, or an array of them.
pub enum SendToValue {
    Text(String),
    Integer(i64),
    Array(Vec<SendToItem>),
    /// Any other kind of value.
    Other,
}

/// The `[telegram]` table.
pub struct TomlTelegram {
    pub bot_token: String,
    pub api_server: Option<String>,
    pub send_to: SendToValue,
}

impl TomlTelegram {
    pub fn bot_token(&self) -> (r: &str)
        ensures
            r@ == self.bot_token@,
    {
        self.bot_token.as_str()
    }

    pub fn api_server(&self) -> (r: Option<&str>)
        ensures
            opt_str_view(r) == opt_view(self.api_server),
    {
        match &self.api_server {
            Some(s) => Some(s.as_str()),
            None => None,
        }
    }

    pub fn send_to(&self) -> (r: &SendToValue)
        ensures
            *r == self.send_to,
    {
        &self.send_to
    }
}

/// The mode of a commit filter.
#[derive(Clone, Copy, PartialEq, Eq, Structural, Debug)]
pub enum FilterMode {
    /// Deploy only when the push touches one of the globs (or a message matches).
    Include,
    /// Skip the deploy when the push touches nothing but the globs (or every message matches).
    Exclude,
}

/// The `commit_filter` table.
pub struct TomlCommitFilter {
    pub mode: FilterMode,
    pub globs: Vec<String>,
    pub message_patterns: Vec<String>,
}

impl TomlCommitFilter {
    pub fn mode(&self) -> (r: FilterMode)
        ensures
            r == self.mode,
    {
        self.mode
    }

    pub fn globs(&self) -> (r: &[String])
        ensures
            r@ == self.globs@,
    {
        self.globs.as_slice()
    }

    pub fn message_patterns(&self) -> (r: &[String])
        ensures
            r@ == self.message_patterns@,
    {
        self.message_patterns.as_slice()
    }
}

/// The `commit_verify` table.
pub struct TomlCommitVerify {
    pub allowed_authors: Vec<String>,
    pub require_signed: Option<bool>,
}

impl TomlCommitVerify {
    pub fn allowed_authors(&self) -> (r: &[String])
        ensures
            r@ == self.allowed_authors@,
    {
        self.allowed_authors.as_slice()
    }

    /// Whether every commit must be signed; false when unset.
    pub fn require_signed(&self) -> (r: bool)
        ensures
            r == (self.require_signed == Some(true)),
    {
        match self.require_signed {
            Some(b) => b,
            None => false,
        }
    }
}

/// How a project authenticates its `pull`.
#[derive(Clone, Copy, PartialEq, Eq, Structural, Debug)]
pub enum TomlAuthMode {
    Ssh,
    GithubApp,
}

/// The `auth` table of a project.
pub struct TomlProjectAuth {
    pub mode: TomlAuthMode,
    pub owner: Option<String>,
    pub repo: Option<String>,
}

impl TomlProjectAuth {
    pub fn mode(&self) -> (r: TomlAuthMode)
        ensures
            r == self.mode,
    {
        self.mode
    }

    pub fn owner(&self) -> (r: Option<&str>)
        ensures
            opt_str_view(r) == opt_view(self.owner),
    {
        match &self.owner {
            Some(s) => Some(s.as_str()),
            None => None,
        }
    }

    pub fn repo(&self) -> (r: Option<&str>)
        ensures
            opt_str_view(r) == opt_view(self.repo),
    {
        match &self.repo {
            Some(s) => Some(s.as_str()),
            None => None,
        }
    }
}

/// One `[[projects]]` entry.
pub struct TomlProject {
    pub name: String,
    pub working_dir: String,
    pub git_url: Option<String>,
    pub secret: String,
    pub branch: String,
    pub timeout: Option<u64>,
    pub bypass: Option<bool>,
    pub deploy_toml: Option<bool>,
    pub commit_filter: Option<TomlCommitFilter>,
    pub commit_verify: Option<TomlCommitVerify>,
    pub commands: TomlCommands,
    pub auth: Option<TomlProjectAuth>,
}

impl TomlProject {
    pub fn name(&self) -> (r: &str)
        ensures
            r@ == self.name@,
    {
        self.name.as_str()
    }

    pub fn working_dir(&self) -> (r: &str)
        ensures
            r@ == self.working_dir@,
    {
        self.working_dir.as_str()
    }

    /// Clone URL used to bootstrap `working_dir` if it doesn't exist yet.
    pub fn git_url(&self) -> (r: Option<&str>)
        ensures
            opt_str_view(r) == opt_view(self.git_url),
    {
        match &self.git_url {
            Some(s) => Some(s.as_str()),
            None => None,
        }
    }

    pub fn secret(&self) -> (r: &str)
        ensures
            r@ == self.secret@,
    {
        self.secret.as_str()
    }

    pub fn branch(&self) -> (r: &str)
        ensures
            r@ == self.branch@,
    {
        self.branch.as_str()
    }

    pub fn timeout(&self) -> (r: Option<u64>)
        ensures
            r == self.timeout,
    {
        self.timeout
    }

    /// Whether deploys are skipped; false when unset.
    pub fn bypass(&self) -> (r: bool)
        ensures
            r == (self.bypass == Some(true)),
    {
        match self.bypass {
            Some(b) => b,
            None => false,
        }
    }

    /// Whether `working_dir/deploy.toml` is merged in; false when unset.
    pub fn deploy_toml(&self) -> (r: bool)
        ensures
            r == (self.deploy_toml == Some(true)),
    {
        match self.deploy_toml {
            Some(b) => b,
            None => false,
        }
    }

    pub fn commit_filter(&self) -> (r: Option<&TomlCommitFilter>)
        ensures
            r == match self.commit_filter {
                Some(t) => Some(&t),
                None => None::<&TomlCommitFilter>,
            },
    {
        self.commit_filter.as_ref()
    }

    pub fn commit_verify(&self) -> (r: Option<&TomlCommitVerify>)
        ensures
            r == match self.commit_verify {
                Some(t) => Some(&t),
                None => None::<&TomlCommitVerify>,
            },
    {
        self.commit_verify.as_ref()
    }

    pub fn commands(&self) -> (r: &TomlCommands)
        ensures
            *r == self.commands,
    {
        &self.commands
    }

    pub fn auth(&self) -> (r: Option<&TomlProjectAuth>)
        ensures
            r == match self.auth {
                Some(t) => Some(&t),
                None => None::<&TomlProjectAuth>,
            },
    {
        self.auth.as_ref()
    }
}

/// The settings of `working_dir/deploy.toml` that override a project's own.
/// It has no `secret`: credentials stay out of the repository.
pub struct TomlProjectOverride {
    pub branch: Option<String>,
    pub timeout: Option<u64>,
    pub bypass: Option<bool>,
    pub commit_filter: Option<TomlCommitFilter>,
    pub commit_verify: Option<TomlCommitVerify>,
    pub commands: Option<TomlCommands>,
    pub auth: Option<TomlProjectAuth>,
}

// ---- send_to ----

/// Whether `c` is an ASCII decimal digit.
pub open spec fn is_digit(c: char) -> bool {
    '0' <= c && c <= '9'
}

/// The value of a string of decimal digits.
pub open spec fn digits_value(s: Seq<char>) -> int
    decreases s.len(),
{
    if s.len() == 0 {
        0
    } else {
        digits_value(s.drop_last()) * 10 + ((s.last() as u32) - ('0' as u32))
    }
}

/// Whether every character of `s` is a decimal digit.
pub open spec fn all_digits(s: Seq<char>) -> bool {
    forall|i: int| 0 <= i < s.len() ==> is_digit(#[trigger] s[i])
}

/// `s` without its leading sign, if it has one.
pub open spec fn unsigned_part(s: Seq<char>) -> Seq<char> {
    if s.len() > 0 && (s[0] == '-' || s[0] == '+') {
        s.drop_first()
    } else {
        s
    }
}

/// The signed decimal integer that `s` spells, as `i64` parsing reads it:
/// an optional `+` or `-`, then one or more digits, within the range of `i64`.
pub open spec fn parse_i64_spec(s: Seq<char>) -> Option<i64> {
    let body = unsigned_part(s);
    if body.len() == 0 || !all_digits(body) {
        None
    } else {
        let v = if s[0] == '-' {
            -digits_value(body)
        } else {
            digits_value(body)
        };
        if i64::MIN <= v <= i64::MAX {
            Some(v as i64)
        } else {
            None
        }
    }
}

proof fn lemma_digits_value_nonneg(s: Seq<char>)
    requires
        forall|i: int| 0 <= i < s.len() ==> is_digit(#[trigger] s[i]),
    ensures
        digits_value(s) >= 0,
    decreases s.len(),
{
    if s.len() > 0 {
        lemma_digits_value_nonneg(s.drop_last());
    }
}

proof fn lemma_digits_value_grows(s: Seq<char>, k: int)
    requires
        0 <= k <= s.len(),
        forall|i: int| 0 <= i < s.len() ==> is_digit(#[trigger] s[i]),
    ensures
        digits_value(s.take(k)) <= digits_value(s),
    decreases s.len(),
{
    if k < s.len() {
        assert(s.drop_last().take(k) =~= s.take(k));
        lemma_digits_value_grows(s.drop_last(), k);
        lemma_digits_value_nonneg(s.drop_last());
    } else {
        assert(s.take(k) =~= s);
    }
}

/// Reads a signed decimal `i64` the way `str::parse::<i64>` does.
pub fn parse_i64(s: &str) -> (r: Option<i64>)
    ensures
        r == parse_i64_spec(s@),
{
    let v = chars_of(s);
    let n = v.len();
    let neg = n > 0 && v[0] == '-';
    let start: usize = if n > 0 && (v[0] == '-' || v[0] == '+') { 1 } else { 0 };
    let ghost body = v@.skip(start as int);
    proof {
        if n > 0 && (v@[0] == '-' || v@[0] == '+') {
            assert(body =~= v@.drop_first());
        } else {
            assert(body =~= v@);
        }
    }
    if start >= n {
        return None;
    }
    // magnitude, capped: above 2^63 no i64 can be formed
    let mut acc: u64 = 0;
    let mut i: usize = start;
    while i < n
        invariant
            start <= i <= n,
            n == v@.len(),
            v@ == s@,
            neg == (v@.len() > 0 && v@[0] == '-'),
            body == v@.skip(start as int),
            body == unsigned_part(v@),
            forall|j: int| 0 <= j < i - start ==> is_digit(#[trigger] body[j]),
            acc as int == digits_value(body.take(i - start)),
            acc <= 9223372036854775808u64,
        decreases n - i,
    {
        let c = v[i];
        if !('0' <= c && c <= '9') {
            proof {
                assert(body[i - start] == c);
                assert(!is_digit(body[i - start]));
                assert(!all_digits(body));
            }
            return None;
        }
        let d: u64 = (c as u32 - '0' as u32) as u64;
        proof {
            assert(body[i - start] == c);
            assert(body.take(i - start + 1).drop_last() =~= body.take(i - start));
            assert(body.take(i - start + 1).last() == c);
        }
        if acc > 922337203685477580u64 || (acc == 922337203685477580u64 && d > 8) {
            proof {
                assert forall|j: int| 0 <= j < i - start + 1 implies is_digit(
                    #[trigger] body.take(i - start + 1)[j],
                ) by {
                    if j < i - start {
                        assert(body.take(i - start + 1)[j] == body[j]);
                    }
                }
                let t = body.take(i - start + 1);
                assert(digits_value(t) == digits_value(t.drop_last()) * 10 + ((t.last() as u32) - ('0' as u32)));
                assert(digits_value(t) == acc * 10 + d);
                assert(digits_value(t) > 9223372036854775808) by (nonlinear_arith)
                    requires
                        digits_value(t) == acc * 10 + d,
                        acc > 922337203685477580 || (acc == 922337203685477580 && d > 8),
                ;
                // whatever follows is either a non-digit or makes the number larger
                if all_digits(body) {
                    lemma_digits_value_grows(body, i - start + 1);
                }
            }
            return None;
        }
        acc = acc * 10 + d;
        i = i + 1;
    }
    proof {
        assert(body.take(n - start) =~= body);
    }
    if neg {
        if acc == 9223372036854775808u64 {
            Some(i64::MIN)
        } else {
            Some(-(acc as i64))
        }
    } else {
        if acc == 9223372036854775808u64 {
            None
        } else {
            Some(acc as i64)
        }
    }
}

/// The chat IDs of a `send_to` value, or `None` where one of them cannot be read:
/// an unparsable string, an element that is neither an integer nor a string, or a
/// value that is neither of these nor an array.
pub open spec fn send_to_spec(v: SendToValue) -> Option<Seq<i64>> {
    match v {
        SendToValue::Text(s) => match parse_i64_spec(s@) {
            Some(i) => Some(seq![i]),
            None => None,
        },
        SendToValue::Integer(i) => Some(seq![i]),
        SendToValue::Array(items) => items_spec(items@),
        SendToValue::Other => None,
    }
}

/// The chat IDs of the elements of an array, if every one of them can be read.
pub open spec fn items_spec(items: Seq<SendToItem>) -> Option<Seq<i64>> {
    if all_items_readable(items) {
        Some(items.map_values(|it: SendToItem| item_spec(it)->0))
    } else {
        None
    }
}

/// Whether every element of the array can be read as a chat ID.
pub open spec fn all_items_readable(items: Seq<SendToItem>) -> bool {
    forall|k: int| 0 <= k < items.len() ==> #[trigger] item_spec(items[k]) is Some
}

/// The chat ID of one array element, if it can be read.
pub open spec fn item_spec(it: SendToItem) -> Option<i64> {
    match it {
        SendToItem::Text(s) => parse_i64_spec(s@),
        SendToItem::Integer(i) => Some(i),
        SendToItem::Other => None,
    }
}

/// The chat IDs of a `send_to` value, or `None` exactly where the value cannot be read.
pub fn try_parse_send_to(value: &SendToValue) -> (r: Option<Vec<i64>>)
    ensures
        match r {
            Some(v) => send_to_spec(*value) == Some(v@),
            None => send_to_spec(*value) is None,
        },
{
    match value {
        SendToValue::Text(s) => match parse_i64(s.as_str()) {
            Some(i) => {
                let mut v = Vec::new();
                v.push(i);
                assert(v@ =~= seq![i]);
                Some(v)
            },
            None => None,
        },
        SendToValue::Integer(i) => {
            let mut v = Vec::new();
            v.push(*i);
            assert(v@ =~= seq![*i]);
            Some(v)
        },
        SendToValue::Array(items) => {
            let mut out: Vec<i64> = Vec::new();
            let mut k: usize = 0;
            while k < items.len()
                invariant
                    *value == SendToValue::Array(*items),
                    k <= items@.len(),
                    out@.len() == k,
                    forall|j: int| 0 <= j < k ==> #[trigger] item_spec(items@[j]) == Some(out@[j]),
                decreases items@.len() - k,
            {
                let got = match &items[k] {
                    SendToItem::Text(s) => parse_i64(s.as_str()),
                    SendToItem::Integer(i) => Some(*i),
                    SendToItem::Other => None,
                };
                assert(got == item_spec(items@[k as int]));
                match got {
                    Some(i) => out.push(i),
                    None => {
                        assert(!all_items_readable(items@));
                        return None;
                    },
                }
                k = k + 1;
            }
            proof {
                assert(out@ =~= items@.map_values(|it: SendToItem| item_spec(it)->0));
            }
            Some(out)
        },
        SendToValue::Other => None,
    }
}

/// The chat IDs of a `send_to` value. The value must be readable: an integer, a
/// string holding one, or an array of these.
pub fn parse_send_to(value: &SendToValue) -> (r: Vec<i64>)
    requires
        send_to_spec(*value) is Some,
    ensures
        send_to_spec(*value) == Some(r@),
{
    match try_parse_send_to(value) {
        Some(v) => v,
        None => Vec::new(),
    }
}

} // verus!
