//! What the helper remembers across runs: which projects completed their init step.
use vstd::prelude::*;

use crate::text::{owned, str_eq};

verus! {

/// The remembered state of one project.
#[derive(Clone, Copy, PartialEq, Eq, Structural, Debug)]
pub struct ProjectState {
    /// Whether the project completed its init step.
    pub initialized: bool,
}

impl Default for ProjectState {
    fn default() -> (r: Self)
        ensures
            !r.initialized,
    {
        ProjectState { initialized: false }
    }
}

/// Whether no name occurs twice among the entries.
pub open spec fn names_distinct(s: Seq<(String, ProjectState)>) -> bool {
    forall|i: int, j: int| 0 <= i < j < s.len() ==> #[trigger] s[i].0@ != #[trigger] s[j].0@
}

/// The entries as a map from project name to its init flag.
pub open spec fn entries_map(s: Seq<(String, ProjectState)>) -> Map<Seq<char>, bool>
    decreases s.len(),
{
    if s.len() == 0 {
        Map::empty()
    } else {
        entries_map(s.drop_last()).insert(s.last().0@, s.last().1.initialized)
    }
}

/// Whether `project` completed its init step according to `m`; a project that is not
/// remembered did not.
pub open spec fn initialized_in(m: Map<Seq<char>, bool>, project: Seq<char>) -> bool {
    m.contains_key(project) && m[project]
}

/// The state kept for every project, saved between runs.
pub struct State {
    projects: Vec<(String, ProjectState)>,
}

impl State {
    #[verifier::type_invariant]
    spec fn well_formed(self) -> bool {
        names_distinct(self.projects@)
    }

    /// The projects' init flags, by name.
    pub closed spec fn view(self) -> Map<Seq<char>, bool> {
        entries_map(self.projects@)
    }

    /// A state that remembers no project.
    pub fn new() -> (r: State)
        ensures
            r.view() == Map::<Seq<char>, bool>::empty(),
    {
        State { projects: Vec::new() }
    }

    /// The remembered projects, each once.
    pub fn projects(&self) -> (r: &[(String, ProjectState)])
        ensures
            entries_map(r@) == self.view(),
            names_distinct(r@),
    {
        proof {
            use_type_invariant(self);
        }
        self.projects.as_slice()
    }

    /// Where `project` is kept, if it is.
    fn position(&self, project: &str) -> (r: Option<usize>)
        ensures
            match r {
                Some(i) => i < self.projects@.len() && self.projects@[i as int].0@ == project@,
                None => forall|i: int|
                    0 <= i < self.projects@.len() ==> #[trigger] self.projects@[i].0@ != project@,
            },
    {
        let mut i: usize = 0;
        while i < self.projects.len()
            invariant
                i <= self.projects@.len(),
                forall|j: int| 0 <= j < i ==> #[trigger] self.projects@[j].0@ != project@,
            decreases self.projects@.len() - i,
        {
            if str_eq(self.projects[i].0.as_str(), project) {
                return Some(i);
            }
            i = i + 1;
        }
        None
    }

    /// Whether `project` has completed its init step in a previous run.
    pub fn is_initialized(&self, project: &str) -> (r: bool)
        ensures
            r == initialized_in(self.view(), project@),
    {
        proof {
            use_type_invariant(self);
        }
        match self.position(project) {
            Some(i) => {
                proof {
                    lemma_lookup(self.projects@, project@, i as int);
                }
                self.projects[i].1.initialized
            },
            None => {
                proof {
                    lemma_absent(self.projects@, project@);
                }
                false
            },
        }
    }

    /// Records whether `project` completed its init step.
    pub fn set_initialized(&mut self, project: &str, initialized: bool)
        ensures
            final(self).view() == old(self).view().insert(project@, initialized),
    {
        proof {
            use_type_invariant(&*self);
        }
        match self.position(project) {
            Some(i) => {
                let ghost before = self.projects@;
                let name = owned(self.projects[i].0.as_str());
                let mut projects = Vec::new();
                std::mem::swap(&mut projects, &mut self.projects);
                projects.set(i, (name, ProjectState { initialized }));
                proof {
                    lemma_update(before, i as int, projects@[i as int]);
                    assert forall|a: int, b: int| 0 <= a < b < projects@.len() implies #[trigger] projects@[a].0@
                        != #[trigger] projects@[b].0@ by {
                        assert(before[a].0@ != before[b].0@);
                    }
                }
                self.projects = projects;
            },
            None => {
                let ghost before = self.projects@;
                let mut projects = Vec::new();
                std::mem::swap(&mut projects, &mut self.projects);
                projects.push((owned(project), ProjectState { initialized }));
                proof {
                    assert(projects@.drop_last() =~= before);
                    assert forall|a: int, b: int| 0 <= a < b < projects@.len() implies #[trigger] projects@[a].0@
                        != #[trigger] projects@[b].0@ by {
                        if b < before.len() {
                            assert(before[a].0@ != before[b].0@);
                        }
                    }
                }
                self.projects = projects;
            },
        }
    }

    /// Records that `project` completed its init step.
    pub fn mark_initialized(&mut self, project: &str)
        ensures
            final(self).view() == old(self).view().insert(project@, true),
    {
        self.set_initialized(project, true);
    }

    /// Forces `project` to re-run its init step on the next deploy.
    pub fn clear_initialized(&mut self, project: &str)
        ensures
            final(self).view() == old(self).view().insert(project@, false),
    {
        self.set_initialized(project, false);
    }
}

impl Default for State {
    fn default() -> (r: Self)
        ensures
            r.view() == Map::<Seq<char>, bool>::empty(),
    {
        State::new()
    }
}

proof fn lemma_lookup(s: Seq<(String, ProjectState)>, k: Seq<char>, i: int)
    requires
        names_distinct(s),
        0 <= i < s.len(),
        s[i].0@ == k,
    ensures
        entries_map(s).contains_key(k),
        entries_map(s)[k] == s[i].1.initialized,
    decreases s.len(),
{
    if i < s.len() - 1 {
        assert(s[i].0@ != s[s.len() - 1].0@);
        assert(s.drop_last()[i] == s[i]);
        lemma_lookup(s.drop_last(), k, i);
    }
}

proof fn lemma_absent(s: Seq<(String, ProjectState)>, k: Seq<char>)
    requires
        forall|i: int| 0 <= i < s.len() ==> #[trigger] s[i].0@ != k,
    ensures
        !entries_map(s).contains_key(k),
    decreases s.len(),
{
    if s.len() > 0 {
        assert forall|i: int| 0 <= i < s.drop_last().len() implies #[trigger] s.drop_last()[i].0@ != k by {
            assert(s.drop_last()[i] == s[i]);
        }
        lemma_absent(s.drop_last(), k);
        assert(s[s.len() - 1].0@ != k);
    }
}

proof fn lemma_update(s: Seq<(String, ProjectState)>, i: int, e: (String, ProjectState))
    requires
        names_distinct(s),
        0 <= i < s.len(),
        e.0@ == s[i].0@,
    ensures
        entries_map(s.update(i, e)) == entries_map(s).insert(e.0@, e.1.initialized),
    decreases s.len(),
{
    let t = s.update(i, e);
    if i == s.len() - 1 {
        assert(t.drop_last() =~= s.drop_last());
        assert(entries_map(t) =~= entries_map(s).insert(e.0@, e.1.initialized));
    } else {
        assert(t.drop_last() =~= s.drop_last().update(i, e));
        assert(s[i].0@ != s[s.len() - 1].0@);
        lemma_update(s.drop_last(), i, e);
        assert(entries_map(t) =~= entries_map(s).insert(e.0@, e.1.initialized));
    }
}

/// What is written for a project is what is read back for it, and the other
/// projects keep what they had.
pub proof fn lemma_read_after_write(m: Map<Seq<char>, bool>, project: Seq<char>, initialized: bool, other: Seq<char>)
    ensures
        initialized_in(m.insert(project, initialized), project) == initialized,
        other != project ==> initialized_in(m.insert(project, initialized), other) == initialized_in(
            m,
            other,
        ),
{
}

/// A state that remembers nothing counts no project as initialized.
pub proof fn lemma_fresh_state_uninitialized(project: Seq<char>)
    ensures
        !initialized_in(Map::<Seq<char>, bool>::empty(), project),
{
}

} // verus!
