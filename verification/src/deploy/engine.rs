//! The decisions of a deploy: whether a push is deployed, which steps run in
//! which order, and how a failed step ends the deploy.
use vstd::prelude::*;

use crate::configure::loader::{Commands, Project};
use crate::deploy::filter::{branch_matches, commit_filter_passes, filter_passes};
use crate::deploy::runner::CommandOutput;
use crate::notify::telegram::NotifyEvent;
use crate::text::{opt_view, owned, push_str};
use crate::webhook::payload::{branch_of, commit_summary_of, id_shortenable, PushEvent};

verus! {

/// A step of the deploy pipeline.
#[derive(Clone, Copy, PartialEq, Eq, Structural, Debug)]
pub enum DeployStep {
    Stop,
    Pull,
    Init,
    Update,
    Start,
    Restart,
}

/// The name of a step as it is shown.
pub open spec fn step_name(s: DeployStep) -> Seq<char> {
    match s {
        DeployStep::Stop => "stop"@,
        DeployStep::Pull => "pull"@,
        DeployStep::Init => "init"@,
        DeployStep::Update => "update"@,
        DeployStep::Start => "start"@,
        DeployStep::Restart => "restart"@,
    }
}

impl DeployStep {
    /// The name of the step: `stop`, `pull`, `init`, `update`, `start` or `restart`.
    pub fn name(&self) -> (r: &'static str)
        ensures
            r@ == step_name(*self),
    {
        match self {
            DeployStep::Stop => "stop",
            DeployStep::Pull => "pull",
            DeployStep::Init => "init",
            DeployStep::Update => "update",
            DeployStep::Start => "start",
            DeployStep::Restart => "restart",
        }
    }
}

/// How a deploy ended.
pub enum DeployOutcome {
    Success,
    Aborted { step: DeployStep, reason: String },
    Bypassed,
    Skipped { reason: String },
}

/// Whether a push is deployed.
#[derive(Clone, Copy, PartialEq, Eq, Structural, Debug)]
pub enum PushGate {
    /// The push went to another branch.
    BranchMismatch,
    /// The commit filter excluded the push.
    FilteredOut,
    /// The push is deployed.
    Proceed,
}

/// Whether a push to `project` is deployed: it must go to the project's branch and
/// pass its commit filter, if it has one.
pub open spec fn push_gate_of(event: PushEvent, project: Project) -> PushGate {
    if branch_of(event.git_ref@) != project.branch@ {
        PushGate::BranchMismatch
    } else if project.commit_filter is Some && !filter_passes(
        event.commits@,
        project.commit_filter->0,
    ) {
        PushGate::FilteredOut
    } else {
        PushGate::Proceed
    }
}

/// Decides whether a push to `project` is deployed.
pub fn push_gate(event: &PushEvent, project: &Project) -> (r: PushGate)
    ensures
        r == push_gate_of(*event, *project),
{
    if !branch_matches(event, project.branch.as_str()) {
        return PushGate::BranchMismatch;
    }
    if let Some(filter) = &project.commit_filter {
        if !commit_filter_passes(event.commits.as_slice(), filter) {
            return PushGate::FilteredOut;
        }
    }
    PushGate::Proceed
}

/// A step to run and its command.
pub struct PlannedStep {
    pub step: DeployStep,
    pub command: String,
}

/// The steps of a deploy, in order, and after how many successful steps the
/// project counts as initialized (on its first deploy only); or, for a project set
/// to `bypass`, no step at all.
pub struct DeployPlan {
    pub steps: Vec<PlannedStep>,
    pub mark_initialized_after: Option<usize>,
    pub bypassed: bool,
}

/// One step, when its command is set.
pub open spec fn step_if(step: DeployStep, cmd: Option<Seq<char>>) -> Seq<(DeployStep, Seq<char>)> {
    match cmd {
        Some(c) => seq![(step, c)],
        None => Seq::empty(),
    }
}

/// The steps before `init`: `stop` (unless `restart` is set), then `pull`.
pub open spec fn steps_before_init(c: Commands) -> Seq<(DeployStep, Seq<char>)> {
    (if c.restart is Some {
        Seq::empty()
    } else {
        step_if(DeployStep::Stop, opt_view(c.stop))
    }) + step_if(DeployStep::Pull, opt_view(c.pull))
}

/// The steps of a deploy: stop (unless restart is set), pull, init (on the first
/// deploy only), update, then restart if set, else start. Unset commands are skipped.
pub open spec fn planned_steps(c: Commands, first_deploy: bool) -> Seq<(DeployStep, Seq<char>)> {
    steps_before_init(c) + (if first_deploy {
        step_if(DeployStep::Init, opt_view(c.init))
    } else {
        Seq::empty()
    }) + step_if(DeployStep::Update, opt_view(c.update)) + (if c.restart is Some {
        step_if(DeployStep::Restart, opt_view(c.restart))
    } else {
        step_if(DeployStep::Start, opt_view(c.start))
    })
}

/// On a first deploy, the project counts as initialized once the steps up to and
/// including `init` succeeded (up to where `init` would be, when it is unset).
pub open spec fn initialized_after(c: Commands, first_deploy: bool) -> Option<usize> {
    if first_deploy {
        Some((steps_before_init(c) + step_if(DeployStep::Init, opt_view(c.init))).len() as usize)
    } else {
        None
    }
}

/// The steps of a plan, as step and command text.
pub open spec fn plan_view(p: DeployPlan) -> Seq<(DeployStep, Seq<char>)> {
    p.steps@.map_values(|s: PlannedStep| (s.step, s.command@))
}

fn push_step(steps: &mut Vec<PlannedStep>, step: DeployStep, cmd: Option<&str>)
    ensures
        final(steps)@.map_values(|s: PlannedStep| (s.step, s.command@)) == old(steps)@.map_values(
            |s: PlannedStep| (s.step, s.command@),
        ) + step_if(
            step,
            match cmd {
                Some(c) => Some(c@),
                None => None,
            },
        ),
{
    match cmd {
        Some(c) => {
            steps.push(PlannedStep { step, command: owned(c) });
            proof {
                assert(steps@.map_values(|s: PlannedStep| (s.step, s.command@)) =~= old(
                    steps,
                )@.map_values(|s: PlannedStep| (s.step, s.command@)) + seq![(step, c@)]);
            }
        },
        None => {
            proof {
                assert(steps@.map_values(|s: PlannedStep| (s.step, s.command@)) =~= old(
                    steps,
                )@.map_values(|s: PlannedStep| (s.step, s.command@)) + Seq::empty());
            }
        },
    }
}

/// Plans a deploy with `commands`; `first_deploy` when the project has not yet
/// completed its init step. A project set to `bypass` is answered but runs nothing:
/// its plan has no step and nothing to record.
pub fn plan_deploy(commands: &Commands, first_deploy: bool, bypass: bool) -> (r: DeployPlan)
    ensures
        r.bypassed == bypass,
        bypass ==> plan_view(r) == Seq::<(DeployStep, Seq<char>)>::empty()
            && r.mark_initialized_after is None,
        !bypass ==> plan_view(r) == planned_steps(*commands, first_deploy)
            && r.mark_initialized_after == initialized_after(*commands, first_deploy),
{
    if bypass {
        let r = DeployPlan { steps: Vec::new(), mark_initialized_after: None, bypassed: true };
        proof {
            assert(plan_view(r) =~= Seq::<(DeployStep, Seq<char>)>::empty());
        }
        return r;
    }
    let mut steps: Vec<PlannedStep> = Vec::new();
    let use_restart = commands.restart.is_some();
    let ghost empty = steps@.map_values(|s: PlannedStep| (s.step, s.command@));
    assert(empty =~= Seq::empty());
    if !use_restart {
        push_step(&mut steps, DeployStep::Stop, commands.stop());
    }
    push_step(&mut steps, DeployStep::Pull, commands.pull());
    let ghost before_init = steps@.map_values(|s: PlannedStep| (s.step, s.command@));
    proof {
        assert(before_init =~= steps_before_init(*commands));
    }
    let mark = if first_deploy {
        push_step(&mut steps, DeployStep::Init, commands.init());
        Some(steps.len())
    } else {
        None
    };
    proof {
        if first_deploy {
            assert(steps@.map_values(|s: PlannedStep| (s.step, s.command@)).len() == steps@.len());
        }
    }
    push_step(&mut steps, DeployStep::Update, commands.update());
    if use_restart {
        push_step(&mut steps, DeployStep::Restart, commands.restart());
    } else {
        push_step(&mut steps, DeployStep::Start, commands.start());
    }
    let r = DeployPlan { steps, mark_initialized_after: mark, bypassed: false };
    proof {
        assert(plan_view(r) =~= planned_steps(*commands, first_deploy));
    }
    r
}

/// What running a step gave.
pub enum StepResult {
    /// The command could not be run to its end (not spawned, timed out); the reason.
    Failed(String),
    /// The command ran to its end.
    Exited(CommandOutput),
}

/// The start of the reason given when a command exits unsuccessfully.
pub const EXIT_FAILURE_PREFIX: &'static str = "exit failure\nstderr: ";

/// How a step's result ends the deploy: not at all when the command succeeded;
/// otherwise aborted at this step, with the error or the command's stderr as reason.
pub open spec fn step_outcome_of(step: DeployStep, result: StepResult) -> Option<(DeployStep, Seq<char>)> {
    match result {
        StepResult::Failed(e) => Some((step, e@)),
        StepResult::Exited(out) => if out.success {
            None
        } else {
            Some((step, EXIT_FAILURE_PREFIX@ + out.stderr@))
        },
    }
}

/// How the result of `step` ends the deploy, if it does: `Some(Aborted)` on failure.
pub fn step_outcome(step: DeployStep, result: &StepResult) -> (r: Option<DeployOutcome>)
    ensures
        match (r, step_outcome_of(step, *result)) {
            (Some(DeployOutcome::Aborted { step: s, reason }), Some((t, why))) => s == t && reason@
                == why,
            (None, None) => true,
            _ => false,
        },
{
    match result {
        StepResult::Failed(e) => Some(DeployOutcome::Aborted { step, reason: owned(e.as_str()) }),
        StepResult::Exited(out) => {
            if out.success {
                None
            } else {
                let mut reason = owned(EXIT_FAILURE_PREFIX);
                push_str(&mut reason, out.stderr.as_str());
                Some(DeployOutcome::Aborted { step, reason })
            }
        },
    }
}

/// How far a deploy has come: how many planned steps succeeded, and whether the
/// project was recorded as initialized.
#[derive(Clone, Copy, PartialEq, Eq, Structural, Debug)]
pub struct DeployProgress {
    pub done: usize,
    pub marked: bool,
}

/// What to do next in a deploy.
#[derive(Clone, Copy, PartialEq, Eq, Structural, Debug)]
pub enum DeployAction {
    /// Record that the project completed its init step.
    MarkInitialized,
    /// Run the planned step at this index.
    Run(usize),
    /// Every planned step succeeded.
    Finish,
    /// The project is set to `bypass`: the deploy ends without running anything.
    Bypass,
}

/// The next thing to do: for a bypassed plan, end at once; else record the init step
/// as soon as the steps up to it succeeded, else run the next planned step, else
/// finish.
pub open spec fn next_action_of(bypassed: bool, mark_after: Option<usize>, len: nat, p: DeployProgress) -> DeployAction {
    if bypassed {
        DeployAction::Bypass
    } else if mark_after == Some(p.done) && !p.marked {
        DeployAction::MarkInitialized
    } else if p.done < len {
        DeployAction::Run(p.done)
    } else {
        DeployAction::Finish
    }
}

impl DeployProgress {
    /// A deploy that has not started.
    pub fn start() -> (r: DeployProgress)
        ensures
            r.done == 0 && !r.marked,
    {
        DeployProgress { done: 0, marked: false }
    }

    /// What to do next under `plan`.
    pub fn next_action(&self, plan: &DeployPlan) -> (r: DeployAction)
        ensures
            r == next_action_of(
                plan.bypassed,
                plan.mark_initialized_after,
                plan.steps@.len(),
                *self,
            ),
    {
        if plan.bypassed {
            DeployAction::Bypass
        } else if plan.mark_initialized_after == Some(self.done) && !self.marked {
            DeployAction::MarkInitialized
        } else if self.done < plan.steps.len() {
            DeployAction::Run(self.done)
        } else {
            DeployAction::Finish
        }
    }

    /// The project was recorded as initialized.
    pub fn record_mark(&mut self)
        ensures
            final(self).done == old(self).done,
            final(self).marked,
    {
        self.marked = true;
    }

    /// The step at `self.done` gave `result`: the deploy goes on with the next step,
    /// or ends aborted at this one.
    pub fn record_step(&mut self, plan: &DeployPlan, result: &StepResult) -> (r: Option<DeployOutcome>)
        requires
            old(self).done < plan.steps@.len(),
        ensures
            match (r, step_outcome_of(plan.steps@[old(self).done as int].step, *result)) {
                (Some(DeployOutcome::Aborted { step: s, reason }), Some((t, why))) => s == t
                    && reason@ == why && *final(self) == *old(self),
                (None, None) => final(self).done == old(self).done + 1 && final(self).marked == old(
                    self,
                ).marked,
                _ => false,
            },
    {
        let len = plan.steps.len();
        let step = plan.steps[self.done].step;
        let r = step_outcome(step, result);
        if r.is_none() {
            assert(self.done < len);
            self.done = self.done + 1;
        }
        r
    }
}

/// The notice sent when a deploy of `project` ends: on success and on abort, not when
/// it was bypassed or skipped.
pub open spec fn notice_of(project: Seq<char>, outcome: DeployOutcome) -> Option<(int, Seq<char>, Seq<char>, Seq<char>)> {
    match outcome {
        DeployOutcome::Success => Some((1, project, Seq::empty(), Seq::empty())),
        DeployOutcome::Aborted { step, reason } => Some((2, project, step_name(step), reason@)),
        _ => None,
    }
}

/// The event as (kind, project, step, reason): 0 started, 1 succeeded, 2 failed.
pub open spec fn event_parts(e: NotifyEvent) -> (int, Seq<char>, Seq<char>, Seq<char>) {
    match e {
        NotifyEvent::Started { project, .. } => (0, project@, Seq::empty(), Seq::empty()),
        NotifyEvent::Success { project } => (1, project@, Seq::empty(), Seq::empty()),
        NotifyEvent::Failed { project, step, reason } => (2, project@, step@, reason@),
    }
}

/// Whether `p` is a point a deploy can reach: the project is recorded as initialized
/// only once the steps up to init succeeded, and always before any later step runs.
pub open spec fn progress_consistent(mark_after: Option<usize>, p: DeployProgress) -> bool {
    match mark_after {
        Some(m) => (p.done < m ==> !p.marked) && (p.done > m ==> p.marked),
        None => !p.marked,
    }
}

/// Every transition of a deploy keeps its progress consistent: it starts unmarked,
/// the mark is recorded when the steps before it succeeded, and a step runs only
/// after the mark due before it. So a deploy that fails before init leaves the
/// project uninitialized, and the next one plans init again.
pub proof fn lemma_progress_stays_consistent(
    bypassed: bool,
    mark_after: Option<usize>,
    len: nat,
    p: DeployProgress,
)
    requires
        progress_consistent(mark_after, p),
    ensures
        progress_consistent(mark_after, DeployProgress { done: 0, marked: false }),
        next_action_of(bypassed, mark_after, len, p) == DeployAction::MarkInitialized ==> progress_consistent(
            mark_after,
            DeployProgress { done: p.done, marked: true },
        ),
        next_action_of(bypassed, mark_after, len, p) == DeployAction::Run(p.done) && p.done < usize::MAX
            ==> progress_consistent(
            mark_after,
            DeployProgress { done: (p.done + 1) as usize, marked: p.marked },
        ),
{
}

/// A project set to `bypass` runs no command, whatever stands in its commands: the
/// deploy's only action ends it as bypassed.
pub proof fn lemma_bypass_runs_nothing(plan_steps: nat, mark_after: Option<usize>, p: DeployProgress)
    ensures
        next_action_of(true, mark_after, plan_steps, p) == DeployAction::Bypass,
{
}

/// The notice sent when a deploy of `project` starts for `event`: with the summary of
/// its commits, unless a commit id cannot be cut to its short form.
pub fn started_notice(project: &str, event: &PushEvent) -> (r: NotifyEvent)
    ensures
        match r {
            NotifyEvent::Started { project: p, summary } => p@ == project@ && match summary {
                Some(s) => (forall|k: int|
                    0 <= k < event.commits@.len() ==> id_shortenable(
                        #[trigger] event.commits@[k].id@,
                    )) && s@ == commit_summary_of(*event),
                None => !(forall|k: int|
                    0 <= k < event.commits@.len() ==> id_shortenable(
                        #[trigger] event.commits@[k].id@,
                    )),
            },
            _ => false,
        },
{
    let summary = if event.ids_shortenable() {
        Some(event.render_commit_summary())
    } else {
        None
    };
    NotifyEvent::Started { project: owned(project), summary }
}

/// The notice for the end of a deploy of `project`, if one is sent.
pub fn outcome_notice(project: &str, outcome: &DeployOutcome) -> (r: Option<NotifyEvent>)
    ensures
        match (r, notice_of(project@, *outcome)) {
            (Some(e), Some(n)) => event_parts(e) == n,
            (None, None) => true,
            _ => false,
        },
{
    match outcome {
        DeployOutcome::Success => Some(NotifyEvent::Success { project: owned(project) }),
        DeployOutcome::Aborted { step, reason } => Some(
            NotifyEvent::Failed {
                project: owned(project),
                step: owned(step.name()),
                reason: owned(reason.as_str()),
            },
        ),
        _ => None,
    }
}

/// How many steps come before init: `stop` when it is set and `restart` is not, and
/// `pull` when it is set.
pub open spec fn count_before_init(c: Commands) -> int {
    (if c.restart is None && c.stop is Some {
        1int
    } else {
        0int
    }) + (if c.pull is Some {
        1int
    } else {
        0int
    })
}

/// On a first deploy, init runs when it is set, whether or not `restart` is set: the
/// plan holds `(Init, init)` right after `stop` and `pull`, and the project counts as
/// initialized once that step succeeded. When init is unset, no init step is planned
/// and the project counts as initialized after `stop` and `pull`.
pub proof fn lemma_first_deploy_runs_init(c: Commands)
    ensures
        c.init is Some ==> planned_steps(c, true).len() > count_before_init(c) && planned_steps(
            c,
            true,
        )[count_before_init(c)] == (DeployStep::Init, c.init->0@) && initialized_after(c, true)
            == Some((count_before_init(c) + 1) as usize),
        c.init is None ==> initialized_after(c, true) == Some(count_before_init(c) as usize)
            && forall|i: int|
            0 <= i < planned_steps(c, true).len() ==> (#[trigger] planned_steps(c, true)[i]).0
                != DeployStep::Init,
{
    let a = steps_before_init(c);
    assert(a.len() == count_before_init(c));
    let b = step_if(DeployStep::Init, opt_view(c.init));
    let u = step_if(DeployStep::Update, opt_view(c.update));
    let e = if c.restart is Some {
        step_if(DeployStep::Restart, opt_view(c.restart))
    } else {
        step_if(DeployStep::Start, opt_view(c.start))
    };
    let p = planned_steps(c, true);
    assert(p =~= a + b + u + e);
    if c.init is Some {
        assert(p[a.len() as int] == b[0]);
    } else {
        let s = if c.restart is Some {
            Seq::empty()
        } else {
            step_if(DeployStep::Stop, opt_view(c.stop))
        };
        let q = step_if(DeployStep::Pull, opt_view(c.pull));
        assert(a =~= s + q);
        assert forall|i: int| 0 <= i < p.len() implies (#[trigger] p[i]).0 != DeployStep::Init by {
            if i < s.len() {
                assert(p[i] == s[i]);
            } else if i < a.len() {
                assert(p[i] == q[i - s.len()]);
            } else if i < a.len() + u.len() {
                assert(p[i] == u[i - a.len()]);
            } else {
                assert(p[i] == e[i - a.len() - u.len()]);
            }
        }
    }
}

/// When `restart` is set it replaces `stop` and `start`: neither is planned.
pub proof fn lemma_restart_replaces_stop_start(c: Commands, first_deploy: bool)
    requires
        c.restart is Some,
    ensures
        forall|i: int|
            0 <= i < planned_steps(c, first_deploy).len() ==> (#[trigger] planned_steps(
                c,
                first_deploy,
            )[i]).0 != DeployStep::Stop && planned_steps(c, first_deploy)[i].0 != DeployStep::Start,
{
    let p = planned_steps(c, first_deploy);
    assert forall|i: int| 0 <= i < p.len() implies (#[trigger] p[i]).0 != DeployStep::Stop
        && p[i].0 != DeployStep::Start by {
        let a = step_if(DeployStep::Pull, opt_view(c.pull));
        let b = if first_deploy {
            step_if(DeployStep::Init, opt_view(c.init))
        } else {
            Seq::empty()
        };
        let u = step_if(DeployStep::Update, opt_view(c.update));
        let e = step_if(DeployStep::Restart, opt_view(c.restart));
        assert(p =~= a + b + u + e);
        if i < a.len() {
            assert(p[i] == a[i]);
        } else if i < a.len() + b.len() {
            assert(p[i] == b[i - a.len()]);
        } else if i < a.len() + b.len() + u.len() {
            assert(p[i] == u[i - a.len() - b.len()]);
        } else {
            assert(p[i] == e[i - a.len() - b.len() - u.len()]);
        }
    }
}

/// The init step is planned on a project's first deploy only.
pub proof fn lemma_init_only_on_first_deploy(c: Commands)
    ensures
        forall|i: int|
            0 <= i < planned_steps(c, false).len() ==> (#[trigger] planned_steps(c, false)[i]).0
                != DeployStep::Init,
{
    let p = planned_steps(c, false);
    assert forall|i: int| 0 <= i < p.len() implies (#[trigger] p[i]).0 != DeployStep::Init by {
        let a = steps_before_init(c);
        let u = step_if(DeployStep::Update, opt_view(c.update));
        let e = if c.restart is Some {
            step_if(DeployStep::Restart, opt_view(c.restart))
        } else {
            step_if(DeployStep::Start, opt_view(c.start))
        };
        assert(p =~= a + u + e);
        let s = if c.restart is Some {
            Seq::empty()
        } else {
            step_if(DeployStep::Stop, opt_view(c.stop))
        };
        let q = step_if(DeployStep::Pull, opt_view(c.pull));
        assert(a =~= s + q);
        if i < s.len() {
            assert(p[i] == s[i]);
        } else if i < a.len() {
            assert(p[i] == q[i - s.len()]);
        } else if i < a.len() + u.len() {
            assert(p[i] == u[i - a.len()]);
        } else {
            assert(p[i] == e[i - a.len() - u.len()]);
        }
    }
}

} // verus!
