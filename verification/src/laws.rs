//! What holds of whole iterations of the agent.
//!
//! An iteration is the machine of the agent module driven by a model of its
//! surroundings: a control plane that grants access or does not and names a
//! desired state, and a runtime that knows which instances run and which
//! launches it refuses. The model answers each action of the machine and
//! notes the fetches, the launches and the reports. The laws below are stated
//! of these traces.

use vstd::prelude::*;
use crate::agent::{ActionView, AgentView, Event, Phase, ReportView, Signal, StepView};
use crate::config::ConfigView;
use crate::engine::{outcome_of, Fault, Outcome};
use crate::control_plane::{is_success, Reply};
use crate::model::{desired, CatalogState, Credential, TaskView};
use crate::runtime::LaunchResult;

verus! {

/// The surroundings of the agent during one iteration.
pub ghost struct Site {
    /// The access token that the control plane grants, if it grants one.
    pub access: Option<Seq<char>>,
    /// The tasks of the desired state that the control plane hands out.
    pub desired: Seq<TaskView>,
    /// The names of the instances that run.
    pub running: Set<Seq<char>>,
    /// The names under which the runtime starts nothing.
    pub refused: Set<Seq<char>>,
}

/// One launch that the agent asked for: the instance's name and its image.
pub ghost struct Launch {
    pub name: Seq<char>,
    pub image: Seq<char>,
}

/// What happened while the agent was driven.
pub ghost struct Trace {
    /// How often the desired state was fetched.
    pub fetches: nat,
    /// The launches that the agent asked for, in their order.
    pub launches: Seq<Launch>,
    /// The reports that the agent made, in their order.
    pub reports: Seq<ReportView>,
    /// The surroundings afterwards.
    pub site: Site,
    /// The agent afterwards.
    pub agent: AgentView,
}

impl Site {
    /// The runtime's answer to a query for `name`: the name itself where an
    /// instance of that name runs, else nothing.
    pub open spec fn listing(self, name: Seq<char>) -> Signal {
        Signal::Listing(
            Some(
                if self.running.contains(name) {
                    seq![name]
                } else {
                    Seq::empty()
                },
            ),
        )
    }

    /// The runtime's answer to a launch of `name`: it fails where the name is
    /// refused; else the instance runs from then on.
    pub open spec fn launch(self, name: Seq<char>) -> (Site, LaunchResult) {
        if self.refused.contains(name) {
            (self, LaunchResult::Exited { success: false })
        } else {
            (
                Site { running: self.running.insert(name), ..self },
                LaunchResult::Exited { success: true },
            )
        }
    }
}

impl Trace {
    /// The trace in which nothing happened.
    pub open spec fn ended(agent: AgentView, site: Site) -> Trace {
        Trace { fetches: 0, launches: Seq::empty(), reports: Seq::empty(), site, agent }
    }

    /// The trace with one more step in front of it.
    pub open spec fn preceded(
        self,
        fetches: nat,
        launch: Option<Launch>,
        report: Option<ReportView>,
    ) -> Trace {
        Trace {
            fetches: self.fetches + fetches,
            launches: match launch {
                Some(launch) => seq![launch] + self.launches,
                None => self.launches,
            },
            reports: match report {
                Some(report) => seq![report] + self.reports,
                None => self.reports,
            },
            ..self
        }
    }
}

/// A bound on the steps that the agent still takes before it sleeps.
pub open spec fn effort(agent: AgentView, pending: ActionView, site: Site) -> nat {
    let left: nat = if agent.cursor < agent.tasks.len() {
        (agent.tasks.len() - agent.cursor) as nat
    } else {
        0
    };
    match pending {
        ActionView::Authenticate => 2 * site.desired.len() + 2,
        ActionView::FetchCatalogs { .. } => 2 * site.desired.len() + 1,
        ActionView::QueryRunning { .. } => 2 * left,
        ActionView::Launch { .. } => if left > 0 {
            (2 * left - 1) as nat
        } else {
            0
        },
        ActionView::Sleep { .. } => 0,
    }
}

/// Drives the agent from a state and the action it asked for until it asks
/// to sleep: each action is answered as the surroundings would.
pub open spec fn drive(agent: AgentView, pending: ActionView, site: Site) -> Trace
    decreases effort(agent, pending, site),
{
    match pending {
        ActionView::Sleep { .. } => Trace::ended(agent, site),
        ActionView::Authenticate => match agent.next(Signal::Access(site.access)) {
            Some((after, step)) => drive(after, step.action, site).preceded(0, None, step.report),
            None => Trace::ended(agent, site),
        },
        ActionView::FetchCatalogs { .. } => match agent.next(Signal::Desired(site.desired)) {
            Some((after, step)) => drive(after, step.action, site).preceded(1, None, step.report),
            None => Trace::ended(agent, site).preceded(1, None, None),
        },
        ActionView::QueryRunning { name } => match agent.next(site.listing(name)) {
            Some((after, step)) => drive(after, step.action, site).preceded(0, None, step.report),
            None => Trace::ended(agent, site),
        },
        ActionView::Launch { name, image } => {
            let (site_after, result) = site.launch(name);
            let launch = Some(Launch { name, image });
            match agent.next(Signal::Launched(result)) {
                Some((after, step)) => drive(after, step.action, site_after).preceded(
                    0,
                    launch,
                    step.report,
                ),
                None => Trace::ended(agent, site_after).preceded(0, launch, None),
            }
        },
    }
}

/// One iteration of an agent with this configuration, from the
/// authentication to the sleep.
pub open spec fn iteration(config: ConfigView, site: Site) -> Trace {
    drive(AgentView::initial(config), ActionView::Authenticate, site)
}

/// The agent asleep between two iterations.
pub open spec fn asleep(config: ConfigView) -> AgentView {
    AgentView { config, phase: Phase::Sleeping, tasks: Seq::empty(), cursor: 0 }
}

/// The agent about to settle the task at `at`, asleep where none is left, and
/// the action that it asked for.
pub open spec fn poised(config: ConfigView, tasks: Seq<TaskView>, at: nat) -> (
    AgentView,
    ActionView,
) {
    let fetching = AgentView { config, phase: Phase::FetchingDesiredState, tasks, cursor: 0 };
    let (agent, step) = fetching.turn_to(at, None);
    (agent, step.action)
}

/// What happens from the task at `at` on, until the agent sleeps.
pub open spec fn settling(config: ConfigView, tasks: Seq<TaskView>, at: nat, site: Site) -> Trace {
    let (agent, pending) = poised(config, tasks, at);
    drive(agent, pending, site)
}

/// The launch that a task with an image asks for.
pub open spec fn launch_of(task: TaskView) -> Launch {
    Launch { name: task.name, image: task.image.unwrap() }
}

/// Settling from one task on is settling that task and then the rest.
proof fn lemma_settling_step(config: ConfigView, tasks: Seq<TaskView>, at: nat, site: Site)
    requires
        at < tasks.len(),
    ensures
        ({
            let task = tasks[at as int];
            let now = settling(config, tasks, at, site);
            if site.running.contains(task.name) {
                now == settling(config, tasks, at + 1, site).preceded(
                    0,
                    None,
                    Some(ReportView { name: task.name, outcome: Outcome::Skipped }),
                )
            } else if task.image is None {
                now == settling(config, tasks, at + 1, site).preceded(
                    0,
                    None,
                    Some(
                        ReportView {
                            name: task.name,
                            outcome: Outcome::Failed(Fault::MissingImage),
                        },
                    ),
                )
            } else {
                let (site_after, result) = site.launch(task.name);
                now == settling(config, tasks, at + 1, site_after).preceded(
                    0,
                    Some(launch_of(task)),
                    Some(ReportView { name: task.name, outcome: outcome_of(result) }),
                )
            }
        }),
{
    let task = tasks[at as int];
    let (agent, pending) = poised(config, tasks, at);
    let (then, after) = poised(config, tasks, at + 1);
    assert(pending == ActionView::QueryRunning { name: task.name });
    if site.running.contains(task.name) {
        assert(seq![task.name][0] == task.name);
        assert(seq![task.name].contains(task.name));
    }
    let (inspected, first) = agent.next(site.listing(task.name)).unwrap();
    if !site.running.contains(task.name) && task.image is Some {
        let (site_after, result) = site.launch(task.name);
        assert(first.action == ActionView::Launch {
            name: task.name,
            image: task.image.unwrap(),
        });
        let (settled, second) = inspected.next(Signal::Launched(result)).unwrap();
        assert(settled == then);
        assert(second.action == after);
        let rest = drive(then, after, site_after);
        let launched = rest.preceded(0, Some(launch_of(task)), second.report);
        assert(drive(inspected, first.action, site) == launched);
        assert(launched.preceded(0, None, None) == launched);
    } else {
        assert(inspected == then);
        assert(first.action == after);
    }
}

/// The shape of what settling leaves: one report for each task, in the
/// order of the tasks; launches of desired components only; nothing fetched;
/// the agent asleep with nothing kept; the control plane as it was, and no
/// instance stopped.
proof fn lemma_settling_shape(config: ConfigView, tasks: Seq<TaskView>, at: nat, site: Site)
    requires
        at <= tasks.len(),
    ensures
        ({
            let trace = settling(config, tasks, at, site);
            &&& trace.fetches == 0
            &&& trace.reports.len() == tasks.len() - at
            &&& forall|k: int|
                0 <= k < trace.reports.len() ==> (#[trigger] trace.reports[k]).name == tasks[at
                    + k].name
            &&& forall|k: int|
                0 <= k < trace.launches.len() ==> exists|j: int|
                    at <= j < tasks.len() && tasks[j].image is Some && launch_of(tasks[j])
                        == #[trigger] trace.launches[k]
            &&& trace.launches.len() <= tasks.len() - at
            &&& trace.agent == asleep(config)
            &&& trace.site.access == site.access
            &&& trace.site.desired == site.desired
            &&& trace.site.refused == site.refused
            &&& site.running.subset_of(trace.site.running)
        }),
    decreases tasks.len() - at,
{
    if at < tasks.len() {
        let task = tasks[at as int];
        let trace = settling(config, tasks, at, site);
        lemma_settling_step(config, tasks, at, site);
        let site_after = if site.running.contains(task.name) || task.image is None {
            site
        } else {
            site.launch(task.name).0
        };
        let rest = settling(config, tasks, at + 1, site_after);
        lemma_settling_shape(config, tasks, at + 1, site_after);
        assert forall|k: int| 0 <= k < trace.reports.len() implies (#[trigger] trace.reports[k]).name
            == tasks[at + k].name by {
            if k > 0 {
                assert(trace.reports[k] == rest.reports[k - 1]);
            }
        }
        assert forall|k: int| 0 <= k < trace.launches.len() implies exists|j: int|
            at <= j < tasks.len() && tasks[j].image is Some && launch_of(tasks[j])
                == #[trigger] trace.launches[k] by {
            if trace.launches.len() == rest.launches.len() {
                assert(trace.launches[k] == rest.launches[k]);
                let j = choose|j: int|
                    at + 1 <= j < tasks.len() && tasks[j].image is Some && launch_of(tasks[j])
                        == rest.launches[k];
                assert(at <= j < tasks.len() && tasks[j].image is Some && launch_of(tasks[j])
                    == trace.launches[k]);
            } else if k == 0 {
                assert(launch_of(tasks[at as int]) == trace.launches[0]);
            } else {
                assert(trace.launches[k] == rest.launches[k - 1]);
                let j = choose|j: int|
                    at + 1 <= j < tasks.len() && tasks[j].image is Some && launch_of(tasks[j])
                        == rest.launches[k - 1];
                assert(at <= j < tasks.len() && tasks[j].image is Some && launch_of(tasks[j])
                    == trace.launches[k]);
            }
        }
    }
}

/// No launch is asked for under a name that runs.
proof fn lemma_running_not_launched(
    config: ConfigView,
    tasks: Seq<TaskView>,
    at: nat,
    site: Site,
    name: Seq<char>,
)
    requires
        at <= tasks.len(),
        site.running.contains(name),
    ensures
        forall|k: int|
            0 <= k < settling(config, tasks, at, site).launches.len() ==> (#[trigger] settling(
                config,
                tasks,
                at,
                site,
            ).launches[k]).name != name,
    decreases tasks.len() - at,
{
    if at < tasks.len() {
        let task = tasks[at as int];
        let trace = settling(config, tasks, at, site);
        lemma_settling_step(config, tasks, at, site);
        let site_after = if site.running.contains(task.name) || task.image is None {
            site
        } else {
            site.launch(task.name).0
        };
        let rest = settling(config, tasks, at + 1, site_after);
        lemma_running_not_launched(config, tasks, at + 1, site_after, name);
        assert forall|k: int| 0 <= k < trace.launches.len() implies (#[trigger] trace.launches[k]).name
            != name by {
            if trace.launches.len() == rest.launches.len() {
                assert(trace.launches[k] == rest.launches[k]);
            } else if k > 0 {
                assert(trace.launches[k] == rest.launches[k - 1]);
            }
        }
    }
}

/// Where no task runs, each has an image and no two share a name, every task
/// is launched, in the order of the tasks.
proof fn lemma_absent_all_launched(config: ConfigView, tasks: Seq<TaskView>, at: nat, site: Site)
    requires
        at <= tasks.len(),
        forall|i: int, j: int| at <= i < j < tasks.len() ==> tasks[i].name != tasks[j].name,
        forall|i: int|
            at <= i < tasks.len() ==> !site.running.contains((#[trigger] tasks[i]).name)
                && tasks[i].image is Some,
    ensures
        settling(config, tasks, at, site).launches.len() == tasks.len() - at,
        forall|k: int|
            0 <= k < tasks.len() - at ==> #[trigger] settling(config, tasks, at, site).launches[k]
                == launch_of(tasks[at + k]),
    decreases tasks.len() - at,
{
    if at < tasks.len() {
        let task = tasks[at as int];
        let trace = settling(config, tasks, at, site);
        lemma_settling_step(config, tasks, at, site);
        let site_after = site.launch(task.name).0;
        let rest = settling(config, tasks, at + 1, site_after);
        assert forall|i: int| at + 1 <= i < tasks.len() implies !site_after.running.contains(
            (#[trigger] tasks[i]).name,
        ) && tasks[i].image is Some by {
            assert(tasks[at as int].name != tasks[i].name);
        }
        lemma_absent_all_launched(config, tasks, at + 1, site_after);
        assert forall|k: int| 0 <= k < tasks.len() - at implies #[trigger] trace.launches[k]
            == launch_of(tasks[at + k]) by {
            if k > 0 {
                assert(trace.launches[k] == rest.launches[k - 1]);
            }
        }
    } else {
        lemma_settling_shape(config, tasks, at, site);
    }
}

/// Where each task has an image and none is refused, every task runs in the end.
proof fn lemma_accepted_all_running(config: ConfigView, tasks: Seq<TaskView>, at: nat, site: Site)
    requires
        at <= tasks.len(),
        forall|i: int|
            at <= i < tasks.len() ==> !site.refused.contains((#[trigger] tasks[i]).name)
                && tasks[i].image is Some,
    ensures
        forall|i: int|
            at <= i < tasks.len() ==> settling(config, tasks, at, site).site.running.contains(
                (#[trigger] tasks[i]).name,
            ),
    decreases tasks.len() - at,
{
    if at < tasks.len() {
        let task = tasks[at as int];
        let trace = settling(config, tasks, at, site);
        lemma_settling_step(config, tasks, at, site);
        let site_after = if site.running.contains(task.name) {
            site
        } else {
            site.launch(task.name).0
        };
        assert(site_after.running.contains(task.name));
        lemma_accepted_all_running(config, tasks, at + 1, site_after);
        lemma_settling_shape(config, tasks, at + 1, site_after);
        assert(trace.site == settling(config, tasks, at + 1, site_after).site);
    }
}

/// A task without an image that does not run, and whose name no earlier task
/// has, is reported as failed for want of an image.
proof fn lemma_missing_image_fails(
    config: ConfigView,
    tasks: Seq<TaskView>,
    at: nat,
    site: Site,
    i: int,
)
    requires
        at <= i < tasks.len(),
        tasks[i].image is None,
        !site.running.contains(tasks[i].name),
        forall|j: int| at <= j < i ==> (#[trigger] tasks[j]).name != tasks[i].name,
    ensures
        settling(config, tasks, at, site).reports.len() == tasks.len() - at,
        settling(config, tasks, at, site).reports[i - at] == (ReportView {
            name: tasks[i].name,
            outcome: Outcome::Failed(Fault::MissingImage),
        }),
    decreases i - at,
{
    lemma_settling_shape(config, tasks, at, site);
    lemma_settling_step(config, tasks, at, site);
    if at < i {
        let task = tasks[at as int];
        let trace = settling(config, tasks, at, site);
        let site_after = if site.running.contains(task.name) || task.image is None {
            site
        } else {
            site.launch(task.name).0
        };
        assert(tasks[at as int].name != tasks[i].name);
        lemma_missing_image_fails(config, tasks, at + 1, site_after, i);
        let rest = settling(config, tasks, at + 1, site_after);
        assert(trace.reports[i - at] == rest.reports[i - at - 1]);
    }
}

/// An iteration whose authentication is granted fetches once and then
/// settles the tasks of the desired state from the first on.
proof fn lemma_granted_iteration(config: ConfigView, site: Site)
    requires
        site.access is Some,
    ensures
        iteration(config, site) == settling(config, site.desired, 0, site).preceded(1, None, None),
{
    let start = AgentView::initial(config);
    let (fetching, first) = start.next(Signal::Access(site.access)).unwrap();
    let (agent, second) = fetching.next(Signal::Desired(site.desired)).unwrap();
    let (poised_agent, pending) = poised(config, site.desired, 0);
    assert(agent == poised_agent);
    assert(second.action == pending);
    let settled = drive(agent, second.action, site);
    assert(drive(fetching, first.action, site) == settled.preceded(1, None, None));
    assert(settled.preceded(1, None, None).preceded(0, None, None) == settled.preceded(
        1,
        None,
        None,
    ));
}

/// Settling from the task at `at` on depends on the tasks from there only.
proof fn lemma_settling_suffix(config: ConfigView, tasks: Seq<TaskView>, at: nat, site: Site)
    requires
        at <= tasks.len(),
    ensures
        settling(config, tasks, at, site) == settling(config, tasks.skip(at as int), 0, site),
    decreases tasks.len() - at,
{
    let suffix = tasks.skip(at as int);
    if at < tasks.len() {
        let task = tasks[at as int];
        assert(suffix[0] == task);
        lemma_settling_step(config, tasks, at, site);
        lemma_settling_step(config, suffix, 0, site);
        let site_after = if site.running.contains(task.name) || task.image is None {
            site
        } else {
            site.launch(task.name).0
        };
        lemma_settling_suffix(config, tasks, at + 1, site_after);
        if suffix.len() > 1 {
            lemma_settling_suffix(config, suffix, 1, site_after);
        }
        assert(suffix.skip(1) =~= tasks.skip(at as int + 1));
        if suffix.len() == 1 {
            assert(poised(config, suffix, 1) == poised(config, suffix.skip(1), 0));
        }
    } else {
        assert(poised(config, tasks, at) == poised(config, suffix, 0));
    }
}

/// What is launched, what is reported and what runs in the end do not depend
/// on what the control plane would hand out next.
proof fn lemma_settling_ignores_control_plane(
    config: ConfigView,
    tasks: Seq<TaskView>,
    at: nat,
    site: Site,
    other: Site,
)
    requires
        at <= tasks.len(),
        other.running == site.running,
        other.refused == site.refused,
    ensures
        settling(config, tasks, at, other).launches == settling(config, tasks, at, site).launches,
        settling(config, tasks, at, other).reports == settling(config, tasks, at, site).reports,
        settling(config, tasks, at, other).site.running == settling(
            config,
            tasks,
            at,
            site,
        ).site.running,
    decreases tasks.len() - at,
{
    if at < tasks.len() {
        let task = tasks[at as int];
        lemma_settling_step(config, tasks, at, site);
        lemma_settling_step(config, tasks, at, other);
        if site.running.contains(task.name) || task.image is None {
            lemma_settling_ignores_control_plane(config, tasks, at + 1, site, other);
        } else {
            lemma_settling_ignores_control_plane(
                config,
                tasks,
                at + 1,
                site.launch(task.name).0,
                other.launch(task.name).0,
            );
        }
    }
}

/// Taking a task without an image out of the list changes nothing but its
/// own report.
proof fn lemma_missing_image_is_inert(
    config: ConfigView,
    tasks: Seq<TaskView>,
    at: nat,
    site: Site,
    i: int,
)
    requires
        at <= i < tasks.len(),
        tasks[i].image is None,
    ensures
        settling(config, tasks.remove(i), at, site).launches == settling(
            config,
            tasks,
            at,
            site,
        ).launches,
        settling(config, tasks.remove(i), at, site).site == settling(config, tasks, at, site).site,
        settling(config, tasks.remove(i), at, site).reports == settling(
            config,
            tasks,
            at,
            site,
        ).reports.remove(i - at),
    decreases i - at,
{
    let fewer = tasks.remove(i);
    let with = settling(config, tasks, at, site);
    let without = settling(config, fewer, at, site);
    lemma_settling_step(config, tasks, at, site);
    lemma_settling_shape(config, tasks, at, site);
    if at == i {
        let rest = settling(config, tasks, at + 1, site);
        lemma_settling_suffix(config, tasks, at + 1, site);
        lemma_settling_suffix(config, fewer, at, site);
        assert(fewer.skip(at as int) =~= tasks.skip(at as int + 1));
        assert(without == rest);
        assert(with.reports.remove(0) =~= rest.reports);
    } else {
        let task = tasks[at as int];
        assert(fewer[at as int] == task);
        lemma_settling_step(config, fewer, at, site);
        let site_after = if site.running.contains(task.name) || task.image is None {
            site
        } else {
            site.launch(task.name).0
        };
        lemma_missing_image_is_inert(config, tasks, at + 1, site_after, i);
        lemma_settling_shape(config, tasks, at + 1, site_after);
        let rest = settling(config, tasks, at + 1, site_after);
        assert(with.reports.remove(i - at) =~= seq![with.reports[0]] + rest.reports.remove(
            i - at - 1,
        ));
    }
}

/// An iteration whose authentication is not granted ends at once.
proof fn lemma_refused_iteration(config: ConfigView, site: Site)
    requires
        site.access is None,
    ensures
        iteration(config, site) == Trace::ended(asleep(config), site),
{
    let start = AgentView::initial(config);
    let (after, step) = start.next(Signal::Access(site.access)).unwrap();
    assert(after == asleep(config));
    assert(drive(after, step.action, site) == Trace::ended(after, site));
    assert(Trace::ended(after, site).preceded(0, None, None) == Trace::ended(after, site));
}

/// Every iteration ends with the agent asleep and nothing kept but the
/// configuration, and the sleep is followed by a new authentication. The
/// control plane is as it was, and no instance was stopped.
pub proof fn law_iteration_ends_asleep(config: ConfigView, site: Site)
    ensures
        iteration(config, site).agent == asleep(config),
        asleep(config).next(Signal::Woke) == Some(
            (
                AgentView::initial(config),
                StepView { report: None, action: ActionView::Authenticate },
            ),
        ),
        iteration(config, site).site.access == site.access,
        iteration(config, site).site.desired == site.desired,
        iteration(config, site).site.refused == site.refused,
        site.running.subset_of(iteration(config, site).site.running),
{
    if site.access is Some {
        lemma_granted_iteration(config, site);
        lemma_settling_shape(config, site.desired, 0, site);
    } else {
        lemma_refused_iteration(config, site);
    }
}

/// A step leads from a well-formed agent to a well-formed agent.
pub proof fn law_step_keeps_well_formed(agent: AgentView, signal: Signal)
    requires
        agent.well_formed(),
    ensures
        agent.next(signal) matches Some((after, _)) ==> after.well_formed(),
{
}

/// Idempotence: a component that the runtime reports as running after one
/// iteration is not launched again in the next iteration over the same
/// desired state.
pub proof fn law_idempotence(config: ConfigView, site: Site, i: int)
    requires
        0 <= i < site.desired.len(),
        iteration(config, site).site.running.contains(site.desired[i].name),
    ensures
        ({
            let first = iteration(config, site);
            let second = iteration(config, first.site);
            &&& first.site.desired == site.desired
            &&& forall|k: int|
                0 <= k < second.launches.len() ==> (#[trigger] second.launches[k]).name
                    != site.desired[i].name
        }),
{
    let first = iteration(config, site);
    law_iteration_ends_asleep(config, site);
    if first.site.access is Some {
        lemma_granted_iteration(config, first.site);
        lemma_running_not_launched(
            config,
            first.site.desired,
            0,
            first.site,
            site.desired[i].name,
        );
    } else {
        lemma_refused_iteration(config, first.site);
    }
}

/// Convergence: where access is granted, none of the desired components
/// runs, each names an image and no two share a name, one iteration asks for
/// one launch for each component, in their order. Where the runtime refuses
/// none of them, the next iteration asks for no launch.
pub proof fn law_convergence(config: ConfigView, site: Site)
    requires
        site.access is Some,
        forall|i: int, j: int|
            0 <= i < j < site.desired.len() ==> site.desired[i].name != site.desired[j].name,
        forall|i: int|
            0 <= i < site.desired.len() ==> !site.running.contains(
                (#[trigger] site.desired[i]).name,
            ) && site.desired[i].image is Some,
    ensures
        ({
            let first = iteration(config, site);
            let second = iteration(config, first.site);
            &&& first.fetches == 1
            &&& first.launches.len() == site.desired.len()
            &&& forall|k: int|
                0 <= k < site.desired.len() ==> #[trigger] first.launches[k] == launch_of(
                    site.desired[k],
                )
            &&& (forall|i: int|
                0 <= i < site.desired.len() ==> !site.refused.contains(
                    (#[trigger] site.desired[i]).name,
                )) ==> second.launches.len() == 0
        }),
{
    let tasks = site.desired;
    let first = iteration(config, site);
    let second = iteration(config, first.site);
    lemma_granted_iteration(config, site);
    lemma_settling_shape(config, tasks, 0, site);
    lemma_absent_all_launched(config, tasks, 0, site);
    if forall|i: int| 0 <= i < tasks.len() ==> !site.refused.contains((#[trigger] tasks[i]).name) {
        lemma_accepted_all_running(config, tasks, 0, site);
        lemma_granted_iteration(config, first.site);
        lemma_settling_shape(config, tasks, 0, first.site);
        if second.launches.len() > 0 {
            let launch = second.launches[0];
            let j = choose|j: int|
                0 <= j < tasks.len() && tasks[j].image is Some && launch_of(tasks[j]) == launch;
            assert(first.site.running.contains(tasks[j].name));
            lemma_running_not_launched(config, tasks, 0, first.site, tasks[j].name);
            assert(second.launches[0].name != tasks[j].name);
        }
    }
}

/// Auth-failure isolation: a reply to the authentication that failed, that
/// has a status outside 200 to 299, whose body is malformed or whose access
/// token is empty grants nothing; and the iteration that gets it fetches
/// nothing, launches nothing and reports nothing, leaves the surroundings as
/// they were and ends asleep, to authenticate again.
pub proof fn law_auth_failure_isolation(
    config: ConfigView,
    site: Site,
    reply: Reply<Credential>,
)
    requires
        Event::AuthReplied(reply)@ == Signal::Access(site.access),
        match reply {
            Reply::Failed => true,
            Reply::Answered { status, body } => !is_success(status) || match body {
                None => true,
                Some(credential) => credential.access_token@.len() == 0,
            },
        },
    ensures
        site.access is None,
        iteration(config, site).fetches == 0,
        iteration(config, site).launches.len() == 0,
        iteration(config, site).reports.len() == 0,
        iteration(config, site).site == site,
        iteration(config, site).agent == asleep(config),
        asleep(config).next(Signal::Woke) == Some(
            (
                AgentView::initial(config),
                StepView { report: None, action: ActionView::Authenticate },
            ),
        ),
{
    lemma_refused_iteration(config, site);
}

/// Fetch-failure tolerance: a reply to the registry query that failed, that
/// has a status outside 200 to 299 or whose body is malformed tells the agent
/// what an empty list of catalogs tells it; and the iteration that gets it
/// launches nothing and reports nothing, leaves the surroundings as they were
/// and ends asleep, to authenticate again.
pub proof fn law_fetch_failure_is_empty(
    config: ConfigView,
    site: Site,
    reply: Reply<Vec<CatalogState>>,
    nothing: Vec<CatalogState>,
)
    requires
        site.access is Some,
        Event::CatalogsReplied(reply)@ == Signal::Desired(site.desired),
        nothing@.len() == 0,
        match reply {
            Reply::Failed => true,
            Reply::Answered { status, body } => !is_success(status) || body is None,
        },
    ensures
        Event::CatalogsReplied(reply)@ == Event::CatalogsReplied(
            Reply::Answered { status: 200, body: Some(nothing) },
        )@,
        site.desired.len() == 0,
        iteration(config, site).fetches == 1,
        iteration(config, site).launches.len() == 0,
        iteration(config, site).reports.len() == 0,
        iteration(config, site).site == site,
        iteration(config, site).agent == asleep(config),
        asleep(config).next(Signal::Woke) == Some(
            (
                AgentView::initial(config),
                StepView { report: None, action: ActionView::Authenticate },
            ),
        ),
{
    assert(desired(Seq::<CatalogState>::empty()) =~= Seq::<TaskView>::empty());
    assert(nothing@ =~= Seq::<CatalogState>::empty());
    assert(site.desired =~= Seq::<TaskView>::empty());
    lemma_granted_iteration(config, site);
}

/// Missing-image robustness: every desired component is reported once, in
/// the order of the desired state, whatever becomes of the others. A
/// component without an image that does not run, and whose name no earlier
/// component has, is reported as failed for want of an image; and with or
/// without it in the desired state, the same launches are asked for, the
/// same instances run in the end and the other components are reported alike.
pub proof fn law_missing_image(config: ConfigView, site: Site, i: int)
    requires
        site.access is Some,
        0 <= i < site.desired.len(),
        site.desired[i].image is None,
        !site.running.contains(site.desired[i].name),
        forall|j: int| 0 <= j < i ==> (#[trigger] site.desired[j]).name != site.desired[i].name,
    ensures
        ({
            let with = iteration(config, site);
            let without = iteration(
                config,
                Site { desired: site.desired.remove(i), ..site },
            );
            &&& with.reports.len() == site.desired.len()
            &&& forall|k: int|
                0 <= k < site.desired.len() ==> (#[trigger] with.reports[k]).name
                    == site.desired[k].name
            &&& with.reports[i].outcome == Outcome::Failed(Fault::MissingImage)
            &&& without.launches == with.launches
            &&& without.site.running == with.site.running
            &&& without.reports == with.reports.remove(i)
        }),
{
    let tasks = site.desired;
    let other = Site { desired: tasks.remove(i), ..site };
    lemma_granted_iteration(config, site);
    lemma_granted_iteration(config, other);
    lemma_settling_shape(config, tasks, 0, site);
    lemma_missing_image_fails(config, tasks, 0, site, i);
    lemma_missing_image_is_inert(config, tasks, 0, site, i);
    lemma_settling_ignores_control_plane(config, tasks.remove(i), 0, site, other);
}

} // verus!
