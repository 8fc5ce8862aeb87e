//! The agent's loop as a machine that is stepped from outside.
//!
//! The machine never waits and never calls out. Each step takes what came of
//! the last action and answers with the next one: authenticate, fetch the
//! desired state, ask the runtime about a component, start it, sleep. The
//! caller performs the action and comes back with the event. One iteration
//! runs from the authentication to the sleep; nothing but the configuration
//! is kept from one iteration to the next.

use vstd::prelude::*;
use crate::config::{Config, ConfigView};
use crate::control_plane::{authenticate, catalogs_of, fetch_catalogs, Reply};
use crate::engine::{launch_outcome, outcome_of, plan, settle, Decision, DecisionView, Fault, Outcome};
use crate::model::{desired, desired_tasks, task_views, CatalogState, Credential, Task, TaskView};
use crate::runtime::{is_running, lists, LaunchResult, Observation};

verus! {

/// Where the reconciliation of one component stands.
#[derive(Clone, Copy, PartialEq, Eq, Structural, Debug)]
pub enum Stage {
    /// The runtime is being asked whether the component runs.
    Inspecting,
    /// The component is being started.
    Launching,
}

/// The state of the loop.
#[derive(Clone, Copy, PartialEq, Eq, Structural, Debug)]
pub enum Phase {
    Authenticating,
    FetchingDesiredState,
    Reconciling(Stage),
    Sleeping,
}

/// What the agent asks its caller to do next.
#[derive(Debug)]
pub enum Action {
    /// Send the authentication request of the agent's configuration.
    Authenticate,
    /// Ask the registry for the catalogs, with `token` as bearer token.
    FetchCatalogs { token: String },
    /// Ask the runtime which instances run under `name`.
    QueryRunning { name: String },
    /// Start a detached instance named `name` from `image`.
    Launch { name: String, image: String },
    /// Wait for `seconds`, however long the iteration took.
    Sleep { seconds: u64 },
}

/// An action as plain values.
pub ghost enum ActionView {
    Authenticate,
    FetchCatalogs { token: Seq<char> },
    QueryRunning { name: Seq<char> },
    Launch { name: Seq<char>, image: Seq<char> },
    Sleep { seconds: u64 },
}

impl View for Action {
    type V = ActionView;

    open spec fn view(&self) -> ActionView {
        match self {
            Action::Authenticate => ActionView::Authenticate,
            Action::FetchCatalogs { token } => ActionView::FetchCatalogs { token: token@ },
            Action::QueryRunning { name } => ActionView::QueryRunning { name: name@ },
            Action::Launch { name, image } => ActionView::Launch { name: name@, image: image@ },
            Action::Sleep { seconds } => ActionView::Sleep { seconds: *seconds },
        }
    }
}

/// What came of the action that the agent asked for last.
#[derive(Debug)]
pub enum Event {
    /// The reply to the authentication request.
    AuthReplied(Reply<Credential>),
    /// The reply to the registry query.
    CatalogsReplied(Reply<Vec<CatalogState>>),
    /// What the runtime listed.
    Observed(Observation),
    /// How the launch ended.
    LaunchFinished(LaunchResult),
    /// The sleep is over.
    Woke,
}

/// What an event tells the agent, as plain values.
pub ghost enum Signal {
    /// The access token that was granted, if one was.
    Access(Option<Seq<char>>),
    /// The tasks of the desired state.
    Desired(Seq<TaskView>),
    /// The names that the runtime listed, if it could be asked.
    Listing(Option<Seq<Seq<char>>>),
    /// How the launch ended.
    Launched(LaunchResult),
    /// The sleep is over.
    Woke,
}

/// The access token that a reply to an authentication grants: that of its
/// credential, unless it holds none or the token is empty.
pub open spec fn granted_token(reply: Reply<Credential>) -> Option<Seq<char>> {
    match reply.content() {
        Some(credential) => if credential.access_token@.len() > 0 {
            Some(credential.access_token@)
        } else {
            None
        },
        None => None,
    }
}

impl View for Event {
    type V = Signal;

    open spec fn view(&self) -> Signal {
        match self {
            Event::AuthReplied(reply) => Signal::Access(granted_token(*reply)),
            Event::CatalogsReplied(reply) => Signal::Desired(desired(catalogs_of(*reply))),
            Event::Observed(observation) => Signal::Listing(observation@),
            Event::LaunchFinished(result) => Signal::Launched(*result),
            Event::Woke => Signal::Woke,
        }
    }
}

/// What became of one component, to be logged by the caller.
#[derive(Debug)]
pub struct Report {
    pub name: String,
    pub outcome: Outcome,
}

/// A report as plain values.
pub ghost struct ReportView {
    pub name: Seq<char>,
    pub outcome: Outcome,
}

impl View for Report {
    type V = ReportView;

    open spec fn view(&self) -> ReportView {
        ReportView { name: self.name@, outcome: self.outcome }
    }
}

/// The answer of one step: the component that was settled by it, if one was,
/// and the action to perform next.
#[derive(Debug)]
pub struct Step {
    pub report: Option<Report>,
    pub action: Action,
}

/// A step's answer as plain values.
pub ghost struct StepView {
    pub report: Option<ReportView>,
    pub action: ActionView,
}

impl View for Step {
    type V = StepView;

    open spec fn view(&self) -> StepView {
        StepView {
            report: match self.report {
                Some(report) => Some(report@),
                None => None,
            },
            action: self.action@,
        }
    }
}

/// Why a step was refused.
#[derive(Clone, Copy, PartialEq, Eq, Structural, Debug)]
pub enum StepError {
    /// The event answers no action that the agent is waiting for.
    UnexpectedEvent,
}

/// The agent: its configuration, the state of its loop, and within an
/// iteration the tasks of the desired state and the one being settled.
#[derive(Debug)]
pub struct Agent {
    config: Config,
    phase: Phase,
    tasks: Vec<Task>,
    cursor: usize,
}

/// The agent as plain values.
pub ghost struct AgentView {
    pub config: ConfigView,
    pub phase: Phase,
    pub tasks: Seq<TaskView>,
    pub cursor: nat,
}

impl View for Agent {
    type V = AgentView;

    closed spec fn view(&self) -> AgentView {
        AgentView {
            config: self.config@,
            phase: self.phase,
            tasks: task_views(self.tasks@),
            cursor: self.cursor as nat,
        }
    }
}

impl AgentView {
    /// The agent at the start of its first iteration.
    pub open spec fn initial(config: ConfigView) -> AgentView {
        AgentView { config, phase: Phase::Authenticating, tasks: Seq::empty(), cursor: 0 }
    }

    /// While it reconciles, the agent is at one of its tasks, and at one with
    /// an image while it starts it. Outside of that it holds no tasks.
    pub open spec fn well_formed(self) -> bool {
        match self.phase {
            Phase::Reconciling(stage) => {
                &&& self.cursor < self.tasks.len()
                &&& stage == Stage::Launching ==> self.tasks[self.cursor as int].image is Some
            },
            _ => self.tasks.len() == 0 && self.cursor == 0,
        }
    }

    /// The end of the iteration: the tasks are dropped and the agent sleeps
    /// for the configured interval.
    pub open spec fn rest(self, report: Option<ReportView>) -> (AgentView, StepView) {
        (
            AgentView { phase: Phase::Sleeping, tasks: Seq::empty(), cursor: 0, ..self },
            StepView {
                report,
                action: ActionView::Sleep { seconds: self.config.poll_interval_seconds },
            },
        )
    }

    /// Turning to the task at `at`: the runtime is asked about it; where
    /// there is no such task, the iteration ends.
    pub open spec fn turn_to(self, at: nat, report: Option<ReportView>) -> (AgentView, StepView) {
        if at < self.tasks.len() {
            (
                AgentView { phase: Phase::Reconciling(Stage::Inspecting), cursor: at, ..self },
                StepView {
                    report,
                    action: ActionView::QueryRunning { name: self.tasks[at as int].name },
                },
            )
        } else {
            self.rest(report)
        }
    }

    /// The report on the task that the agent is at.
    pub open spec fn settled(self, outcome: Outcome) -> Option<ReportView> {
        Some(ReportView { name: self.tasks[self.cursor as int].name, outcome })
    }

    /// The transition of the machine: the state and the answer that follow
    /// from a state and an event. None where the event answers no action
    /// that the agent is waiting for in that state.
    pub open spec fn next(self, signal: Signal) -> Option<(AgentView, StepView)> {
        match (self.phase, signal) {
            (Phase::Authenticating, Signal::Access(Some(token))) => Some(
                (
                    AgentView { phase: Phase::FetchingDesiredState, ..self },
                    StepView { report: None, action: ActionView::FetchCatalogs { token } },
                ),
            ),
            (Phase::Authenticating, Signal::Access(None)) => Some(self.rest(None)),
            (Phase::FetchingDesiredState, Signal::Desired(tasks)) => Some(
                AgentView { tasks, ..self }.turn_to(0, None),
            ),
            (Phase::Reconciling(Stage::Inspecting), Signal::Listing(listing)) => {
                if self.cursor < self.tasks.len() {
                    let task = self.tasks[self.cursor as int];
                    match settle(task, lists(listing, task.name)) {
                        DecisionView::Skip => Some(
                            self.turn_to(self.cursor + 1, self.settled(Outcome::Skipped)),
                        ),
                        DecisionView::Reject => Some(
                            self.turn_to(
                                self.cursor + 1,
                                self.settled(Outcome::Failed(Fault::MissingImage)),
                            ),
                        ),
                        DecisionView::Launch { name, image } => Some(
                            (
                                AgentView { phase: Phase::Reconciling(Stage::Launching), ..self },
                                StepView {
                                    report: None,
                                    action: ActionView::Launch { name, image },
                                },
                            ),
                        ),
                    }
                } else {
                    None
                }
            },
            (Phase::Reconciling(Stage::Launching), Signal::Launched(result)) => {
                if self.cursor < self.tasks.len() {
                    Some(self.turn_to(self.cursor + 1, self.settled(outcome_of(result))))
                } else {
                    None
                }
            },
            (Phase::Sleeping, Signal::Woke) => Some(
                (
                    AgentView { phase: Phase::Authenticating, ..self },
                    StepView { report: None, action: ActionView::Authenticate },
                ),
            ),
            _ => None,
        }
    }
}

impl Agent {
    /// A new agent and its first action, the authentication.
    pub fn start(config: Config) -> (r: (Agent, Action))
        ensures
            r.0@ == AgentView::initial(config@),
            r.0@.well_formed(),
            r.1@ == ActionView::Authenticate,
    {
        let agent = Agent { config, phase: Phase::Authenticating, tasks: Vec::new(), cursor: 0 };
        assert(task_views(agent.tasks@) =~= Seq::<TaskView>::empty());
        (agent, Action::Authenticate)
    }

    /// The agent's configuration.
    pub fn config(&self) -> (r: &Config)
        ensures
            r@ == self@.config,
    {
        &self.config
    }

    /// The state of the loop.
    pub fn phase(&self) -> (r: Phase)
        ensures
            r == self@.phase,
    {
        self.phase
    }

    fn rest(&mut self, report: Option<Report>) -> (r: Step)
        ensures
            (final(self)@, r@) == old(self)@.rest(
                match report {
                    Some(report) => Some(report@),
                    None => None,
                },
            ),
    {
        self.phase = Phase::Sleeping;
        self.tasks = Vec::new();
        self.cursor = 0;
        assert(task_views(self.tasks@) =~= Seq::<TaskView>::empty());
        Step { report, action: Action::Sleep { seconds: self.config.poll_interval_seconds } }
    }

    fn turn_to(&mut self, at: usize, report: Option<Report>) -> (r: Step)
        ensures
            (final(self)@, r@) == old(self)@.turn_to(
                at as nat,
                match report {
                    Some(report) => Some(report@),
                    None => None,
                },
            ),
    {
        if at < self.tasks.len() {
            self.phase = Phase::Reconciling(Stage::Inspecting);
            self.cursor = at;
            let name = self.tasks[at].name.clone();
            assert(task_views(self.tasks@)[at as int] == self.tasks@[at as int]@);
            Step { report, action: Action::QueryRunning { name } }
        } else {
            self.rest(report)
        }
    }

    /// Takes what came of the last action and answers with the next one.
    ///
    /// After a failed or empty authentication the agent sleeps, and fetches
    /// and reconciles nothing. The tasks of the desired state are settled one
    /// by one, in their order: a component that runs is skipped, one without
    /// an image fails, any other is started; whatever becomes of it, the next
    /// one follows. After the last the agent sleeps, and after the sleep it
    /// authenticates again. An event that answers no action the agent is
    /// waiting for is refused, and the agent stays as it was.
    pub fn step(&mut self, event: Event) -> (r: Result<Step, StepError>)
        ensures
            match old(self)@.next(event@) {
                Some((state, step)) => r matches Ok(s) && s@ == step && final(self)@ == state,
                None => r == Err::<Step, StepError>(StepError::UnexpectedEvent) && final(self)@
                    == old(self)@,
            },
            old(self)@.well_formed() ==> final(self)@.well_formed(),
    {
        match (self.phase, event) {
            (Phase::Authenticating, Event::AuthReplied(reply)) => {
                match authenticate(reply) {
                    Some(credential) => {
                        if credential.access_token.as_str().is_empty() {
                            Ok(self.rest(None))
                        } else {
                            self.phase = Phase::FetchingDesiredState;
                            Ok(
                                Step {
                                    report: None,
                                    action: Action::FetchCatalogs {
                                        token: credential.access_token,
                                    },
                                },
                            )
                        }
                    },
                    None => Ok(self.rest(None)),
                }
            },
            (Phase::FetchingDesiredState, Event::CatalogsReplied(reply)) => {
                let catalogs = fetch_catalogs(reply);
                self.tasks = desired_tasks(&catalogs);
                Ok(self.turn_to(0, None))
            },
            (Phase::Reconciling(Stage::Inspecting), Event::Observed(observation)) => {
                if self.cursor < self.tasks.len() {
                    let running = is_running(self.tasks[self.cursor].name.as_str(), &observation);
                    let decision = plan(&self.tasks[self.cursor], running);
                    let name = self.tasks[self.cursor].name.clone();
                    assert(task_views(self.tasks@)[self.cursor as int]
                        == self.tasks@[self.cursor as int]@);
                    match decision {
                        Decision::Skip => {
                            let report = Report { name, outcome: Outcome::Skipped };
                            Ok(self.turn_to(self.cursor + 1, Some(report)))
                        },
                        Decision::Reject => {
                            let report = Report {
                                name,
                                outcome: Outcome::Failed(Fault::MissingImage),
                            };
                            Ok(self.turn_to(self.cursor + 1, Some(report)))
                        },
                        Decision::Launch { name, image } => {
                            self.phase = Phase::Reconciling(Stage::Launching);
                            Ok(Step { report: None, action: Action::Launch { name, image } })
                        },
                    }
                } else {
                    Err(StepError::UnexpectedEvent)
                }
            },
            (Phase::Reconciling(Stage::Launching), Event::LaunchFinished(result)) => {
                if self.cursor < self.tasks.len() {
                    let name = self.tasks[self.cursor].name.clone();
                    assert(task_views(self.tasks@)[self.cursor as int]
                        == self.tasks@[self.cursor as int]@);
                    let report = Report { name, outcome: launch_outcome(result) };
                    Ok(self.turn_to(self.cursor + 1, Some(report)))
                } else {
                    Err(StepError::UnexpectedEvent)
                }
            },
            (Phase::Sleeping, Event::Woke) => {
                self.phase = Phase::Authenticating;
                Ok(Step { report: None, action: Action::Authenticate })
            },
            _ => Err(StepError::UnexpectedEvent),
        }
    }
}

} // verus!
