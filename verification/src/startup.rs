//! The session coordinator: which tasks a role needs, and in what order a
//! session is taken down and the next one brought up.
//!
//! The coordinator plans; its caller owns the tasks and the channels and
//! performs the plan step by step.

use crate::network::networkmanager::Role;
use vstd::prelude::*;

verus! {

/// How long the tasks of a session get to flush what they were sending,
/// between the signal to stop and their cancellation, in milliseconds.
pub const GRACE_MS: u64 = 10;

/// The tasks that a session can run.
#[derive(Clone, Copy, Debug, PartialEq, Eq, Structural)]
pub enum TaskKind {
    /// The local player's end: takes its requests, shows it the events.
    Client,
    /// The host's router.
    HostRouter,
    /// The client's router.
    ClientRouter,
    /// The liveness tracker.
    Liveness,
    /// The transport's loop.
    Transport,
}

/// One step of a plan.
#[derive(Clone, Copy, Debug, PartialEq, Eq, Structural)]
pub enum StartupAction {
    /// Raise the signal that asks the running tasks to stop.
    SignalShutdown,
    /// Wait, so that what is being sent can leave.
    Grace { millis: u64 },
    /// Cancel a task, whether or not it has stopped.
    Abort { task: TaskKind },
    /// Make every channel anew.
    OpenChannels,
    /// Hand the simulation its ends of the new channels.
    ConfigureSimulation,
    /// Start a task on the new channels.
    Start { task: TaskKind },
    /// Start the transport's loop on a socket for `role` at `port`.
    StartTransport { role: Role, port: u16 },
    /// Show the command surface the new channel for the local player's
    /// requests.
    Publish,
}

/// The state of the coordinator: the active role, the tasks that run, in
/// the order in which they were started, and whether a shutdown signal is
/// ready for them.
pub struct SessionModel {
    pub role: Option<Role>,
    pub tasks: Seq<TaskKind>,
    pub armed: bool,
}

/// The tasks of a role, in the order in which they start.
pub open spec fn tasks_of(role: Role) -> Seq<TaskKind> {
    match role {
        Role::Host => seq![
            TaskKind::Client,
            TaskKind::HostRouter,
            TaskKind::Liveness,
            TaskKind::Transport,
        ],
        Role::Client => seq![TaskKind::Client, TaskKind::Transport, TaskKind::ClientRouter],
    }
}

/// The steps that bring a role up at `port`: new channels first, then the
/// tasks, then the command surface.
pub open spec fn start_plan(role: Role, port: u16) -> Seq<StartupAction> {
    match role {
        Role::Host => seq![
            StartupAction::OpenChannels,
            StartupAction::ConfigureSimulation,
            StartupAction::Start { task: TaskKind::Client },
            StartupAction::Start { task: TaskKind::HostRouter },
            StartupAction::Start { task: TaskKind::Liveness },
            StartupAction::StartTransport { role, port },
            StartupAction::Publish,
        ],
        Role::Client => seq![
            StartupAction::OpenChannels,
            StartupAction::Start { task: TaskKind::Client },
            StartupAction::StartTransport { role, port },
            StartupAction::Start { task: TaskKind::ClientRouter },
            StartupAction::Publish,
        ],
    }
}

impl SessionModel {
    /// No session is active.
    pub open spec fn idle() -> SessionModel {
        SessionModel { role: None, tasks: Seq::empty(), armed: false }
    }

    /// The session of `role`, just brought up.
    pub open spec fn active(role: Role) -> SessionModel {
        SessionModel { role: Some(role), tasks: tasks_of(role), armed: true }
    }

    /// The steps that take the session down: the signal to stop, if one is
    /// ready; the grace period; then the cancellation of every task that
    /// runs, in the order in which they were started.
    pub open spec fn close_plan(self) -> Seq<StartupAction> {
        let signal = if self.armed {
            seq![StartupAction::SignalShutdown]
        } else {
            Seq::empty()
        };
        signal + seq![StartupAction::Grace { millis: GRACE_MS }] + Seq::new(
            self.tasks.len(),
            |i: int| StartupAction::Abort { task: self.tasks[i] },
        )
    }

    /// The steps that switch to `role` at `port`: the session that runs is
    /// taken down, then the new one is brought up.
    pub open spec fn switch_plan(self, role: Role, port: u16) -> Seq<StartupAction> {
        self.close_plan() + start_plan(role, port)
    }
}

/// The session coordinator.
pub struct StartupManager {
    role: Option<Role>,
    tasks: Vec<TaskKind>,
    armed: bool,
}

impl View for StartupManager {
    type V = SessionModel;

    closed spec fn view(&self) -> SessionModel {
        SessionModel { role: self.role, tasks: self.tasks@, armed: self.armed }
    }
}

impl StartupManager {
    /// A coordinator with no session active.
    pub fn new() -> (s: Self)
        ensures
            s@ == SessionModel::idle(),
    {
        let s = StartupManager { role: None, tasks: Vec::new(), armed: false };
        assert(s@.tasks =~= Seq::<TaskKind>::empty());
        s
    }

    /// The active role, if a session is active.
    pub fn role(&self) -> (r: Option<Role>)
        ensures
            r == self@.role,
    {
        self.role
    }

    /// Switches to the role of the host at `port`.
    pub fn init_host(&mut self, port: u16) -> (plan: Vec<StartupAction>)
        ensures
            plan@ == old(self)@.switch_plan(Role::Host, port),
            final(self)@ == SessionModel::active(Role::Host),
    {
        let mut plan = self.close_tasks();
        plan.push(StartupAction::OpenChannels);
        plan.push(StartupAction::ConfigureSimulation);
        self.init_client(&mut plan);
        self.init_network(&mut plan);
        self.init_socket(true, port, &mut plan);
        plan.push(StartupAction::Publish);
        self.role = Some(Role::Host);
        self.armed = true;
        assert(plan@ =~= old(self)@.switch_plan(Role::Host, port));
        assert(self.tasks@ =~= tasks_of(Role::Host));
        plan
    }

    /// Switches to the role of a client of the host at `port`.
    pub fn init_join(&mut self, port: u16) -> (plan: Vec<StartupAction>)
        ensures
            plan@ == old(self)@.switch_plan(Role::Client, port),
            final(self)@ == SessionModel::active(Role::Client),
    {
        let mut plan = self.close_tasks();
        plan.push(StartupAction::OpenChannels);
        self.init_client(&mut plan);
        self.init_socket(false, port, &mut plan);
        self.init_client_network(&mut plan);
        plan.push(StartupAction::Publish);
        self.role = Some(Role::Client);
        self.armed = true;
        assert(plan@ =~= old(self)@.switch_plan(Role::Client, port));
        assert(self.tasks@ =~= tasks_of(Role::Client));
        plan
    }

    /// Takes the active session down.
    pub fn close_tasks(&mut self) -> (plan: Vec<StartupAction>)
        ensures
            plan@ == old(self)@.close_plan(),
            final(self)@ == SessionModel::idle(),
    {
        let mut plan: Vec<StartupAction> = Vec::new();
        if self.armed {
            plan.push(StartupAction::SignalShutdown);
        }
        plan.push(StartupAction::Grace { millis: GRACE_MS });
        let ghost head = plan@;
        let mut i: usize = 0;
        while i < self.tasks.len()
            invariant
                i <= self.tasks@.len(),
                self.tasks@ == old(self)@.tasks,
                plan@ == head + Seq::new(
                    i as nat,
                    |k: int| StartupAction::Abort { task: old(self)@.tasks[k] },
                ),
            decreases self.tasks@.len() - i,
        {
            plan.push(StartupAction::Abort { task: self.tasks[i] });
            i += 1;
            assert(plan@ =~= head + Seq::new(
                i as nat,
                |k: int| StartupAction::Abort { task: old(self)@.tasks[k] },
            ));
        }
        self.tasks = Vec::new();
        self.armed = false;
        self.role = None;
        assert(plan@ =~= old(self)@.close_plan());
        assert(self.tasks@ =~= Seq::<TaskKind>::empty());
        plan
    }

    /// Plans the start of the local player's end.
    pub fn init_client(&mut self, plan: &mut Vec<StartupAction>)
        ensures
            final(plan)@ == old(plan)@.push(StartupAction::Start { task: TaskKind::Client }),
            final(self)@ == (SessionModel {
                tasks: old(self)@.tasks.push(TaskKind::Client),
                ..old(self)@
            }),
    {
        plan.push(StartupAction::Start { task: TaskKind::Client });
        self.tasks.push(TaskKind::Client);
    }

    fn init_network(&mut self, plan: &mut Vec<StartupAction>)
        ensures
            final(plan)@ == old(plan)@.push(StartupAction::Start { task: TaskKind::HostRouter }).push(
                StartupAction::Start { task: TaskKind::Liveness },
            ),
            final(self)@ == (SessionModel {
                tasks: old(self)@.tasks.push(TaskKind::HostRouter).push(TaskKind::Liveness),
                ..old(self)@
            }),
    {
        plan.push(StartupAction::Start { task: TaskKind::HostRouter });
        self.tasks.push(TaskKind::HostRouter);
        plan.push(StartupAction::Start { task: TaskKind::Liveness });
        self.tasks.push(TaskKind::Liveness);
    }

    fn init_client_network(&mut self, plan: &mut Vec<StartupAction>)
        ensures
            final(plan)@ == old(plan)@.push(StartupAction::Start { task: TaskKind::ClientRouter }),
            final(self)@ == (SessionModel {
                tasks: old(self)@.tasks.push(TaskKind::ClientRouter),
                ..old(self)@
            }),
    {
        plan.push(StartupAction::Start { task: TaskKind::ClientRouter });
        self.tasks.push(TaskKind::ClientRouter);
    }

    fn init_socket(&mut self, is_host: bool, port: u16, plan: &mut Vec<StartupAction>)
        ensures
            final(plan)@ == old(plan)@.push(
                StartupAction::StartTransport {
                    role: if is_host {
                        Role::Host
                    } else {
                        Role::Client
                    },
                    port,
                },
            ),
            final(self)@ == (SessionModel {
                tasks: old(self)@.tasks.push(TaskKind::Transport),
                ..old(self)@
            }),
    {
        let role = if is_host {
            Role::Host
        } else {
            Role::Client
        };
        plan.push(StartupAction::StartTransport { role, port });
        self.tasks.push(TaskKind::Transport);
    }
}

/// Whether a step starts something on the channels of a session.
pub open spec fn starts_something(action: StartupAction) -> bool {
    action is Start || action is StartTransport || action is ConfigureSimulation
        || action is Publish
}

/// Nothing of one session reaches the next: in every switch of role, each
/// task that ran is cancelled before the new channels are made, the new
/// channels are made once, and whatever starts, starts after that, on them.
pub proof fn lemma_sessions_do_not_mix(m: SessionModel, role: Role, port: u16)
    ensures
        ({
            let plan = m.switch_plan(role, port);
            let open = m.close_plan().len() as int;
            &&& 0 <= open < plan.len()
            &&& plan[open] == StartupAction::OpenChannels
            &&& forall|i: int| 0 <= i < plan.len() && i != open ==> #[trigger] plan[i] != StartupAction::OpenChannels
            &&& forall|i: int| 0 <= i < plan.len() && starts_something(#[trigger] plan[i]) ==> i > open
            &&& forall|k: int|
                #![trigger m.tasks[k]]
                0 <= k < m.tasks.len() ==> exists|i: int|
                    0 <= i < open && #[trigger] plan[i] == (StartupAction::Abort {
                        task: m.tasks[k],
                    })
            &&& forall|i: int|
                0 <= i < plan.len() && (#[trigger] plan[i] is SignalShutdown || plan[i] is Grace
                    || plan[i] is Abort) ==> i < open
        }),
{
    let plan = m.switch_plan(role, port);
    let close = m.close_plan();
    let open = close.len() as int;
    let head: int = if m.armed {
        2
    } else {
        1
    };
    assert(open == head + m.tasks.len());
    assert forall|k: int| #![trigger m.tasks[k]] 0 <= k < m.tasks.len() implies exists|i: int|
        0 <= i < open && #[trigger] plan[i] == (StartupAction::Abort { task: m.tasks[k] }) by {
        assert(plan[head + k] == (StartupAction::Abort { task: m.tasks[k] }));
    }
    assert forall|i: int| 0 <= i < open implies !starts_something(#[trigger] plan[i]) && plan[i]
        != StartupAction::OpenChannels by {
        assert(plan[i] == close[i]);
    }
    assert forall|i: int| open <= i < plan.len() implies #[trigger] plan[i] == start_plan(
        role,
        port,
    )[i - open] by {}
}

} // verus!
