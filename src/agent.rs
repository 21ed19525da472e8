//! The agent runtime: the one owner of session and timer state. Each tick it
//! applies a batch of commands in order, then checks for idleness, and hands
//! back the effects for its caller to carry out: events for listeners, signals
//! for the window, and records to store.

use vstd::prelude::*;
use crate::activity::{ActivityTracker, ActivityView, UserState};
use crate::sessions::{Session, SessionView};
use crate::settings::Settings;
use crate::tasks::{Task, TaskView, tasks_view, duplicate_tasks};
use crate::time::{StopWatch, StopWatchView};

verus! {

/// What producers (the window, the tray, the input listener) ask of the agent.
pub enum AgentCommand {
    StartSession { id: i64 },
    EndSession { comment: String },
    AddTask { task: Task },
    RequestTaskList,
    RequestTaskState,
    /// Input from the user, observed at `time_stamp` (milliseconds).
    UserActivity { time_stamp: u64 },
    /// Pause or resume timing of the open session, if there is one.
    UpdateStopWatch { running: bool },
    ElapsedTime,
    ShowUI,
    Quit,
}

#[derive(PartialEq, Eq, Structural, Clone, Copy, Debug)]
pub enum UIControl {
    Show,
    Quit,
}

/// What the agent tells its listeners.
pub enum UIEvent {
    TaskList { task_list: Vec<Task> },
    /// The running time of the open session, in milliseconds.
    ElapsedTime { elapsed: u64 },
    UserState { state: UserState },
    ProgressState { state: bool },
    StorageError { message: String },
    Quit,
}

pub enum EventView {
    TaskList(Seq<TaskView>),
    ElapsedTime(u64),
    UserState(UserState),
    ProgressState(bool),
    StorageError(Seq<char>),
    Quit,
}

impl View for UIEvent {
    type V = EventView;

    open spec fn view(&self) -> EventView {
        match self {
            UIEvent::TaskList { task_list } => EventView::TaskList(tasks_view(task_list@)),
            UIEvent::ElapsedTime { elapsed } => EventView::ElapsedTime(*elapsed),
            UIEvent::UserState { state } => EventView::UserState(*state),
            UIEvent::ProgressState { state } => EventView::ProgressState(*state),
            UIEvent::StorageError { message } => EventView::StorageError(message@),
            UIEvent::Quit => EventView::Quit,
        }
    }
}

/// Work that the agent hands to its caller.
pub enum Effect {
    /// Send `event` to the listener registered as `listener`.
    Deliver { listener: u64, event: UIEvent },
    /// Send `signal` to the windowing side.
    Control { signal: UIControl },
    /// Store a completed session.
    SaveSession { session: Session },
    /// Store a new task.
    SaveTask { task: Task },
    /// Fetch all tasks in storage order and pass them to `AgentState::task_list_loaded`.
    LoadTasks,
}

pub enum EffectView {
    Deliver(u64, EventView),
    Control(UIControl),
    SaveSession(SessionView),
    SaveTask(TaskView),
    LoadTasks,
}

impl View for Effect {
    type V = EffectView;

    open spec fn view(&self) -> EffectView {
        match self {
            Effect::Deliver { listener, event } => EffectView::Deliver(*listener, event@),
            Effect::Control { signal } => EffectView::Control(*signal),
            Effect::SaveSession { session } => EffectView::SaveSession(session@),
            Effect::SaveTask { task } => EffectView::SaveTask(task@),
            Effect::LoadTasks => EffectView::LoadTasks,
        }
    }
}

pub open spec fn effects_view(effects: Seq<Effect>) -> Seq<EffectView> {
    effects.map_values(|e: Effect| e@)
}

/// `event` for each listener, in the order in which they registered.
pub open spec fn broadcast(listeners: Seq<u64>, event: EventView) -> Seq<EffectView> {
    listeners.map_values(|l: u64| EffectView::Deliver(l, event))
}

pub struct AgentView {
    pub session: SessionView,
    pub stop_watch: StopWatchView,
    pub task_in_progress: bool,
    pub activity: ActivityView,
    pub user_id: Seq<char>,
    pub start_counts_as_activity: bool,
    pub listeners: Seq<u64>,
    pub running: bool,
}

impl AgentView {
    pub open spec fn wf(self) -> bool {
        self.listeners.no_duplicates()
    }

    /// Input observed at `t`: the user is active, and timing of an open session
    /// resumes at `now`.
    pub open spec fn after_activity(self, t: u64, now: u64) -> AgentView {
        AgentView {
            activity: self.activity.touched(t),
            stop_watch: if self.task_in_progress {
                self.stop_watch.started(now)
            } else {
                self.stop_watch
            },
            ..self
        }
    }

    /// The record stored when the open session ends at `now` with `comment`.
    pub open spec fn ended_session(self, comment: Seq<char>, now: u64) -> SessionView {
        SessionView {
            user: self.user_id,
            duration_secs: (self.stop_watch.stopped(now).elapsed_at(now) / 1000) as u64,
            comment,
            ..self.session
        }
    }

    /// One command applied at `now`: the next state and the effects, in order.
    pub open spec fn step(self, cmd: AgentCommand, now: u64) -> (AgentView, Seq<EffectView>) {
        match cmd {
            AgentCommand::StartSession { id } => {
                let opened = AgentView {
                    task_in_progress: true,
                    session: SessionView::opened(id),
                    stop_watch: self.stop_watch.started(now),
                    ..self
                };
                if self.start_counts_as_activity {
                    (
                        opened.after_activity(now, now),
                        broadcast(self.listeners, EventView::UserState(UserState::Active)),
                    )
                } else {
                    (opened, Seq::empty())
                }
            },
            AgentCommand::EndSession { comment } => (
                AgentView {
                    task_in_progress: false,
                    stop_watch: StopWatchView::zero(),
                    session: SessionView::opened(1),
                    ..self
                },
                seq![EffectView::SaveSession(self.ended_session(comment@, now))],
            ),
            AgentCommand::AddTask { task } => (self, seq![EffectView::SaveTask(task@)]),
            AgentCommand::RequestTaskList => (self, seq![EffectView::LoadTasks]),
            AgentCommand::RequestTaskState => (
                self,
                broadcast(self.listeners, EventView::ProgressState(self.task_in_progress)),
            ),
            AgentCommand::UserActivity { time_stamp } => (
                self.after_activity(time_stamp, now),
                broadcast(self.listeners, EventView::UserState(UserState::Active)),
            ),
            AgentCommand::UpdateStopWatch { running } => {
                if !self.task_in_progress {
                    (self, Seq::empty())
                } else if running {
                    (AgentView { stop_watch: self.stop_watch.started(now), ..self }, Seq::empty())
                } else {
                    (AgentView { stop_watch: self.stop_watch.stopped(now), ..self }, Seq::empty())
                }
            },
            AgentCommand::ElapsedTime => (
                self,
                broadcast(self.listeners, EventView::ElapsedTime(self.stop_watch.elapsed_at(now))),
            ),
            AgentCommand::ShowUI => (self, seq![EffectView::Control(UIControl::Show)]),
            AgentCommand::Quit => (
                AgentView { running: false, ..self },
                broadcast(self.listeners, EventView::Quit).push(EffectView::Control(UIControl::Quit)),
            ),
        }
    }

    /// The commands applied in order; once the agent has stopped, the rest are ignored.
    pub open spec fn run_batch(self, cmds: Seq<AgentCommand>, now: u64) -> (AgentView, Seq<EffectView>)
        decreases cmds.len(),
    {
        if cmds.len() == 0 {
            (self, Seq::empty())
        } else {
            let before = self.run_batch(cmds.drop_last(), now);
            if before.0.running {
                let next = before.0.step(cmds.last(), now);
                (next.0, before.1 + next.1)
            } else {
                before
            }
        }
    }

    /// The idle check at `now`. A user who turns idle is announced to every
    /// listener; while the user is idle, an open session stays paused.
    pub open spec fn idle_check(self, now: u64) -> (AgentView, Seq<EffectView>) {
        let activity = self.activity.evaluated(now);
        let paused = AgentView {
            activity,
            stop_watch: if self.task_in_progress && activity.state == UserState::Idle {
                self.stop_watch.stopped(now)
            } else {
                self.stop_watch
            },
            ..self
        };
        if self.activity.state == UserState::Active && activity.state == UserState::Idle {
            (paused, broadcast(self.listeners, EventView::UserState(UserState::Idle)))
        } else {
            (paused, Seq::empty())
        }
    }

    /// One tick: the whole batch first, then, if the agent still runs, the idle check.
    pub open spec fn tick(self, cmds: Seq<AgentCommand>, now: u64) -> (AgentView, Seq<EffectView>) {
        let batch = self.run_batch(cmds, now);
        if batch.0.running {
            let checked = batch.0.idle_check(now);
            (checked.0, batch.1 + checked.1)
        } else {
            batch
        }
    }
}

impl UIEvent {
    /// A copy that carries the same information.
    pub fn duplicate(&self) -> (r: UIEvent)
        ensures
            r@ == self@,
    {
        match self {
            UIEvent::TaskList { task_list } => UIEvent::TaskList { task_list: duplicate_tasks(task_list) },
            UIEvent::ElapsedTime { elapsed } => UIEvent::ElapsedTime { elapsed: *elapsed },
            UIEvent::UserState { state } => UIEvent::UserState { state: *state },
            UIEvent::ProgressState { state } => UIEvent::ProgressState { state: *state },
            UIEvent::StorageError { message } => UIEvent::StorageError { message: message.clone() },
            UIEvent::Quit => UIEvent::Quit,
        }
    }
}

fn emit(out: &mut Vec<Effect>, effect: Effect)
    ensures
        effects_view(final(out)@) == effects_view(old(out)@).push(effect@),
{
    out.push(effect);
    assert(effects_view(out@) =~= effects_view(old(out)@).push(effect@));
}

/// Appends `event` for each listener, in order.
fn emit_to_all(listeners: &Vec<u64>, event: &UIEvent, out: &mut Vec<Effect>)
    ensures
        effects_view(final(out)@) == effects_view(old(out)@) + broadcast(listeners@, event@),
{
    let mut i: usize = 0;
    while i < listeners.len()
        invariant
            i <= listeners.len(),
            effects_view(out@) == effects_view(old(out)@) + broadcast(listeners@.take(i as int), event@),
        decreases listeners.len() - i,
    {
        let copy = event.duplicate();
        emit(out, Effect::Deliver { listener: listeners[i], event: copy });
        proof {
            assert(broadcast(listeners@.take(i + 1), event@) =~= broadcast(
                listeners@.take(i as int),
                event@,
            ).push(EffectView::Deliver(listeners@[i as int], event@)));
        }
        i = i + 1;
    }
    assert(listeners@.take(i as int) =~= listeners@);
}

/// What came of a tick: the effects in order, and how long the caller may wait
/// before the next idle check, while the user is active.
pub struct TickOutcome {
    pub effects: Vec<Effect>,
    pub wake_after: Option<u64>,
}

pub struct AgentState {
    session: Session,
    stop_watch: StopWatch,
    task_in_progress: bool,
    activity: ActivityTracker,
    user_id: String,
    start_counts_as_activity: bool,
    listeners: Vec<u64>,
    running: bool,
}

impl View for AgentState {
    type V = AgentView;

    closed spec fn view(&self) -> AgentView {
        AgentView {
            session: self.session@,
            stop_watch: self.stop_watch@,
            task_in_progress: self.task_in_progress,
            activity: self.activity@,
            user_id: self.user_id@,
            start_counts_as_activity: self.start_counts_as_activity,
            listeners: self.listeners@,
            running: self.running,
        }
    }
}

impl AgentState {
    /// A running agent with no session open, the user active as of `now`, and
    /// no listeners yet.
    pub fn new(settings: &Settings, now: u64) -> (r: AgentState)
        ensures
            r@ == (AgentView {
                session: SessionView::opened(1),
                stop_watch: StopWatchView::zero(),
                task_in_progress: false,
                activity: ActivityView {
                    state: UserState::Active,
                    last_activity_at: now,
                    timeout_secs: settings.active_timeout_seconds,
                },
                user_id: settings.uid@,
                start_counts_as_activity: settings.start_session_counts_as_activity,
                listeners: Seq::empty(),
                running: true,
            }),
            r@.wf(),
    {
        AgentState {
            session: Session::default(),
            stop_watch: StopWatch::new(),
            task_in_progress: false,
            activity: ActivityTracker::new(settings.active_timeout_seconds, now),
            user_id: settings.uid.clone(),
            start_counts_as_activity: settings.start_session_counts_as_activity,
            listeners: Vec::new(),
            running: true,
        }
    }

    pub fn is_running(&self) -> (r: bool)
        ensures
            r == self@.running,
    {
        self.running
    }

    pub fn task_in_progress(&self) -> (r: bool)
        ensures
            r == self@.task_in_progress,
    {
        self.task_in_progress
    }

    pub fn user_state(&self) -> (r: UserState)
        ensures
            r == self@.activity.state,
    {
        self.activity.state()
    }

    /// The running time of the open session at `now`, in milliseconds.
    pub fn elapsed(&self, now: u64) -> (r: u64)
        ensures
            r == self@.stop_watch.elapsed_at(now),
    {
        self.stop_watch.elapsed(now)
    }

    pub fn session(&self) -> (r: &Session)
        ensures
            r@ == self@.session,
    {
        &self.session
    }

    pub fn listeners(&self) -> (r: &Vec<u64>)
        ensures
            r@ == self@.listeners,
    {
        &self.listeners
    }

    fn note_activity(&mut self, t: u64, now: u64, out: &mut Vec<Effect>)
        ensures
            final(self)@ == old(self)@.after_activity(t, now),
            effects_view(final(out)@) == effects_view(old(out)@) + broadcast(
                old(self)@.listeners,
                EventView::UserState(UserState::Active),
            ),
    {
        self.activity.touch(t);
        if self.task_in_progress {
            self.stop_watch.start(now);
        }
        emit_to_all(&self.listeners, &UIEvent::UserState { state: UserState::Active }, out);
    }

    fn apply(&mut self, cmd: &AgentCommand, now: u64, out: &mut Vec<Effect>)
        ensures
            final(self)@ == old(self)@.step(*cmd, now).0,
            effects_view(final(out)@) == effects_view(old(out)@) + old(self)@.step(*cmd, now).1,
    {
        let ghost before = effects_view(out@);
        match cmd {
            AgentCommand::StartSession { id } => {
                self.task_in_progress = true;
                self.session = Session::for_task(*id);
                self.stop_watch.start(now);
                if self.start_counts_as_activity {
                    self.note_activity(now, now, out);
                } else {
                    assert(before + Seq::<EffectView>::empty() =~= before);
                }
            },
            AgentCommand::EndSession { comment } => {
                self.task_in_progress = false;
                self.stop_watch.stop(now);
                let elapsed = self.stop_watch.elapsed(now);
                self.stop_watch.reset();
                let record = Session {
                    s_id: self.session.s_id,
                    s_task: self.session.s_task,
                    s_user: self.user_id.clone(),
                    s_duration: elapsed / 1000,
                    s_comment: comment.clone(),
                };
                self.session = Session::default();
                emit(out, Effect::SaveSession { session: record });
                assert(before.push(EffectView::SaveSession(record@)) =~= before + seq![
                    EffectView::SaveSession(record@),
                ]);
            },
            AgentCommand::AddTask { task } => {
                let t = task.duplicate();
                emit(out, Effect::SaveTask { task: t });
                assert(before.push(EffectView::SaveTask(t@)) =~= before + seq![EffectView::SaveTask(t@)]);
            },
            AgentCommand::RequestTaskList => {
                emit(out, Effect::LoadTasks);
                assert(before.push(EffectView::LoadTasks) =~= before + seq![EffectView::LoadTasks]);
            },
            AgentCommand::RequestTaskState => {
                emit_to_all(
                    &self.listeners,
                    &UIEvent::ProgressState { state: self.task_in_progress },
                    out,
                );
            },
            AgentCommand::UserActivity { time_stamp } => {
                self.note_activity(*time_stamp, now, out);
            },
            AgentCommand::UpdateStopWatch { running } => {
                if self.task_in_progress {
                    if *running {
                        self.stop_watch.start(now);
                    } else {
                        self.stop_watch.stop(now);
                    }
                }
                assert(before + Seq::<EffectView>::empty() =~= before);
            },
            AgentCommand::ElapsedTime => {
                let elapsed = self.stop_watch.elapsed(now);
                emit_to_all(&self.listeners, &UIEvent::ElapsedTime { elapsed }, out);
            },
            AgentCommand::ShowUI => {
                emit(out, Effect::Control { signal: UIControl::Show });
                assert(before.push(EffectView::Control(UIControl::Show)) =~= before + seq![
                    EffectView::Control(UIControl::Show),
                ]);
            },
            AgentCommand::Quit => {
                emit_to_all(&self.listeners, &UIEvent::Quit, out);
                let ghost sent = effects_view(out@);
                emit(out, Effect::Control { signal: UIControl::Quit });
                self.running = false;
                assert(sent.push(EffectView::Control(UIControl::Quit)) =~= before + broadcast(
                    old(self)@.listeners,
                    EventView::Quit,
                ).push(EffectView::Control(UIControl::Quit)));
            },
        }
    }
    /// Applies `commands` in order, then, if no `Quit` came, checks for
    /// idleness at `now`. A stopped agent ignores every command.
    pub fn tick(&mut self, commands: &Vec<AgentCommand>, now: u64) -> (r: TickOutcome)
        requires
            old(self)@.wf(),
        ensures
            final(self)@ == old(self)@.tick(commands@, now).0,
            effects_view(r.effects@) == old(self)@.tick(commands@, now).1,
            r.wake_after == (if final(self)@.running {
                final(self)@.activity.wake_hint(now)
            } else {
                None
            }),
            final(self)@.wf(),
    {
        let mut effects: Vec<Effect> = Vec::new();
        let mut i: usize = 0;
        while i < commands.len()
            invariant
                i <= commands.len(),
                (self@, effects_view(effects@)) == old(self)@.run_batch(
                    commands@.take(i as int),
                    now,
                ),
                self@.listeners == old(self)@.listeners,
                old(self)@.wf(),
            decreases commands.len() - i,
        {
            proof {
                assert(commands@.take(i + 1).drop_last() =~= commands@.take(i as int));
                assert(commands@.take(i + 1).last() == commands@[i as int]);
            }
            if self.running {
                self.apply(&commands[i], now, &mut effects);
            }
            i = i + 1;
        }
        proof {
            assert(commands@.take(i as int) =~= commands@);
        }
        if self.running {
            let ghost before = effects_view(effects@);
            let went_idle = self.activity.evaluate(now);
            if self.task_in_progress && self.activity.state() == UserState::Idle {
                self.stop_watch.stop(now);
            }
            if went_idle {
                emit_to_all(&self.listeners, &UIEvent::UserState { state: UserState::Idle }, &mut effects);
            } else {
                assert(before + Seq::<EffectView>::empty() =~= before);
            }
            let wake_after = self.activity.wake_hint(now);
            TickOutcome { effects, wake_after }
        } else {
            TickOutcome { effects, wake_after: None }
        }
    }

    /// Registers a listener; false, and no change, if `id` is already registered.
    pub fn register_listener(&mut self, id: u64) -> (added: bool)
        requires
            old(self)@.wf(),
        ensures
            added == !old(self)@.listeners.contains(id),
            final(self)@ == (AgentView {
                listeners: if added {
                    old(self)@.listeners.push(id)
                } else {
                    old(self)@.listeners
                },
                ..old(self)@
            }),
            final(self)@.wf(),
    {
        let mut i: usize = 0;
        while i < self.listeners.len()
            invariant
                i <= self.listeners.len(),
                self@ == old(self)@,
                old(self)@.wf(),
                forall|j: int| 0 <= j < i ==> self.listeners@[j] != id,
            decreases self.listeners.len() - i,
        {
            if self.listeners[i] == id {
                assert(self.listeners@[i as int] == id);
                return false;
            }
            i = i + 1;
        }
        self.listeners.push(id);
        true
    }

    /// Forgets a listener; false, and no change, if `id` was not registered.
    pub fn unregister_listener(&mut self, id: u64) -> (removed: bool)
        requires
            old(self)@.wf(),
        ensures
            removed == old(self)@.listeners.contains(id),
            final(self)@ == (AgentView {
                listeners: without(old(self)@.listeners, id),
                ..old(self)@
            }),
            final(self)@.wf(),
    {
        let ghost before = self.listeners@;
        let mut i: usize = 0;
        while i < self.listeners.len()
            invariant
                i <= self.listeners.len(),
                self@ == old(self)@,
                before == old(self)@.listeners,
                before.no_duplicates(),
                forall|j: int| 0 <= j < i ==> before[j] != id,
            decreases self.listeners.len() - i,
        {
            if self.listeners[i] == id {
                self.listeners.remove(i);
                proof {
                    lemma_remove_unique(before, i as int, id);
                    assert(before[i as int] == id);
                }
                return true;
            }
            i = i + 1;
        }
        proof {
            lemma_without_absent(before, id);
        }
        false
    }

    /// The fetched task list, for every listener.
    pub fn task_list_loaded(&self, tasks: &Vec<Task>) -> (r: Vec<Effect>)
        ensures
            effects_view(r@) == broadcast(self@.listeners, EventView::TaskList(tasks_view(tasks@))),
    {
        let mut out: Vec<Effect> = Vec::new();
        let event = UIEvent::TaskList { task_list: duplicate_tasks(tasks) };
        emit_to_all(&self.listeners, &event, &mut out);
        assert(effects_view(Seq::<Effect>::empty()) + broadcast(self@.listeners, event@) =~= broadcast(
            self@.listeners,
            event@,
        ));
        out
    }

    /// A failed store or fetch, reported to every listener; the agent goes on.
    pub fn storage_failed(&self, message: &String) -> (r: Vec<Effect>)
        ensures
            effects_view(r@) == broadcast(self@.listeners, EventView::StorageError(message@)),
    {
        let mut out: Vec<Effect> = Vec::new();
        let event = UIEvent::StorageError { message: message.clone() };
        emit_to_all(&self.listeners, &event, &mut out);
        assert(effects_view(Seq::<Effect>::empty()) + broadcast(self@.listeners, event@) =~= broadcast(
            self@.listeners,
            event@,
        ));
        out
    }
}

/// How many times `e` occurs in `effects`.
pub open spec fn occurrences(effects: Seq<EffectView>, e: EffectView) -> nat
    decreases effects.len(),
{
    if effects.len() == 0 {
        0
    } else {
        occurrences(effects.drop_last(), e) + if effects.last() == e {
            1nat
        } else {
            0nat
        }
    }
}

/// Whether some command of the batch is a `Quit`.
pub open spec fn holds_quit(cmds: Seq<AgentCommand>) -> bool {
    exists|i: int| 0 <= i < cmds.len() && #[trigger] cmds[i] is Quit
}

proof fn lemma_occurrences_concat(a: Seq<EffectView>, b: Seq<EffectView>, e: EffectView)
    ensures
        occurrences(a + b, e) == occurrences(a, e) + occurrences(b, e),
    decreases b.len(),
{
    if b.len() == 0 {
        assert(a + b =~= a);
    } else {
        lemma_occurrences_concat(a, b.drop_last(), e);
        assert((a + b).drop_last() =~= a + b.drop_last());
    }
}

proof fn lemma_occurrences_absent(effects: Seq<EffectView>, e: EffectView)
    requires
        forall|i: int| 0 <= i < effects.len() ==> effects[i] != e,
    ensures
        occurrences(effects, e) == 0,
    decreases effects.len(),
{
    if effects.len() > 0 {
        lemma_occurrences_absent(effects.drop_last(), e);
    }
}

proof fn lemma_broadcast_once(listeners: Seq<u64>, event: EventView, l: u64)
    requires
        listeners.no_duplicates(),
    ensures
        occurrences(broadcast(listeners, event), EffectView::Deliver(l, event)) == if listeners.contains(
            l,
        ) {
            1nat
        } else {
            0nat
        },
    decreases listeners.len(),
{
    if listeners.len() > 0 {
        let prev = listeners.drop_last();
        assert(prev.no_duplicates()) by {
            assert forall|a: int, b: int| 0 <= a < prev.len() && 0 <= b < prev.len() && a != b
                implies prev[a] != prev[b] by {
                assert(prev[a] == listeners[a] && prev[b] == listeners[b]);
            }
        }
        lemma_broadcast_once(prev, event, l);
        assert(broadcast(listeners, event).drop_last() =~= broadcast(prev, event));
        if listeners.last() == l {
            assert(listeners.contains(l)) by {
                assert(listeners[listeners.len() - 1] == l);
            }
            assert(!prev.contains(l)) by {
                if prev.contains(l) {
                    let k = choose|k: int| 0 <= k < prev.len() && prev[k] == l;
                    assert(listeners[k] == listeners[listeners.len() - 1]);
                }
            }
        } else {
            if listeners.contains(l) {
                let k = choose|k: int| 0 <= k < listeners.len() && listeners[k] == l;
                assert(prev[k] == l);
            }
            if prev.contains(l) {
                let k = choose|k: int| 0 <= k < prev.len() && prev[k] == l;
                assert(listeners[k] == l);
            }
        }
    }
}

proof fn lemma_broadcast_not_quit(listeners: Seq<u64>, event: EventView, l: u64)
    requires
        event != EventView::Quit,
    ensures
        occurrences(broadcast(listeners, event), EffectView::Deliver(l, EventView::Quit)) == 0,
{
    lemma_occurrences_absent(broadcast(listeners, event), EffectView::Deliver(l, EventView::Quit));
}

proof fn lemma_step_sends_no_quit(s: AgentView, cmd: AgentCommand, now: u64, l: u64)
    requires
        !(cmd is Quit),
    ensures
        s.step(cmd, now).0.running == s.running,
        s.step(cmd, now).0.listeners == s.listeners,
        occurrences(s.step(cmd, now).1, EffectView::Deliver(l, EventView::Quit)) == 0,
{
    let quit = EffectView::Deliver(l, EventView::Quit);
    match cmd {
        AgentCommand::StartSession { .. } => {
            lemma_broadcast_not_quit(s.listeners, EventView::UserState(UserState::Active), l);
            lemma_occurrences_absent(Seq::empty(), quit);
        },
        AgentCommand::RequestTaskState => {
            lemma_broadcast_not_quit(s.listeners, EventView::ProgressState(s.task_in_progress), l);
        },
        AgentCommand::UserActivity { .. } => {
            lemma_broadcast_not_quit(s.listeners, EventView::UserState(UserState::Active), l);
        },
        AgentCommand::ElapsedTime => {
            lemma_broadcast_not_quit(
                s.listeners,
                EventView::ElapsedTime(s.stop_watch.elapsed_at(now)),
                l,
            );
        },
        _ => {
            lemma_occurrences_absent(s.step(cmd, now).1, quit);
        },
    }
}

proof fn lemma_batch_quit(s: AgentView, cmds: Seq<AgentCommand>, now: u64, l: u64)
    requires
        s.wf(),
        s.running,
    ensures
        s.run_batch(cmds, now).0.listeners == s.listeners,
        s.run_batch(cmds, now).0.running == !holds_quit(cmds),
        occurrences(s.run_batch(cmds, now).1, EffectView::Deliver(l, EventView::Quit)) == if holds_quit(
            cmds,
        ) && s.listeners.contains(l) {
            1nat
        } else {
            0nat
        },
    decreases cmds.len(),
{
    let quit = EffectView::Deliver(l, EventView::Quit);
    if cmds.len() == 0 {
        lemma_occurrences_absent(Seq::empty(), quit);
    } else {
        let prev = cmds.drop_last();
        lemma_batch_quit(s, prev, now, l);
        let before = s.run_batch(prev, now);
        if holds_quit(prev) {
            let k = choose|k: int| 0 <= k < prev.len() && #[trigger] prev[k] is Quit;
            assert(cmds[k] == prev[k]);
        } else {
            let next = before.0.step(cmds.last(), now);
            lemma_occurrences_concat(before.1, next.1, quit);
            if cmds.last() is Quit {
                assert(cmds[cmds.len() - 1] is Quit);
                lemma_broadcast_once(s.listeners, EventView::Quit, l);
                let sent = broadcast(s.listeners, EventView::Quit);
                assert(sent.push(EffectView::Control(UIControl::Quit)).drop_last() =~= sent);
            } else {
                lemma_step_sends_no_quit(before.0, cmds.last(), now, l);
                assert(!holds_quit(cmds)) by {
                    if holds_quit(cmds) {
                        let k = choose|k: int| 0 <= k < cmds.len() && #[trigger] cmds[k] is Quit;
                        if k < prev.len() {
                            assert(prev[k] == cmds[k]);
                        }
                    }
                }
            }
        }
    }
}

/// A tick whose batch holds a `Quit` stops the agent, and sends each listener
/// registered at that time exactly one `Quit` event (and nobody else any).
pub proof fn lemma_quit_reaches_every_listener(
    s: AgentView,
    cmds: Seq<AgentCommand>,
    now: u64,
    l: u64,
)
    requires
        s.wf(),
        s.running,
        holds_quit(cmds),
    ensures
        !s.tick(cmds, now).0.running,
        occurrences(s.tick(cmds, now).1, EffectView::Deliver(l, EventView::Quit)) == if s.listeners.contains(
            l,
        ) {
            1nat
        } else {
            0nat
        },
{
    lemma_batch_quit(s, cmds, now, l);
}

/// `s` with every occurrence of `id` taken out, the rest in order.
pub open spec fn without(s: Seq<u64>, id: u64) -> Seq<u64>
    decreases s.len(),
{
    if s.len() == 0 {
        s
    } else if s.last() == id {
        without(s.drop_last(), id)
    } else {
        without(s.drop_last(), id).push(s.last())
    }
}

proof fn lemma_without_absent(s: Seq<u64>, id: u64)
    requires
        forall|j: int| 0 <= j < s.len() ==> s[j] != id,
    ensures
        without(s, id) == s,
    decreases s.len(),
{
    if s.len() > 0 {
        lemma_without_absent(s.drop_last(), id);
        assert(s.drop_last().push(s.last()) =~= s);
    }
}

proof fn lemma_remove_unique(s: Seq<u64>, i: int, id: u64)
    requires
        s.no_duplicates(),
        0 <= i < s.len(),
        s[i] == id,
    ensures
        without(s, id) == s.remove(i),
        s.remove(i).no_duplicates(),
    decreases s.len(),
{
    if i == s.len() - 1 {
        assert(s.remove(i) =~= s.drop_last());
        assert forall|j: int| 0 <= j < s.drop_last().len() implies s.drop_last()[j] != id by {
            assert(s[j] != s[i]);
        }
        lemma_without_absent(s.drop_last(), id);
    } else {
        let prev = s.drop_last();
        assert(prev.no_duplicates()) by {
            assert forall|a: int, b: int| 0 <= a < prev.len() && 0 <= b < prev.len() && a != b
                implies prev[a] != prev[b] by {
                assert(prev[a] == s[a] && prev[b] == s[b]);
            }
        }
        assert(prev[i] == id);
        lemma_remove_unique(prev, i, id);
        assert(s.last() != id) by {
            assert(s[s.len() - 1] != s[i]);
        }
        assert(s.remove(i) =~= prev.remove(i).push(s.last()));
    }
    assert(s.remove(i).no_duplicates()) by {
        assert forall|a: int, b: int| 0 <= a < s.remove(i).len() && 0 <= b < s.remove(i).len()
            && a != b implies s.remove(i)[a] != s.remove(i)[b] by {
            let ia = if a < i { a } else { a + 1 };
            let ib = if b < i { b } else { b + 1 };
            assert(s.remove(i)[a] == s[ia] && s.remove(i)[b] == s[ib]);
        }
    }
}

} // verus!
