use time_tracker::activity::UserState;
use time_tracker::agent::{AgentCommand, AgentState, Effect, UIControl, UIEvent};
use time_tracker::settings::Settings;
use time_tracker::tasks::{Priority, Task};

fn settings(timeout_secs: u64, start_counts: bool) -> Settings {
    Settings {
        auto_sync_interval_seconds: 30,
        active_timeout_seconds: timeout_secs,
        local_database_path: "sessions.db".to_string(),
        uid: "user-1".to_string(),
        open_ui_at_start_up: true,
        start_session_counts_as_activity: start_counts,
    }
}

fn saved_sessions(effects: &[Effect]) -> Vec<(i64, String, u64, String)> {
    let mut out = Vec::new();
    for e in effects {
        if let Effect::SaveSession { session } = e {
            out.push((
                session.s_task,
                session.s_user.clone(),
                session.s_duration,
                session.s_comment.clone(),
            ));
        }
    }
    out
}

fn quits_to(effects: &[Effect], id: u64) -> usize {
    effects
        .iter()
        .filter(|e| matches!(e, Effect::Deliver { listener, event: UIEvent::Quit } if *listener == id))
        .count()
}

fn user_states(effects: &[Effect]) -> Vec<UserState> {
    let mut out = Vec::new();
    for e in effects {
        if let Effect::Deliver { event: UIEvent::UserState { state }, .. } = e {
            out.push(*state);
        }
    }
    out
}

#[test]
fn new_agent_is_running_and_idle_free() {
    let agent = AgentState::new(&settings(15, false), 1_000);
    assert!(agent.is_running());
    assert!(!agent.task_in_progress());
    assert_eq!(agent.user_state(), UserState::Active);
    assert_eq!(agent.elapsed(50_000), 0);
    assert!(agent.listeners().is_empty());
}

#[test]
fn session_duration_excludes_idle_time() {
    // timeout 15 s; activity every 5 s until t = 20 s, then none; the idle check
    // at t = 35 s pauses the session, which ends at t = 50 s
    let mut agent = AgentState::new(&settings(15, false), 0);
    agent.register_listener(1);
    agent.tick(&vec![AgentCommand::StartSession { id: 1 }, AgentCommand::UserActivity { time_stamp: 0 }], 0);
    let mut now = 1_000;
    let mut saved = Vec::new();
    while now <= 50_000 {
        let mut batch = Vec::new();
        if now <= 20_000 && now % 5_000 == 0 {
            batch.push(AgentCommand::UserActivity { time_stamp: now });
        }
        if now == 50_000 {
            batch.push(AgentCommand::EndSession { comment: "work".to_string() });
        }
        let out = agent.tick(&batch, now);
        if now == 34_000 {
            assert_eq!(agent.user_state(), UserState::Active);
        }
        if now == 35_000 {
            assert_eq!(user_states(&out.effects), vec![UserState::Idle]);
            assert_eq!(agent.elapsed(40_000), 35_000);
        }
        saved.extend(saved_sessions(&out.effects));
        now += 1_000;
    }
    assert_eq!(saved.len(), 1);
    let (task, user, duration, comment) = &saved[0];
    assert_eq!(*task, 1);
    assert_eq!(user, "user-1");
    assert_eq!(comment, "work");
    // the 15 idle seconds after the pause are not counted
    assert_eq!(*duration, 35);
    assert!(*duration < 50);
    assert!(!agent.task_in_progress());
    assert_eq!(agent.elapsed(60_000), 0);
}

#[test]
fn start_and_end_in_one_batch_save_one_session() {
    // the deadline has passed by the time of the tick: the batch still runs
    // before the idle check
    let mut agent = AgentState::new(&settings(15, false), 0);
    agent.register_listener(9);
    let out = agent.tick(
        &vec![
            AgentCommand::StartSession { id: 5 },
            AgentCommand::EndSession { comment: "done".to_string() },
        ],
        60_000,
    );
    let saved = saved_sessions(&out.effects);
    assert_eq!(saved, vec![(5, "user-1".to_string(), 0, "done".to_string())]);
    assert!(matches!(out.effects[0], Effect::SaveSession { .. }));
    // the idle transition comes after the batch, never between its commands
    assert_eq!(out.effects.len(), 2);
    assert!(matches!(
        out.effects[1],
        Effect::Deliver { listener: 9, event: UIEvent::UserState { state: UserState::Idle } }
    ));
    assert!(!agent.task_in_progress());
}

#[test]
fn quit_reaches_every_listener_once() {
    let mut agent = AgentState::new(&settings(15, false), 0);
    assert!(agent.register_listener(1));
    assert!(agent.register_listener(2));
    assert!(!agent.register_listener(1));
    let out = agent.tick(
        &vec![AgentCommand::ElapsedTime, AgentCommand::Quit, AgentCommand::ShowUI, AgentCommand::Quit],
        1_000,
    );
    assert!(!agent.is_running());
    assert_eq!(quits_to(&out.effects, 1), 1);
    assert_eq!(quits_to(&out.effects, 2), 1);
    let controls: Vec<UIControl> = out
        .effects
        .iter()
        .filter_map(|e| match e {
            Effect::Control { signal } => Some(*signal),
            _ => None,
        })
        .collect();
    assert_eq!(controls, vec![UIControl::Quit]);
    assert_eq!(out.wake_after, None);
    // a stopped agent ignores later commands
    let later = agent.tick(&vec![AgentCommand::ShowUI, AgentCommand::Quit], 2_000);
    assert!(later.effects.is_empty());
}

#[test]
fn quit_without_listeners_still_stops() {
    let mut agent = AgentState::new(&settings(15, false), 0);
    let out = agent.tick(&vec![AgentCommand::Quit], 0);
    assert!(!agent.is_running());
    assert_eq!(out.effects.len(), 1);
    assert!(matches!(out.effects[0], Effect::Control { signal: UIControl::Quit }));
}

#[test]
fn unregistered_listener_hears_nothing() {
    let mut agent = AgentState::new(&settings(15, false), 0);
    agent.register_listener(1);
    agent.register_listener(2);
    agent.register_listener(3);
    assert!(agent.unregister_listener(2));
    assert!(!agent.unregister_listener(2));
    assert_eq!(agent.listeners(), &vec![1, 3]);
    let out = agent.tick(&vec![AgentCommand::Quit], 0);
    assert_eq!(quits_to(&out.effects, 1), 1);
    assert_eq!(quits_to(&out.effects, 2), 0);
    assert_eq!(quits_to(&out.effects, 3), 1);
}

#[test]
fn start_session_while_idle_is_paused_by_next_check() {
    // the session start is not input: with a stale last activity the idle
    // check that follows the batch pauses the session at once
    let mut agent = AgentState::new(&settings(5, false), 0);
    agent.tick(&vec![], 10_000);
    assert_eq!(agent.user_state(), UserState::Idle);
    let out = agent.tick(&vec![AgentCommand::StartSession { id: 3 }], 20_000);
    assert!(out.effects.is_empty());
    assert!(agent.task_in_progress());
    assert_eq!(agent.user_state(), UserState::Idle);
    assert_eq!(agent.elapsed(30_000), 0);
    agent.tick(&vec![AgentCommand::UserActivity { time_stamp: 31_000 }], 31_000);
    assert_eq!(agent.user_state(), UserState::Active);
    assert_eq!(agent.elapsed(33_000), 2_000);
}

#[test]
fn start_session_counts_as_activity_when_configured() {
    let mut agent = AgentState::new(&settings(5, true), 0);
    agent.register_listener(4);
    agent.tick(&vec![], 10_000);
    assert_eq!(agent.user_state(), UserState::Idle);
    let out = agent.tick(&vec![AgentCommand::StartSession { id: 3 }], 20_000);
    assert_eq!(agent.user_state(), UserState::Active);
    assert_eq!(user_states(&out.effects), vec![UserState::Active]);
    assert_eq!(out.wake_after, Some(5_000));
    agent.tick(&vec![], 24_000);
    assert_eq!(agent.user_state(), UserState::Active);
    let out = agent.tick(&vec![], 25_000);
    assert_eq!(user_states(&out.effects), vec![UserState::Idle]);
    assert_eq!(agent.elapsed(40_000), 5_000);
}

#[test]
fn activity_resumes_paused_session() {
    let mut agent = AgentState::new(&settings(5, false), 0);
    agent.tick(&vec![AgentCommand::StartSession { id: 2 }], 0);
    agent.tick(&vec![], 5_000);
    assert_eq!(agent.user_state(), UserState::Idle);
    assert_eq!(agent.elapsed(8_000), 5_000);
    let out = agent.tick(&vec![AgentCommand::UserActivity { time_stamp: 9_000 }], 9_000);
    assert_eq!(out.wake_after, Some(5_000));
    assert_eq!(agent.elapsed(10_000), 6_000);
}

#[test]
fn update_stopwatch_only_with_open_session() {
    let mut agent = AgentState::new(&settings(100, false), 0);
    agent.tick(&vec![AgentCommand::UpdateStopWatch { running: true }], 1_000);
    assert_eq!(agent.elapsed(5_000), 0);
    agent.tick(&vec![AgentCommand::StartSession { id: 1 }], 1_000);
    agent.tick(&vec![AgentCommand::UpdateStopWatch { running: false }], 3_000);
    assert_eq!(agent.elapsed(9_000), 2_000);
    agent.tick(&vec![AgentCommand::UpdateStopWatch { running: true }], 10_000);
    assert_eq!(agent.elapsed(11_000), 3_000);
}

#[test]
fn requests_are_answered_to_every_listener() {
    let mut agent = AgentState::new(&settings(100, false), 0);
    agent.register_listener(1);
    agent.register_listener(2);
    agent.tick(&vec![AgentCommand::StartSession { id: 1 }], 1_000);
    let out = agent.tick(&vec![AgentCommand::ElapsedTime, AgentCommand::RequestTaskState], 4_000);
    assert_eq!(out.effects.len(), 4);
    assert!(matches!(out.effects[0], Effect::Deliver { listener: 1, event: UIEvent::ElapsedTime { elapsed: 3_000 } }));
    assert!(matches!(out.effects[1], Effect::Deliver { listener: 2, event: UIEvent::ElapsedTime { elapsed: 3_000 } }));
    assert!(matches!(out.effects[2], Effect::Deliver { listener: 1, event: UIEvent::ProgressState { state: true } }));
    assert!(matches!(out.effects[3], Effect::Deliver { listener: 2, event: UIEvent::ProgressState { state: true } }));
}

#[test]
fn task_commands_become_storage_effects() {
    let mut agent = AgentState::new(&settings(100, false), 0);
    agent.register_listener(1);
    let task = Task { t_id: 0, t_name: "review".to_string(), t_priority: Priority::Medium };
    let out = agent.tick(&vec![AgentCommand::AddTask { task }, AgentCommand::RequestTaskList, AgentCommand::ShowUI], 0);
    assert_eq!(out.effects.len(), 3);
    match &out.effects[0] {
        Effect::SaveTask { task } => {
            assert_eq!(task.t_name, "review");
            assert_eq!(task.t_priority, Priority::Medium);
        }
        _ => panic!("expected a task to store"),
    }
    assert!(matches!(out.effects[1], Effect::LoadTasks));
    assert!(matches!(out.effects[2], Effect::Control { signal: UIControl::Show }));
    let loaded = vec![
        Task { t_id: 1, t_name: "a".to_string(), t_priority: Priority::Low },
        Task { t_id: 2, t_name: "b".to_string(), t_priority: Priority::High },
    ];
    let delivered = agent.task_list_loaded(&loaded);
    assert_eq!(delivered.len(), 1);
    match &delivered[0] {
        Effect::Deliver { listener: 1, event: UIEvent::TaskList { task_list } } => {
            assert_eq!(task_list.len(), 2);
            assert_eq!(task_list[0].t_name, "a");
            assert_eq!(task_list[1].t_id, 2);
        }
        _ => panic!("expected the task list"),
    }
}

#[test]
fn storage_failure_is_reported_not_fatal() {
    let mut agent = AgentState::new(&settings(100, false), 0);
    agent.register_listener(1);
    agent.register_listener(2);
    let report = agent.storage_failed(&"disk full".to_string());
    assert_eq!(report.len(), 2);
    for (i, e) in report.iter().enumerate() {
        match e {
            Effect::Deliver { listener, event: UIEvent::StorageError { message } } => {
                assert_eq!(*listener, i as u64 + 1);
                assert_eq!(message, "disk full");
            }
            _ => panic!("expected an error report"),
        }
    }
    assert!(agent.is_running());
    let out = agent.tick(&vec![AgentCommand::RequestTaskState], 0);
    assert_eq!(out.effects.len(), 2);
}

#[test]
fn end_without_session_saves_empty_record() {
    let mut agent = AgentState::new(&settings(100, false), 0);
    let out = agent.tick(&vec![AgentCommand::EndSession { comment: String::new() }], 5_000);
    assert_eq!(saved_sessions(&out.effects), vec![(1, "user-1".to_string(), 0, String::new())]);
}
