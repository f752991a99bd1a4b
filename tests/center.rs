use command_center::domain::{CommandMutation, ExecutionStatus, ServerEvent};
use command_center::engine::ProcessOutcome;
use command_center::error::CenterError;
use command_center::state::{CommandCenter, ExecutionJob};
use tokio::sync::broadcast::error::TryRecvError;

fn mutation(name: &str, executable: &str, args: &[&str], allow: bool) -> CommandMutation {
    CommandMutation {
        id: None,
        name: name.to_string(),
        executable: executable.to_string(),
        args: args.iter().map(|a| a.to_string()).collect(),
        description: None,
        tags: Vec::new(),
        allow_arguments: allow,
    }
}

fn echo_center() -> (CommandCenter, String) {
    let mut center = CommandCenter::empty();
    let saved = center
        .create_or_update_command(mutation("Echo", "/bin/echo", &["hi"], true))
        .unwrap();
    (center, saved.id)
}

fn exited(success: bool, code: Option<i32>, stdout: &[u8], stderr: &[u8]) -> ProcessOutcome {
    ProcessOutcome::Exited { success, code, stdout: stdout.to_vec(), stderr: stderr.to_vec() }
}

#[test]
fn new_command_has_equal_timestamps_and_stable_id() {
    let mut center = CommandCenter::empty();
    let c = center
        .create_or_update_command_at(mutation("Build", "/usr/bin/make", &[], true), "id-1".to_string(), 10)
        .unwrap();
    assert_eq!(c.id, "id-1");
    assert_eq!(c.created_at, 10);
    assert_eq!(c.updated_at, 10);
    let listed = center.list_commands();
    assert_eq!(listed.len(), 1);
    assert_eq!(listed[0].id, "id-1");
    assert_eq!(center.command("id-1").unwrap().name, "Build");
}

#[test]
fn update_keeps_creation_time() {
    let mut center = CommandCenter::empty();
    let c = center
        .create_or_update_command_at(mutation("Build", "/usr/bin/make", &[], true), "id-1".to_string(), 10)
        .unwrap();
    let mut m = mutation("Rebuild", "/usr/bin/make", &["all"], true);
    m.id = Some(c.id.clone());
    let u = center.create_or_update_command_at(m, "unused".to_string(), 20).unwrap();
    assert_eq!(u.id, "id-1");
    assert_eq!(u.name, "Rebuild");
    assert_eq!(u.created_at, 10);
    assert_eq!(u.updated_at, 20);
    assert_eq!(center.list_commands().len(), 1);
}

#[test]
fn upsert_with_unknown_id_creates_under_a_fresh_id() {
    let mut center = CommandCenter::empty();
    let mut m = mutation("Build", "/usr/bin/make", &[], true);
    m.id = Some("chosen".to_string());
    let c = center.create_or_update_command_at(m, "fresh".to_string(), 5).unwrap();
    assert_eq!(c.id, "fresh");
    assert_eq!(c.created_at, 5);
    assert!(center.command("chosen").is_none());
    let mut m = mutation("Other", "/bin/true", &[], true);
    m.id = Some("unknown".to_string());
    let d = center.create_or_update_command(m).unwrap();
    assert_eq!(d.id.len(), 36);
    assert_eq!(d.created_at, d.updated_at);
}

#[test]
fn fresh_id_that_is_taken_is_not_reused() {
    let mut center = CommandCenter::empty();
    center
        .create_or_update_command_at(mutation("A", "/bin/true", &[], true), "taken".to_string(), 1)
        .unwrap();
    let c = center
        .create_or_update_command_at(mutation("B", "/bin/true", &[], true), "taken".to_string(), 2)
        .unwrap();
    assert_eq!(c.name, "B");
    assert_eq!(center.list_commands().len(), 1);
    let d = center.create_or_update_command(mutation("C", "/bin/true", &[], true)).unwrap();
    assert_ne!(d.id, "taken");
    assert_eq!(center.list_commands().len(), 2);
}

#[test]
fn upsert_publishes_created_then_updated() {
    let mut center = CommandCenter::empty();
    let mut rx = center.subscribe();
    let c = center.create_or_update_command(mutation("A", "/bin/true", &[], true)).unwrap();
    let mut m = mutation("B", "/bin/true", &[], true);
    m.id = Some(c.id.clone());
    center.create_or_update_command(m).unwrap();
    assert!(matches!(rx.try_recv(), Ok(ServerEvent::CommandCreated(d)) if d.name == "A"));
    assert!(matches!(rx.try_recv(), Ok(ServerEvent::CommandUpdated(d)) if d.name == "B"));
    assert!(matches!(rx.try_recv(), Err(TryRecvError::Empty)));
}

#[test]
fn upsert_rejects_blank_name_and_executable() {
    let mut center = CommandCenter::empty();
    let r = center.create_or_update_command(mutation("   ", "/bin/true", &[], true));
    assert!(matches!(r, Err(CenterError::NameRequired)));
    let r = center.create_or_update_command(mutation("Name", " \t ", &[], true));
    assert!(matches!(r, Err(CenterError::ExecutableRequired)));
    assert_eq!(center.list_commands().len(), 0);
}

#[test]
fn upsert_cleans_arguments_tags_and_description() {
    let mut center = CommandCenter::empty();
    let mut m = mutation("Echo", "/bin/echo", &["  a ", "", "   ", "b"], true);
    m.tags = vec![" t1 ".to_string(), "".to_string()];
    m.description = Some("  says things  ".to_string());
    let c = center.create_or_update_command(m).unwrap();
    assert_eq!(c.args, vec!["a".to_string(), "b".to_string()]);
    assert_eq!(c.tags, vec!["t1".to_string()]);
    assert_eq!(c.description, Some("says things".to_string()));
    let mut blank = mutation("Other", "/bin/echo", &[], true);
    blank.description = Some("   ".to_string());
    assert_eq!(center.create_or_update_command(blank).unwrap().description, None);
}

#[test]
fn list_commands_ignores_case() {
    let mut center = CommandCenter::empty();
    for name in ["gamma", "Alpha", "beta", "Delta"] {
        center.create_or_update_command(mutation(name, "/bin/true", &[], true)).unwrap();
    }
    let names: Vec<String> = center.list_commands().into_iter().map(|c| c.name).collect();
    assert_eq!(names, vec!["Alpha", "beta", "Delta", "gamma"]);
}

#[test]
fn execute_without_override_runs_defaults() {
    let (mut center, id) = echo_center();
    let mut rx = center.subscribe();
    let job: ExecutionJob = center.execute_command(&id, None, "alice".to_string()).unwrap();
    assert_eq!(job.executable, "/bin/echo");
    assert_eq!(job.log.parameters, vec!["hi".to_string()]);
    assert_eq!(job.log.status, ExecutionStatus::Pending);
    assert_eq!(job.log.finished_at, None);
    assert_eq!(job.log.command_name, "Echo");
    assert_eq!(job.log.requested_by, "alice");
    let log_id = job.log.id.clone();
    let running = center.mark_running(job.log);
    assert_eq!(running.status, ExecutionStatus::Running);
    let done = center.complete_execution(running, exited(true, Some(0), b"hi\n", b""));
    assert_eq!(done.status, ExecutionStatus::Success);
    assert_eq!(done.output, "hi\n");
    assert_eq!(done.error, None);
    assert!(done.finished_at.is_some());
    assert_eq!(done.parameters, vec!["hi".to_string()]);
    match rx.try_recv() {
        Ok(ServerEvent::ExecutionStarted(l)) => {
            assert_eq!(l.id, log_id);
            assert_eq!(l.status, ExecutionStatus::Pending);
        }
        other => panic!("unexpected {:?}", other),
    }
    match rx.try_recv() {
        Ok(ServerEvent::ExecutionUpdated(l)) => {
            assert_eq!(l.id, log_id);
            assert_eq!(l.status, ExecutionStatus::Running);
        }
        other => panic!("unexpected {:?}", other),
    }
    match rx.try_recv() {
        Ok(ServerEvent::ExecutionFinished(l)) => {
            assert_eq!(l.id, log_id);
            assert_eq!(l.status, ExecutionStatus::Success);
            assert!(l.finished_at.is_some());
        }
        other => panic!("unexpected {:?}", other),
    }
    let history = center.list_history(None);
    assert_eq!(history.len(), 1);
    assert_eq!(history[0].status, ExecutionStatus::Success);
    assert_eq!(history[0].output, "hi\n");
}

#[test]
fn execute_with_override_uses_it() {
    let (mut center, id) = echo_center();
    let job = center.execute_command(&id, Some(vec!["bye".to_string()]), "bob".to_string()).unwrap();
    assert_eq!(job.log.parameters, vec!["bye".to_string()]);
    assert_eq!(center.command(&id).unwrap().args, vec!["hi".to_string()]);
    let overridden = center
        .execute_command(&id, Some(vec!["  x ".to_string(), " ".to_string()]), "bob".to_string())
        .unwrap();
    assert_eq!(overridden.log.parameters, vec!["x".to_string()]);
}

#[test]
fn launch_failure_is_an_error_without_output() {
    let mut center = CommandCenter::empty();
    let c = center
        .create_or_update_command(mutation("Missing", "/no/such/binary", &[], true))
        .unwrap();
    let job = center.execute_command(&c.id, None, "op".to_string()).unwrap();
    let running = center.mark_running(job.log);
    let message = "No such file or directory (os error 2)".to_string();
    let done = center.complete_execution(running, ProcessOutcome::LaunchFailed { message });
    assert_eq!(done.status, ExecutionStatus::Error);
    assert!(done.error.unwrap().contains("No such file or directory"));
    assert_eq!(done.output, "");
    assert!(done.finished_at.is_some());
}

#[test]
fn failed_exit_message_embeds_code_and_stderr() {
    let (mut center, id) = echo_center();
    let job = center.execute_command(&id, None, "op".to_string()).unwrap();
    let done = center.complete_execution_at(job.log, exited(false, Some(2), b"", b"  boom \n"), 99);
    assert_eq!(done.status, ExecutionStatus::Error);
    assert_eq!(done.error, Some("Process exited with status 2: boom".to_string()));
    assert_eq!(done.output, "  boom \n");
    assert_eq!(done.finished_at, Some(99));
}

#[test]
fn failed_exit_without_stderr_or_code() {
    let (mut center, id) = echo_center();
    let job = center.execute_command(&id, None, "op".to_string()).unwrap();
    let done = center.complete_execution_at(job.log, exited(false, None, b"partial", b""), 7);
    assert_eq!(done.error, Some("Process exited with status -1".to_string()));
    assert_eq!(done.output, "partial");
    let job = center.execute_command(&id, None, "op".to_string()).unwrap();
    let done = center.complete_execution_at(job.log, exited(false, Some(-123), b"", b""), 8);
    assert_eq!(done.error, Some("Process exited with status -123".to_string()));
}

#[test]
fn success_with_empty_stdout_keeps_stderr() {
    let (mut center, id) = echo_center();
    let job = center.execute_command(&id, None, "op".to_string()).unwrap();
    let done = center.complete_execution_at(job.log, exited(true, Some(0), b"", b"warn\xff"), 1);
    assert_eq!(done.status, ExecutionStatus::Success);
    assert_eq!(done.output, "warn\u{fffd}");
}

#[test]
fn execute_rejects_override_when_not_allowed() {
    let mut center = CommandCenter::empty();
    let c = center.create_or_update_command(mutation("Fixed", "/bin/ls", &["-l"], false)).unwrap();
    let mut rx = center.subscribe();
    let r = center.execute_command(&c.id, Some(vec!["-a".to_string()]), "op".to_string());
    match r {
        Err(CenterError::ArgumentsNotAllowed { command }) => assert_eq!(command, "Fixed"),
        other => panic!("unexpected {:?}", other.map(|j| j.log.id)),
    }
    assert_eq!(center.list_history(None).len(), 0);
    assert!(matches!(rx.try_recv(), Err(TryRecvError::Empty)));
    let ok = center.execute_command(&c.id, None, "op".to_string()).unwrap();
    assert_eq!(ok.log.parameters, vec!["-l".to_string()]);
}

#[test]
fn execute_unknown_command_fails() {
    let mut center = CommandCenter::empty();
    let r = center.execute_command("nope", None, "op".to_string());
    assert!(matches!(r, Err(CenterError::CommandNotFound)));
    assert_eq!(center.list_history(None).len(), 0);
}

#[test]
fn history_is_bounded_and_newest_first() {
    let (mut center, id) = echo_center();
    let mut ids = Vec::new();
    for i in 0..205 {
        let job = center.execute_command_at(&id, None, "op".to_string(), format!("log-{}", i), i).unwrap();
        ids.push(job.log.id);
    }
    assert_eq!(center.list_history(Some(1000)).len(), 200);
    assert_eq!(center.list_history(None).len(), 50);
    let five: Vec<String> = center.list_history(Some(5)).into_iter().map(|l| l.id).collect();
    assert_eq!(five, vec!["log-204", "log-203", "log-202", "log-201", "log-200"]);
    let all = center.list_history(Some(1000));
    assert_eq!(all[199].id, "log-5");
}

#[test]
fn delete_unknown_command_emits_nothing() {
    let (mut center, id) = echo_center();
    let mut rx = center.subscribe();
    assert!(matches!(center.delete_command("missing"), Err(CenterError::CommandNotFound)));
    assert!(matches!(rx.try_recv(), Err(TryRecvError::Empty)));
    assert!(center.delete_command(&id).is_ok());
    assert!(matches!(rx.try_recv(), Ok(ServerEvent::CommandDeleted { id: d }) if d == id));
    assert!(center.command(&id).is_none());
    assert!(matches!(center.delete_command(&id), Err(CenterError::CommandNotFound)));
}

#[test]
fn login_failures_are_indistinguishable() {
    let mut center = CommandCenter::empty();
    center.set_password("operator".to_string(), "s3cret".to_string()).unwrap();
    let wrong = center.login("operator", "wrong").unwrap_err();
    let unknown = center.login("nobody", "s3cret").unwrap_err();
    assert!(matches!(wrong, CenterError::InvalidCredentials));
    assert!(matches!(unknown, CenterError::InvalidCredentials));
    assert_eq!(wrong.message(), unknown.message());
    assert_eq!(wrong.message(), "Invalid username or password");
    let s = center.login("operator", "s3cret").unwrap();
    assert_eq!(s.username, "operator");
    assert_eq!(s.token.len(), 36);
    assert_eq!(s.expires_at - s.created_at, 86_400_000);
    assert!(center.validate_token(&s.token).is_some());
}

#[test]
fn default_admin_can_log_in() {
    let mut center = CommandCenter::new();
    assert!(center.login("admin", "admin123").is_ok());
    assert!(matches!(center.login("admin", "admin"), Err(CenterError::InvalidCredentials)));
    let commands = center.list_commands();
    assert_eq!(commands.len(), 2);
    assert_eq!(commands[0].name, "List running processes");
    assert_eq!(commands[0].executable, "/bin/ps");
    assert_eq!(commands[0].args, vec!["aux".to_string()]);
    assert_eq!(commands[1].name, "Ping remote host");
    assert_eq!(commands[1].executable, "/sbin/ping");
    assert_eq!(commands[1].args, vec!["-c".to_string(), "4".to_string(), "127.0.0.1".to_string()]);
    for c in &commands {
        assert_eq!(c.tags, vec!["sample".to_string()]);
        assert_eq!(c.created_at, c.updated_at);
        assert_eq!(c.id.len(), 36);
    }
    assert_ne!(commands[0].id, commands[1].id);
    assert_eq!(center.list_history(None).len(), 0);
}

#[test]
fn delete_unknown_on_new_center_emits_nothing() {
    let mut center = CommandCenter::new();
    let mut rx = center.subscribe();
    assert!(matches!(center.delete_command("no-such-id"), Err(CenterError::CommandNotFound)));
    assert!(matches!(rx.try_recv(), Err(TryRecvError::Empty)));
    assert_eq!(center.list_commands().len(), 2);
}

#[test]
fn session_expires_at_its_expiry() {
    let mut center = CommandCenter::empty();
    center.set_password("op".to_string(), "pw".to_string()).unwrap();
    let s = center.login_at("op", "pw", "tok".to_string(), 1_000).unwrap();
    assert_eq!(s.expires_at, 1_000 + 86_400_000);
    assert!(center.validate_token_at("tok", s.expires_at - 1).is_some());
    assert!(!s.is_expired_at(s.expires_at - 1));
    assert!(s.is_expired_at(s.expires_at));
    assert!(center.validate_token_at("tok", s.expires_at).is_none());
    assert!(center.validate_token_at("tok", 1_000).is_none());
    assert!(center.validate_token_at("other", 1_000).is_none());
}

#[test]
fn active_sessions_drop_expired_ones() {
    let mut center = CommandCenter::empty();
    center.set_password("op".to_string(), "pw".to_string()).unwrap();
    center.login_at("op", "pw", "early".to_string(), 0).unwrap();
    center.login_at("op", "pw", "late".to_string(), 50_000_000).unwrap();
    let active = center.active_sessions_at(90_000_000);
    assert_eq!(active.len(), 1);
    assert_eq!(active[0].token, "late");
    assert_eq!(center.active_sessions_at(200_000_000).len(), 0);
}

#[test]
fn set_password_validates_and_replaces() {
    let mut center = CommandCenter::empty();
    assert!(matches!(center.set_password(" ".to_string(), "pw".to_string()), Err(CenterError::UsernameRequired)));
    assert!(matches!(center.set_password("op".to_string(), "  ".to_string()), Err(CenterError::PasswordRequired)));
    center.set_password("op".to_string(), "first".to_string()).unwrap();
    center.set_password("op".to_string(), "second".to_string()).unwrap();
    assert!(center.login("op", "first").is_err());
    assert!(center.login("op", "second").is_ok());
}
