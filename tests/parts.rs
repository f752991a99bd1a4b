use command_center::domain::{default_allow_arguments, CommandDefinition, ExecutionLog, ExecutionStatus};
use command_center::error::CenterError;
use command_center::header::extract_token;
use command_center::text::{clean_list, is_blank};

#[test]
fn status_names() {
    assert_eq!(ExecutionStatus::Pending.as_str(), "pending");
    assert_eq!(ExecutionStatus::Running.as_str(), "running");
    assert_eq!(ExecutionStatus::Success.as_str(), "success");
    assert_eq!(ExecutionStatus::Error.as_str(), "error");
}

#[test]
fn mutations_allow_arguments_by_default() {
    assert!(default_allow_arguments());
}

#[test]
fn new_definition_and_log() {
    let c = CommandDefinition::new("Echo".to_string(), "/bin/echo".to_string());
    assert_eq!(c.id.len(), 36);
    assert_eq!(c.created_at, c.updated_at);
    assert!(c.created_at > 1_600_000_000_000);
    assert!(c.allow_arguments);
    let log = ExecutionLog::new(&c, "me".to_string(), vec!["x".to_string()]);
    assert_ne!(log.id, c.id);
    assert_eq!(log.command_id, c.id);
    assert_eq!(log.status, ExecutionStatus::Pending);
    assert_eq!(log.output, "");
    assert_eq!(log.finished_at, None);
}

#[test]
fn bearer_tokens() {
    assert_eq!(extract_token(Some("Bearer abc")), Some("abc".to_string()));
    assert_eq!(extract_token(Some("Bearer ")), Some("".to_string()));
    assert_eq!(extract_token(Some("bearer abc")), None);
    assert_eq!(extract_token(Some("Basic abc")), None);
    assert_eq!(extract_token(Some("Bear")), None);
    assert_eq!(extract_token(None), None);
}

#[test]
fn trimming_helpers() {
    assert!(is_blank(" \t\n"));
    assert!(!is_blank(" x "));
    let cleaned = clean_list(&vec![" a ".to_string(), "".to_string(), "\tb".to_string()]);
    assert_eq!(cleaned, vec!["a".to_string(), "b".to_string()]);
}

#[test]
fn error_messages() {
    let e = CenterError::ArgumentsNotAllowed { command: "Fixed".to_string() };
    assert_eq!(e.message(), "Command 'Fixed' does not allow runtime parameters");
    assert_eq!(CenterError::CommandNotFound.message(), "Command not found");
    assert_eq!(CenterError::NameRequired.message(), "Command name is required");
    assert_eq!(CenterError::InvalidCredentials.message(), "Invalid username or password");
    assert_eq!(CenterError::PasswordRequired.message(), "Password is required");
}
