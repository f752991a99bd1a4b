use vstd::prelude::*;

use crate::sources::{fresh_id, now_millis, TIMESTAMP_BOUND};
use crate::text::{copy_opt_text, copy_text, copy_texts, opt_text, texts};

verus! {

/// A runnable command: an executable with default arguments.
#[derive(Debug, Clone)]
pub struct CommandDefinition {
    pub id: String,
    pub name: String,
    pub executable: String,
    pub args: Vec<String>,
    pub description: Option<String>,
    pub tags: Vec<String>,
    pub allow_arguments: bool,
    pub created_at: i64,
    pub updated_at: i64,
}

/// The contents of a command definition.
pub struct CommandView {
    pub id: Seq<char>,
    pub name: Seq<char>,
    pub executable: Seq<char>,
    pub args: Seq<Seq<char>>,
    pub description: Option<Seq<char>>,
    pub tags: Seq<Seq<char>>,
    pub allow_arguments: bool,
    pub created_at: i64,
    pub updated_at: i64,
}

impl View for CommandDefinition {
    type V = CommandView;

    open spec fn view(&self) -> CommandView {
        CommandView {
            id: self.id@,
            name: self.name@,
            executable: self.executable@,
            args: texts(self.args@),
            description: opt_text(self.description),
            tags: texts(self.tags@),
            allow_arguments: self.allow_arguments,
            created_at: self.created_at,
            updated_at: self.updated_at,
        }
    }
}

impl CommandDefinition {
    /// A command with a fresh id, no arguments, description or tags, that
    /// allows arguments at execution time, created and updated now.
    pub fn new(name: String, executable: String) -> (r: CommandDefinition)
        ensures
            r.id@.len() == 36,
            r.name@ == name@,
            r.executable@ == executable@,
            r.args@.len() == 0,
            r.description is None,
            r.tags@.len() == 0,
            r.allow_arguments,
            r.created_at == r.updated_at,
            -TIMESTAMP_BOUND < r.created_at < TIMESTAMP_BOUND,
    {
        let now = now_millis();
        CommandDefinition {
            id: fresh_id(),
            name,
            executable,
            args: Vec::new(),
            description: None,
            tags: Vec::new(),
            allow_arguments: true,
            created_at: now,
            updated_at: now,
        }
    }

    /// A definition with the same contents.
    pub fn copy(&self) -> (r: CommandDefinition)
        ensures
            r@ == self@,
    {
        CommandDefinition {
            id: copy_text(&self.id),
            name: copy_text(&self.name),
            executable: copy_text(&self.executable),
            args: copy_texts(&self.args),
            description: copy_opt_text(&self.description),
            tags: copy_texts(&self.tags),
            allow_arguments: self.allow_arguments,
            created_at: self.created_at,
            updated_at: self.updated_at,
        }
    }
}

/// A request to create a command, or to replace the one with the given id.
#[derive(Debug)]
pub struct CommandMutation {
    pub id: Option<String>,
    pub name: String,
    pub executable: String,
    pub args: Vec<String>,
    pub description: Option<String>,
    pub tags: Vec<String>,
    pub allow_arguments: bool,
}

/// Whether a mutation that does not say allows arguments at execution time.
pub fn default_allow_arguments() -> (r: bool)
    ensures
        r,
{
    true
}

/// Where an execution stands: it goes from pending to running and then to
/// success or error, and never back.
#[derive(Debug, Clone, Copy, PartialEq, Eq, Structural)]
pub enum ExecutionStatus {
    Pending,
    Running,
    Success,
    Error,
}

/// The lowercase name of a status.
pub open spec fn status_name(s: ExecutionStatus) -> Seq<char> {
    match s {
        ExecutionStatus::Pending => "pending"@,
        ExecutionStatus::Running => "running"@,
        ExecutionStatus::Success => "success"@,
        ExecutionStatus::Error => "error"@,
    }
}

impl ExecutionStatus {
    /// Whether no transition leaves this status.
    pub open spec fn is_terminal(self) -> bool {
        self is Success || self is Error
    }

    pub fn as_str(&self) -> (r: &'static str)
        ensures
            r@ == status_name(*self),
    {
        match self {
            ExecutionStatus::Pending => "pending",
            ExecutionStatus::Running => "running",
            ExecutionStatus::Success => "success",
            ExecutionStatus::Error => "error",
        }
    }
}

/// The record of one execution of a command.
#[derive(Debug, Clone)]
pub struct ExecutionLog {
    pub id: String,
    pub command_id: String,
    pub command_name: String,
    pub requested_by: String,
    pub status: ExecutionStatus,
    pub output: String,
    pub error: Option<String>,
    pub parameters: Vec<String>,
    pub started_at: i64,
    pub finished_at: Option<i64>,
}

/// The contents of an execution record.
pub struct LogView {
    pub id: Seq<char>,
    pub command_id: Seq<char>,
    pub command_name: Seq<char>,
    pub requested_by: Seq<char>,
    pub status: ExecutionStatus,
    pub output: Seq<char>,
    pub error: Option<Seq<char>>,
    pub parameters: Seq<Seq<char>>,
    pub started_at: i64,
    pub finished_at: Option<i64>,
}

impl View for ExecutionLog {
    type V = LogView;

    open spec fn view(&self) -> LogView {
        LogView {
            id: self.id@,
            command_id: self.command_id@,
            command_name: self.command_name@,
            requested_by: self.requested_by@,
            status: self.status,
            output: self.output@,
            error: opt_text(self.error),
            parameters: texts(self.parameters@),
            started_at: self.started_at,
            finished_at: self.finished_at,
        }
    }
}

/// A pending record of an execution of `command`, started at `now`.
pub open spec fn pending_log(
    id: Seq<char>,
    command: CommandView,
    requested_by: Seq<char>,
    parameters: Seq<Seq<char>>,
    now: i64,
) -> LogView {
    LogView {
        id,
        command_id: command.id,
        command_name: command.name,
        requested_by,
        status: ExecutionStatus::Pending,
        output: Seq::empty(),
        error: None,
        parameters,
        started_at: now,
        finished_at: None,
    }
}

impl ExecutionLog {
    /// A pending record with a fresh id, started now.
    pub fn new(command: &CommandDefinition, requested_by: String, parameters: Vec<String>) -> (r:
        ExecutionLog)
        ensures
            r.id@.len() == 36,
            -TIMESTAMP_BOUND < r.started_at < TIMESTAMP_BOUND,
            r@ == pending_log(r.id@, command@, requested_by@, texts(parameters@), r.started_at),
    {
        let id = fresh_id();
        let now = now_millis();
        ExecutionLog::new_at(command, requested_by, parameters, id, now)
    }

    /// A pending record with the given id, started at `now`.
    pub fn new_at(
        command: &CommandDefinition,
        requested_by: String,
        parameters: Vec<String>,
        id: String,
        now: i64,
    ) -> (r: ExecutionLog)
        ensures
            r@ == pending_log(id@, command@, requested_by@, texts(parameters@), now),
    {
        ExecutionLog {
            id,
            command_id: copy_text(&command.id),
            command_name: copy_text(&command.name),
            requested_by,
            status: ExecutionStatus::Pending,
            output: String::new(),
            error: None,
            parameters,
            started_at: now,
            finished_at: None,
        }
    }

    /// A record with the same contents.
    pub fn copy(&self) -> (r: ExecutionLog)
        ensures
            r@ == self@,
    {
        ExecutionLog {
            id: copy_text(&self.id),
            command_id: copy_text(&self.command_id),
            command_name: copy_text(&self.command_name),
            requested_by: copy_text(&self.requested_by),
            status: self.status,
            output: copy_text(&self.output),
            error: copy_opt_text(&self.error),
            parameters: copy_texts(&self.parameters),
            started_at: self.started_at,
            finished_at: self.finished_at,
        }
    }
}

/// A change of state, as published to subscribers.
#[derive(Debug, Clone)]
pub enum ServerEvent {
    CommandCreated(CommandDefinition),
    CommandUpdated(CommandDefinition),
    CommandDeleted { id: String },
    ExecutionStarted(ExecutionLog),
    ExecutionUpdated(ExecutionLog),
    ExecutionFinished(ExecutionLog),
}

/// The contents of an event.
pub enum EventView {
    CommandCreated(CommandView),
    CommandUpdated(CommandView),
    CommandDeleted { id: Seq<char> },
    ExecutionStarted(LogView),
    ExecutionUpdated(LogView),
    ExecutionFinished(LogView),
}

impl View for ServerEvent {
    type V = EventView;

    open spec fn view(&self) -> EventView {
        match self {
            ServerEvent::CommandCreated(c) => EventView::CommandCreated(c@),
            ServerEvent::CommandUpdated(c) => EventView::CommandUpdated(c@),
            ServerEvent::CommandDeleted { id } => EventView::CommandDeleted { id: id@ },
            ServerEvent::ExecutionStarted(l) => EventView::ExecutionStarted(l@),
            ServerEvent::ExecutionUpdated(l) => EventView::ExecutionUpdated(l@),
            ServerEvent::ExecutionFinished(l) => EventView::ExecutionFinished(l@),
        }
    }
}

impl ServerEvent {
    /// An event with the same contents.
    pub fn copy(&self) -> (r: ServerEvent)
        ensures
            r@ == self@,
    {
        match self {
            ServerEvent::CommandCreated(c) => ServerEvent::CommandCreated(c.copy()),
            ServerEvent::CommandUpdated(c) => ServerEvent::CommandUpdated(c.copy()),
            ServerEvent::CommandDeleted { id } => ServerEvent::CommandDeleted { id: copy_text(id) },
            ServerEvent::ExecutionStarted(l) => ServerEvent::ExecutionStarted(l.copy()),
            ServerEvent::ExecutionUpdated(l) => ServerEvent::ExecutionUpdated(l.copy()),
            ServerEvent::ExecutionFinished(l) => ServerEvent::ExecutionFinished(l.copy()),
        }
    }
}

/// The credentials of a login attempt.
#[derive(Debug)]
pub struct LoginRequest {
    pub username: String,
    pub password: String,
}

/// What a successful login hands back: the session token and its expiry.
#[derive(Debug)]
pub struct LoginResponse {
    pub token: String,
    pub expires_at: i64,
}

/// The arguments that replace a command's defaults for one execution, if any.
#[derive(Debug)]
pub struct ExecuteCommandRequest {
    pub parameters: Option<Vec<String>>,
}

} // verus!
