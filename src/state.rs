use vstd::prelude::*;

use tokio::sync::broadcast::Receiver;

use crate::auth::{
    password_matches, password_refusal, MAX_PASSWORD_CHARS, holds_user, live, login_refusal, opened_session, token_valid, with_session, CredentialView, Session,
    SessionManager, SessionView, stored,
};
use crate::domain::{
    pending_log, CommandDefinition, CommandMutation, CommandView, EventView, ExecutionLog, ServerEvent,
};
use crate::engine::{apply_outcome, finished_log, running_log, start_running, ProcessOutcome};
use crate::error::CenterError;
use crate::events::EventBus;
use crate::history::{newest, pushed_front, recorded, History, DEFAULT_HISTORY_PAGE};
use crate::registry::{
    holds_id, index_of, mutation_refusal, saved_command, sorted_by_name, target_id, command_views, Registry,
};
use crate::sources::{fresh_id, now_millis, TIMESTAMP_BOUND};
use crate::text::{clean_list, cleaned, texts, trim_of};

verus! {

/// The name of the operator account that a new command center holds.
pub const DEFAULT_ADMIN_USER: &'static str = "admin";

/// The password of that account, to be changed on any real deployment.
pub const DEFAULT_ADMIN_PASSWORD: &'static str = "admin123";

/// The arguments an execution runs with: the override where one is given,
/// else the command's defaults, each trimmed, the empty ones dropped.
pub open spec fn run_parameters(c: CommandView, runtime_args: Option<Vec<String>>) -> Seq<Seq<char>> {
    match runtime_args {
        Some(a) => cleaned(texts(a@)),
        None => cleaned(c.args),
    }
}

/// A sample command: the given name, executable, arguments and description,
/// tagged `sample`, taking arguments at execution time, and never updated.
pub open spec fn is_sample(
    c: CommandView,
    name: Seq<char>,
    executable: Seq<char>,
    args: Seq<Seq<char>>,
    description: Seq<char>,
) -> bool {
    &&& c.name == name
    &&& c.executable == executable
    &&& c.args == args
    &&& c.description == Some(description)
    &&& c.tags == seq!["sample"@]
    &&& c.allow_arguments
    &&& c.created_at == c.updated_at
}

/// The commands are exactly the two samples that a new center holds, with
/// ids of their own.
pub open spec fn holds_samples(s: Seq<CommandView>) -> bool {
    &&& s.len() == 2
    &&& s[0].id != s[1].id
    &&& is_sample(s[0], "List running processes"@, "/bin/ps"@, seq!["aux"@], "Returns the current process list"@)
    &&& is_sample(
        s[1],
        "Ping remote host"@,
        "/sbin/ping"@,
        seq!["-c"@, "4"@, "127.0.0.1"@],
        "Runs a connectivity test to the specified host"@,
    )
}

/// An accepted execution request: the pending record, and the executable
/// to run with the record's parameters.
#[derive(Debug)]
pub struct ExecutionJob {
    pub log: ExecutionLog,
    pub executable: String,
}

/// The command registry, the execution history, the credentials and
/// sessions, and the bus on which every change is published.
pub struct CommandCenter {
    registry: Registry,
    history: History,
    auth: SessionManager,
    bus: EventBus,
}

impl CommandCenter {
    /// The commands, in the order they were added.
    pub closed spec fn commands(&self) -> Seq<CommandView> {
        self.registry.entries()
    }

    /// The execution records, newest first.
    pub closed spec fn records(&self) -> Seq<crate::domain::LogView> {
        self.history.records()
    }

    /// The stored credentials.
    pub closed spec fn credentials(&self) -> Seq<CredentialView> {
        self.auth.credentials()
    }

    /// The sessions held, oldest first; some may have expired.
    pub closed spec fn sessions(&self) -> Seq<SessionView> {
        self.auth.sessions()
    }

    /// Every event published, oldest first.
    pub closed spec fn published(&self) -> Seq<EventView> {
        self.bus.published()
    }

    pub closed spec fn wf(&self) -> bool {
        self.registry.wf() && self.history.wf() && self.auth.wf()
    }

    /// The invariants that every state of a command center keeps.
    pub proof fn lemma_wf(&self)
        requires
            self.wf(),
        ensures
            crate::registry::ids_unique(self.commands()),
            self.records().len() <= crate::history::HISTORY_LIMIT,
            crate::auth::usernames_unique(self.credentials()),
            crate::auth::tokens_unique(self.sessions()),
    {
    }

    /// A command center with no commands, history, credentials or sessions.
    pub fn empty() -> (r: CommandCenter)
        ensures
            r.wf(),
            r.commands().len() == 0,
            r.records().len() == 0,
            r.credentials().len() == 0,
            r.sessions().len() == 0,
            r.published().len() == 0,
    {
        CommandCenter {
            registry: Registry::new(),
            history: History::new(),
            auth: SessionManager::new(),
            bus: EventBus::new(),
        }
    }

    /// A command center seeded with the default operator account and two
    /// sample commands.
    pub fn new() -> (r: CommandCenter)
        ensures
            r.wf(),
            holds_samples(r.commands()),
            r.credentials().len() == 1,
            r.credentials()[0].username == DEFAULT_ADMIN_USER@,
            password_matches(DEFAULT_ADMIN_PASSWORD@, r.credentials()[0].password_hash),
            r.records().len() == 0,
            r.sessions().len() == 0,
            r.published().len() == 0,
    {
        let mut c = CommandCenter::empty();
        let ghost before = c.credentials();
        c.seed_defaults();
        proof {
            assert(!holds_user(before, DEFAULT_ADMIN_USER@));
            let h = choose|h: Seq<char>|
                password_matches(DEFAULT_ADMIN_PASSWORD@, h) && c.credentials() == stored(
                    before,
                    CredentialView { username: DEFAULT_ADMIN_USER@, password_hash: h },
                );
            assert(before =~= Seq::<CredentialView>::empty());
            assert(c.credentials() == seq![CredentialView { username: DEFAULT_ADMIN_USER@, password_hash: h }]);
        }
        c
    }

    /// Adds the default operator account where no credential has its name,
    /// and the two sample commands where there is no command; publishes
    /// nothing.
    pub fn seed_defaults(&mut self)
        requires
            old(self).wf(),
        ensures
            final(self).wf(),
            final(self).records() == old(self).records(),
            final(self).sessions() == old(self).sessions(),
            final(self).published() == old(self).published(),
            old(self).commands().len() > 0 ==> final(self).commands() == old(self).commands(),
            old(self).commands().len() == 0 ==> holds_samples(final(self).commands()),
            holds_user(old(self).credentials(), DEFAULT_ADMIN_USER@) ==> final(self).credentials() == old(
                self,
            ).credentials(),
            !holds_user(old(self).credentials(), DEFAULT_ADMIN_USER@) ==> exists|h: Seq<char>|
                password_matches(DEFAULT_ADMIN_PASSWORD@, h) && final(self).credentials() == stored(
                    old(self).credentials(),
                    CredentialView { username: DEFAULT_ADMIN_USER@, password_hash: h },
                ),
    {
        proof {
            reveal_strlit("admin123");
        }
        self.auth.ensure_user(String::from_str(DEFAULT_ADMIN_USER), DEFAULT_ADMIN_PASSWORD);
        if self.registry.is_empty() {
            let now = now_millis();
            let first = fresh_id();
            let mut second = fresh_id();
            if second == first {
                proof {
                    reveal_strlit("-1");
                }
                second.append("-1");
            }
            let ps = CommandDefinition {
                id: first,
                name: String::from_str("List running processes"),
                executable: String::from_str("/bin/ps"),
                args: vec![String::from_str("aux")],
                description: Some(String::from_str("Returns the current process list")),
                tags: vec![String::from_str("sample")],
                allow_arguments: true,
                created_at: now,
                updated_at: now,
            };
            let ping = CommandDefinition {
                id: second,
                name: String::from_str("Ping remote host"),
                executable: String::from_str("/sbin/ping"),
                args: vec![String::from_str("-c"), String::from_str("4"), String::from_str("127.0.0.1")],
                description: Some(String::from_str("Runs a connectivity test to the specified host")),
                tags: vec![String::from_str("sample")],
                allow_arguments: true,
                created_at: now,
                updated_at: now,
            };
            proof {
                assert(texts(ps.args@) =~= seq!["aux"@]);
                assert(texts(ps.tags@) =~= seq!["sample"@]);
                assert(texts(ping.args@) =~= seq!["-c"@, "4"@, "127.0.0.1"@]);
                assert(texts(ping.tags@) =~= seq!["sample"@]);
                assert(ps.id@ != ping.id@);
            }
            self.registry.add(ps);
            self.registry.add(ping);
        }
    }

    /// A subscription to every event published after this call.
    pub fn subscribe(&self) -> Receiver<ServerEvent> {
        self.bus.subscribe()
    }

    /// Copies of all commands, ordered by name without regard to case.
    pub fn list_commands(&self) -> (r: Vec<CommandDefinition>)
        ensures
            command_views(r@).to_multiset() == self.commands().to_multiset(),
            sorted_by_name(command_views(r@)),
    {
        self.registry.sorted()
    }

    /// A copy of the command with the id, if there is one.
    pub fn command(&self, id: &str) -> (r: Option<CommandDefinition>)
        requires
            self.wf(),
        ensures
            r is None ==> !holds_id(self.commands(), id@),
            r matches Some(c) ==> holds_id(self.commands(), id@) && forall|i: int|
                0 <= i < self.commands().len() && self.commands()[i].id == id@ ==> c@ == self.commands()[i],
    {
        self.registry.get(id)
    }

    /// Creates a command, or replaces the one with the mutation's id, as
    /// `create_or_update_command_at` does with a fresh id and the current
    /// time.
    pub fn create_or_update_command(&mut self, mutation: CommandMutation) -> (r: Result<CommandDefinition, CenterError>)
        requires
            old(self).wf(),
        ensures
            final(self).wf(),
            final(self).records() == old(self).records(),
            final(self).credentials() == old(self).credentials(),
            final(self).sessions() == old(self).sessions(),
            mutation_refusal(mutation) matches Some(e) ==> r == Err::<CommandDefinition, CenterError>(e)
                && final(self).commands() == old(self).commands()
                && final(self).published() == old(self).published(),
            mutation_refusal(mutation) is None ==> r is Ok,
            r matches Ok(c) ==> ((mutation.id is None || !holds_id(old(self).commands(), mutation.id->Some_0@))
                ==> !holds_id(old(self).commands(), c.id@) && c.created_at == c.updated_at),
            r matches Ok(c) ==> (mutation.id is Some && holds_id(old(self).commands(), mutation.id->Some_0@) ==> c.id@ == mutation.id->Some_0@),
            r matches Ok(c) ==> (!holds_id(old(self).commands(), c.id@) ==> c@ == saved_command(
                mutation,
                c.id@,
                c.created_at,
                c.created_at,
            ) && final(self).commands() == old(self).commands().push(c@)
                && final(self).published() == old(self).published().push(EventView::CommandCreated(c@))),
            r matches Ok(c) ==> (holds_id(old(self).commands(), c.id@) ==> {
                let i = index_of(old(self).commands(), c.id@);
                &&& final(self).published() == old(self).published().push(EventView::CommandUpdated(c@))
                &&& 0 <= i < old(self).commands().len()
                &&& c@ == saved_command(mutation, c.id@, old(self).commands()[i].created_at, c.updated_at)
                &&& final(self).commands() == old(self).commands().update(i, c@)
            }),
    {
        let fresh = self.registry.unused_id(fresh_id());
        let now = now_millis();
        self.create_or_update_command_at(mutation, fresh, now)
    }

    /// Saves the mutation under its own id where a command has it, else under
    /// `fresh`: a new command, created and updated at `now`, where no command has
    /// that id; else that command, replaced, with its creation time kept and
    /// updated at `now`. Publishes the command created or updated. Refuses a
    /// name or an executable that is empty after trimming.
    pub fn create_or_update_command_at(&mut self, mutation: CommandMutation, fresh: String, now: i64) -> (r: Result<
        CommandDefinition,
        CenterError,
    >)
        requires
            old(self).wf(),
        ensures
            final(self).wf(),
            final(self).records() == old(self).records(),
            final(self).credentials() == old(self).credentials(),
            final(self).sessions() == old(self).sessions(),
            mutation_refusal(mutation) matches Some(e) ==> r == Err::<CommandDefinition, CenterError>(e)
                && final(self).commands() == old(self).commands()
                && final(self).published() == old(self).published(),
            mutation_refusal(mutation) is None ==> r is Ok,
            r matches Ok(c) ==> {
                let id = target_id(old(self).commands(), mutation, fresh@);
                let is_new = !holds_id(old(self).commands(), id);
                &&& is_new ==> c@ == saved_command(mutation, id, now, now)
                    && final(self).commands() == old(self).commands().push(c@)
                    && final(self).published() == old(self).published().push(EventView::CommandCreated(c@))
                &&& !is_new ==> {
                    let i = index_of(old(self).commands(), id);
                    &&& final(self).published() == old(self).published().push(EventView::CommandUpdated(c@))
                    &&& 0 <= i < old(self).commands().len()
                    &&& c@ == saved_command(mutation, id, old(self).commands()[i].created_at, now)
                    &&& final(self).commands() == old(self).commands().update(i, c@)
                }
            },
    {
        match self.registry.upsert(mutation, fresh, now) {
            Ok((c, created)) => {
                let event = if created {
                    ServerEvent::CommandCreated(c.copy())
                } else {
                    ServerEvent::CommandUpdated(c.copy())
                };
                self.bus.publish(event);
                Ok(c)
            },
            Err(e) => Err(e),
        }
    }

    /// Removes the command with the id and publishes its deletion; where
    /// there is none, changes nothing and publishes nothing.
    pub fn delete_command(&mut self, id: &str) -> (r: Result<(), CenterError>)
        requires
            old(self).wf(),
        ensures
            final(self).wf(),
            final(self).records() == old(self).records(),
            final(self).credentials() == old(self).credentials(),
            final(self).sessions() == old(self).sessions(),
            !holds_id(old(self).commands(), id@) ==> r == Err::<(), CenterError>(CenterError::CommandNotFound)
                && final(self).commands() == old(self).commands()
                && final(self).published() == old(self).published(),
            holds_id(old(self).commands(), id@) ==> r is Ok
                && final(self).published() == old(self).published().push(EventView::CommandDeleted { id: id@ })
                && forall|i: int|
                0 <= i < old(self).commands().len() && old(self).commands()[i].id == id@
                    ==> final(self).commands() == old(self).commands().remove(i),
            !holds_id(final(self).commands(), id@),
    {
        if self.registry.remove(id) {
            self.bus.publish(ServerEvent::CommandDeleted { id: String::from_str(id) });
            Ok(())
        } else {
            Err(CenterError::CommandNotFound)
        }
    }

    /// Copies of the newest records, newest first: `limit` of them, or the
    /// default page where no limit is given.
    pub fn list_history(&self, limit: Option<usize>) -> (r: Vec<ExecutionLog>)
        ensures
            crate::history::log_views(r@) == newest(
                self.records(),
                match limit {
                    Some(n) => n as nat,
                    None => DEFAULT_HISTORY_PAGE as nat,
                },
            ),
    {
        let n = match limit {
            Some(n) => n,
            None => DEFAULT_HISTORY_PAGE,
        };
        self.history.newest(n)
    }

    /// Accepts an execution of the command as `execute_command_at` does,
    /// with a fresh record id and the current time.
    pub fn execute_command(&mut self, command_id: &str, runtime_args: Option<Vec<String>>, requested_by: String) -> (r:
        Result<ExecutionJob, CenterError>)
        requires
            old(self).wf(),
        ensures
            final(self).wf(),
            final(self).commands() == old(self).commands(),
            final(self).credentials() == old(self).credentials(),
            final(self).sessions() == old(self).sessions(),
            !holds_id(old(self).commands(), command_id@) ==> r == Err::<ExecutionJob, CenterError>(
                CenterError::CommandNotFound,
            ),
            r is Err ==> final(self).records() == old(self).records() && final(self).published() == old(
                self,
            ).published(),
            r matches Ok(job) ==> final(self).records() == pushed_front(old(self).records(), job.log@)
                && final(self).published() == old(self).published().push(EventView::ExecutionStarted(job.log@))
                && job.log@.status == crate::domain::ExecutionStatus::Pending,
            holds_id(old(self).commands(), command_id@) ==> forall|i: int|
                0 <= i < old(self).commands().len() && old(self).commands()[i].id == command_id@ ==> {
                    let c = old(self).commands()[i];
                    &&& (runtime_args is Some && !c.allow_arguments) ==> (r matches Err(
                        CenterError::ArgumentsNotAllowed { command },
                    ) && command@ == c.name)
                    &&& !(runtime_args is Some && !c.allow_arguments) ==> (r matches Ok(job)
                        && job.log@ == pending_log(
                        job.log.id@,
                        c,
                        requested_by@,
                        run_parameters(c, runtime_args),
                        job.log.started_at,
                    ) && job.executable@ == c.executable)
                },
    {
        let log_id = fresh_id();
        let now = now_millis();
        self.execute_command_at(command_id, runtime_args, requested_by, log_id, now)
    }

    /// Accepts an execution of the command with the id: a pending record
    /// with the id `log_id`, started at `now`, is put in front of the history
    /// and published, and handed back with the executable to run. Refuses an
    /// unknown command, and arguments for a command that takes none at
    /// execution time; a refusal changes nothing.
    pub fn execute_command_at(
        &mut self,
        command_id: &str,
        runtime_args: Option<Vec<String>>,
        requested_by: String,
        log_id: String,
        now: i64,
    ) -> (r: Result<ExecutionJob, CenterError>)
        requires
            old(self).wf(),
        ensures
            final(self).wf(),
            final(self).commands() == old(self).commands(),
            final(self).credentials() == old(self).credentials(),
            final(self).sessions() == old(self).sessions(),
            !holds_id(old(self).commands(), command_id@) ==> r == Err::<ExecutionJob, CenterError>(
                CenterError::CommandNotFound,
            ),
            r is Err ==> final(self).records() == old(self).records() && final(self).published() == old(
                self,
            ).published(),
            r matches Ok(job) ==> final(self).records() == pushed_front(old(self).records(), job.log@)
                && final(self).published() == old(self).published().push(EventView::ExecutionStarted(job.log@)),
            holds_id(old(self).commands(), command_id@) ==> forall|i: int|
                0 <= i < old(self).commands().len() && old(self).commands()[i].id == command_id@ ==> {
                    let c = old(self).commands()[i];
                    &&& (runtime_args is Some && !c.allow_arguments) ==> (r matches Err(
                        CenterError::ArgumentsNotAllowed { command },
                    ) && command@ == c.name)
                    &&& !(runtime_args is Some && !c.allow_arguments) ==> (r matches Ok(job)
                        && job.log@ == pending_log(
                        log_id@,
                        c,
                        requested_by@,
                        run_parameters(c, runtime_args),
                        now,
                    ) && job.executable@ == c.executable)
                },
    {
        let c = match self.registry.get(command_id) {
            Some(c) => c,
            None => {
                return Err(CenterError::CommandNotFound);
            },
        };
        if runtime_args.is_some() && !c.allow_arguments {
            return Err(CenterError::ArgumentsNotAllowed { command: c.name });
        }
        let parameters = match &runtime_args {
            Some(a) => clean_list(a),
            None => clean_list(&c.args),
        };
        let log = ExecutionLog::new_at(&c, requested_by, parameters, log_id, now);
        self.history.push(log.copy());
        self.bus.publish(ServerEvent::ExecutionStarted(log.copy()));
        Ok(ExecutionJob { log, executable: c.executable })
    }

    /// Moves the record on to running, records it in the history and
    /// publishes the update.
    pub fn mark_running(&mut self, log: ExecutionLog) -> (r: ExecutionLog)
        requires
            old(self).wf(),
        ensures
            final(self).wf(),
            final(self).commands() == old(self).commands(),
            final(self).credentials() == old(self).credentials(),
            final(self).sessions() == old(self).sessions(),
            r@ == running_log(log@),
            final(self).records() == recorded(old(self).records(), r@),
            final(self).published() == old(self).published().push(EventView::ExecutionUpdated(r@)),
    {
        let running = start_running(log);
        self.history.record(running.copy());
        self.bus.publish(ServerEvent::ExecutionUpdated(running.copy()));
        running
    }

    /// Closes the record with the outcome of its process, as
    /// `complete_execution_at` does at the current time.
    pub fn complete_execution(&mut self, log: ExecutionLog, outcome: ProcessOutcome) -> (r: ExecutionLog)
        requires
            old(self).wf(),
        ensures
            final(self).wf(),
            final(self).commands() == old(self).commands(),
            final(self).credentials() == old(self).credentials(),
            final(self).sessions() == old(self).sessions(),
            r@ == finished_log(log@, outcome, r.finished_at->Some_0),
            final(self).records() == recorded(old(self).records(), r@),
            final(self).published() == old(self).published().push(EventView::ExecutionFinished(r@)),
    {
        let now = now_millis();
        self.complete_execution_at(log, outcome, now)
    }

    /// Closes the record with the outcome of its process, finished at `now`,
    /// records it in the history and publishes it.
    pub fn complete_execution_at(&mut self, log: ExecutionLog, outcome: ProcessOutcome, now: i64) -> (r: ExecutionLog)
        requires
            old(self).wf(),
        ensures
            final(self).wf(),
            final(self).commands() == old(self).commands(),
            final(self).credentials() == old(self).credentials(),
            final(self).sessions() == old(self).sessions(),
            r@ == finished_log(log@, outcome, now),
            final(self).records() == recorded(old(self).records(), r@),
            final(self).published() == old(self).published().push(EventView::ExecutionFinished(r@)),
    {
        let done = apply_outcome(log, outcome, now);
        self.history.record(done.copy());
        self.bus.publish(ServerEvent::ExecutionFinished(done.copy()));
        done
    }

    /// Opens a session for the username, as `login_at` does with a fresh
    /// token and the current time.
    pub fn login(&mut self, username: &str, password: &str) -> (r: Result<Session, CenterError>)
        requires
            old(self).wf(),
        ensures
            final(self).wf(),
            final(self).commands() == old(self).commands(),
            final(self).records() == old(self).records(),
            final(self).credentials() == old(self).credentials(),
            final(self).published() == old(self).published(),
            r matches Err(e) ==> login_refusal(old(self).credentials(), username@, password@) == Some(e)
                && final(self).sessions() == old(self).sessions(),
            r matches Ok(s) ==> login_refusal(old(self).credentials(), username@, password@) is None
                && s@ == opened_session(s.token@, username@, s.created_at)
                && final(self).sessions() == with_session(old(self).sessions(), s@),
    {
        let token = fresh_id();
        let now = now_millis();
        self.login_at(username, password, token, now)
    }

    /// Where the password matches the credential of the username, opens a
    /// session with the token, created at `now` and valid for 24 hours.
    /// An unknown username and a wrong password are refused alike.
    pub fn login_at(&mut self, username: &str, password: &str, token: String, now: i64) -> (r: Result<Session, CenterError>)
        requires
            old(self).wf(),
            now < TIMESTAMP_BOUND,
        ensures
            final(self).wf(),
            final(self).commands() == old(self).commands(),
            final(self).records() == old(self).records(),
            final(self).credentials() == old(self).credentials(),
            final(self).published() == old(self).published(),
            r matches Err(e) ==> login_refusal(old(self).credentials(), username@, password@) == Some(e)
                && final(self).sessions() == old(self).sessions(),
            r matches Ok(s) ==> login_refusal(old(self).credentials(), username@, password@) is None
                && s@ == opened_session(token@, username@, now)
                && final(self).sessions() == with_session(old(self).sessions(), s@),
    {
        self.auth.login(username, password, token, now)
    }

    /// The session of the token, as `validate_token_at` finds it at the
    /// current time.
    pub fn validate_token(&mut self, token: &str) -> (r: Option<Session>)
        requires
            old(self).wf(),
        ensures
            final(self).wf(),
            final(self).commands() == old(self).commands(),
            final(self).records() == old(self).records(),
            final(self).credentials() == old(self).credentials(),
            final(self).published() == old(self).published(),
            exists|now: i64|
                final(self).sessions() == live(old(self).sessions(), now) && (r is Some == token_valid(
                    old(self).sessions(),
                    token@,
                    now,
                )),
            r matches Some(s) ==> s.token@ == token@ && old(self).sessions().contains(s@),
    {
        let now = now_millis();
        self.validate_token_at(token, now)
    }

    /// Drops the sessions that have expired at `now`, then hands back the
    /// session of the token if it is still valid.
    pub fn validate_token_at(&mut self, token: &str, now: i64) -> (r: Option<Session>)
        requires
            old(self).wf(),
        ensures
            final(self).wf(),
            final(self).commands() == old(self).commands(),
            final(self).records() == old(self).records(),
            final(self).credentials() == old(self).credentials(),
            final(self).published() == old(self).published(),
            final(self).sessions() == live(old(self).sessions(), now),
            r is Some == token_valid(old(self).sessions(), token@, now),
            r matches Some(s) ==> s.token@ == token@ && now < s.expires_at && old(self).sessions().contains(s@),
    {
        self.auth.validate_token(token, now)
    }

    /// Sets the password of the username, creating its credential where there
    /// is none. Refuses a username or a password that is empty after
    /// trimming; hashing fails only on a password too long for argon2.
    pub fn set_password(&mut self, username: String, password: String) -> (r: Result<(), CenterError>)
        requires
            old(self).wf(),
        ensures
            final(self).wf(),
            final(self).commands() == old(self).commands(),
            final(self).records() == old(self).records(),
            final(self).sessions() == old(self).sessions(),
            final(self).published() == old(self).published(),
            password_refusal(username@, password@) matches Some(e) ==> r == Err::<(), CenterError>(e),
            password_refusal(username@, password@) is None && password@.len() <= MAX_PASSWORD_CHARS ==> r is Ok,
            r matches Err(e) ==> final(self).credentials() == old(self).credentials()
                && (password_refusal(username@, password@) == Some(e) || (password_refusal(username@, password@) is None
                && e is HashFailure)),
            r is Ok ==> password_refusal(username@, password@) is None && exists|h: Seq<char>|
                password_matches(password@, h) && final(self).credentials() == stored(
                    old(self).credentials(),
                    CredentialView { username: username@, password_hash: h },
                ),
    {
        self.auth.set_password(username, password)
    }

    /// The sessions still valid at the current time.
    pub fn active_sessions(&mut self) -> (r: Vec<Session>)
        requires
            old(self).wf(),
        ensures
            final(self).wf(),
            final(self).commands() == old(self).commands(),
            final(self).records() == old(self).records(),
            final(self).credentials() == old(self).credentials(),
            final(self).published() == old(self).published(),
            exists|now: i64|
                final(self).sessions() == live(old(self).sessions(), now) && r@.map_values(|s: Session| s@)
                    == live(old(self).sessions(), now),
    {
        let now = now_millis();
        self.active_sessions_at(now)
    }

    /// Drops the sessions that have expired at `now` and hands back copies of
    /// the others, oldest first.
    pub fn active_sessions_at(&mut self, now: i64) -> (r: Vec<Session>)
        requires
            old(self).wf(),
        ensures
            final(self).wf(),
            final(self).commands() == old(self).commands(),
            final(self).records() == old(self).records(),
            final(self).credentials() == old(self).credentials(),
            final(self).published() == old(self).published(),
            final(self).sessions() == live(old(self).sessions(), now),
            r@.map_values(|s: Session| s@) == live(old(self).sessions(), now),
    {
        self.auth.active_sessions(now)
    }
}

} // verus!

verus! {

/// The events that accepting, starting and closing one execution publish,
/// in that order: its pending record, then the record running, then the
/// record finished with a terminal status and a finish time.
pub open spec fn execution_events(l: crate::domain::LogView, o: ProcessOutcome, now: i64) -> Seq<EventView> {
    seq![
        EventView::ExecutionStarted(l),
        EventView::ExecutionUpdated(running_log(l)),
        EventView::ExecutionFinished(finished_log(running_log(l), o, now)),
    ]
}

/// For one execution the event stream shows pending, then running, then a
/// terminal status, all for the same record id, and only the last one
/// carries a finish time.
pub proof fn lemma_execution_event_order(l: crate::domain::LogView, o: ProcessOutcome, now: i64)
    requires
        l.status == crate::domain::ExecutionStatus::Pending,
        l.finished_at is None,
    ensures
        ({
            let e = execution_events(l, o, now);
            &&& e[0] matches EventView::ExecutionStarted(a) && a.id == l.id && a.status
                == crate::domain::ExecutionStatus::Pending && a.finished_at is None
            &&& e[1] matches EventView::ExecutionUpdated(b) && b.id == l.id && b.status
                == crate::domain::ExecutionStatus::Running && b.finished_at is None
            &&& e[2] matches EventView::ExecutionFinished(c) && c.id == l.id && c.status.is_terminal()
                && c.finished_at == Some(now)
        }),
{
    crate::engine::lemma_lifecycle(l, o, now);
}

} // verus!
