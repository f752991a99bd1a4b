use vstd::prelude::*;

use crate::domain::{ExecutionLog, ExecutionStatus, LogView};
use crate::text::{trim_of, trim_text};

verus! {

/// What `String::from_utf8_lossy` makes of a byte sequence.
pub uninterp spec fn lossy_text(b: Seq<u8>) -> Seq<char>;

/// Relies on `String::from_utf8_lossy`: the result depends on the bytes alone,
/// and no bytes give no characters.
#[verifier::external_body]
fn decode_lossy(b: &Vec<u8>) -> (r: String)
    ensures
        r@ == lossy_text(b@),
        b@.len() == 0 ==> r@.len() == 0,
{
    String::from_utf8_lossy(b.as_slice()).into_owned()
}

/// The character of a decimal digit.
pub open spec fn digit_char(d: nat) -> char {
    seq!['0', '1', '2', '3', '4', '5', '6', '7', '8', '9'][d as int]
}

/// The decimal digits of `n`, most significant first.
pub open spec fn digits(n: nat) -> Seq<char>
    decreases n,
{
    if n < 10 {
        seq![digit_char(n)]
    } else {
        digits(n / 10).push(digit_char(n % 10))
    }
}

/// `n` in decimal, with a minus sign where it is negative.
pub open spec fn decimal_text(n: int) -> Seq<char> {
    if n < 0 {
        seq!['-'] + digits((-n) as nat)
    } else {
        digits(n as nat)
    }
}

/// Relies on the `Display` of `i32`: the number in decimal, with a minus
/// sign where it is negative.
#[verifier::external_body]
fn decimal(n: i32) -> (r: String)
    ensures
        r@ == decimal_text(n as int),
{
    format!("{}", n)
}

/// How a process ended, or that it could not be started.
#[derive(Debug)]
pub enum ProcessOutcome {
    /// The process ran and exited; `code` is its exit code, where it has one.
    Exited { success: bool, code: Option<i32>, stdout: Vec<u8>, stderr: Vec<u8> },
    /// The process could not be started; `message` says why.
    LaunchFailed { message: String },
}

/// The message of a process that exited with a failure.
pub open spec fn exit_message(code: int, stderr: Seq<char>) -> Seq<char> {
    if stderr.len() == 0 {
        "Process exited with status "@ + decimal_text(code)
    } else {
        "Process exited with status "@ + decimal_text(code) + ": "@ + trim_of(stderr)
    }
}

/// A record moved on to running.
pub open spec fn running_log(l: LogView) -> LogView {
    LogView { status: ExecutionStatus::Running, ..l }
}

/// A running record closed with the outcome of its process at `now`.
pub open spec fn finished_log(l: LogView, o: ProcessOutcome, now: i64) -> LogView {
    match o {
        ProcessOutcome::Exited { success, code, stdout, stderr } => {
            let out = lossy_text(stdout@);
            let err = lossy_text(stderr@);
            LogView {
                status: if success {
                    ExecutionStatus::Success
                } else {
                    ExecutionStatus::Error
                },
                output: if out.len() == 0 {
                    err
                } else {
                    out
                },
                error: if success {
                    l.error
                } else {
                    Some(
                        exit_message(
                            match code {
                                Some(c) => c as int,
                                None => -1,
                            },
                            err,
                        ),
                    )
                },
                finished_at: Some(now),
                ..l
            }
        },
        ProcessOutcome::LaunchFailed { message } => LogView {
            status: ExecutionStatus::Error,
            error: Some(message@),
            finished_at: Some(now),
            ..l
        },
    }
}

/// A record goes from pending to running to success or error, keeps its
/// id, command, requester and parameters, and has a finish time exactly
/// once it is done.
pub proof fn lemma_lifecycle(l: LogView, o: ProcessOutcome, now: i64)
    requires
        l.status == ExecutionStatus::Pending,
        l.finished_at is None,
    ensures
        running_log(l).status == ExecutionStatus::Running,
        running_log(l).finished_at is None,
        finished_log(running_log(l), o, now).status.is_terminal(),
        finished_log(running_log(l), o, now).finished_at == Some(now),
        finished_log(running_log(l), o, now).id == l.id,
        finished_log(running_log(l), o, now).command_id == l.command_id,
        finished_log(running_log(l), o, now).requested_by == l.requested_by,
        finished_log(running_log(l), o, now).parameters == l.parameters,
{
}

/// The record moved on to running.
pub fn start_running(log: ExecutionLog) -> (r: ExecutionLog)
    ensures
        r@ == running_log(log@),
{
    let mut log = log;
    log.status = ExecutionStatus::Running;
    log
}

/// The record closed with the outcome of its process, finished at `now`.
pub fn apply_outcome(log: ExecutionLog, outcome: ProcessOutcome, now: i64) -> (r: ExecutionLog)
    ensures
        r@ == finished_log(log@, outcome, now),
{
    let mut log = log;
    match outcome {
        ProcessOutcome::Exited { success, code, stdout, stderr } => {
            let out = decode_lossy(&stdout);
            let err = decode_lossy(&stderr);
            if success {
                log.status = ExecutionStatus::Success;
            } else {
                log.status = ExecutionStatus::Error;
                let c: i32 = match code {
                    Some(c) => c,
                    None => -1,
                };
                let mut message = String::from_str("Process exited with status ");
                let digits = decimal(c);
                message.append(digits.as_str());
                if err.unicode_len() > 0 {
                    message.append(": ");
                    message.append(trim_text(err.as_str()));
                }
                log.error = Some(message);
            }
            log.output = if out.unicode_len() == 0 {
                err
            } else {
                out
            };
        },
        ProcessOutcome::LaunchFailed { message } => {
            log.status = ExecutionStatus::Error;
            log.error = Some(message);
        },
    }
    log.finished_at = Some(now);
    log
}

} // verus!
