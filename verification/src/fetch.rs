//! The plan of a remote fetch: its steps in order, the error each step
//! stands for, the command that cuts the window, and the decoding of what
//! was received. Talking to the device is left to the caller.
use vstd::prelude::*;
use vstd::utf8::{decode_utf8, valid_utf8};
use crate::error::FetchError;
use crate::text::{decimal, decimal_text};

verus! {

/// A step of a fetch. The first three open the session; the last three
/// bring one window of the log.
#[derive(Clone, Copy, Debug, PartialEq, Eq, Structural)]
pub enum FetchPhase {
    /// Open the transport connection.
    Connect,
    /// Perform the protocol handshake.
    Handshake,
    /// Authenticate with user name and password.
    Authenticate,
    /// Run the remote command that cuts the window out of the log.
    RemoteExec,
    /// Copy the window file.
    Transfer,
    /// Decode the bytes as text.
    Decode,
}

/// What to do once a step has ended.
#[derive(Clone, Copy, Debug, PartialEq, Eq, Structural)]
pub enum Step {
    /// Go on with this step.
    Run(FetchPhase),
    /// The stage is complete.
    Done,
    /// Give up, with this error.
    Fail(FetchError),
}

/// The error that a failure in `phase` is reported as.
pub open spec fn failure_of(phase: FetchPhase) -> FetchError {
    match phase {
        FetchPhase::Connect => FetchError::Connect,
        FetchPhase::Handshake => FetchError::Handshake,
        FetchPhase::Authenticate => FetchError::Auth,
        FetchPhase::RemoteExec => FetchError::RemoteExec,
        FetchPhase::Transfer => FetchError::Transfer,
        FetchPhase::Decode => FetchError::Decode,
    }
}

/// The step that follows `phase` in its stage, if the stage goes on.
pub open spec fn successor(phase: FetchPhase) -> Option<FetchPhase> {
    match phase {
        FetchPhase::Connect => Some(FetchPhase::Handshake),
        FetchPhase::Handshake => Some(FetchPhase::Authenticate),
        FetchPhase::Authenticate => None,
        FetchPhase::RemoteExec => Some(FetchPhase::Transfer),
        FetchPhase::Transfer => Some(FetchPhase::Decode),
        FetchPhase::Decode => None,
    }
}

/// What follows a step that succeeded or failed. There are no retries: the
/// first failure ends the fetch.
pub open spec fn step_after(phase: FetchPhase, succeeded: bool) -> Step {
    if !succeeded {
        Step::Fail(failure_of(phase))
    } else {
        match successor(phase) {
            Some(next) => Step::Run(next),
            None => Step::Done,
        }
    }
}

/// The remote command for a window of `record_count` records.
pub open spec fn command_text(record_count: nat) -> Seq<char> {
    "tail -n "@ + decimal(record_count) + " realtime.csv > lastminute.csv"@
}

impl FetchPhase {
    /// The first step of opening a session.
    pub fn first_of_session() -> (phase: FetchPhase)
        ensures
            phase == FetchPhase::Connect,
    {
        FetchPhase::Connect
    }

    /// The first step of bringing a window.
    pub fn first_of_window() -> (phase: FetchPhase)
        ensures
            phase == FetchPhase::RemoteExec,
    {
        FetchPhase::RemoteExec
    }

    /// The error that a failure in this step is reported as.
    pub fn failure(self) -> (error: FetchError)
        ensures
            error == failure_of(self),
    {
        match self {
            FetchPhase::Connect => FetchError::Connect,
            FetchPhase::Handshake => FetchError::Handshake,
            FetchPhase::Authenticate => FetchError::Auth,
            FetchPhase::RemoteExec => FetchError::RemoteExec,
            FetchPhase::Transfer => FetchError::Transfer,
            FetchPhase::Decode => FetchError::Decode,
        }
    }

    /// What to do once this step has ended.
    pub fn advance(self, succeeded: bool) -> (step: Step)
        ensures
            step == step_after(self, succeeded),
    {
        if !succeeded {
            return Step::Fail(self.failure());
        }
        match self {
            FetchPhase::Connect => Step::Run(FetchPhase::Handshake),
            FetchPhase::Handshake => Step::Run(FetchPhase::Authenticate),
            FetchPhase::Authenticate => Step::Done,
            FetchPhase::RemoteExec => Step::Run(FetchPhase::Transfer),
            FetchPhase::Transfer => Step::Run(FetchPhase::Decode),
            FetchPhase::Decode => Step::Done,
        }
    }
}

/// The user as whom the monitor logs in on the device.
pub fn user_name() -> (name: &'static str)
    ensures
        name@ == "pi"@,
{
    "pi"
}

/// The name of the file on the device that holds the window.
pub fn window_file() -> (name: &'static str)
    ensures
        name@ == "lastminute.csv"@,
{
    "lastminute.csv"
}

/// The address of the device's secure-shell service.
pub fn endpoint(host: &str) -> (address: String)
    ensures
        address@ == host@ + ":22"@,
{
    let mut address = String::from_str(host);
    address.append(":22");
    address
}

/// The remote command that writes the last `record_count` records of the
/// log to the window file.
pub fn truncate_command(record_count: u32) -> (command: String)
    ensures
        command@ == command_text(record_count as nat),
{
    let mut command = String::from_str("tail -n ");
    let count = decimal_text(record_count as u64);
    command.append(count.as_str());
    command.append(" realtime.csv > lastminute.csv");
    command
}

/// `String::from_utf8` succeeds exactly on well-formed UTF-8 and then
/// yields the text that the bytes encode; the error it returns on anything
/// else is dropped here.
#[verifier::external_body]
fn text_from_utf8(bytes: Vec<u8>) -> (text: Option<String>)
    ensures
        valid_utf8(bytes@) ==> text.is_some() && text.unwrap()@ == decode_utf8(bytes@),
        !valid_utf8(bytes@) ==> text.is_none(),
{
    String::from_utf8(bytes).ok()
}

/// Decodes the bytes of the window file. Bytes that are not UTF-8 are an
/// error; no byte is ever replaced.
pub fn decode(bytes: Vec<u8>) -> (text: Result<String, FetchError>)
    ensures
        valid_utf8(bytes@) ==> text.is_ok() && text.unwrap()@ == decode_utf8(bytes@),
        !valid_utf8(bytes@) ==> text == Err::<String, FetchError>(FetchError::Decode),
{
    match text_from_utf8(bytes) {
        Some(text) => Ok(text),
        None => Err(FetchError::Decode),
    }
}

/// Each step fails with an error of its own: from the error one can tell
/// the step.
pub proof fn lemma_failures_distinct(a: FetchPhase, b: FetchPhase)
    ensures
        failure_of(a) == failure_of(b) <==> a == b,
{
}

/// A failed step ends the fetch with that step's error, whatever the step;
/// a step that succeeded never does.
pub proof fn lemma_failure_ends_fetch(phase: FetchPhase, succeeded: bool)
    ensures
        step_after(phase, succeeded) is Fail <==> !succeeded,
        !succeeded ==> step_after(phase, succeeded) == Step::Fail(failure_of(phase)),
{
}

} // verus!
