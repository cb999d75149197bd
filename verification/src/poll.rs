//! The polling state machine.
//!
//! One worker owns a `Poller` and feeds it the commands in the order in
//! which they arrive. The poller answers each command with the action the
//! worker has to take; the worker reports back how a connection attempt or
//! a fetch ended. Nothing else changes the connection state.
use vstd::prelude::*;
use crate::error::FetchError;

verus! {

/// What the timer and the user ask for.
#[derive(Clone, Copy, Debug, PartialEq, Eq, Structural)]
pub enum Command {
    Start,
    Stop,
    Tick,
}

/// Where the connection to the device stands.
#[derive(Clone, Copy, Debug, PartialEq, Eq, Structural)]
pub enum ConnectionState {
    Disconnected,
    Connecting,
    Connected,
    /// The last attempt failed at this step. A new `Start` tries again.
    Failed(FetchError),
}

/// What the worker has to do after a command. `Connect` and `Fetch` carry
/// the generation at which they were issued; their outcome is reported
/// back under that number.
#[derive(Clone, Copy, Debug, PartialEq, Eq, Structural)]
pub enum Action {
    /// Nothing.
    Idle,
    /// Open the connection, shake hands and authenticate.
    Connect(u64),
    /// Let go of the connection, if one is held.
    Release,
    /// Fetch one window and report on it.
    Fetch(u64),
}

/// The state of a poller: the connection state, and a count of the starts
/// and stops so far, by which late outcomes are told from current ones.
#[derive(Clone, Copy, Debug, PartialEq, Eq, Structural)]
pub struct PollState {
    pub connection: ConnectionState,
    pub generation: u64,
}

/// The polling state machine.
#[derive(Debug)]
pub struct Poller {
    connection: ConnectionState,
    generation: u64,
}

/// The generation after `generation`. The count starts over after the
/// last number.
pub open spec fn next_generation(generation: u64) -> u64 {
    if generation == u64::MAX {
        0
    } else {
        (generation + 1) as u64
    }
}

/// The state after a command.
pub open spec fn after_command(s: PollState, command: Command) -> PollState {
    match command {
        Command::Start => if s.connection == ConnectionState::Connected {
            s
        } else {
            PollState {
                connection: ConnectionState::Connecting,
                generation: next_generation(s.generation),
            }
        },
        Command::Stop => PollState {
            connection: ConnectionState::Disconnected,
            generation: next_generation(s.generation),
        },
        Command::Tick => s,
    }
}

/// The action that answers a command.
pub open spec fn action_for(s: PollState, command: Command) -> Action {
    match command {
        Command::Start => if s.connection == ConnectionState::Connected {
            Action::Idle
        } else {
            Action::Connect(next_generation(s.generation))
        },
        Command::Stop => Action::Release,
        Command::Tick => if s.connection == ConnectionState::Connected {
            Action::Fetch(s.generation)
        } else {
            Action::Idle
        },
    }
}

/// Whether the outcome of a connection attempt issued at `generation`
/// still counts.
pub open spec fn awaits_connection(s: PollState, generation: u64) -> bool {
    s.connection == ConnectionState::Connecting && s.generation == generation
}

/// Whether the outcome of a fetch issued at `generation` still counts.
pub open spec fn awaits_window(s: PollState, generation: u64) -> bool {
    s.connection == ConnectionState::Connected && s.generation == generation
}

/// The state after a connection attempt has ended.
pub open spec fn after_connect(s: PollState, generation: u64, outcome: Result<(), FetchError>)
    -> PollState {
    if awaits_connection(s, generation) {
        match outcome {
            Ok(_) => PollState { connection: ConnectionState::Connected, generation: s.generation },
            Err(e) => PollState { connection: ConnectionState::Failed(e), generation: s.generation },
        }
    } else {
        s
    }
}

/// The state after a fetch has ended.
pub open spec fn after_fetch(s: PollState, generation: u64, outcome: Result<(), FetchError>)
    -> PollState {
    if awaits_window(s, generation) {
        match outcome {
            Ok(_) => s,
            Err(e) => PollState { connection: ConnectionState::Failed(e), generation: s.generation },
        }
    } else {
        s
    }
}

/// The status line of a connection state.
pub open spec fn status_of(connection: ConnectionState) -> Seq<char> {
    match connection {
        ConnectionState::Disconnected => "Stopped"@,
        ConnectionState::Connecting => "Connecting"@,
        ConnectionState::Connected => "Running"@,
        ConnectionState::Failed(FetchError::Connect) => "Fail Connect"@,
        ConnectionState::Failed(FetchError::Handshake) => "Fail Handshake"@,
        ConnectionState::Failed(FetchError::Auth) => "Fail Password"@,
        ConnectionState::Failed(FetchError::RemoteExec) => "Fail Exec"@,
        ConnectionState::Failed(FetchError::Transfer) => "Fail Transfer"@,
        ConnectionState::Failed(FetchError::Decode) => "Fail Decode"@,
    }
}

/// The state after a run of commands, none of which leads to outside work
/// that is reported back in between.
pub open spec fn after_commands(s: PollState, commands: Seq<Command>) -> PollState
    decreases commands.len(),
{
    if commands.len() == 0 {
        s
    } else {
        after_command(after_commands(s, commands.drop_last()), commands.last())
    }
}

impl View for Poller {
    type V = PollState;

    closed spec fn view(&self) -> PollState {
        PollState { connection: self.connection, generation: self.generation }
    }
}

impl Poller {
    /// A poller that is disconnected.
    pub fn new() -> (poller: Poller)
        ensures
            poller@ == (PollState { connection: ConnectionState::Disconnected, generation: 0 }),
    {
        Poller { connection: ConnectionState::Disconnected, generation: 0 }
    }

    /// The connection state.
    pub fn state(&self) -> (connection: ConnectionState)
        ensures
            connection == self@.connection,
    {
        self.connection
    }

    /// The current generation.
    pub fn generation(&self) -> (generation: u64)
        ensures
            generation == self@.generation,
    {
        self.generation
    }

    /// Takes one command and says what the worker has to do.
    ///
    /// `Start` does nothing while connected; otherwise the poller is
    /// connecting and the worker has to open the connection. `Stop` always
    /// leaves the poller disconnected and has the worker release what it
    /// holds. `Tick` asks for a fetch while connected; otherwise it does
    /// nothing and changes nothing.
    pub fn handle(&mut self, command: Command) -> (action: Action)
        ensures
            final(self)@ == after_command(old(self)@, command),
            action == action_for(old(self)@, command),
    {
        match command {
            Command::Start => {
                if self.connection == ConnectionState::Connected {
                    Action::Idle
                } else {
                    self.bump();
                    self.connection = ConnectionState::Connecting;
                    Action::Connect(self.generation)
                }
            },
            Command::Stop => {
                self.bump();
                self.connection = ConnectionState::Disconnected;
                Action::Release
            },
            Command::Tick => {
                if self.connection == ConnectionState::Connected {
                    Action::Fetch(self.generation)
                } else {
                    Action::Idle
                }
            },
        }
    }

    /// Takes the outcome of the connection attempt that was issued at
    /// `generation`. If the poller still waits for it, it is now connected,
    /// or failed at the step that the error names. An outcome that nothing
    /// waits for any more is dropped. Returns whether the outcome counted.
    pub fn connection_ended(&mut self, generation: u64, outcome: Result<(), FetchError>) -> (counted:
        bool)
        ensures
            final(self)@ == after_connect(old(self)@, generation, outcome),
            counted == awaits_connection(old(self)@, generation),
    {
        if self.connection == ConnectionState::Connecting && self.generation == generation {
            match outcome {
                Ok(_) => {
                    self.connection = ConnectionState::Connected;
                },
                Err(e) => {
                    self.connection = ConnectionState::Failed(e);
                },
            }
            true
        } else {
            false
        }
    }

    /// Takes the outcome of the fetch that was issued at `generation`. If
    /// the poller is still connected in that generation, a success leaves
    /// it so and a failure makes it failed at the step that the error
    /// names. The outcome of a fetch that a `Stop` has overtaken is
    /// dropped. Returns whether the outcome counted: only then may the
    /// report of this fetch be shown.
    pub fn fetch_ended(&mut self, generation: u64, outcome: Result<(), FetchError>) -> (counted: bool)
        ensures
            final(self)@ == after_fetch(old(self)@, generation, outcome),
            counted == awaits_window(old(self)@, generation),
    {
        if self.connection == ConnectionState::Connected && self.generation == generation {
            match outcome {
                Ok(_) => {},
                Err(e) => {
                    self.connection = ConnectionState::Failed(e);
                },
            }
            true
        } else {
            false
        }
    }

    /// The status line of the current state.
    pub fn status(&self) -> (line: &'static str)
        ensures
            line@ == status_of(self@.connection),
    {
        status_text(self.connection)
    }

    fn bump(&mut self)
        ensures
            final(self).connection == old(self).connection,
            final(self).generation == next_generation(old(self).generation),
    {
        self.generation = if self.generation == u64::MAX {
            0
        } else {
            self.generation + 1
        };
    }
}

/// The status line of a connection state. Every state has a line of its
/// own, and so has every step at which an attempt can fail.
pub fn status_text(connection: ConnectionState) -> (line: &'static str)
    ensures
        line@ == status_of(connection),
{
    match connection {
        ConnectionState::Disconnected => "Stopped",
        ConnectionState::Connecting => "Connecting",
        ConnectionState::Connected => "Running",
        ConnectionState::Failed(FetchError::Connect) => "Fail Connect",
        ConnectionState::Failed(FetchError::Handshake) => "Fail Handshake",
        ConnectionState::Failed(FetchError::Auth) => "Fail Password",
        ConnectionState::Failed(FetchError::RemoteExec) => "Fail Exec",
        ConnectionState::Failed(FetchError::Transfer) => "Fail Transfer",
        ConnectionState::Failed(FetchError::Decode) => "Fail Decode",
    }
}

/// Two states with the same status line are the same state: the line
/// tells whether the poller runs, and if not, at which step it failed.
pub proof fn lemma_status_distinct(a: ConnectionState, b: ConnectionState)
    ensures
        status_of(a) == status_of(b) <==> a == b,
{
    reveal_strlit("Stopped");
    reveal_strlit("Connecting");
    reveal_strlit("Running");
    reveal_strlit("Fail Connect");
    reveal_strlit("Fail Handshake");
    reveal_strlit("Fail Password");
    reveal_strlit("Fail Exec");
    reveal_strlit("Fail Transfer");
    reveal_strlit("Fail Decode");
    if a != b && status_of(a) == status_of(b) {
        assert(status_of(a).len() == status_of(b).len());
        assert(status_of(a)[0] == status_of(b)[0]);
        assert(status_of(a)[5] == status_of(b)[5]);
    }
}

/// A tick changes nothing, and asks for a fetch only while connected.
pub proof fn lemma_tick_only_while_connected(s: PollState)
    ensures
        after_command(s, Command::Tick) == s,
        action_for(s, Command::Tick) is Fetch <==> s.connection == ConnectionState::Connected,
        s.connection != ConnectionState::Connected ==> action_for(s, Command::Tick)
            == Action::Idle,
{
}

/// Once stopped, ticks do nothing: after a `Stop`, however many ticks
/// follow, the poller is disconnected and the next tick asks for no fetch.
pub proof fn lemma_no_fetch_after_stop(s: PollState, ticks: nat)
    ensures
        after_commands(
            after_command(s, Command::Stop),
            Seq::new(ticks, |i: int| Command::Tick),
        ).connection == ConnectionState::Disconnected,
        action_for(
            after_commands(after_command(s, Command::Stop), Seq::new(ticks, |i: int| Command::Tick)),
            Command::Tick,
        ) == Action::Idle,
    decreases ticks,
{
    let all = Seq::new(ticks, |i: int| Command::Tick);
    if ticks > 0 {
        lemma_no_fetch_after_stop(s, (ticks - 1) as nat);
        assert(all.drop_last() =~= Seq::new((ticks - 1) as nat, |i: int| Command::Tick));
    }
}

/// A start, a successful connection, a tick, a stop and another tick: the
/// first tick asks for a fetch, the second for nothing.
pub proof fn lemma_start_tick_stop_tick(s: PollState)
    requires
        s.connection != ConnectionState::Connected,
    ensures
        ({
            let started = after_command(s, Command::Start);
            let connected = after_connect(started, started.generation, Ok(()));
            let stopped = after_command(after_command(connected, Command::Tick), Command::Stop);
            &&& action_for(s, Command::Start) == Action::Connect(started.generation)
            &&& action_for(connected, Command::Tick) == Action::Fetch(connected.generation)
            &&& action_for(stopped, Command::Tick) == Action::Idle
            &&& after_command(stopped, Command::Tick) == stopped
            &&& stopped.connection == ConnectionState::Disconnected
        }),
{
}

/// Failing is not the end: when the attempt that the poller waits for
/// fails, the poller is failed at that step, and the next `Start` has the
/// worker connect again.
pub proof fn lemma_start_retries_after_failure(s: PollState, error: FetchError)
    requires
        s.connection == ConnectionState::Connecting,
    ensures
        after_connect(s, s.generation, Err(error)).connection == ConnectionState::Failed(error),
        after_command(after_connect(s, s.generation, Err(error)), Command::Start).connection
            == ConnectionState::Connecting,
        action_for(after_connect(s, s.generation, Err(error)), Command::Start) is Connect,
{
}

/// A fetch that fails while its outcome still counts leaves the poller
/// failed at that step; the ticks that follow ask for nothing until the
/// poller is started again.
pub proof fn lemma_failed_fetch_demotes(s: PollState, error: FetchError)
    requires
        s.connection == ConnectionState::Connected,
    ensures
        after_fetch(s, s.generation, Err(error)).connection == ConnectionState::Failed(error),
        action_for(after_fetch(s, s.generation, Err(error)), Command::Tick) == Action::Idle,
        action_for(after_fetch(s, s.generation, Err(error)), Command::Start) is Connect,
{
}

/// What was issued before a `Stop` or a new `Start` no longer counts
/// afterwards, whether it succeeded or not.
pub proof fn lemma_late_outcome_dropped(
    s: PollState,
    command: Command,
    outcome: Result<(), FetchError>,
)
    requires
        command == Command::Stop || (command == Command::Start && s.connection
            != ConnectionState::Connected),
    ensures
        after_fetch(after_command(s, command), s.generation, outcome) == after_command(s, command),
        after_connect(after_command(s, command), s.generation, outcome) == after_command(
            s,
            command,
        ),
{
}

} // verus!
