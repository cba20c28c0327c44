//! The decisions of connecting to the ADB server, starting it first when no
//! server answers: connect; else start the `adb` on the `PATH` and connect
//! with retries; else put the bundled `adb` in place, start it, and connect
//! with retries. The caller performs each action and reports its outcome.
use vstd::prelude::*;

verus! {

/// How many connection attempts are retried after the first one fails, once
/// a server has been started.
pub const CONNECT_RETRIES: u32 = 10;

/// Milliseconds to wait between two connection attempts.
pub const RETRY_DELAY_MS: u64 = 50;

/// How the bundled `adb` is put in place when the one on the `PATH` cannot be
/// started.
#[derive(Clone, Copy, PartialEq, Eq, Structural)]
pub enum BundledAdb {
    /// Written to the temporary directory unless it is there already.
    WriteIfMissing,
    /// Written to the temporary directory every time.
    WriteAlways,
    /// Shipped beside the executable: started as it is.
    BesideExecutable,
    /// None for this platform: connect with retries all the same.
    NotBundled,
}

#[derive(Clone, Copy, PartialEq, Eq, Structural)]
pub enum ConnectState {
    /// The first connection attempt is under way.
    Probing,
    /// `adb` from the `PATH` is being started.
    StartingSystemAdb,
    /// Looking whether the bundled `adb` is already in place.
    CheckingBundled,
    /// The bundled `adb` is being written.
    InstallingBundled,
    /// The bundled `adb` is being started.
    StartingBundled,
    /// Connection attempt `attempt` after a start is under way (0 is the
    /// first).
    Retrying { attempt: u32 },
    /// Waiting before connection attempt `attempt`.
    Waiting { attempt: u32 },
    /// Connected: the stream is returned.
    Connected,
    /// Given up: the last error is returned.
    Failed,
}

/// What the caller reports of the action it performed.
#[derive(Clone, Copy, PartialEq, Eq, Structural)]
pub enum Outcome {
    /// The action succeeded (for the check of the bundled `adb`: it is in
    /// place).
    Succeeded,
    /// The action failed with an error, which the caller keeps.
    Failed,
    /// The bundled `adb` is not in place (only after a check).
    Absent,
}

/// What the caller does next.
#[derive(Clone, Copy, PartialEq, Eq, Structural)]
pub enum ConnectAction {
    Connect,
    StartSystemAdb,
    CheckBundled,
    InstallBundled,
    StartBundled,
    /// Wait `RETRY_DELAY_MS` milliseconds, then report `Succeeded`.
    Wait,
    /// Return the stream of the last connection.
    ReturnStream,
    /// Return the last error.
    ReturnError,
}

/// The states the procedure can reach.
pub open spec fn state_ok(s: ConnectState) -> bool {
    match s {
        ConnectState::Retrying { attempt } => attempt <= CONNECT_RETRIES,
        ConnectState::Waiting { attempt } => 1 <= attempt <= CONNECT_RETRIES,
        _ => true,
    }
}

pub open spec fn is_final(s: ConnectState) -> bool {
    s == ConnectState::Connected || s == ConnectState::Failed
}

/// The outcomes that the action of state `s` can have (the bundled `adb`
/// is looked for only when it is written if missing). When the bundled
/// `adb` is written every time, failing to write or start it is fatal to the
/// caller and is never reported.
pub open spec fn outcome_fits(s: ConnectState, o: Outcome, bundled: BundledAdb) -> bool {
    match s {
        ConnectState::CheckingBundled => bundled == BundledAdb::WriteIfMissing,
        ConnectState::Waiting { .. } => o == Outcome::Succeeded,
        ConnectState::InstallingBundled => o != Outcome::Absent && (bundled
            == BundledAdb::WriteAlways ==> o == Outcome::Succeeded),
        ConnectState::StartingBundled => o != Outcome::Absent && (bundled
            == BundledAdb::WriteAlways ==> o == Outcome::Succeeded),
        _ => o != Outcome::Absent,
    }
}

/// An upper bound on the steps left before the procedure ends.
pub open spec fn steps_left(s: ConnectState) -> int {
    match s {
        ConnectState::Probing => 100,
        ConnectState::StartingSystemAdb => 99,
        ConnectState::CheckingBundled => 98,
        ConnectState::InstallingBundled => 97,
        ConnectState::StartingBundled => 96,
        ConnectState::Waiting { attempt } => 2 * (CONNECT_RETRIES - attempt) + 2,
        ConnectState::Retrying { attempt } => 2 * (CONNECT_RETRIES - attempt) + 1,
        ConnectState::Connected => 0,
        ConnectState::Failed => 0,
    }
}

/// The state after `adb` could not be started from the `PATH`, and its
/// action.
pub open spec fn after_system_start_failed(bundled: BundledAdb) -> (ConnectState, ConnectAction) {
    match bundled {
        BundledAdb::WriteIfMissing => (ConnectState::CheckingBundled, ConnectAction::CheckBundled),
        BundledAdb::WriteAlways => (ConnectState::InstallingBundled, ConnectAction::InstallBundled),
        BundledAdb::BesideExecutable => (ConnectState::StartingBundled, ConnectAction::StartBundled),
        BundledAdb::NotBundled => (ConnectState::Retrying { attempt: 0 }, ConnectAction::Connect),
    }
}

/// The step of the procedure from state `s` after outcome `o`.
pub open spec fn next_step(s: ConnectState, o: Outcome, bundled: BundledAdb) -> (
    ConnectState,
    ConnectAction,
) {
    match s {
        ConnectState::Probing => if o == Outcome::Succeeded {
            (ConnectState::Connected, ConnectAction::ReturnStream)
        } else {
            (ConnectState::StartingSystemAdb, ConnectAction::StartSystemAdb)
        },
        ConnectState::StartingSystemAdb => if o == Outcome::Succeeded {
            (ConnectState::Retrying { attempt: 0 }, ConnectAction::Connect)
        } else {
            after_system_start_failed(bundled)
        },
        ConnectState::CheckingBundled => if o == Outcome::Succeeded {
            (ConnectState::StartingBundled, ConnectAction::StartBundled)
        } else if o == Outcome::Absent {
            (ConnectState::InstallingBundled, ConnectAction::InstallBundled)
        } else {
            (ConnectState::Failed, ConnectAction::ReturnError)
        },
        ConnectState::InstallingBundled => if o == Outcome::Succeeded {
            (ConnectState::StartingBundled, ConnectAction::StartBundled)
        } else {
            (ConnectState::Failed, ConnectAction::ReturnError)
        },
        ConnectState::StartingBundled => if o == Outcome::Succeeded {
            (ConnectState::Retrying { attempt: 0 }, ConnectAction::Connect)
        } else {
            (ConnectState::Failed, ConnectAction::ReturnError)
        },
        ConnectState::Retrying { attempt } => if o == Outcome::Succeeded {
            (ConnectState::Connected, ConnectAction::ReturnStream)
        } else if attempt >= CONNECT_RETRIES {
            (ConnectState::Failed, ConnectAction::ReturnError)
        } else {
            (ConnectState::Waiting { attempt: (attempt + 1) as u32 }, ConnectAction::Wait)
        },
        ConnectState::Waiting { attempt } => (
            ConnectState::Retrying { attempt },
            ConnectAction::Connect,
        ),
        ConnectState::Connected => (ConnectState::Connected, ConnectAction::ReturnStream),
        ConnectState::Failed => (ConnectState::Failed, ConnectAction::ReturnError),
    }
}

/// The first state and action: try to connect to a server that may already
/// be running.
pub fn connect_start() -> (r: (ConnectState, ConnectAction))
    ensures
        r == (ConnectState::Probing, ConnectAction::Connect),
        state_ok(r.0),
{
    (ConnectState::Probing, ConnectAction::Connect)
}

/// The next state and action, given the outcome of the current state's
/// action.
pub fn connect_step(state: ConnectState, outcome: Outcome, bundled: BundledAdb) -> (r: (
    ConnectState,
    ConnectAction,
))
    requires
        state_ok(state),
        !is_final(state),
        outcome_fits(state, outcome, bundled),
    ensures
        r == next_step(state, outcome, bundled),
        state_ok(r.0),
        steps_left(r.0) < steps_left(state),
        r.1 == ConnectAction::ReturnStream <==> r.0 == ConnectState::Connected,
        r.1 == ConnectAction::ReturnError <==> r.0 == ConnectState::Failed,
{
    match state {
        ConnectState::Probing => if outcome == Outcome::Succeeded {
            (ConnectState::Connected, ConnectAction::ReturnStream)
        } else {
            (ConnectState::StartingSystemAdb, ConnectAction::StartSystemAdb)
        },
        ConnectState::StartingSystemAdb => if outcome == Outcome::Succeeded {
            (ConnectState::Retrying { attempt: 0 }, ConnectAction::Connect)
        } else {
            match bundled {
                BundledAdb::WriteIfMissing => (
                    ConnectState::CheckingBundled,
                    ConnectAction::CheckBundled,
                ),
                BundledAdb::WriteAlways => (
                    ConnectState::InstallingBundled,
                    ConnectAction::InstallBundled,
                ),
                BundledAdb::BesideExecutable => (
                    ConnectState::StartingBundled,
                    ConnectAction::StartBundled,
                ),
                BundledAdb::NotBundled => (
                    ConnectState::Retrying { attempt: 0 },
                    ConnectAction::Connect,
                ),
            }
        },
        ConnectState::CheckingBundled => if outcome == Outcome::Succeeded {
            (ConnectState::StartingBundled, ConnectAction::StartBundled)
        } else if outcome == Outcome::Absent {
            (ConnectState::InstallingBundled, ConnectAction::InstallBundled)
        } else {
            (ConnectState::Failed, ConnectAction::ReturnError)
        },
        ConnectState::InstallingBundled => if outcome == Outcome::Succeeded {
            (ConnectState::StartingBundled, ConnectAction::StartBundled)
        } else {
            (ConnectState::Failed, ConnectAction::ReturnError)
        },
        ConnectState::StartingBundled => if outcome == Outcome::Succeeded {
            (ConnectState::Retrying { attempt: 0 }, ConnectAction::Connect)
        } else {
            (ConnectState::Failed, ConnectAction::ReturnError)
        },
        ConnectState::Retrying { attempt } => if outcome == Outcome::Succeeded {
            (ConnectState::Connected, ConnectAction::ReturnStream)
        } else if attempt >= CONNECT_RETRIES {
            (ConnectState::Failed, ConnectAction::ReturnError)
        } else {
            (ConnectState::Waiting { attempt: attempt + 1 }, ConnectAction::Wait)
        },
        ConnectState::Waiting { attempt } => (
            ConnectState::Retrying { attempt },
            ConnectAction::Connect,
        ),
        ConnectState::Connected => (ConnectState::Connected, ConnectAction::ReturnStream),
        ConnectState::Failed => (ConnectState::Failed, ConnectAction::ReturnError),
    }
}

/// The state after `n` steps from `s`, every action failing.
pub open spec fn after_failures(s: ConnectState, n: nat, bundled: BundledAdb) -> ConnectState
    decreases n,
{
    if n == 0 || is_final(s) {
        s
    } else {
        let o = match s {
            ConnectState::Waiting { .. } => Outcome::Succeeded,
            _ => Outcome::Failed,
        };
        after_failures(next_step(s, o, bundled).0, (n - 1) as nat, bundled)
    }
}

/// Every step brings the procedure closer to its end, so it ends after at
/// most `steps_left` steps, whatever the outcomes.
pub proof fn lemma_connect_terminates(s: ConnectState, o: Outcome, bundled: BundledAdb)
    requires
        state_ok(s),
        !is_final(s),
        outcome_fits(s, o, bundled),
    ensures
        state_ok(next_step(s, o, bundled).0),
        0 <= steps_left(next_step(s, o, bundled).0) < steps_left(s),
{
}

/// Once a server is started, a connection is attempted eleven times, with a
/// wait between two attempts, before the procedure gives up.
pub proof fn lemma_retries_then_gives_up(bundled: BundledAdb)
    ensures
        after_failures((ConnectState::Retrying { attempt: 0 }), 20, bundled) == (
        ConnectState::Retrying { attempt: 10 }),
        after_failures((ConnectState::Retrying { attempt: 0 }), 21, bundled)
            == ConnectState::Failed,
{
    reveal_with_fuel(after_failures, 22);
}

/// When the bundled `adb` is written every time, the procedure gives up only
/// after its connection attempts: writing and starting the bundled `adb`
/// never end it with an error.
pub proof fn lemma_write_always_fails_only_connecting(s: ConnectState, o: Outcome)
    requires
        state_ok(s),
        !is_final(s),
        outcome_fits(s, o, BundledAdb::WriteAlways),
        next_step(s, o, BundledAdb::WriteAlways).1 == ConnectAction::ReturnError,
    ensures
        s is Retrying,
{
}

/// A stream is returned only right after a connection attempt succeeded.
pub proof fn lemma_stream_only_after_connect(s: ConnectState, o: Outcome, bundled: BundledAdb)
    requires
        state_ok(s),
        !is_final(s),
        next_step(s, o, bundled).1 == ConnectAction::ReturnStream,
    ensures
        o == Outcome::Succeeded,
        s == ConnectState::Probing || (s is Retrying),
{
}

/// From connection attempt `attempt` on, with every attempt failing and
/// every wait done: after an even number `n` of steps the procedure makes
/// attempt `attempt + n / 2`, after an odd number it waits before the next
/// one, and it gives up only once attempt `CONNECT_RETRIES` has failed.
proof fn lemma_failing_attempts(attempt: u32, n: nat, bundled: BundledAdb)
    requires
        attempt <= 10,
    ensures
        n <= 2 * (10 - attempt) && n % 2 == 0 ==> after_failures(
            ConnectState::Retrying { attempt },
            n,
            bundled,
        ) == (ConnectState::Retrying { attempt: (attempt + n / 2) as u32 }),
        n <= 2 * (10 - attempt) && n % 2 == 1 ==> after_failures(
            ConnectState::Retrying { attempt },
            n,
            bundled,
        ) == (ConnectState::Waiting { attempt: (attempt + (n + 1) / 2) as u32 }),
        n > 2 * (10 - attempt) ==> after_failures(ConnectState::Retrying { attempt }, n, bundled)
            == ConnectState::Failed,
    decreases n,
{
    if n > 0 {
        if attempt >= 10 {
            lemma_failed_stays_failed((n - 1) as nat, bundled);
        } else if n >= 2 {
            let w = ConnectState::Waiting { attempt: (attempt + 1) as u32 };
            assert(after_failures(ConnectState::Retrying { attempt }, n, bundled) == after_failures(
                w,
                (n - 1) as nat,
                bundled,
            ));
            assert(after_failures(w, (n - 1) as nat, bundled) == after_failures(
                ConnectState::Retrying { attempt: (attempt + 1) as u32 },
                (n - 2) as nat,
                bundled,
            ));
            lemma_failing_attempts((attempt + 1) as u32, (n - 2) as nat, bundled);
        } else {
            assert(after_failures(ConnectState::Retrying { attempt }, 1, bundled) == after_failures(
                ConnectState::Waiting { attempt: (attempt + 1) as u32 },
                0,
                bundled,
            ));
        }
    }
}

proof fn lemma_failed_stays_failed(n: nat, bundled: BundledAdb)
    ensures
        after_failures(ConnectState::Failed, n, bundled) == ConnectState::Failed,
{
}

/// Once an `adb` has been started, whether the one on the `PATH` or the
/// bundled one, the procedure connects at once and, as long as every
/// connection attempt fails, goes on through eleven attempts with a wait
/// before each retry: for the first twenty steps it has not ended, at every
/// even step it makes an attempt and at every odd step it waits, and it gives
/// up at the twenty-first step and not before.
pub proof fn lemma_started_server_gets_eleven_attempts(
    started: ConnectState,
    n: nat,
    bundled: BundledAdb,
)
    requires
        started == ConnectState::StartingSystemAdb || started == ConnectState::StartingBundled,
    ensures
        next_step(started, Outcome::Succeeded, bundled).1 == ConnectAction::Connect,
        ({
            let first = next_step(started, Outcome::Succeeded, bundled).0;
            let s = after_failures(first, n, bundled);
            &&& n <= 20 ==> !is_final(s)
            &&& n <= 20 && n % 2 == 0 ==> next_step(s, Outcome::Failed, bundled).1 != ConnectAction::Connect
                && (s is Retrying)
            &&& n <= 20 && n % 2 == 1 ==> (s is Waiting) && next_step(
                s,
                Outcome::Succeeded,
                bundled,
            ).1 == ConnectAction::Connect
            &&& n >= 21 ==> s == ConnectState::Failed
        }),
{
    lemma_failing_attempts(0, n, bundled);
}

} // verus!
