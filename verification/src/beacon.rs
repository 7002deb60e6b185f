//! The broadcast loop's decisions: what one iteration does, given the
//! clock reading, and the policy that a failed transmission never ends
//! the loop.
//!
//! The hosting process owns the socket, the clock and the sleep; it
//! reads the clock as whole milliseconds since the Unix epoch (`None`
//! when the clock reports a time before the epoch), asks
//! [`next_loop_step`] what to do, performs the transmission, and
//! consults [`transmission_failure_ends_loop`] before sleeping one
//! interval and repeating.

use crate::codec::{be_bytes_of, be_val, lemma_ts_round_trip};
use crate::config::EXIT_CODE_RUNTIME_ERROR;
use vstd::prelude::*;

verus! {

/// The two fatal conditions an iteration can meet.
#[derive(Clone, Copy, Debug, PartialEq, Eq, Structural)]
pub enum FatalError {
    /// The clock reported a time before the Unix epoch.
    ClockBeforeEpoch,
    /// The millisecond count does not fit the 64-bit unsigned payload.
    TimestampOverflow,
}

/// What one iteration of the broadcast loop does.
#[derive(Clone, Copy, Debug, PartialEq, Eq, Structural)]
pub enum LoopStep {
    /// Report the condition and terminate with the runtime-error
    /// status, sending nothing.
    Fatal(FatalError),
    /// Transmit this millisecond timestamp, encoded as the 8-byte
    /// big-endian payload, then sleep one interval.
    Transmit(u64),
}

/// The iteration rule: a clock before the epoch and a millisecond count
/// over `u64::MAX` are fatal; any other reading is transmitted.
pub open spec fn spec_loop_step(clock_ms: Option<u128>) -> LoopStep {
    match clock_ms {
        None => LoopStep::Fatal(FatalError::ClockBeforeEpoch),
        Some(ms) => if ms > u64::MAX as u128 {
            LoopStep::Fatal(FatalError::TimestampOverflow)
        } else {
            LoopStep::Transmit(ms as u64)
        },
    }
}

/// A clock reading on which the iteration transmits.
pub open spec fn clock_valid(clock_ms: Option<u128>) -> bool {
    clock_ms matches Some(ms) && ms <= u64::MAX as u128
}

/// Decides what the iteration does, as [`spec_loop_step`] describes.
pub fn next_loop_step(clock_ms_since_epoch: Option<u128>) -> (s: LoopStep)
    ensures
        s == spec_loop_step(clock_ms_since_epoch),
{
    match clock_ms_since_epoch {
        None => LoopStep::Fatal(FatalError::ClockBeforeEpoch),
        Some(ms) => {
            if ms > u64::MAX as u128 {
                LoopStep::Fatal(FatalError::TimestampOverflow)
            } else {
                LoopStep::Transmit(ms as u64)
            }
        },
    }
}

/// The exit status for a fatal iteration: always the runtime-error
/// status, for either condition.
pub fn fatal_exit_code(e: &FatalError) -> (c: u8)
    ensures
        c == EXIT_CODE_RUNTIME_ERROR,
{
    let _ = e;
    EXIT_CODE_RUNTIME_ERROR
}

/// The failure policy: a failed transmission is reported and the loop
/// continues unchanged, so it never ends the loop.
pub fn transmission_failure_ends_loop(send_succeeded: bool) -> (r: bool)
    ensures
        r == false,
{
    let _ = send_succeeded;
    false
}

/// What a whole run does: the timestamps transmitted, and the fatal
/// condition that ended it, if one did.
pub struct BeaconRun {
    pub sent: Seq<u64>,
    pub exit: Option<FatalError>,
}

/// The run over a sequence of clock readings, one per iteration: each
/// valid reading is transmitted; the first fatal reading ends the run.
/// Transmission outcomes do not appear: they cannot affect the run.
pub open spec fn spec_run(clocks: Seq<Option<u128>>) -> BeaconRun
    decreases clocks.len(),
{
    if clocks.len() == 0 {
        BeaconRun { sent: Seq::empty(), exit: None }
    } else {
        match spec_loop_step(clocks[0]) {
            LoopStep::Fatal(e) => BeaconRun { sent: Seq::empty(), exit: Some(e) },
            LoopStep::Transmit(ts) => {
                let rest = spec_run(clocks.drop_first());
                BeaconRun { sent: seq![ts] + rest.sent, exit: rest.exit }
            },
        }
    }
}

/// Replays the loop on given clock readings, as [`spec_run`] describes:
/// the timestamps that would be transmitted, and the fatal condition
/// that would end the run.
pub fn simulate_run(clocks: &Vec<Option<u128>>) -> (r: (Vec<u64>, Option<FatalError>))
    ensures
        r.0@ == spec_run(clocks@).sent,
        r.1 == spec_run(clocks@).exit,
{
    let n = clocks.len();
    let mut sent: Vec<u64> = Vec::new();
    let mut i: usize = 0;
    proof {
        assert(clocks@.skip(0) =~= clocks@);
        assert(sent@ + spec_run(clocks@).sent =~= spec_run(clocks@).sent);
    }
    while i < n
        invariant
            n == clocks@.len(),
            i <= n,
            spec_run(clocks@).sent == sent@ + spec_run(clocks@.skip(i as int)).sent,
            spec_run(clocks@).exit == spec_run(clocks@.skip(i as int)).exit,
        decreases n - i,
    {
        proof {
            assert(clocks@.skip(i as int)[0] == clocks@[i as int]);
            assert(clocks@.skip(i as int).drop_first() =~= clocks@.skip(i as int + 1));
        }
        match next_loop_step(clocks[i]) {
            LoopStep::Fatal(e) => {
                proof {
                    assert(sent@ + spec_run(clocks@.skip(i as int)).sent =~= sent@);
                }
                return (sent, Some(e));
            },
            LoopStep::Transmit(ts) => {
                sent.push(ts);
            },
        }
        i += 1;
    }
    proof {
        assert(clocks@.skip(n as int) =~= Seq::<Option<u128>>::empty());
        assert(sent@ + spec_run(clocks@.skip(n as int)).sent =~= sent@);
    }
    (sent, None)
}

/// With the clock fixed at a representable reading of `ms` milliseconds,
/// the iteration transmits exactly `ms`, and the 8-byte big-endian
/// payload it encodes decodes back to exactly `ms`.
pub proof fn lemma_transmitted_payload_decodes(ms: u128)
    requires
        ms <= u64::MAX as u128,
    ensures
        spec_loop_step(Some(ms)) == LoopStep::Transmit(ms as u64),
        be_val(be_bytes_of(ms as u64)) == ms,
{
    lemma_ts_round_trip(ms as u64);
}

/// When every clock reading is valid, every iteration transmits and the
/// run never ends on its own — in particular, transmission failures on
/// any iterations do not shorten it.
pub proof fn lemma_valid_clocks_all_transmit(clocks: Seq<Option<u128>>)
    requires
        forall|k: int| 0 <= k < clocks.len() ==> clock_valid(clocks[k]),
    ensures
        spec_run(clocks).sent.len() == clocks.len(),
        spec_run(clocks).exit is None,
    decreases clocks.len(),
{
    if clocks.len() > 0 {
        assert(clock_valid(clocks[0]));
        lemma_valid_clocks_all_transmit(clocks.drop_first());
    }
}

/// The first fatal clock reading ends the run with the runtime error it
/// names, before anything is sent on that iteration.
pub proof fn lemma_fatal_clock_stops(clocks: Seq<Option<u128>>, n: int)
    requires
        0 <= n < clocks.len(),
        forall|k: int| 0 <= k < n ==> clock_valid(clocks[k]),
        !clock_valid(clocks[n]),
    ensures
        spec_run(clocks).sent.len() == n,
        spec_run(clocks).exit == Some(
            if clocks[n] is None {
                FatalError::ClockBeforeEpoch
            } else {
                FatalError::TimestampOverflow
            },
        ),
    decreases n,
{
    if n > 0 {
        assert(clock_valid(clocks[0]));
        lemma_fatal_clock_stops(clocks.drop_first(), n - 1);
    }
}

} // verus!
