use udp_bcast_ts::beacon::{
    fatal_exit_code, next_loop_step, simulate_run, transmission_failure_ends_loop, FatalError,
    LoopStep,
};
use udp_bcast_ts::codec::{decode_ts_ms, encode_ts_ms};
use udp_bcast_ts::config::EXIT_CODE_RUNTIME_ERROR;

#[test]
fn mocked_clock_payload_decodes_to_t() {
    // With the clock fixed at T milliseconds, the transmitted payload
    // decodes, big-endian unsigned 64-bit, to exactly T.
    let t: u64 = 1_700_000_123_456;
    match next_loop_step(Some(t as u128)) {
        LoopStep::Transmit(ts) => {
            assert_eq!(ts, t);
            let payload = encode_ts_ms(ts);
            assert_eq!(payload.len(), 8);
            assert_eq!(decode_ts_ms(&payload), t);
        }
        LoopStep::Fatal(_) => panic!("a valid clock reading must transmit"),
    }
}

#[test]
fn clock_before_epoch_is_fatal() {
    assert_eq!(
        next_loop_step(None),
        LoopStep::Fatal(FatalError::ClockBeforeEpoch)
    );
}

#[test]
fn timestamp_overflow_is_fatal() {
    assert_eq!(
        next_loop_step(Some(u64::MAX as u128 + 1)),
        LoopStep::Fatal(FatalError::TimestampOverflow)
    );
    assert_eq!(
        next_loop_step(Some(u64::MAX as u128)),
        LoopStep::Transmit(u64::MAX)
    );
}

#[test]
fn fatal_conditions_use_runtime_error_status() {
    assert_eq!(fatal_exit_code(&FatalError::ClockBeforeEpoch), EXIT_CODE_RUNTIME_ERROR);
    assert_eq!(fatal_exit_code(&FatalError::TimestampOverflow), EXIT_CODE_RUNTIME_ERROR);
}

#[test]
fn send_failure_never_ends_loop() {
    // Whether the transmission succeeded or failed, the loop goes on.
    assert!(!transmission_failure_ends_loop(false));
    assert!(!transmission_failure_ends_loop(true));
}

#[test]
fn failed_send_iteration_is_followed_by_the_next() {
    // A transmission failure on iteration N is not an input to the run
    // at all: with three valid clock readings the run transmits three
    // times, whatever happened to each datagram on the wire.
    let clocks = vec![Some(10u128), Some(20), Some(30)];
    let (sent, exit) = simulate_run(&clocks);
    assert_eq!(sent, vec![10u64, 20, 30]);
    assert_eq!(exit, None);
}

#[test]
fn clock_before_epoch_stops_before_sending() {
    let clocks = vec![Some(1u128), None, Some(2)];
    let (sent, exit) = simulate_run(&clocks);
    assert_eq!(sent, vec![1u64]);
    assert_eq!(exit, Some(FatalError::ClockBeforeEpoch));
}

#[test]
fn overflow_stops_before_sending() {
    let clocks = vec![Some(5u128), Some(u64::MAX as u128 + 1), Some(6)];
    let (sent, exit) = simulate_run(&clocks);
    assert_eq!(sent, vec![5u64]);
    assert_eq!(exit, Some(FatalError::TimestampOverflow));
}

#[test]
fn empty_run_sends_nothing() {
    let (sent, exit) = simulate_run(&Vec::new());
    assert!(sent.is_empty());
    assert_eq!(exit, None);
}
