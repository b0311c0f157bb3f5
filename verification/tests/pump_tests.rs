use moviebay::pump::pump_run;
use moviebay::pump::step;
use moviebay::pump::PumpAction;
use moviebay::pump::PumpEvent;
use moviebay::pump::PumpOutcome;
use moviebay::pump::PumpState;
use moviebay::pump::ReadEvent;
use moviebay::pump::CHUNK_SIZE;

fn chunk(fill: u8) -> Vec<u8> {
    vec![fill; CHUNK_SIZE]
}

#[test]
fn pump_delivers_three_chunks_in_order_then_completes() {
    let source = vec![
        ReadEvent::Data(chunk(1)),
        ReadEvent::Data(chunk(2)),
        ReadEvent::Data(chunk(3)),
        ReadEvent::Eof,
    ];
    let run = pump_run(source, 8);
    assert_eq!(run.writes.len(), 3);
    assert_eq!(run.writes[0], chunk(1));
    assert_eq!(run.writes[1], chunk(2));
    assert_eq!(run.writes[2], chunk(3));
    assert_eq!(run.outcome, PumpOutcome::Completed);
    assert!(!run.killed);
    assert!(run.waited);
}

#[test]
fn pump_delivers_partial_trailing_chunk() {
    let source = vec![
        ReadEvent::Data(chunk(9)),
        ReadEvent::Data(vec![7u8; 100]),
        ReadEvent::Eof,
    ];
    let run = pump_run(source, 8);
    assert_eq!(run.writes.len(), 2);
    assert_eq!(run.writes[1], vec![7u8; 100]);
    assert_eq!(run.outcome, PumpOutcome::Completed);
    assert!(!run.killed);
}

#[test]
fn peer_disconnect_mid_stream_kills_the_transcoder() {
    let source = vec![
        ReadEvent::Data(chunk(1)),
        ReadEvent::Data(chunk(2)),
        ReadEvent::Data(chunk(3)),
        ReadEvent::Eof,
    ];
    let run = pump_run(source, 1);
    assert_eq!(run.writes.len(), 1);
    assert_eq!(run.writes[0], chunk(1));
    assert_eq!(run.outcome, PumpOutcome::PeerGone);
    assert!(run.killed);
    assert!(run.waited);
}

#[test]
fn read_failure_kills_the_transcoder() {
    let source = vec![ReadEvent::Data(chunk(1)), ReadEvent::Failed];
    let run = pump_run(source, 8);
    assert_eq!(run.writes.len(), 1);
    assert_eq!(run.outcome, PumpOutcome::SourceFailed);
    assert!(run.killed);
    assert!(run.waited);
}

#[test]
fn empty_stream_completes_without_writes() {
    let run = pump_run(vec![ReadEvent::Eof], 8);
    assert!(run.writes.is_empty());
    assert_eq!(run.outcome, PumpOutcome::Completed);
    assert!(!run.killed);
    assert!(run.waited);
}

#[test]
fn refused_send_is_answered_with_a_kill_in_one_step() {
    let (state, action) = step(PumpState::Sending { done_reading: false }, PumpEvent::Refused);
    assert_eq!(state, PumpState::Finished(PumpOutcome::PeerGone));
    assert_eq!(action, PumpAction::Kill);
}

#[test]
fn step_walks_a_clean_stream() {
    let (s1, a1) = step(PumpState::Reading, PumpEvent::Chunk);
    assert_eq!(s1, PumpState::Sending { done_reading: false });
    assert_eq!(a1, PumpAction::Send);
    let (s2, a2) = step(s1, PumpEvent::Accepted);
    assert_eq!(s2, PumpState::Reading);
    assert_eq!(a2, PumpAction::Read);
    let (s3, a3) = step(s2, PumpEvent::Tail);
    assert_eq!(s3, PumpState::Sending { done_reading: true });
    assert_eq!(a3, PumpAction::Send);
    let (s4, a4) = step(s3, PumpEvent::Accepted);
    assert_eq!(s4, PumpState::Finished(PumpOutcome::Completed));
    assert_eq!(a4, PumpAction::Wait);
}

#[test]
fn eof_leads_to_wait_not_kill() {
    let (state, action) = step(PumpState::Reading, PumpEvent::Eof);
    assert_eq!(state, PumpState::Finished(PumpOutcome::Completed));
    assert_eq!(action, PumpAction::Wait);
}
