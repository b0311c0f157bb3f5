//! The bridge that pumps a transcoder's output into a response body.
//!
//! The pump reads fixed-size chunks from the transcoder's output and hands
//! each to a bounded sink, in order. When the stream ends it waits for the
//! transcoder's exit status; when the sink refuses a chunk, the peer is
//! gone and the pump kills the transcoder at once rather than letting it
//! run for an absent client. The decisions are a pure state machine here;
//! the reads, writes, kills and waits themselves are performed by the
//! caller, which feeds every observation back in as an event.
use vstd::prelude::*;

verus! {

/// The chunk size the bridge reads from the transcoder, in bytes.
pub const CHUNK_SIZE: usize = 65536;

/// How a finished pump run ended.
#[derive(Debug, Clone, Copy, PartialEq, Eq, Structural)]
pub enum PumpOutcome {
    /// End of stream: everything read was delivered, the child was awaited.
    Completed,
    /// The sink refused a chunk: the peer is gone, the child was killed.
    PeerGone,
    /// The child's output could not be read; the child was killed.
    SourceFailed,
}

/// Where the pump stands between two observations.
#[derive(Debug, Clone, Copy, PartialEq, Eq, Structural)]
pub enum PumpState {
    /// About to read the next chunk from the transcoder's output.
    Reading,
    /// A chunk is with the sink; `done_reading` says the source already
    /// ended and nothing more is to be read after the sink accepts.
    Sending { done_reading: bool },
    /// The run is over.
    Finished(PumpOutcome),
}

/// One observation the pump reacts to.
#[derive(Debug, Clone, Copy, PartialEq, Eq, Structural)]
pub enum PumpEvent {
    /// A full chunk was read.
    Chunk,
    /// A final partial chunk was read: deliver it, then the stream is over.
    Tail,
    /// End of stream with nothing more to deliver.
    Eof,
    /// The read failed.
    ReadFailed,
    /// The sink accepted the chunk handed to it.
    Accepted,
    /// The sink refused the chunk: the peer disconnected.
    Refused,
}

/// What the caller must do next.
#[derive(Debug, Clone, Copy, PartialEq, Eq, Structural)]
pub enum PumpAction {
    /// Hand the bytes just read to the sink.
    Send,
    /// Read the next chunk from the transcoder's output.
    Read,
    /// Kill the transcoder, then reap it.
    Kill,
    /// Wait for the transcoder's exit status.
    Wait,
}

/// The observations that can arise in a state: reads answer `Reading`,
/// the sink answers `Sending`, and a finished pump observes nothing.
pub open spec fn event_fits(s: PumpState, e: PumpEvent) -> bool {
    match s {
        PumpState::Reading => e is Chunk || e is Tail || e is Eof || e is ReadFailed,
        PumpState::Sending { .. } => e is Accepted || e is Refused,
        PumpState::Finished(_) => false,
    }
}

/// The transition table of the pump.
pub open spec fn spec_step(s: PumpState, e: PumpEvent) -> (PumpState, PumpAction) {
    match (s, e) {
        (PumpState::Reading, PumpEvent::Chunk) => (
            PumpState::Sending { done_reading: false },
            PumpAction::Send,
        ),
        (PumpState::Reading, PumpEvent::Tail) => (
            PumpState::Sending { done_reading: true },
            PumpAction::Send,
        ),
        (PumpState::Reading, PumpEvent::Eof) => (
            PumpState::Finished(PumpOutcome::Completed),
            PumpAction::Wait,
        ),
        (PumpState::Reading, PumpEvent::ReadFailed) => (
            PumpState::Finished(PumpOutcome::SourceFailed),
            PumpAction::Kill,
        ),
        (PumpState::Sending { done_reading }, PumpEvent::Accepted) => if done_reading {
            (PumpState::Finished(PumpOutcome::Completed), PumpAction::Wait)
        } else {
            (PumpState::Reading, PumpAction::Read)
        },
        (PumpState::Sending { .. }, PumpEvent::Refused) => (
            PumpState::Finished(PumpOutcome::PeerGone),
            PumpAction::Kill,
        ),
        _ => (s, PumpAction::Wait),
    }
}

/// Advances the pump by one observation. A refused write kills the child
/// in this very transition — the peer's disconnect is acted on within one
/// read/write cycle — and every path into `Finished` either kills or waits,
/// so the child is always reaped.
pub fn step(s: PumpState, e: PumpEvent) -> (r: (PumpState, PumpAction))
    requires
        event_fits(s, e),
    ensures
        r == spec_step(s, e),
        e is Refused ==> r.0 == PumpState::Finished(PumpOutcome::PeerGone) && r.1
            == PumpAction::Kill,
        r.0 is Finished ==> r.1 == PumpAction::Kill || r.1 == PumpAction::Wait,
{
    match (s, e) {
        (PumpState::Reading, PumpEvent::Chunk) => (
            PumpState::Sending { done_reading: false },
            PumpAction::Send,
        ),
        (PumpState::Reading, PumpEvent::Tail) => (
            PumpState::Sending { done_reading: true },
            PumpAction::Send,
        ),
        (PumpState::Reading, PumpEvent::Eof) => (
            PumpState::Finished(PumpOutcome::Completed),
            PumpAction::Wait,
        ),
        (PumpState::Reading, PumpEvent::ReadFailed) => (
            PumpState::Finished(PumpOutcome::SourceFailed),
            PumpAction::Kill,
        ),
        (PumpState::Sending { done_reading }, PumpEvent::Accepted) => if done_reading {
            (PumpState::Finished(PumpOutcome::Completed), PumpAction::Wait)
        } else {
            (PumpState::Reading, PumpAction::Read)
        },
        (PumpState::Sending { .. }, PumpEvent::Refused) => (
            PumpState::Finished(PumpOutcome::PeerGone),
            PumpAction::Kill,
        ),
        _ => (s, PumpAction::Wait),
    }
}

/// What one read of the transcoder's output produced.
pub enum ReadEvent {
    /// A chunk of bytes.
    Data(Vec<u8>),
    /// End of stream.
    Eof,
    /// The read failed.
    Failed,
}

/// The bytes of a read that produced data.
pub open spec fn data_of(e: ReadEvent) -> Vec<u8> {
    match e {
        ReadEvent::Data(d) => d,
        _ => arbitrary(),
    }
}

/// A source behaves like a stream: some reads of data, then one terminal
/// read (end of stream or failure), and nothing after it.
pub open spec fn source_closed(reads: Seq<ReadEvent>) -> bool {
    &&& reads.len() >= 1
    &&& !(reads[reads.len() - 1] is Data)
    &&& forall|i: int| 0 <= i < reads.len() - 1 ==> reads[i] is Data
}

/// The visible outcome of one pump run.
pub struct PumpRun {
    /// The chunks the sink accepted, in order.
    pub writes: Vec<Vec<u8>>,
    /// Whether the pump killed the transcoder.
    pub killed: bool,
    /// Whether the pump reaped the transcoder (by wait, after a kill too).
    pub waited: bool,
    /// How the run ended.
    pub outcome: PumpOutcome,
}

/// The run of the pump over a source, against a sink that accepts `room`
/// more chunks and then refuses: the chunks written, whether the child was
/// killed and reaped, and the outcome.
pub open spec fn spec_pump(reads: Seq<ReadEvent>, room: int) -> (Seq<Vec<u8>>, bool, bool,
    PumpOutcome,
)
    decreases reads.len(),
{
    if reads.len() == 0 {
        (Seq::<Vec<u8>>::empty(), false, false, PumpOutcome::Completed)
    } else {
        match reads[0] {
            ReadEvent::Data(d) => {
                if room > 0 {
                    let rest = spec_pump(reads.skip(1), room - 1);
                    (seq![d] + rest.0, rest.1, rest.2, rest.3)
                } else {
                    (Seq::<Vec<u8>>::empty(), true, true, PumpOutcome::PeerGone)
                }
            },
            ReadEvent::Eof => (Seq::<Vec<u8>>::empty(), false, true, PumpOutcome::Completed),
            ReadEvent::Failed => (Seq::<Vec<u8>>::empty(), true, true, PumpOutcome::SourceFailed),
        }
    }
}

/// Runs the pump over a whole source against a sink with `sink_accepts`
/// slots: exactly the accepted chunks are written, in read order, and the
/// child is reaped on every path.
pub fn pump_run(source: Vec<ReadEvent>, sink_accepts: usize) -> (r: PumpRun)
    requires
        source_closed(source@),
    ensures
        ({
            let m = spec_pump(source@, sink_accepts as int);
            r.writes@ == m.0 && r.killed == m.1 && r.waited == m.2 && r.outcome == m.3
        }),
    decreases source@.len(),
{
    let ghost orig = source@;
    let mut source = source;
    let ev = source.remove(0);
    match ev {
        ReadEvent::Data(d) => {
            if sink_accepts > 0 {
                proof {
                    assert(orig[orig.len() - 1] == source@[source@.len() - 1]);
                    assert(forall|i: int| 0 <= i < source@.len() - 1 ==> source@[i] == orig[i + 1]);
                    assert(source_closed(source@));
                }
                let mut r = pump_run(source, sink_accepts - 1);
                r.writes.insert(0, d);
                proof {
                    let m = spec_pump(orig, sink_accepts as int);
                    assert(orig.skip(1) =~= source@);
                    assert(r.writes@ =~= m.0);
                }
                return r;
            }
            PumpRun { writes: Vec::new(), killed: true, waited: true, outcome: PumpOutcome::PeerGone }
        },
        ReadEvent::Eof => PumpRun {
            writes: Vec::new(),
            killed: false,
            waited: true,
            outcome: PumpOutcome::Completed,
        },
        ReadEvent::Failed => PumpRun {
            writes: Vec::new(),
            killed: true,
            waited: true,
            outcome: PumpOutcome::SourceFailed,
        },
    }
}

/// A source that ends in a clean end of stream, pumped into a sink with
/// room for all its chunks, has every chunk written, in read order, and the
/// run ends cleanly: nothing killed, the child awaited.
pub proof fn lemma_pump_delivers_all(reads: Seq<ReadEvent>, room: int)
    requires
        source_closed(reads),
        reads[reads.len() - 1] is Eof,
        room >= reads.len() - 1,
    ensures
        ({
            let m = spec_pump(reads, room);
            &&& m.0 =~= Seq::new((reads.len() - 1) as nat, |i: int| data_of(reads[i]))
            &&& !m.1
            &&& m.2
            &&& m.3 == PumpOutcome::Completed
        }),
    decreases reads.len(),
{
    if reads.len() == 1 {
        assert(reads[0] is Eof);
    } else {
        assert(reads[0] is Data);
        let rest = reads.skip(1);
        assert(forall|i: int| 0 <= i < rest.len() ==> rest[i] == reads[i + 1]);
        lemma_pump_delivers_all(rest, room - 1);
    }
}

/// A peer that goes away after accepting `room` chunks, while the source
/// still has chunks to give, has the transcoder killed and reaped, with
/// exactly the accepted chunks written, in read order.
pub proof fn lemma_pump_peer_gone(reads: Seq<ReadEvent>, room: int)
    requires
        source_closed(reads),
        0 <= room < reads.len() - 1,
    ensures
        ({
            let m = spec_pump(reads, room);
            &&& m.0 =~= Seq::new(room as nat, |i: int| data_of(reads[i]))
            &&& m.1
            &&& m.2
            &&& m.3 == PumpOutcome::PeerGone
        }),
    decreases reads.len(),
{
    assert(reads[0] is Data);
    if room > 0 {
        let rest = reads.skip(1);
        assert(forall|i: int| 0 <= i < rest.len() ==> rest[i] == reads[i + 1]);
        lemma_pump_peer_gone(rest, room - 1);
    }
}

} // verus!
