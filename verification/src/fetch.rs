//! The protocol of a streamed download.
//!
//! A download is a state machine that never performs I/O itself. The
//! caller hands it the outcome of the last operation as an event and gets
//! back the next state together with the one operation to perform next.

use vstd::prelude::*;

verus! {

/// The largest number of bytes asked of the body in one read.
pub const CHUNK_LIMIT: usize = 8000;

/// Why a download was given up.
#[derive(Clone, Copy, Debug, PartialEq, Eq, Structural)]
pub enum DownloadError {
    /// The request could not be built or sent, or no response came.
    Request,
    /// The destination file could not be created.
    FileCreation,
    /// Reading the body failed after the stream had begun.
    StreamRead,
}

/// What a streaming download is waiting for.
#[derive(Clone, Copy, Debug, PartialEq, Eq, Structural)]
pub enum StreamPhase {
    /// The response has arrived and the destination file is being created.
    Opening,
    /// A read of at most `CHUNK_LIMIT` bytes is under way.
    Reading,
    /// A chunk of this many bytes is being appended to the file.
    Writing(usize),
}

/// Where a single download stands.
#[derive(Clone, Copy, Debug, PartialEq, Eq, Structural)]
pub enum DownloadState {
    NotStarted,
    Requesting,
    Streaming(StreamPhase),
    Complete,
    Aborted(DownloadError),
}

/// The outcome of the operation that the caller performed last.
#[derive(Clone, Copy, Debug, PartialEq, Eq, Structural)]
pub enum DownloadEvent {
    /// The caller wants the download to begin.
    Start,
    /// The response arrived; its body has not been read.
    Responded,
    RequestFailed,
    FileCreated,
    FileCreationFailed,
    /// A read put this many bytes into the buffer; zero is the end of the
    /// stream.
    Read(usize),
    ReadFailed,
    /// The chunk handed out last is in the file.
    Written,
}

/// The one operation that the caller performs next.
#[derive(Clone, Copy, Debug, PartialEq, Eq, Structural)]
pub enum DownloadAction {
    /// Send the request.
    SendRequest,
    /// Create the destination file, emptying it if it exists.
    CreateFile,
    /// Read at most this many bytes of the body into the buffer.
    ReadChunk(usize),
    /// Append the first so many bytes of the buffer to the file.
    WriteChunk(usize),
    /// Report that the whole body is in the file.
    Finish,
    /// Report the failure; whatever was written stays in the file.
    Fail(DownloadError),
}

/// The transition table: the state and action that follow `event` in
/// `state`, or `None` where the protocol has no place for the event.
pub open spec fn next(state: DownloadState, event: DownloadEvent) -> Option<
    (DownloadState, DownloadAction),
> {
    match (state, event) {
        (DownloadState::NotStarted, DownloadEvent::Start) => Some(
            (DownloadState::Requesting, DownloadAction::SendRequest),
        ),
        (DownloadState::Requesting, DownloadEvent::Responded) => Some(
            (DownloadState::Streaming(StreamPhase::Opening), DownloadAction::CreateFile),
        ),
        (DownloadState::Requesting, DownloadEvent::RequestFailed) => Some(
            (
                DownloadState::Aborted(DownloadError::Request),
                DownloadAction::Fail(DownloadError::Request),
            ),
        ),
        (DownloadState::Streaming(StreamPhase::Opening), DownloadEvent::FileCreated) => Some(
            (DownloadState::Streaming(StreamPhase::Reading), DownloadAction::ReadChunk(CHUNK_LIMIT)),
        ),
        (DownloadState::Streaming(StreamPhase::Opening), DownloadEvent::FileCreationFailed) => Some(
            (
                DownloadState::Aborted(DownloadError::FileCreation),
                DownloadAction::Fail(DownloadError::FileCreation),
            ),
        ),
        (DownloadState::Streaming(StreamPhase::Reading), DownloadEvent::Read(n)) => if n == 0 {
            Some((DownloadState::Complete, DownloadAction::Finish))
        } else if n <= CHUNK_LIMIT {
            Some((DownloadState::Streaming(StreamPhase::Writing(n)), DownloadAction::WriteChunk(n)))
        } else {
            None
        },
        (DownloadState::Streaming(StreamPhase::Reading), DownloadEvent::ReadFailed) => Some(
            (
                DownloadState::Aborted(DownloadError::StreamRead),
                DownloadAction::Fail(DownloadError::StreamRead),
            ),
        ),
        (DownloadState::Streaming(StreamPhase::Writing(_)), DownloadEvent::Written) => Some(
            (DownloadState::Streaming(StreamPhase::Reading), DownloadAction::ReadChunk(CHUNK_LIMIT)),
        ),
        _ => None,
    }
}

/// Moves a download on by one event.
///
/// Returns the new state and the operation to perform, or `None` where the
/// event cannot follow the operation that `state` is waiting for; the
/// download then stays as it was.
pub fn step(state: DownloadState, event: DownloadEvent) -> (r: Option<
    (DownloadState, DownloadAction),
>)
    ensures
        r == next(state, event),
{
    match state {
        DownloadState::NotStarted => match event {
            DownloadEvent::Start => Some((DownloadState::Requesting, DownloadAction::SendRequest)),
            _ => None,
        },
        DownloadState::Requesting => match event {
            DownloadEvent::Responded => Some(
                (DownloadState::Streaming(StreamPhase::Opening), DownloadAction::CreateFile),
            ),
            DownloadEvent::RequestFailed => Some(abort(DownloadError::Request)),
            _ => None,
        },
        DownloadState::Streaming(StreamPhase::Opening) => match event {
            DownloadEvent::FileCreated => Some(read_on()),
            DownloadEvent::FileCreationFailed => Some(abort(DownloadError::FileCreation)),
            _ => None,
        },
        DownloadState::Streaming(StreamPhase::Reading) => match event {
            DownloadEvent::Read(n) => {
                if n == 0 {
                    Some((DownloadState::Complete, DownloadAction::Finish))
                } else if n <= CHUNK_LIMIT {
                    Some(
                        (
                            DownloadState::Streaming(StreamPhase::Writing(n)),
                            DownloadAction::WriteChunk(n),
                        ),
                    )
                } else {
                    None
                }
            },
            DownloadEvent::ReadFailed => Some(abort(DownloadError::StreamRead)),
            _ => None,
        },
        DownloadState::Streaming(StreamPhase::Writing(_)) => match event {
            DownloadEvent::Written => Some(read_on()),
            _ => None,
        },
        DownloadState::Complete => None,
        DownloadState::Aborted(_) => None,
    }
}

/// The state and action of a download that is given up for `error`.
fn abort(error: DownloadError) -> (r: (DownloadState, DownloadAction))
    ensures
        r == (DownloadState::Aborted(error), DownloadAction::Fail(error)),
{
    (DownloadState::Aborted(error), DownloadAction::Fail(error))
}

/// The state and action of a download that asks for its next chunk.
fn read_on() -> (r: (DownloadState, DownloadAction))
    ensures
        r == (DownloadState::Streaming(StreamPhase::Reading), DownloadAction::ReadChunk(CHUNK_LIMIT)),
{
    (DownloadState::Streaming(StreamPhase::Reading), DownloadAction::ReadChunk(CHUNK_LIMIT))
}

/// A whole run: the state reached from `state` by `events` in order, with
/// the actions handed out on the way, or `None` where one of the events
/// has no place.
pub open spec fn run(state: DownloadState, events: Seq<DownloadEvent>) -> Option<
    (DownloadState, Seq<DownloadAction>),
>
    decreases events.len(),
{
    if events.len() == 0 {
        Some((state, Seq::empty()))
    } else {
        match next(state, events[0]) {
            None => None,
            Some((s, a)) => match run(s, events.drop_first()) {
                None => None,
                Some((t, rest)) => Some((t, seq![a] + rest)),
            },
        }
    }
}

/// Every length is one that a read of a chunk can report before the end
/// of the stream.
pub open spec fn chunk_lengths(lens: Seq<usize>) -> bool {
    forall|i: int| 0 <= i < lens.len() ==> 0 < #[trigger] lens[i] <= CHUNK_LIMIT
}

/// The events of a body that arrives in chunks of the given lengths, each
/// chunk written before the next is read.
pub open spec fn chunk_events(lens: Seq<usize>) -> Seq<DownloadEvent>
    decreases lens.len(),
{
    if lens.len() == 0 {
        Seq::empty()
    } else {
        seq![DownloadEvent::Read(lens[0]), DownloadEvent::Written] + chunk_events(
            lens.drop_first(),
        )
    }
}

/// One write of each chunk, in order, each followed by the next read.
pub open spec fn chunk_actions(lens: Seq<usize>) -> Seq<DownloadAction>
    decreases lens.len(),
{
    if lens.len() == 0 {
        Seq::empty()
    } else {
        seq![DownloadAction::WriteChunk(lens[0]), DownloadAction::ReadChunk(CHUNK_LIMIT)]
            + chunk_actions(lens.drop_first())
    }
}

/// The events up to the first read of a download whose request and file
/// creation succeed.
pub open spec fn opening_events() -> Seq<DownloadEvent> {
    seq![DownloadEvent::Start, DownloadEvent::Responded, DownloadEvent::FileCreated]
}

/// The actions that the opening events are answered with.
pub open spec fn opening_actions() -> Seq<DownloadAction> {
    seq![
        DownloadAction::SendRequest,
        DownloadAction::CreateFile,
        DownloadAction::ReadChunk(CHUNK_LIMIT),
    ]
}

/// A run over a single event is one step.
pub proof fn lemma_run_one(state: DownloadState, event: DownloadEvent)
    ensures
        run(state, seq![event]) == match next(state, event) {
            None => None,
            Some((s, a)) => Some((s, seq![a])),
        },
{
    let events = seq![event];
    assert(events[0] == event);
    assert(events.drop_first() =~= Seq::<DownloadEvent>::empty());
    match next(state, event) {
        None => {},
        Some((s, a)) => {
            assert(run(s, Seq::<DownloadEvent>::empty()) == Some(
                (s, Seq::<DownloadAction>::empty()),
            ));
            assert(seq![a] + Seq::<DownloadAction>::empty() =~= seq![a]);
        },
    }
}

/// A run over two stretches of events is the run over the first followed,
/// from where that ends, by the run over the second.
pub proof fn lemma_run_concat(
    state: DownloadState,
    first: Seq<DownloadEvent>,
    second: Seq<DownloadEvent>,
)
    ensures
        run(state, first + second) == match run(state, first) {
            None => None,
            Some((mid, head)) => match run(mid, second) {
                None => None,
                Some((end, tail)) => Some((end, head + tail)),
            },
        },
    decreases first.len(),
{
    if first.len() == 0 {
        assert(first + second =~= second);
        match run(state, second) {
            None => {},
            Some((end, tail)) => {
                assert(Seq::<DownloadAction>::empty() + tail =~= tail);
            },
        }
    } else {
        let all = first + second;
        assert(all[0] == first[0]);
        assert(all.drop_first() =~= first.drop_first() + second);
        match next(state, first[0]) {
            None => {},
            Some((s, a)) => {
                lemma_run_concat(s, first.drop_first(), second);
                match run(s, first.drop_first()) {
                    None => {},
                    Some((mid, head)) => {
                        match run(mid, second) {
                            None => {},
                            Some((end, tail)) => {
                                assert(seq![a] + (head + tail) =~= (seq![a] + head) + tail);
                            },
                        }
                    },
                }
            },
        }
    }
}

/// While chunks arrive, each is written once and in order before the next
/// is read, and the download is left waiting for a read.
pub proof fn lemma_chunks_are_written_in_order(lens: Seq<usize>)
    requires
        chunk_lengths(lens),
    ensures
        run(DownloadState::Streaming(StreamPhase::Reading), chunk_events(lens)) == Some(
            (DownloadState::Streaming(StreamPhase::Reading), chunk_actions(lens)),
        ),
    decreases lens.len(),
{
    let reading = DownloadState::Streaming(StreamPhase::Reading);
    if lens.len() > 0 {
        let n = lens[0];
        let rest = lens.drop_first();
        assert(chunk_lengths(rest)) by {
            assert forall|i: int| 0 <= i < rest.len() implies 0 < #[trigger] rest[i]
                <= CHUNK_LIMIT by {
                assert(rest[i] == lens[i + 1]);
            }
        }
        lemma_chunks_are_written_in_order(rest);
        let pair = seq![DownloadEvent::Read(n), DownloadEvent::Written];
        let both = seq![DownloadAction::WriteChunk(n), DownloadAction::ReadChunk(CHUNK_LIMIT)];
        assert(run(reading, pair) == Some((reading, both))) by {
            lemma_run_one(reading, DownloadEvent::Read(n));
            lemma_run_one(DownloadState::Streaming(StreamPhase::Writing(n)), DownloadEvent::Written);
            lemma_run_concat(reading, seq![DownloadEvent::Read(n)], seq![DownloadEvent::Written]);
            assert(seq![DownloadEvent::Read(n)] + seq![DownloadEvent::Written] =~= pair);
            assert(seq![DownloadAction::WriteChunk(n)] + seq![
                DownloadAction::ReadChunk(CHUNK_LIMIT),
            ] =~= both);
        }
        lemma_run_concat(reading, pair, chunk_events(rest));
    }
}

/// A body that arrives whole: after the request is answered and the file
/// created, chunks of the given lengths and then the end of the stream
/// leave the download complete, with exactly one write per chunk, in the
/// order of arrival, and nothing else written.
pub proof fn lemma_whole_body_completes(lens: Seq<usize>)
    requires
        chunk_lengths(lens),
    ensures
        run(
            DownloadState::NotStarted,
            opening_events() + chunk_events(lens) + seq![DownloadEvent::Read(0)],
        ) == Some(
            (
                DownloadState::Complete,
                opening_actions() + chunk_actions(lens) + seq![DownloadAction::Finish],
            ),
        ),
{
    let reading = DownloadState::Streaming(StreamPhase::Reading);
    lemma_opening_reaches_first_read();
    lemma_chunks_are_written_in_order(lens);
    let last = seq![DownloadEvent::Read(0)];
    lemma_run_one(reading, DownloadEvent::Read(0));
    lemma_run_concat(DownloadState::NotStarted, opening_events(), chunk_events(lens));
    lemma_run_concat(DownloadState::NotStarted, opening_events() + chunk_events(lens), last);
}

/// A body that breaks off: when a read fails after chunks of the given
/// lengths, the download is aborted with `StreamRead`, and exactly those
/// chunks were written before, one write each and in order.
pub proof fn lemma_failed_read_keeps_written_chunks(lens: Seq<usize>)
    requires
        chunk_lengths(lens),
    ensures
        run(
            DownloadState::NotStarted,
            opening_events() + chunk_events(lens) + seq![DownloadEvent::ReadFailed],
        ) == Some(
            (
                DownloadState::Aborted(DownloadError::StreamRead),
                opening_actions() + chunk_actions(lens) + seq![
                    DownloadAction::Fail(DownloadError::StreamRead),
                ],
            ),
        ),
{
    let reading = DownloadState::Streaming(StreamPhase::Reading);
    lemma_opening_reaches_first_read();
    lemma_chunks_are_written_in_order(lens);
    let last = seq![DownloadEvent::ReadFailed];
    lemma_run_one(reading, DownloadEvent::ReadFailed);
    lemma_run_concat(DownloadState::NotStarted, opening_events(), chunk_events(lens));
    lemma_run_concat(DownloadState::NotStarted, opening_events() + chunk_events(lens), last);
}

/// The opening events lead a new download to its first read.
pub proof fn lemma_opening_reaches_first_read()
    ensures
        run(DownloadState::NotStarted, opening_events()) == Some(
            (DownloadState::Streaming(StreamPhase::Reading), opening_actions()),
        ),
{
    let start = seq![DownloadEvent::Start];
    let responded = seq![DownloadEvent::Responded];
    let created = seq![DownloadEvent::FileCreated];
    lemma_run_one(DownloadState::NotStarted, DownloadEvent::Start);
    lemma_run_one(DownloadState::Requesting, DownloadEvent::Responded);
    lemma_run_one(DownloadState::Streaming(StreamPhase::Opening), DownloadEvent::FileCreated);
    lemma_run_concat(DownloadState::NotStarted, start, responded);
    lemma_run_concat(DownloadState::NotStarted, start + responded, created);
    assert(start + responded + created =~= opening_events());
    assert(seq![DownloadAction::SendRequest] + seq![DownloadAction::CreateFile] + seq![
        DownloadAction::ReadChunk(CHUNK_LIMIT),
    ] =~= opening_actions());
}

/// A download that is complete or aborted takes no further event, and a
/// download becomes complete only by a read of zero bytes.
pub proof fn lemma_terminal_states(state: DownloadState, event: DownloadEvent)
    ensures
        state is Complete || state is Aborted ==> next(state, event) is None,
        next(state, event) matches Some((s, _)) && s is Complete ==> state
            == DownloadState::Streaming(StreamPhase::Reading) && event == DownloadEvent::Read(0),
{
}

/// Only what was read is written: a write is handed out only in answer
/// to a read, for exactly the bytes that the read reported, which are
/// more than none and fit the buffer; and every read asks for a whole
/// buffer.
pub proof fn lemma_writes_follow_reads(state: DownloadState, event: DownloadEvent)
    ensures
        next(state, event) matches Some((_, DownloadAction::WriteChunk(n))) ==> event
            == DownloadEvent::Read(n) && 0 < n <= CHUNK_LIMIT,
        next(state, event) matches Some((_, DownloadAction::ReadChunk(n))) ==> n == CHUNK_LIMIT,
{
}

/// No byte of the body is asked for before the destination file exists:
/// a read is handed out only when the file was created or a chunk was
/// written to it.
pub proof fn lemma_reads_follow_the_file(state: DownloadState, event: DownloadEvent)
    ensures
        next(state, event) matches Some((_, a)) && a is ReadChunk ==> event
            == DownloadEvent::FileCreated || event == DownloadEvent::Written,
{
}

} // verus!
