//! Subscribers of a streaming run: what they record for each thing that
//! arrives on a persistent connection, and when they stop.
//!
//! What is counted is the message. On a push socket every frame is one
//! message. In a server-push response every line that begins with `data:` is
//! one message, whose payload is the rest of that line; a chunk may carry
//! several messages or none.

use crate::metrics::saturating_sum;
use crate::metrics::AggregatorState;
use crate::metrics::Metrics;
use crate::metrics::Outcome;
use crate::metrics::Tally;
use crate::runner::Schedule;
use crate::text::chars_of;
use crate::text::replace_all;
use crate::text::replaced;
use crate::text::string_of;
use vstd::prelude::*;

verus! {

/// How long a subscriber waits for the next inbound unit before it checks the
/// deadline again, in seconds.
pub const RECEIVE_TIMEOUT_SECS: u64 = 5;

/// How long the publisher waits after the subscribers were launched, so that
/// they can connect, in milliseconds.
pub const CONNECT_GRACE_MILLIS: u64 = 500;

/// What a subscriber observes when it waits for the next inbound unit.
#[derive(Clone, Copy, Debug, PartialEq, Eq, Structural)]
pub enum StreamEvent {
    /// Nothing arrived within the receive timeout. The connection is still
    /// up; this is neither a success nor an error.
    Idle,
    /// One message arrived, with `bytes` bytes of payload.
    Received { bytes: u64 },
    /// The connection failed.
    Failed,
    /// The peer ended the stream.
    Closed,
}

/// What a subscriber does when it is about to wait for the next unit.
#[derive(Clone, Copy, Debug, PartialEq, Eq, Structural)]
pub enum SubscriberStep {
    /// Wait for the next unit, for at most the receive timeout.
    Receive,
    /// Close the connection and exit.
    Close,
}

/// The marker `data:` that begins a line carrying a message.
pub open spec fn data_marker() -> Seq<u8> {
    seq![0x64u8, 0x61u8, 0x74u8, 0x61u8, 0x3Au8]
}

/// Position `i` is the first byte of a line: the start of the chunk, or the
/// byte after a line feed.
pub open spec fn starts_line(chunk: Seq<u8>, i: int) -> bool {
    0 <= i < chunk.len() && (i == 0 || chunk[i - 1] == 0x0Au8)
}

/// The marker stands at position `i`.
pub open spec fn marker_at(chunk: Seq<u8>, i: int) -> bool {
    0 <= i && i + 5 <= chunk.len() && chunk.subrange(i, i + 5) == data_marker()
}

/// Number of lines that begin with the marker among the lines that start
/// before position `upto`.
pub open spec fn data_lines(chunk: Seq<u8>, upto: int) -> nat
    decreases upto,
{
    if upto <= 0 {
        0
    } else {
        data_lines(chunk, upto - 1) + if starts_line(chunk, upto - 1) && marker_at(
            chunk,
            upto - 1,
        ) {
            1nat
        } else {
            0nat
        }
    }
}

/// Number of messages a chunk of a server-push response carries: one per
/// line that begins with the marker. A chunk without such a line, a comment
/// that keeps the connection alive for one, carries none.
pub open spec fn chunk_messages(chunk: Seq<u8>) -> nat {
    data_lines(chunk, chunk.len() as int)
}

/// The end of the line that holds position `from`: the position of the next
/// line feed, or the end of the chunk.
pub open spec fn line_end(chunk: Seq<u8>, from: int) -> int
    decreases chunk.len() - from,
{
    if from < 0 || from >= chunk.len() {
        chunk.len() as int
    } else if chunk[from] == 0x0Au8 {
        from
    } else {
        line_end(chunk, from + 1)
    }
}

/// The payload of the message whose marker stands at position `i`: what
/// follows the marker on its line. Its size is the number of these bytes; the
/// marker and the line feed are not counted.
pub open spec fn payload_len(chunk: Seq<u8>, i: int) -> int {
    line_end(chunk, i + 5) - (i + 5)
}

/// The messages of the lines that start before position `upto`, in order,
/// each with the size of its own payload.
pub open spec fn events_before(chunk: Seq<u8>, upto: int) -> Seq<StreamEvent>
    decreases upto,
{
    if upto <= 0 {
        Seq::empty()
    } else if starts_line(chunk, upto - 1) && marker_at(chunk, upto - 1) {
        events_before(chunk, upto - 1).push(
            StreamEvent::Received { bytes: payload_len(chunk, upto - 1) as u64 },
        )
    } else {
        events_before(chunk, upto - 1)
    }
}

/// The messages that a chunk of a server-push response carries, in order.
pub open spec fn chunk_events(chunk: Seq<u8>) -> Seq<StreamEvent> {
    events_before(chunk, chunk.len() as int)
}

/// The end of a line lies at or after every position of the line, within the
/// chunk.
pub proof fn lemma_line_end(chunk: Seq<u8>, from: int)
    requires
        0 <= from <= chunk.len(),
    ensures
        from <= line_end(chunk, from) <= chunk.len(),
    decreases chunk.len() - from,
{
    if from < chunk.len() && chunk[from] != 0x0Au8 {
        lemma_line_end(chunk, from + 1);
    }
}

impl StreamEvent {
    /// Whether the subscriber goes on waiting after this event.
    pub open spec fn keeps_open(self) -> bool {
        self is Idle || self is Received
    }

    /// The event for one message of `len` bytes received on a push socket.
    pub fn message(len: usize) -> (event: StreamEvent)
        ensures
            event == (StreamEvent::Received { bytes: len as u64 }),
    {
        StreamEvent::Received { bytes: len as u64 }
    }

    /// The events for one chunk of a server-push response: one message for
    /// every line that begins with `data:`, in order, each with the size of
    /// what follows the marker on its line. A chunk without such a line gives
    /// no event: it is neither a success nor an error.
    pub fn chunk(chunk: &[u8]) -> (events: Vec<StreamEvent>)
        ensures
            events@ == chunk_events(chunk@),
            events@.len() == chunk_messages(chunk@),
    {
        let mut events: Vec<StreamEvent> = Vec::new();
        let mut i: usize = 0;
        while i < chunk.len()
            invariant
                i <= chunk@.len(),
                events@ == events_before(chunk@, i as int),
                events@.len() == data_lines(chunk@, i as int),
            decreases chunk@.len() - i,
        {
            if begins_data_line(chunk, i) {
                let start = i + 5;
                let mut end: usize = start;
                while end < chunk.len() && chunk[end] != 0x0Au8
                    invariant
                        start <= end <= chunk@.len(),
                        line_end(chunk@, start as int) == line_end(chunk@, end as int),
                    decreases chunk@.len() - end,
                {
                    end += 1;
                }
                events.push(StreamEvent::Received { bytes: (end - start) as u64 });
            }
            i += 1;
        }
        events
    }

    /// Whether the subscriber goes on waiting after this event.
    pub fn stays_open(&self) -> (open: bool)
        ensures
            open == self.keeps_open(),
    {
        match self {
            StreamEvent::Idle => true,
            StreamEvent::Received { .. } => true,
            StreamEvent::Failed => false,
            StreamEvent::Closed => false,
        }
    }
}

/// Whether a line that begins with `data:` starts at position `i`.
fn begins_data_line(chunk: &[u8], i: usize) -> (yes: bool)
    requires
        i < chunk@.len(),
    ensures
        yes == (starts_line(chunk@, i as int) && marker_at(chunk@, i as int)),
{
    let at_start = i == 0 || chunk[i - 1] == 0x0Au8;
    if at_start && chunk.len() - i >= 5 && chunk[i] == 0x64u8 && chunk[i + 1] == 0x61u8 && chunk[i
        + 2] == 0x74u8 && chunk[i + 3] == 0x61u8 && chunk[i + 4] == 0x3Au8 {
        proof {
            assert(chunk@.subrange(i as int, i + 5) =~= data_marker());
        }
        true
    } else {
        proof {
            if marker_at(chunk@, i as int) {
                let m = chunk@.subrange(i as int, i + 5);
                assert(m[0] == chunk@[i as int]);
                assert(m[1] == chunk@[i + 1]);
                assert(m[2] == chunk@[i + 2]);
                assert(m[3] == chunk@[i + 3]);
                assert(m[4] == chunk@[i + 4]);
            }
        }
        false
    }
}

/// Counts the lines of `chunk` that begin with `data:`. Lines end at a line
/// feed.
pub fn count_data_lines(chunk: &[u8]) -> (n: usize)
    ensures
        n == data_lines(chunk@, chunk@.len() as int),
{
    let mut n: usize = 0;
    let mut i: usize = 0;
    while i < chunk.len()
        invariant
            i <= chunk@.len(),
            n == data_lines(chunk@, i as int),
            n <= i,
        decreases chunk@.len() - i,
    {
        if begins_data_line(chunk, i) {
            n += 1;
        }
        i += 1;
    }
    n
}

/// What one event stands for in terms of outcomes: a received message is a
/// success of zero latency with its payload, since latency has no meaning for
/// a pushed message; a failed connection is an error; an idle timeout and a
/// closed stream are neither.
pub open spec fn outcome_of(event: StreamEvent) -> Option<Outcome> {
    match event {
        StreamEvent::Idle => None,
        StreamEvent::Received { bytes } => Some(Outcome::Success { latency: 0, bytes }),
        StreamEvent::Failed => Some(Outcome::Error),
        StreamEvent::Closed => None,
    }
}

/// What one event adds to an aggregator: the outcome it stands for, if any.
pub open spec fn fold_event(tally: Tally, event: StreamEvent) -> Tally {
    match outcome_of(event) {
        Some(outcome) => tally.fold(outcome),
        None => tally,
    }
}

/// What a subscriber has recorded when it has observed `events` in order: it
/// folds each event and stops at the first that ends the connection.
pub open spec fn fold_events(tally: Tally, events: Seq<StreamEvent>) -> Tally
    decreases events.len(),
{
    if events.len() == 0 {
        tally
    } else if events.first().keeps_open() {
        fold_events(fold_event(tally, events.first()), events.drop_first())
    } else {
        fold_event(tally, events.first())
    }
}

/// Folds one event into an aggregator owned by the caller and tells whether
/// the subscriber goes on waiting.
pub fn record_event(state: &mut AggregatorState, event: StreamEvent) -> (open: bool)
    ensures
        final(state)@ == fold_event(old(state)@, event),
        open == event.keeps_open(),
{
    match event {
        StreamEvent::Idle => true,
        StreamEvent::Received { bytes } => {
            state.record_success(0, bytes);
            true
        },
        StreamEvent::Failed => {
            state.record_error();
            false
        },
        StreamEvent::Closed => false,
    }
}

/// Folds one event into the aggregator shared by the run and tells whether
/// the subscriber goes on waiting. The aggregator's lock is taken once, and
/// [`record_event`] is applied to the state inside it.
pub fn observe(metrics: &Metrics, event: StreamEvent) -> (open: bool)
    ensures
        open == event.keeps_open(),
{
    metrics.fold_event(event)
}

/// The address at which a push socket of the target is reached: the base
/// address with `https://` turned into `wss://` and `http://` into `ws://`.
pub open spec fn socket_address(base_url: Seq<char>) -> Seq<char> {
    replaced(replaced(base_url, "https://"@, "wss://"@), "http://"@, "ws://"@)
}

/// Turns the base address of the target into the address of its push sockets.
pub fn socket_url(base_url: &str) -> (url: String)
    ensures
        url@ == socket_address(base_url@),
{
    let base = chars_of(base_url);
    let secure = replace_all(&base, &chars_of("https://"), &chars_of("wss://"));
    let plain = replace_all(&secure, &chars_of("http://"), &chars_of("ws://"));
    string_of(&plain, 0, plain.len())
}

/// Decides what a subscriber does next. It asks before every wait, also after
/// an idle timeout, and closes once the deadline has passed or the connection
/// has ended.
pub fn subscriber_step(schedule: &Schedule, open: bool, now: u64) -> (step: SubscriberStep)
    ensures
        step == (if open && schedule.runs_at(now) {
            SubscriberStep::Receive
        } else {
            SubscriberStep::Close
        }),
{
    if open && now < schedule.deadline {
        SubscriberStep::Receive
    } else {
        SubscriberStep::Close
    }
}

/// A subscriber that only ever sees idle timeouts records nothing: neither a
/// success nor an error.
pub proof fn lemma_idle_records_nothing(tally: Tally, events: Seq<StreamEvent>)
    requires
        forall|k: int| 0 <= k < events.len() ==> events[k] is Idle,
    ensures
        fold_events(tally, events) == tally,
    decreases events.len(),
{
    if events.len() > 0 {
        let rest = events.drop_first();
        assert forall|k: int| 0 <= k < rest.len() implies rest[k] is Idle by {
            assert(rest[k] == events[k + 1]);
        }
        lemma_idle_records_nothing(tally, rest);
    }
}

/// The payload sizes of the received messages among the events, added up.
pub open spec fn payload_total(events: Seq<StreamEvent>) -> nat
    decreases events.len(),
{
    if events.len() == 0 {
        0
    } else {
        payload_total(events.drop_first()) + match events.first() {
            StreamEvent::Received { bytes } => bytes as nat,
            _ => 0nat,
        }
    }
}

/// Received messages are counted one by one, each with its own payload and
/// each once: they add as many successes as there are messages, one sample of
/// zero latency for each, the sum of their payloads as far as the byte
/// counter reaches, and no error.
pub proof fn lemma_received_messages(tally: Tally, events: Seq<StreamEvent>)
    requires
        tally.bytes <= u64::MAX,
        forall|k: int| 0 <= k < events.len() ==> events[k] is Received,
    ensures
        fold_events(tally, events).successes == tally.successes + events.len(),
        fold_events(tally, events).errors == tally.errors,
        fold_events(tally, events).bytes == saturating_sum(tally.bytes, payload_total(events)),
        fold_events(tally, events).latencies == tally.latencies + Seq::new(
            events.len(),
            |i: int| 0u64,
        ),
    decreases events.len(),
{
    if events.len() == 0 {
        assert(tally.latencies + Seq::new(0, |i: int| 0u64) =~= tally.latencies);
    } else {
        let first = events.first();
        let rest = events.drop_first();
        assert(events[0] is Received);
        assert forall|k: int| 0 <= k < rest.len() implies rest[k] is Received by {
            assert(rest[k] == events[k + 1]);
        }
        let next = fold_event(tally, first);
        lemma_received_messages(next, rest);
        assert(next.latencies + Seq::new(rest.len(), |i: int| 0u64) =~= tally.latencies + Seq::new(
            events.len(),
            |i: int| 0u64,
        ));
    }
}

/// Messages that all carry the same payload: `n` of them add `n` successes
/// and, as far as the byte counter reaches, `n` payloads.
pub proof fn lemma_steady_messages(n: nat, bytes: u64)
    ensures
        fold_events(
            Tally::empty(),
            Seq::new(n, |i: int| StreamEvent::Received { bytes }),
        ).successes == n,
        fold_events(Tally::empty(), Seq::new(n, |i: int| StreamEvent::Received { bytes })).errors
            == 0,
        fold_events(Tally::empty(), Seq::new(n, |i: int| StreamEvent::Received { bytes })).bytes
            == saturating_sum(0, n * (bytes as nat)),
{
    let events = Seq::new(n, |i: int| StreamEvent::Received { bytes });
    lemma_received_messages(Tally::empty(), events);
    lemma_same_payloads(events, bytes);
}

proof fn lemma_same_payloads(events: Seq<StreamEvent>, bytes: u64)
    requires
        forall|k: int| 0 <= k < events.len() ==> events[k] == (StreamEvent::Received { bytes }),
    ensures
        payload_total(events) == events.len() * (bytes as nat),
    decreases events.len(),
{
    if events.len() > 0 {
        let rest = events.drop_first();
        assert forall|k: int| 0 <= k < rest.len() implies rest[k] == (StreamEvent::Received {
            bytes,
        }) by {
            assert(rest[k] == events[k + 1]);
        }
        lemma_same_payloads(rest, bytes);
        assert(events[0] == (StreamEvent::Received { bytes }));
        assert((events.len() - 1) * (bytes as nat) + bytes == events.len() * (bytes as nat))
            by (nonlinear_arith)
            requires
                events.len() > 0,
        ;
    } else {
        assert(events.len() * (bytes as nat) == 0) by (nonlinear_arith)
            requires
                events.len() == 0,
        ;
    }
}

/// Every event of a chunk is a received message, and there are as many as
/// the chunk has lines that begin with the marker.
pub proof fn lemma_chunk_events(chunk: Seq<u8>, upto: int)
    ensures
        events_before(chunk, upto).len() == data_lines(chunk, upto),
        forall|k: int|
            0 <= k < events_before(chunk, upto).len() ==> events_before(chunk, upto)[k] is Received,
    decreases upto,
{
    if upto > 0 {
        lemma_chunk_events(chunk, upto - 1);
    }
}

/// A chunk adds exactly one success for each of its lines that begin with
/// the marker, and no error. A chunk without such a line adds nothing.
pub proof fn lemma_chunk_adds_its_messages(tally: Tally, chunk: Seq<u8>)
    requires
        tally.bytes <= u64::MAX,
    ensures
        fold_events(tally, chunk_events(chunk)).successes == tally.successes + chunk_messages(
            chunk,
        ),
        fold_events(tally, chunk_events(chunk)).errors == tally.errors,
        chunk_messages(chunk) == 0 ==> fold_events(tally, chunk_events(chunk)) == tally,
{
    lemma_chunk_events(chunk, chunk.len() as int);
    lemma_received_messages(tally, chunk_events(chunk));
}

/// What a subscriber of a server-push response has recorded when the chunks
/// have arrived in order and the connection has not failed.
pub open spec fn fold_chunks(tally: Tally, chunks: Seq<Seq<u8>>) -> Tally
    decreases chunks.len(),
{
    if chunks.len() == 0 {
        tally
    } else {
        fold_chunks(fold_events(tally, chunk_events(chunks.first())), chunks.drop_first())
    }
}

/// Number of messages that the chunks carry in all.
pub open spec fn messages_in(chunks: Seq<Seq<u8>>) -> nat
    decreases chunks.len(),
{
    if chunks.len() == 0 {
        0
    } else {
        chunk_messages(chunks.first()) + messages_in(chunks.drop_first())
    }
}

/// A subscriber counts the messages of all the chunks it receives, each
/// once, and nothing else: when no chunk carries a message, as when the
/// publisher delivers nothing and the server only keeps the connection alive,
/// it records neither a success nor an error.
pub proof fn lemma_chunks_add_their_messages(tally: Tally, chunks: Seq<Seq<u8>>)
    requires
        tally.bytes <= u64::MAX,
    ensures
        fold_chunks(tally, chunks).successes == tally.successes + messages_in(chunks),
        fold_chunks(tally, chunks).errors == tally.errors,
        fold_chunks(tally, chunks).bytes <= u64::MAX,
        messages_in(chunks) == 0 ==> fold_chunks(tally, chunks) == tally,
    decreases chunks.len(),
{
    if chunks.len() > 0 {
        let first = chunks.first();
        lemma_chunk_adds_its_messages(tally, first);
        lemma_chunk_events(first, first.len() as int);
        lemma_received_messages(tally, chunk_events(first));
        lemma_chunks_add_their_messages(fold_events(tally, chunk_events(first)), chunks.drop_first());
    }
}

/// A subscriber records at most one error, and having recorded it stops.
pub proof fn lemma_at_most_one_error(tally: Tally, events: Seq<StreamEvent>)
    requires
        tally.errors < u64::MAX,
    ensures
        tally.errors <= fold_events(tally, events).errors <= tally.errors + 1,
    decreases events.len(),
{
    if events.len() > 0 {
        let first = events.first();
        if first.keeps_open() {
            lemma_at_most_one_error(fold_event(tally, first), events.drop_first());
        }
    }
}

} // verus!
