//! Progress of a transfer: what to tell the observer after each chunk, and
//! when to keep quiet.
//!
//! An event goes out with the first chunk, with any chunk that comes at
//! least fifty milliseconds after the last event, and when the stream has
//! ended. The clock belongs to whoever drives the transfer: each chunk
//! comes with the milliseconds passed since the transfer began.

use crate::sizes::{format_bytes, format_bytes_spec};
use crate::text::{chars_of, push_range, push_str_chars, string_of};
use vstd::prelude::*;

verus! {

/// The shortest time between two events of one transfer, in milliseconds.
pub const EMIT_INTERVAL_MS: u64 = 50;

/// One progress event of a transfer.
#[derive(Debug)]
pub struct TransferProgress {
    /// The name of the file that is on its way.
    pub item_name: String,
    /// Whole percent done, `0` to `100`.
    pub percent: u8,
    pub transferred_bytes: u64,
    /// The announced size; `0` when it is not known.
    pub total_bytes: u64,
    /// Bytes per second as text, or `Done`.
    pub speed: String,
}

/// A `TransferProgress` with its texts as sequences of characters.
pub struct TransferProgressView {
    pub item_name: Seq<char>,
    pub percent: u8,
    pub transferred_bytes: u64,
    pub total_bytes: u64,
    pub speed: Seq<char>,
}

impl View for TransferProgress {
    type V = TransferProgressView;

    open spec fn view(&self) -> TransferProgressView {
        TransferProgressView {
            item_name: self.item_name@,
            percent: self.percent,
            transferred_bytes: self.transferred_bytes,
            total_bytes: self.total_bytes,
            speed: self.speed@,
        }
    }
}

/// Whole percent that `done` is of `total`, rounded down and never above
/// `100`; `0` when the total is not known.
pub open spec fn percent_spec(done: nat, total: nat) -> nat {
    if total == 0 {
        0
    } else if done >= total {
        100
    } else {
        done * 100 / total
    }
}

/// More done is never a smaller percentage, and none is above `100`.
pub proof fn lemma_percent_monotone(a: nat, b: nat, total: nat)
    requires
        a <= b,
    ensures
        percent_spec(a, total) <= percent_spec(b, total) <= 100,
{
    if total > 0 {
        if b < total {
            assert(a * 100 / total <= b * 100 / total) by (nonlinear_arith)
                requires
                    a <= b,
                    total > 0,
            ;
            assert(b * 100 / total <= 100) by (nonlinear_arith)
                requires
                    b < total,
                    total > 0,
            ;
        } else if a < total {
            assert(a * 100 / total <= 100) by (nonlinear_arith)
                requires
                    a < total,
                    total > 0,
            ;
        }
    }
}

/// Whole percent that `done` is of `total`.
pub fn percent_of(done: u64, total: u64) -> (p: u8)
    ensures
        p == percent_spec(done as nat, total as nat),
        p <= 100,
{
    if total == 0 {
        0
    } else if done >= total {
        100
    } else {
        proof {
            lemma_percent_monotone(done as nat, done as nat, total as nat);
        }
        let p: u128 = (done as u128) * 100 / (total as u128);
        p as u8
    }
}

/// Bytes per second when `bytes` went through in `elapsed_ms`
/// milliseconds, rounded down; `0` when no time has passed.
pub open spec fn speed_spec(bytes: nat, elapsed_ms: nat) -> nat {
    if elapsed_ms == 0 {
        0
    } else if bytes * 1000 / elapsed_ms > u64::MAX {
        u64::MAX as nat
    } else {
        bytes * 1000 / elapsed_ms
    }
}

/// The state of a reporter: the file, its announced size, the bytes seen,
/// and when the last event went out.
pub struct ReporterView {
    pub item_name: Seq<char>,
    pub total: u64,
    pub read: u64,
    pub last_emit_ms: u64,
}

/// Whether a chunk that arrives at `now_ms` in state `s` makes an event:
/// it is the first chunk, or the last event is at least fifty milliseconds
/// old.
pub open spec fn is_due(s: ReporterView, now_ms: u64) -> bool {
    s.read == 0 || now_ms - s.last_emit_ms >= EMIT_INTERVAL_MS
}

/// The bytes seen after a chunk of `n` more bytes.
pub open spec fn read_after(s: ReporterView, n: u64) -> u64 {
    if s.read + n > u64::MAX {
        u64::MAX
    } else {
        (s.read + n) as u64
    }
}

/// The state after a chunk of `n` bytes at `now_ms`. The end of the stream
/// (`n == 0`) changes nothing.
pub open spec fn after_chunk(s: ReporterView, n: u64, now_ms: u64) -> ReporterView {
    if n == 0 {
        s
    } else {
        ReporterView {
            read: read_after(s, n),
            last_emit_ms: if is_due(s, now_ms) {
                now_ms
            } else {
                s.last_emit_ms
            },
            ..s
        }
    }
}

/// The event that a chunk of `n` bytes at `now_ms` makes in state `s`, if
/// it makes one. The end of the stream always makes the closing event: all
/// of the announced size, `100` percent, speed `Done`.
pub open spec fn event_of_chunk(s: ReporterView, n: u64, now_ms: u64) -> Option<
    TransferProgressView,
> {
    if n == 0 {
        Some(
            TransferProgressView {
                item_name: s.item_name,
                percent: 100,
                transferred_bytes: s.total,
                total_bytes: s.total,
                speed: "Done"@,
            },
        )
    } else if is_due(s, now_ms) {
        let read = read_after(s, n);
        Some(
            TransferProgressView {
                item_name: s.item_name,
                percent: percent_spec(read as nat, s.total as nat) as u8,
                transferred_bytes: read,
                total_bytes: s.total,
                speed: format_bytes_spec(speed_spec(read as nat, now_ms as nat)) + "/s"@,
            },
        )
    } else {
        None
    }
}

/// The events that a run of chunks makes, in order. Each chunk is its
/// number of bytes and the time of its arrival.
pub open spec fn events_of(s: ReporterView, chunks: Seq<(u64, u64)>) -> Seq<TransferProgressView>
    decreases chunks.len(),
{
    if chunks.len() == 0 {
        Seq::empty()
    } else {
        let before = chunks.drop_last();
        let mid = state_after(s, before);
        let (n, now_ms) = chunks.last();
        match event_of_chunk(mid, n, now_ms) {
            Some(event) => events_of(s, before).push(event),
            None => events_of(s, before),
        }
    }
}

/// The state after a run of chunks.
pub open spec fn state_after(s: ReporterView, chunks: Seq<(u64, u64)>) -> ReporterView
    decreases chunks.len(),
{
    if chunks.len() == 0 {
        s
    } else {
        let (n, now_ms) = chunks.last();
        after_chunk(state_after(s, chunks.drop_last()), n, now_ms)
    }
}

/// The sum of the sizes of some chunks.
pub open spec fn bytes_in(chunks: Seq<(u64, u64)>) -> nat
    decreases chunks.len(),
{
    if chunks.len() == 0 {
        0
    } else {
        bytes_in(chunks.drop_last()) + chunks.last().0 as nat
    }
}

/// The state in which the transfer of a file of the announced size `total`
/// begins.
pub open spec fn at_start(item_name: Seq<char>, total: u64) -> ReporterView {
    ReporterView { item_name, total, read: 0, last_emit_ms: 0 }
}

/// Whether no event tells of fewer bytes, or of a smaller percentage, than
/// an event before it.
pub open spec fn never_falls(events: Seq<TransferProgressView>) -> bool {
    forall|i: int, j: int|
        0 <= i <= j < events.len() ==> (#[trigger] events[i]).transferred_bytes <= (
        #[trigger] events[j]).transferred_bytes && events[i].percent <= events[j].percent
}

/// Whether each event tells of more bytes than the event before it.
pub open spec fn strictly_rises(events: Seq<TransferProgressView>) -> bool {
    forall|i: int, j: int|
        0 <= i < j < events.len() ==> (#[trigger] events[i]).transferred_bytes < (
        #[trigger] events[j]).transferred_bytes
}

/// Whether each event tells of at most `bound` bytes, and shows the
/// percentage that they are of `total`.
pub open spec fn all_within(events: Seq<TransferProgressView>, total: u64, bound: nat) -> bool {
    forall|i: int|
        0 <= i < events.len() ==> (#[trigger] events[i]).transferred_bytes <= bound
            && events[i].percent == percent_spec(events[i].transferred_bytes as nat, total as nat)
}

/// While the chunks stay within the announced size, the reporter has seen
/// their sum, the first chunk has made an event, each event tells of more
/// bytes than the one before it, and none of a smaller percentage.
pub proof fn lemma_events_never_fall(item_name: Seq<char>, total: u64, chunks: Seq<(u64, u64)>)
    requires
        bytes_in(chunks) <= total,
        forall|i: int| 0 <= i < chunks.len() ==> (#[trigger] chunks[i]).0 > 0,
    ensures
        state_after(at_start(item_name, total), chunks).read == bytes_in(chunks),
        state_after(at_start(item_name, total), chunks).total == total,
        state_after(at_start(item_name, total), chunks).item_name == item_name,
        all_within(events_of(at_start(item_name, total), chunks), total, bytes_in(chunks)),
        never_falls(events_of(at_start(item_name, total), chunks)),
        strictly_rises(events_of(at_start(item_name, total), chunks)),
        chunks.len() > 0 ==> events_of(at_start(item_name, total), chunks).len() > 0,
    decreases chunks.len(),
{
    let start = at_start(item_name, total);
    if chunks.len() > 0 {
        let before = chunks.drop_last();
        assert forall|i: int| 0 <= i < before.len() implies (#[trigger] before[i]).0 > 0 by {
            assert(before[i] == chunks[i]);
        }
        lemma_events_never_fall(item_name, total, before);
        let mid = state_after(start, before);
        let (n, now_ms) = chunks.last();
        let earlier = events_of(start, before);
        let events = events_of(start, chunks);
        assert(chunks[chunks.len() - 1].0 > 0);
        assert(read_after(mid, n) == bytes_in(chunks));
        if before.len() == 0 {
            assert(is_due(mid, now_ms));
        }
        match event_of_chunk(mid, n, now_ms) {
            Some(event) => {
                assert(events == earlier.push(event));
                lemma_percent_monotone(
                    event.transferred_bytes as nat,
                    event.transferred_bytes as nat,
                    total as nat,
                );
                assert forall|i: int, j: int| 0 <= i <= j < events.len() implies (
                #[trigger] events[i]).transferred_bytes <= (#[trigger] events[j]).transferred_bytes
                    && events[i].percent <= events[j].percent by {
                    if j < earlier.len() {
                        assert(events[i] == earlier[i]);
                        assert(events[j] == earlier[j]);
                    } else if i < earlier.len() {
                        assert(events[i] == earlier[i]);
                        lemma_percent_monotone(
                            earlier[i].transferred_bytes as nat,
                            event.transferred_bytes as nat,
                            total as nat,
                        );
                    }
                }
                assert forall|i: int| 0 <= i < events.len() implies (
                #[trigger] events[i]).transferred_bytes <= bytes_in(chunks) && events[i].percent
                    == percent_spec(events[i].transferred_bytes as nat, total as nat) by {
                    if i < earlier.len() {
                        assert(events[i] == earlier[i]);
                    }
                }
                assert forall|i: int, j: int| 0 <= i < j < events.len() implies (
                #[trigger] events[i]).transferred_bytes < (
                #[trigger] events[j]).transferred_bytes by {
                    assert(events[i] == earlier[i]);
                    if j < earlier.len() {
                        assert(events[j] == earlier[j]);
                    }
                }
            },
            None => {},
        }
    }
}

/// A transfer whose chunks add up to the announced size, followed by the
/// end of the stream, makes events that never fall in bytes or percent,
/// and the last of them tells of the whole size and of `100` percent.
pub proof fn lemma_transfer_completes(
    item_name: Seq<char>,
    total: u64,
    chunks: Seq<(u64, u64)>,
    end_ms: u64,
)
    requires
        bytes_in(chunks) == total,
        forall|i: int| 0 <= i < chunks.len() ==> (#[trigger] chunks[i]).0 > 0,
    ensures
        ({
            let events = events_of(at_start(item_name, total), chunks.push((0, end_ms)));
            &&& events.len() > 0
            &&& events.last().transferred_bytes == total
            &&& events.last().percent == 100
            &&& never_falls(events)
        }),
{
    let start = at_start(item_name, total);
    let all = chunks.push((0u64, end_ms));
    assert(all.drop_last() =~= chunks);
    lemma_events_never_fall(item_name, total, chunks);
    let earlier = events_of(start, chunks);
    let events = events_of(start, all);
    let closing = event_of_chunk(state_after(start, chunks), 0, end_ms).unwrap();
    assert(events == earlier.push(closing));
    assert forall|i: int, j: int| 0 <= i <= j < events.len() implies (
    #[trigger] events[i]).transferred_bytes <= (#[trigger] events[j]).transferred_bytes
        && events[i].percent <= events[j].percent by {
        if j < earlier.len() {
            assert(events[i] == earlier[i]);
            assert(events[j] == earlier[j]);
        } else if i < earlier.len() {
            assert(events[i] == earlier[i]);
            lemma_percent_monotone(earlier[i].transferred_bytes as nat, total as nat, total as nat);
        }
    }
}

/// Watches one transfer and says which chunks make an event.
#[derive(Debug)]
pub struct ProgressReporter {
    item_name: String,
    total_size: u64,
    bytes_read: u64,
    last_emit_ms: u64,
}

impl View for ProgressReporter {
    type V = ReporterView;

    closed spec fn view(&self) -> ReporterView {
        ReporterView {
            item_name: self.item_name@,
            total: self.total_size,
            read: self.bytes_read,
            last_emit_ms: self.last_emit_ms,
        }
    }
}

impl ProgressReporter {
    /// A reporter for the transfer of `item_name`, whose size is announced
    /// as `total_size` bytes (`0` when it is not known).
    pub fn new(item_name: String, total_size: u64) -> (r: Self)
        ensures
            r@ == at_start(item_name@, total_size),
    {
        ProgressReporter { item_name, total_size, bytes_read: 0, last_emit_ms: 0 }
    }

    /// Bytes seen so far.
    pub fn bytes_read(&self) -> (n: u64)
        ensures
            n == self@.read,
    {
        self.bytes_read
    }

    /// Takes note of a chunk of `n` bytes that arrived `now_ms`
    /// milliseconds after the transfer began, and returns the event to
    /// send, if one is due. `n == 0` tells that the stream has ended.
    pub fn on_chunk(&mut self, n: u64, now_ms: u64) -> (event: Option<TransferProgress>)
        ensures
            final(self)@ == after_chunk(old(self)@, n, now_ms),
            match event {
                Some(e) => event_of_chunk(old(self)@, n, now_ms) == Some(e@),
                None => event_of_chunk(old(self)@, n, now_ms) is None,
            },
    {
        if n == 0 {
            let speed = string_of(&chars_of("Done"));
            return Some(
                TransferProgress {
                    item_name: self.item_name.clone(),
                    percent: 100,
                    transferred_bytes: self.total_size,
                    total_bytes: self.total_size,
                    speed,
                },
            );
        }
        let first = self.bytes_read == 0;
        let due = first || (now_ms >= self.last_emit_ms && now_ms - self.last_emit_ms
            >= EMIT_INTERVAL_MS);
        self.bytes_read = self.bytes_read.saturating_add(n);
        if !due {
            return None;
        }
        self.last_emit_ms = now_ms;
        let per_second: u64 = if now_ms == 0 {
            0
        } else {
            let rate: u128 = (self.bytes_read as u128) * 1000 / (now_ms as u128);
            if rate > u64::MAX as u128 {
                u64::MAX
            } else {
                rate as u64
            }
        };
        let mut speed: Vec<char> = Vec::new();
        let size_text = chars_of(format_bytes(per_second).as_str());
        push_range(&mut speed, &size_text, 0, size_text.len());
        push_str_chars(&mut speed, "/s");
        proof {
            assert(size_text@.subrange(0, size_text.len() as int) =~= size_text@);
            assert(speed@ =~= format_bytes_spec(per_second as nat) + "/s"@);
        }
        Some(
            TransferProgress {
                item_name: self.item_name.clone(),
                percent: percent_of(self.bytes_read, self.total_size),
                transferred_bytes: self.bytes_read,
                total_bytes: self.total_size,
                speed: string_of(&speed),
            },
        )
    }
}

} // verus!
