//! The serial link's rate budget: what may be written to the port, and when.

use vstd::prelude::*;

verus! {

/// The length of the span over which the budget is counted, in
/// milliseconds.
pub const WINDOW_MILLIS: u64 = 150;

/// The bytes that may be written in any span of that length.
pub const WINDOW_BYTES: usize = 60;

/// The most bytes that one read of the port asks for.
pub const READ_BYTES: usize = 64;

/// The mathematical value of the link's pacing state: when the link last
/// wrote, how many bytes the current window has carried, and the bytes that
/// wait.
pub ghost struct LinkModel {
    pub last_send: u64,
    pub bytes_sent: nat,
    pub pending: Seq<u8>,
}

impl LinkModel {
    /// The window has carried no more than its budget.
    pub open spec fn wf(self) -> bool {
        self.bytes_sent <= WINDOW_BYTES
    }

    /// A link made at `now`, with nothing written and nothing waiting.
    pub open spec fn fresh(now: u64) -> Self {
        LinkModel { last_send: now, bytes_sent: 0, pending: Seq::empty() }
    }

    /// The link after the bytes of one more record were queued.
    pub open spec fn queue(self, bytes: Seq<u8>) -> Self {
        LinkModel { pending: self.pending + bytes, ..self }
    }

    /// Whether a new window begins at `now`: bytes wait, and the last write
    /// is more than a window's length old.
    pub open spec fn rolls(self, now: u64) -> bool {
        self.pending.len() > 0 && now - self.last_send > WINDOW_MILLIS
    }

    /// The link with the window that is current at `now`.
    pub open spec fn window(self, now: u64) -> Self {
        if self.rolls(now) {
            LinkModel { last_send: now, bytes_sent: 0, ..self }
        } else {
            self
        }
    }

    /// The number of bytes that may be written at `now`: what waits, as far
    /// as the current window's budget reaches.
    pub open spec fn allowance(self, now: u64) -> nat {
        let w = self.window(now);
        let room = (WINDOW_BYTES - w.bytes_sent) as nat;
        if w.pending.len() <= room {
            w.pending.len()
        } else {
            room
        }
    }

    /// The bytes that are written at `now`: the first of those that wait.
    pub open spec fn written(self, now: u64) -> Seq<u8> {
        self.pending.take(self.allowance(now) as int)
    }

    /// The link after the write at `now`: what was written is charged to
    /// the window, and a write of any bytes makes `now` the instant of the
    /// last write.
    pub open spec fn tick(self, now: u64) -> Self {
        let w = self.window(now);
        let n = self.allowance(now);
        LinkModel {
            last_send: if n > 0 {
                now
            } else {
                w.last_send
            },
            bytes_sent: w.bytes_sent + n,
            pending: w.pending.skip(n as int),
        }
    }
}

/// The pacing state of the station link.
pub struct StationReader {
    last_send: u64,
    bytes_sent: usize,
    to_send: Vec<u8>,
}

impl View for StationReader {
    type V = LinkModel;

    closed spec fn view(&self) -> LinkModel {
        LinkModel {
            last_send: self.last_send,
            bytes_sent: self.bytes_sent as nat,
            pending: self.to_send@,
        }
    }
}

impl StationReader {
    /// The invariant of the link: the window has carried no more than its
    /// budget.
    pub open spec fn wf(&self) -> bool {
        self@.wf()
    }

    /// A link made at `now`, with nothing written yet.
    pub fn new(now: u64) -> (res: Self)
        ensures
            res.wf(),
            res@ == LinkModel::fresh(now),
    {
        StationReader { last_send: now, bytes_sent: 0, to_send: Vec::new() }
    }

    /// Queues the bytes of one more record behind those that wait.
    pub fn queue(&mut self, bytes: Vec<u8>)
        ensures
            final(self)@ == old(self)@.queue(bytes@),
    {
        let mut bytes = bytes;
        self.to_send.append(&mut bytes);
    }

    /// The number of bytes that wait.
    pub fn pending(&self) -> (res: usize)
        ensures
            res == self@.pending.len(),
    {
        self.to_send.len()
    }

    /// The bytes to write to the port at `now`.
    ///
    /// Where bytes wait and the last write is more than 150 ms old, a new
    /// window begins at `now`. The result is the first of the waiting
    /// bytes, as many as the window's budget of 60 still allows; they are
    /// taken off the queue and charged to the window, and a result that is
    /// not empty makes `now` the instant of the last write. So no span of
    /// 150 ms carries more than 60 bytes.
    pub fn next_write(&mut self, now: u64) -> (res: Vec<u8>)
        requires
            old(self).wf(),
        ensures
            final(self).wf(),
            res@ == old(self)@.written(now),
            final(self)@ == old(self)@.tick(now),
    {
        if self.to_send.len() == 0 {
            assert(self@.pending.skip(0) =~= self@.pending);
            return Vec::new();
        }
        if now > self.last_send && now - self.last_send > WINDOW_MILLIS {
            self.last_send = now;
            self.bytes_sent = 0;
        }
        let room: usize = WINDOW_BYTES - self.bytes_sent;
        let len: usize = if self.to_send.len() <= room {
            self.to_send.len()
        } else {
            room
        };
        let mut head = self.to_send.split_off(len);
        core::mem::swap(&mut self.to_send, &mut head);
        self.bytes_sent = self.bytes_sent + len;
        if len > 0 {
            self.last_send = now;
        }
        head
    }
}

/// What happens at the link: the bytes of a record are queued, or the clock
/// reaches an instant at which the link writes what it may.
pub ghost enum LinkEvent {
    Queue { bytes: Seq<u8> },
    Tick { now: u64 },
}

impl LinkModel {
    /// The link after one event.
    pub open spec fn after(self, event: LinkEvent) -> Self {
        match event {
            LinkEvent::Queue { bytes } => self.queue(bytes),
            LinkEvent::Tick { now } => self.tick(now),
        }
    }

    /// The bytes that one event writes to the port.
    pub open spec fn output(self, event: LinkEvent) -> Seq<u8> {
        match event {
            LinkEvent::Queue { bytes } => Seq::empty(),
            LinkEvent::Tick { now } => self.written(now),
        }
    }

    /// The link after a run of events.
    pub open spec fn after_all(self, events: Seq<LinkEvent>) -> Self
        decreases events.len(),
    {
        if events.len() == 0 {
            self
        } else {
            self.after(events[0]).after_all(events.drop_first())
        }
    }

    /// The bytes that a run of events writes to the port, in order.
    pub open spec fn output_all(self, events: Seq<LinkEvent>) -> Seq<u8>
        decreases events.len(),
    {
        if events.len() == 0 {
            Seq::empty()
        } else {
            self.output(events[0]) + self.after(events[0]).output_all(events.drop_first())
        }
    }
}

/// The bytes that a run of events queues, in order.
pub open spec fn queued_all(events: Seq<LinkEvent>) -> Seq<u8>
    decreases events.len(),
{
    if events.len() == 0 {
        Seq::empty()
    } else {
        let rest = queued_all(events.drop_first());
        match events[0] {
            LinkEvent::Queue { bytes } => bytes + rest,
            LinkEvent::Tick { now } => rest,
        }
    }
}

/// Whether every write of the run happens at an instant from `lo` to `hi`.
pub open spec fn ticks_within(events: Seq<LinkEvent>, lo: int, hi: int) -> bool {
    forall|i: int|
        0 <= i < events.len() ==> ((#[trigger] events[i]) matches LinkEvent::Tick { now } ==> lo
            <= now <= hi)
}

/// One event keeps the window within its budget.
pub proof fn law_event_keeps_budget(link: LinkModel, event: LinkEvent)
    requires
        link.wf(),
    ensures
        link.after(event).wf(),
        link.output(event).len() <= WINDOW_BYTES,
{
}

/// Bytes do not wait for ever: once the last write is more than 150 ms
/// old, a write sends the first of the waiting bytes, as many as a whole
/// budget allows.
pub proof fn law_rolled_window_writes(link: LinkModel, now: u64)
    requires
        link.wf(),
        link.pending.len() > 0,
        now - link.last_send > WINDOW_MILLIS,
    ensures
        link.written(now).len() > 0,
        link.written(now).len() == if link.pending.len() <= WINDOW_BYTES {
            link.pending.len()
        } else {
            WINDOW_BYTES as nat
        },
        link.tick(now).last_send == now,
{
}

/// Nothing is lost and nothing overtakes: what a run of events writes,
/// followed by what still waits after it, is what waited before it followed
/// by what the run queued.
pub proof fn law_bytes_keep_their_order(link: LinkModel, events: Seq<LinkEvent>)
    ensures
        link.output_all(events) + link.after_all(events).pending == link.pending + queued_all(
            events,
        ),
    decreases events.len(),
{
    if events.len() > 0 {
        let next = link.after(events[0]);
        let rest = events.drop_first();
        law_bytes_keep_their_order(next, rest);
        let out = link.output(events[0]);
        assert(out + (next.pending + queued_all(rest)) =~= (out + next.pending) + queued_all(rest));
        assert(link.pending + queued_all(events) =~= (out + next.pending) + queued_all(rest));
    }
}

/// Once the link has written inside a span of 150 ms, no window begins in
/// that span: over a run whose writes all happen in the span, from a link
/// whose last write lies in it, the bytes written, together with those the
/// window had carried, are at most 60.
proof fn lemma_no_window_begins(link: LinkModel, events: Seq<LinkEvent>, lo: int)
    requires
        link.wf(),
        lo <= link.last_send,
        ticks_within(events, lo, lo + WINDOW_MILLIS),
    ensures
        link.bytes_sent + link.output_all(events).len() <= WINDOW_BYTES,
    decreases events.len(),
{
    if events.len() > 0 {
        let rest = events.drop_first();
        assert forall|i: int| 0 <= i < rest.len() implies ((#[trigger] rest[i]) matches LinkEvent::Tick {
            now,
        } ==> lo <= now <= lo + WINDOW_MILLIS) by {
            assert(rest[i] == events[i + 1]);
        }
        lemma_no_window_begins(link.after(events[0]), rest, lo);
    }
}

/// No span of 150 ms carries more than the budget: over a run whose writes
/// all happen within a span of 150 ms, in whatever order, at most 60 bytes
/// are written, whatever the link had written before.
pub proof fn law_sliding_budget(link: LinkModel, events: Seq<LinkEvent>, lo: int)
    requires
        link.wf(),
        ticks_within(events, lo, lo + WINDOW_MILLIS),
    ensures
        link.output_all(events).len() <= WINDOW_BYTES,
    decreases events.len(),
{
    if events.len() > 0 {
        let next = link.after(events[0]);
        let rest = events.drop_first();
        assert forall|i: int| 0 <= i < rest.len() implies ((#[trigger] rest[i]) matches LinkEvent::Tick {
            now,
        } ==> lo <= now <= lo + WINDOW_MILLIS) by {
            assert(rest[i] == events[i + 1]);
        }
        if link.output(events[0]).len() > 0 {
            lemma_no_window_begins(next, rest, lo);
        } else {
            law_sliding_budget(next, rest, lo);
        }
    }
}

} // verus!
