//! The bounded note FIFO between control handles and the audio consumer.
//! Producers append encoded note events; the single leased consumer takes
//! every pending event at a buffer boundary. A reset (all-notes-off, or a
//! push into a full queue) discards the events queued before it and asks the
//! consumer to release every voice first; events queued after the reset stay
//! ordered after it. Callers serialize access to the queue.
use vstd::prelude::*;

verus! {

/// Events the queue holds.
pub const CAPACITY: usize = 128;

/// Encoded event word: note in bits 0..8, velocity in bits 8..16.
pub open spec fn encode(note: u8, velocity: u8) -> u32 {
    (note as u32) | ((velocity as u32) << 8u32)
}

/// Decoded event: the note is the low seven bits, the velocity the next byte.
pub open spec fn decode(word: u32) -> (u8, u8) {
    ((word & 127u32) as u8, (word >> 8u32) as u8)
}

/// A valid MIDI event survives the queue unchanged.
pub proof fn law_encoding_round_trips(note: u8, velocity: u8)
    requires
        note <= 127,
    ensures
        decode(encode(note, velocity)) == (note, velocity),
{
    assert(((note as u32) | ((velocity as u32) << 8u32)) & 127u32 == note as u32) by (bit_vector)
        requires
            note <= 127,
    ;
    assert((((note as u32) | ((velocity as u32) << 8u32)) >> 8u32) == velocity as u32) by (bit_vector);
}

/// Mathematical state of the queue.
#[verifier::ext_equal]
pub struct QueueState {
    pub slots: Seq<u32>,
    /// Position of the next event the consumer reads.
    pub head: u64,
    /// Position of the next event a producer writes.
    pub tail: u64,
    /// Advances by two at every reset.
    pub reset_version: u64,
    /// Queue tail when the latest reset was requested.
    pub reset_boundary: u64,
    /// A consumer holds the lease.
    pub claimed: bool,
    /// Identity of the queue, fixed at construction and never changed; a
    /// lease serves only the queue it was acquired from. Callers learn
    /// nothing of a new queue's identity, so no two queues can be shown to
    /// share one.
    pub id: int,
}

impl QueueState {
    pub open spec fn inv(self) -> bool {
        &&& self.slots.len() == CAPACITY
        &&& self.head <= self.tail
        &&& self.tail - self.head <= CAPACITY
        &&& self.reset_boundary <= self.tail
        &&& self.reset_version % 2 == 0
    }

    /// Encoded events at positions `from..self.tail`.
    pub open spec fn window(self, from: int) -> Seq<u32> {
        Seq::new(
            (self.tail - from) as nat,
            |k: int| self.slots[((from + k) % (CAPACITY as int))],
        )
    }

    /// A reset has been requested since the consumer's last buffer.
    pub open spec fn reset_pending(self, lease_version: u64) -> bool {
        self.reset_version != lease_version
    }

    /// First position the consumer still delivers.
    pub open spec fn start(self, lease_version: u64) -> int {
        if self.reset_pending(lease_version) && self.reset_boundary > self.head {
            self.reset_boundary as int
        } else {
            self.head as int
        }
    }

    /// Encoded events the consumer will deliver at its next buffer.
    pub open spec fn pending(self, lease_version: u64) -> Seq<u32> {
        self.window(self.start(lease_version))
    }

    /// A push succeeds exactly when the queue has room.
    pub open spec fn has_room(self) -> bool {
        self.tail - self.head < CAPACITY && self.tail != u64::MAX
    }

    /// The queue after a reset request.
    pub open spec fn after_reset(self) -> QueueState {
        QueueState {
            reset_version: ((self.reset_version + 2) % 0x1_0000_0000_0000_0000) as u64,
            reset_boundary: self.tail,
            ..self
        }
    }

    /// The queue after a successful push.
    pub open spec fn after_push(self, note: u8, velocity: u8) -> QueueState {
        QueueState {
            slots: self.slots.update((self.tail as int) % (CAPACITY as int), encode(note, velocity)),
            tail: (self.tail + 1) as u64,
            ..self
        }
    }
}

/// Bounded FIFO of encoded note events.
pub struct NoteQueue {
    slots: Vec<u32>,
    head: u64,
    tail: u64,
    reset_version: u64,
    reset_boundary: u64,
    claimed: bool,
    id: Ghost<int>,
}

impl View for NoteQueue {
    type V = QueueState;

    closed spec fn view(&self) -> QueueState {
        QueueState {
            slots: self.slots@,
            head: self.head,
            tail: self.tail,
            reset_version: self.reset_version,
            reset_boundary: self.reset_boundary,
            claimed: self.claimed,
            id: self.id@,
        }
    }
}

/// What the consumer applies at a buffer boundary: release every voice
/// first when `release_all`, then `events` in order as note-on events
/// (velocity zero is note-off).
pub struct Batch {
    pub release_all: bool,
    pub events: Vec<(u8, u8)>,
}

impl Batch {
    /// An empty batch with room for a full queue's events.
    pub fn new() -> (b: Batch)
        ensures
            !b.release_all,
            b.events@ == Seq::<(u8, u8)>::empty(),
    {
        Batch { release_all: false, events: Vec::with_capacity(CAPACITY) }
    }
}

impl NoteQueue {
    pub open spec fn wf(&self) -> bool {
        self@.inv()
    }

    /// An empty, unclaimed queue.
    pub fn new() -> (q: Self)
        ensures
            q.wf(),
            q@.head == 0 && q@.tail == 0 && q@.reset_version == 0 && q@.reset_boundary == 0,
            !q@.claimed,
            q@.slots == Seq::new(CAPACITY as nat, |i: int| 0u32),
    {
        let mut slots: Vec<u32> = Vec::with_capacity(CAPACITY);
        let mut i: usize = 0;
        while i < CAPACITY
            invariant
                i <= CAPACITY,
                slots@ == Seq::new(i as nat, |k: int| 0u32),
            decreases CAPACITY - i,
        {
            slots.push(0);
            i = i + 1;
            assert(slots@ =~= Seq::new(i as nat, |k: int| 0u32));
        }
        NoteQueue {
            slots,
            head: 0,
            tail: 0,
            reset_version: 0,
            reset_boundary: 0,
            claimed: false,
            id: Ghost(0int),
        }
    }

    /// Appends one event. At capacity the push fails and requests a reset:
    /// the consumer will release every voice and discard every event queued
    /// before this call.
    pub fn push(&mut self, note: u8, velocity: u8) -> (r: Result<(), String>)
        requires
            old(self).wf(),
        ensures
            final(self).wf(),
            old(self)@.has_room() ==> r is Ok && final(self)@ == old(self)@.after_push(note, velocity),
            !old(self)@.has_room() ==> final(self)@ == old(self)@.after_reset() && (r matches Err(
                message,
            ) && message@ == "Note queue is full; all notes will be released at the next audio buffer"@),
    {
        let tail = self.tail;
        if tail - self.head >= CAPACITY as u64 || tail == u64::MAX {
            self.reset_locked();
            return Err(
                String::from_str(
                    "Note queue is full; all notes will be released at the next audio buffer",
                ),
            );
        }
        let word: u32 = (note as u32) | ((velocity as u32) << 8u32);
        self.slots[(tail % (CAPACITY as u64)) as usize] = word;
        self.tail = tail + 1;
        Ok(())
    }

    /// Requests release of every voice and discards the events queued so
    /// far; never fails, even at capacity.
    pub fn reset(&mut self)
        requires
            old(self).wf(),
        ensures
            final(self).wf(),
            final(self)@ == old(self)@.after_reset(),
    {
        self.reset_locked();
    }

    fn reset_locked(&mut self)
        requires
            old(self).wf(),
        ensures
            final(self).wf(),
            final(self)@ == old(self)@.after_reset(),
    {
        let v = self.reset_version;
        assert((((v + 1) % 0x1_0000_0000_0000_0000) + 1) % 0x1_0000_0000_0000_0000 == (v + 2)
            % 0x1_0000_0000_0000_0000);
        assert(v % 2 == 0 ==> ((v + 2) % 0x1_0000_0000_0000_0000) % 2 == 0);
        self.reset_version = self.reset_version.wrapping_add(1);
        self.reset_boundary = self.tail;
        self.reset_version = self.reset_version.wrapping_add(1);
    }
}

/// Exclusive right to consume a queue's events.
pub struct ConsumerLease {
    reset_version: u64,
    queue_id: Ghost<int>,
}

impl ConsumerLease {
    pub closed spec fn version(&self) -> u64 {
        self.reset_version
    }

    /// Identity of the queue this lease consumes.
    pub closed spec fn queue_id(&self) -> int {
        self.queue_id@
    }

    /// Claims the queue; fails while another lease holds it.
    pub fn acquire(queue: &mut NoteQueue) -> (r: Result<ConsumerLease, String>)
        requires
            old(queue).wf(),
        ensures
            final(queue).wf(),
            match r {
                Ok(lease) => !old(queue)@.claimed && final(queue)@ == (QueueState {
                    claimed: true,
                    ..old(queue)@
                }) && lease.version() == 0 && lease.queue_id() == old(queue)@.id,
                Err(message) => old(queue)@.claimed && final(queue)@ == old(queue)@ && message@
                    == "This Synth already has an audio consumer"@,
            },
    {
        if queue.claimed {
            return Err(String::from_str("This Synth already has an audio consumer"));
        }
        queue.claimed = true;
        Ok(ConsumerLease { reset_version: 0, queue_id: Ghost(queue.id@) })
    }

    /// Gives the queue back so that another consumer may claim it.
    pub fn release(self, queue: &mut NoteQueue)
        requires
            old(queue).wf(),
            old(queue)@.id == self.queue_id(),
        ensures
            final(queue).wf(),
            final(queue)@ == (QueueState { claimed: false, ..old(queue)@ }),
    {
        queue.claimed = false;
    }

    /// Takes every pending event, after a release of every voice when a
    /// reset was requested since the previous buffer. The batch is
    /// overwritten in place, so a consumer that keeps one batch allocates
    /// nothing here.
    pub fn dispatch(&mut self, queue: &mut NoteQueue, batch: &mut Batch)
        requires
            old(queue).wf(),
            old(queue)@.id == old(self).queue_id(),
        ensures
            final(queue).wf(),
            final(self).queue_id() == old(self).queue_id(),
            final(queue)@ == (QueueState { head: old(queue)@.tail, ..old(queue)@ }),
            final(self).version() == old(queue)@.reset_version,
            final(batch).release_all == old(queue)@.reset_pending(old(self).version()),
            final(batch).events@ == old(queue)@.pending(old(self).version()).map_values(
                |w: u32| decode(w),
            ),
            final(batch).events@.len() <= CAPACITY,
    {
        let version = queue.reset_version;
        let boundary = queue.reset_boundary;
        let end = queue.tail;
        let mut head = queue.head;
        let release_all = version != self.reset_version;
        if release_all {
            if boundary > head {
                head = boundary;
            }
            self.reset_version = version;
        }
        let ghost q = queue@;
        let ghost expected = q.pending(old(self).version()).map_values(|w: u32| decode(w));
        assert(head == q.start(old(self).version()));
        batch.release_all = release_all;
        batch.events.clear();
        let mut position = head;
        while position < end
            invariant
                q == queue@,
                q.inv(),
                head <= position <= end,
                end == q.tail,
                head == q.start(old(self).version()),
                expected == q.pending(old(self).version()).map_values(|w: u32| decode(w)),
                queue.slots@ == q.slots,
                batch.release_all == release_all,
                batch.events@ == expected.take((position - head) as int),
            decreases end - position,
        {
            let word = queue.slots[(position % (CAPACITY as u64)) as usize];
            batch.events.push(((word & 127u32) as u8, (word >> 8u32) as u8));
            position = position + 1;
            assert(batch.events@ =~= expected.take((position - head) as int));
        }
        assert(batch.events@ =~= expected);
        queue.head = end;
    }
}

proof fn lemma_positions_distinct(p: int, t: int)
    requires
        0 <= p < t,
        t - p < CAPACITY,
    ensures
        p % (CAPACITY as int) != t % (CAPACITY as int),
{
}

/// A successful push appends its event after every pending one, and does
/// not change whether a reset is pending.
pub proof fn law_push_appends(q: QueueState, lease_version: u64, note: u8, velocity: u8)
    requires
        q.inv(),
        q.has_room(),
    ensures
        q.after_push(note, velocity).pending(lease_version) == q.pending(lease_version).push(
            encode(note, velocity),
        ),
        q.after_push(note, velocity).reset_pending(lease_version) == q.reset_pending(lease_version),
        q.after_push(note, velocity).inv(),
{
    let n = q.after_push(note, velocity);
    let start = q.start(lease_version);
    assert(n.start(lease_version) == start);
    let a = n.pending(lease_version);
    let b = q.pending(lease_version).push(encode(note, velocity));
    assert forall|k: int| 0 <= k < a.len() implies a[k] == b[k] by {
        if k < q.tail - start {
            lemma_positions_distinct(start + k, q.tail as int);
        }
    }
    assert(a =~= b);
}

/// A reset (all-notes-off, or a push into a full queue) makes the consumer
/// release every voice and deliver none of the events queued before it.
pub proof fn law_reset_discards_earlier_events(q: QueueState)
    requires
        q.inv(),
    ensures
        q.after_reset().inv(),
        q.after_reset().reset_pending(q.reset_version),
        q.after_reset().pending(q.reset_version).len() == 0,
        q.after_reset().tail == q.tail,
{
}

/// After a buffer boundary nothing is pending and no reset is outstanding.
pub proof fn law_dispatch_drains(q: QueueState, lease_version: u64)
    requires
        q.inv(),
    ensures
        ({
            let drained = QueueState { head: q.tail, ..q };
            &&& drained.inv()
            &&& drained.pending(q.reset_version).len() == 0
            &&& !drained.reset_pending(q.reset_version)
        }),
{
}

/// Events pushed one after another are delivered in the same order.
pub proof fn law_fifo_order(q: QueueState, first: (u8, u8), second: (u8, u8))
    requires
        q.inv(),
        q.tail - q.head + 2 <= CAPACITY,
        q.tail + 2 < u64::MAX,
        !q.reset_pending(q.reset_version),
        q.head == q.tail,
    ensures
        q.after_push(first.0, first.1).after_push(second.0, second.1).pending(q.reset_version)
            == seq![encode(first.0, first.1), encode(second.0, second.1)],
{
    law_push_appends(q, q.reset_version, first.0, first.1);
    law_push_appends(q.after_push(first.0, first.1), q.reset_version, second.0, second.1);
    assert(q.pending(q.reset_version) =~= Seq::<u32>::empty());
    assert(q.after_push(first.0, first.1).after_push(second.0, second.1).pending(q.reset_version)
        =~= seq![encode(first.0, first.1), encode(second.0, second.1)]);
}

} // verus!
