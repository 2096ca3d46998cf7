//! The bookkeeping of the ingest loop and of the file relay.

use vstd::prelude::*;
use crate::rotation::must_rotate;

verus! {

/// The live file after one write cycle: `chunk` is appended, and a rotation
/// empties the file if it then holds more than `max_size` bytes.
pub open spec fn after_write(live: Seq<u8>, chunk: Seq<u8>, max_size: u64) -> Seq<u8> {
    if must_rotate((live + chunk).len(), max_size) {
        Seq::empty()
    } else {
        live + chunk
    }
}

/// The live file after write cycles of `chunks`, in order, from empty.
pub open spec fn after_writes(chunks: Seq<Seq<u8>>, max_size: u64) -> Seq<u8>
    decreases chunks.len(),
{
    if chunks.len() == 0 {
        Seq::empty()
    } else {
        after_write(after_writes(chunks.drop_last(), max_size), chunks.last(), max_size)
    }
}

/// What the file relay knows of the live file: its length, and in ghost its
/// contents since the last truncation.
pub struct LiveFile {
    len: u64,
    contents: Ghost<Seq<u8>>,
}

impl View for LiveFile {
    type V = Seq<u8>;

    closed spec fn view(&self) -> Seq<u8> {
        self.contents@
    }
}

impl LiveFile {
    pub closed spec fn wf(&self) -> bool {
        self.len == self.contents@.len()
    }

    /// The live file as opened: empty.
    pub fn new() -> (r: LiveFile)
        ensures
            r.wf(),
            r@ == Seq::<u8>::empty(),
    {
        LiveFile { len: 0, contents: Ghost(Seq::empty()) }
    }

    /// The write position: the live file's length.
    pub fn position(&self) -> (r: u64)
        requires
            self.wf(),
        ensures
            r == self@.len(),
    {
        self.len
    }

    /// Records that `chunk` was appended, and says whether a rotation is due.
    pub fn record_write(&mut self, chunk: &Vec<u8>, max_size: u64) -> (rotate: bool)
        requires
            old(self).wf(),
            old(self)@.len() + chunk@.len() <= u64::MAX,
        ensures
            final(self).wf(),
            final(self)@ == old(self)@ + chunk@,
            rotate == must_rotate(final(self)@.len(), max_size),
    {
        self.len = self.len + chunk.len() as u64;
        self.contents = Ghost(self.contents@ + chunk@);
        self.len > max_size
    }

    /// Records that a rotation truncated the live file.
    pub fn record_rotation(&mut self)
        requires
            old(self).wf(),
        ensures
            final(self).wf(),
            final(self)@ == Seq::<u8>::empty(),
    {
        self.len = 0;
        self.contents = Ghost(Seq::empty());
    }
}

/// Rotation trigger: after a write cycle the live file holds at most
/// `max_size` bytes; the write that takes it past `max_size` is followed by
/// a rotation that empties it.
pub proof fn lemma_rotation_trigger(live: Seq<u8>, chunk: Seq<u8>, max_size: u64)
    ensures
        after_write(live, chunk, max_size).len() <= max_size,
        (live + chunk).len() > max_size ==> after_write(live, chunk, max_size) == Seq::<u8>::empty(),
        (live + chunk).len() <= max_size ==> after_write(live, chunk, max_size) == live + chunk,
{
}

/// Over any run, the live file holds at most `max_size` bytes between
/// write cycles.
pub proof fn lemma_live_file_bounded(chunks: Seq<Seq<u8>>, max_size: u64)
    ensures
        after_writes(chunks, max_size).len() <= max_size,
    decreases chunks.len(),
{
    if chunks.len() > 0 {
        lemma_rotation_trigger(after_writes(chunks.drop_last(), max_size), chunks.last(), max_size);
    }
}

/// Pre-rotation file fidelity: where the input never takes the live file
/// past `max_size`, no rotation happens and the live file holds the whole
/// input, in order.
pub proof fn lemma_no_rotation_fidelity(chunks: Seq<Seq<u8>>, max_size: u64)
    requires
        chunks.flatten().len() <= max_size,
    ensures
        after_writes(chunks, max_size) == chunks.flatten(),
    decreases chunks.len(),
{
    chunks.lemma_flatten_and_flatten_alt_are_equivalent();
    if chunks.len() > 0 {
        let init = chunks.drop_last();
        init.lemma_flatten_and_flatten_alt_are_equivalent();
        assert(init.flatten().len() <= max_size);
        lemma_no_rotation_fidelity(init, max_size);
    } else {
        assert(chunks.flatten() =~= Seq::<u8>::empty());
    }
}

/// What the ingest loop does after a read.
pub enum IngestAction {
    /// End of input: stop reading.
    Stop,
    /// Hand this chunk to both relays, then wait for their two acknowledgments.
    Forward(Vec<u8>),
}

/// The state of the ingest loop: the chunks handed to the relays and the
/// acknowledgments still awaited.
pub struct ReadCycle {
    pending_acks: u8,
    finished: bool,
    consumed: Ghost<Seq<u8>>,
    forwarded: Ghost<Seq<Seq<u8>>>,
}

impl ReadCycle {
    pub closed spec fn wf(&self) -> bool {
        &&& self.pending_acks <= 2
        &&& self.consumed@ == self.forwarded@.flatten_alt()
    }

    /// The bytes read from the input so far.
    pub closed spec fn consumed(&self) -> Seq<u8> {
        self.consumed@
    }

    /// The chunks handed to each of the two relays, in order.
    pub closed spec fn forwarded(&self) -> Seq<Seq<u8>> {
        self.forwarded@
    }

    pub closed spec fn awaiting(&self) -> nat {
        self.pending_acks as nat
    }

    pub closed spec fn is_finished(&self) -> bool {
        self.finished
    }

    pub fn new() -> (r: ReadCycle)
        ensures
            r.wf(),
            r.awaiting() == 0,
            !r.is_finished(),
            r.consumed() == Seq::<u8>::empty(),
            r.forwarded() == Seq::<Seq<u8>>::empty(),
    {
        ReadCycle {
            pending_acks: 0,
            finished: false,
            consumed: Ghost(Seq::empty()),
            forwarded: Ghost(Seq::empty()),
        }
    }

    /// Whether the next read may be issued: both relays have acknowledged
    /// the last chunk and the input has not ended.
    pub fn ready(&self) -> (r: bool)
        ensures
            r == (self.awaiting() == 0 && !self.is_finished()),
    {
        self.pending_acks == 0 && !self.finished
    }

    /// Whether the input has ended.
    pub fn finished(&self) -> (r: bool)
        ensures
            r == self.is_finished(),
    {
        self.finished
    }

    /// Decides on a read that filled the first `n` bytes of `buffer`: zero
    /// bytes end the input; otherwise those bytes go to both relays, and two
    /// acknowledgments are then awaited.
    pub fn on_read(&mut self, buffer: &Vec<u8>, n: usize) -> (a: IngestAction)
        requires
            old(self).wf(),
            old(self).awaiting() == 0,
            !old(self).is_finished(),
            n <= buffer@.len(),
        ensures
            final(self).wf(),
            n == 0 ==> {
                &&& a is Stop
                &&& final(self).is_finished()
                &&& final(self).awaiting() == 0
                &&& final(self).consumed() == old(self).consumed()
                &&& final(self).forwarded() == old(self).forwarded()
            },
            n > 0 ==> {
                &&& a matches IngestAction::Forward(chunk) && chunk@ == buffer@.take(n as int)
                &&& !final(self).is_finished()
                &&& final(self).awaiting() == 2
                &&& final(self).consumed() == old(self).consumed() + buffer@.take(n as int)
                &&& final(self).forwarded() == old(self).forwarded().push(buffer@.take(n as int))
            },
            final(self).consumed() == final(self).forwarded().flatten(),
    {
        if n == 0 {
            self.finished = true;
            proof {
                self.forwarded@.lemma_flatten_and_flatten_alt_are_equivalent();
            }
            return IngestAction::Stop;
        }
        let mut chunk: Vec<u8> = Vec::new();
        let mut i: usize = 0;
        while i < n
            invariant
                i <= n <= buffer@.len(),
                chunk@ == buffer@.take(i as int),
            decreases n - i,
        {
            chunk.push(buffer[i]);
            assert(buffer@.take(i + 1) =~= buffer@.take(i as int).push(buffer@[i as int]));
            i = i + 1;
        }
        let ghost old_forwarded = self.forwarded@;
        self.consumed = Ghost(self.consumed@ + chunk@);
        self.forwarded = Ghost(self.forwarded@.push(chunk@));
        self.pending_acks = 2;
        proof {
            assert(self.forwarded@.drop_last() =~= old_forwarded);
            self.forwarded@.lemma_flatten_and_flatten_alt_are_equivalent();
        }
        IngestAction::Forward(chunk)
    }

    /// Records one acknowledgment from a relay.
    pub fn on_ack(&mut self)
        requires
            old(self).wf(),
            old(self).awaiting() > 0,
        ensures
            final(self).wf(),
            final(self).awaiting() == old(self).awaiting() - 1,
            final(self).is_finished() == old(self).is_finished(),
            final(self).consumed() == old(self).consumed(),
            final(self).forwarded() == old(self).forwarded(),
    {
        self.pending_acks = self.pending_acks - 1;
    }
}

} // verus!

verus! {

/// Tee fidelity: in every state of the ingest loop, the chunks handed to
/// each relay, joined in order, are exactly the bytes read so far, with
/// nothing lost or repeated.
pub proof fn lemma_tee_fidelity(cycle: ReadCycle)
    requires
        cycle.wf(),
    ensures
        cycle.consumed() == cycle.forwarded().flatten(),
{
    cycle.forwarded().lemma_flatten_and_flatten_alt_are_equivalent();
}

} // verus!
