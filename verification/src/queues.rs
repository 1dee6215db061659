use vstd::prelude::*;

use crate::cmd::{zero_command, NvmeCommand};
use crate::dma::{page_size_is_valid, Allocator, Dma};
use crate::error::Error;

verus! {

use vstd::arithmetic::div_mod::{lemma_mod_self_0, lemma_small_mod};
use vstd::bytes::{
    spec_u16_to_le_bytes, spec_u32_to_le_bytes, u16_from_le_bytes, u32_from_le_bytes,
};
use vstd::slice::slice_subrange;

/// One completion queue entry: the fixed 16-byte layout the device writes.
/// The low bit of `status` is the phase tag; bits 15:1 carry the NVMe status
/// code and status code type.
#[derive(Debug, Clone, Copy, PartialEq, Eq, Structural)]
pub struct CompletionQueueEntry {
    pub command_specific: u32,
    pub reserved: u32,
    pub sq_head: u16,
    pub sq_id: u16,
    pub command_id: u16,
    pub status: u16,
}

/// The all-zero entry; freshly allocated completion queue slots hold it. Its
/// clear phase bit can never match the initial expected phase, so an unused
/// slot never completes.
pub open spec fn zero_entry() -> CompletionQueueEntry {
    CompletionQueueEntry {
        command_specific: 0,
        reserved: 0,
        sq_head: 0,
        sq_id: 0,
        command_id: 0,
        status: 0,
    }
}

impl CompletionQueueEntry {
    /// The all-zero entry.
    pub fn zeroed() -> (r: Self)
        ensures
            r == zero_entry(),
    {
        CompletionQueueEntry {
            command_specific: 0,
            reserved: 0,
            sq_head: 0,
            sq_id: 0,
            command_id: 0,
            status: 0,
        }
    }

    /// The 16-byte little-endian wire image of the entry.
    pub open spec fn wire_bytes(self) -> Seq<u8> {
        spec_u32_to_le_bytes(self.command_specific) + spec_u32_to_le_bytes(self.reserved)
            + spec_u16_to_le_bytes(self.sq_head) + spec_u16_to_le_bytes(self.sq_id)
            + spec_u16_to_le_bytes(self.command_id) + spec_u16_to_le_bytes(self.status)
    }

    /// Decode an entry from the 16 bytes the device wrote into the ring.
    pub fn decode(bytes: &[u8]) -> (r: Self)
        requires
            bytes@.len() == 16,
        ensures
            r.wire_bytes() == bytes@,
    {
        proof {
            vstd::bytes::lemma_auto_spec_u16_to_from_le_bytes();
            vstd::bytes::lemma_auto_spec_u32_to_from_le_bytes();
        }
        let r = CompletionQueueEntry {
            command_specific: u32_from_le_bytes(slice_subrange(bytes, 0, 4)),
            reserved: u32_from_le_bytes(slice_subrange(bytes, 4, 8)),
            sq_head: u16_from_le_bytes(slice_subrange(bytes, 8, 10)),
            sq_id: u16_from_le_bytes(slice_subrange(bytes, 10, 12)),
            command_id: u16_from_le_bytes(slice_subrange(bytes, 12, 14)),
            status: u16_from_le_bytes(slice_subrange(bytes, 14, 16)),
        };
        proof {
            assert(r.wire_bytes() =~= bytes@);
        }
        r
    }
}

/// Does the phase bit of `status` match the consumer's expected phase?
pub open spec fn phase_matches(status: u16, phase: bool) -> bool {
    ((status & 1) == 1) == phase
}

/// One consumer step of the completion ring: the head advances modulo the
/// capacity and the expected phase toggles exactly when the head wraps to 0.
pub open spec fn ring_step(head: int, phase: bool, len: int) -> (int, bool) {
    if head + 1 == len {
        (0, !phase)
    } else {
        (head + 1, phase)
    }
}

/// `k` consumer steps of the completion ring.
pub open spec fn ring_step_n(k: nat, head: int, phase: bool, len: int) -> (int, bool)
    decreases k,
{
    if k == 0 {
        (head, phase)
    } else {
        let (h, p) = ring_step(head, phase, len);
        ring_step_n((k - 1) as nat, h, p, len)
    }
}

/// Taking fewer successful completions than the capacity, starting at the
/// ring's base, moves the head without touching the expected phase.
pub proof fn lemma_ring_step_n_no_wrap(k: nat, phase: bool, len: int)
    requires
        2 <= len,
        k < len,
    ensures
        ring_step_n(k, 0, phase, len) == (k as int, phase),
    decreases k,
{
    if k > 0 {
        lemma_ring_step_n_no_wrap((k - 1) as nat, phase, len);
        assert(ring_step_n(k, 0, phase, len) == ring_step(
            ring_step_n((k - 1) as nat, 0, phase, len).0,
            ring_step_n((k - 1) as nat, 0, phase, len).1,
            len,
        )) by {
            lemma_ring_step_n_unfold_back(k, 0, phase, len);
        }
    }
}

/// Unfold `ring_step_n` at its last step instead of its first.
pub proof fn lemma_ring_step_n_unfold_back(k: nat, head: int, phase: bool, len: int)
    requires
        k >= 1,
    ensures
        ring_step_n(k, head, phase, len) == ring_step(
            ring_step_n((k - 1) as nat, head, phase, len).0,
            ring_step_n((k - 1) as nat, head, phase, len).1,
            len,
        ),
    decreases k,
{
    let (h, p) = ring_step(head, phase, len);
    assert(ring_step_n(k, head, phase, len) == ring_step_n((k - 1) as nat, h, p, len));
    if k > 1 {
        lemma_ring_step_n_unfold_back((k - 1) as nat, h, p, len);
        assert(ring_step_n((k - 1) as nat, head, phase, len) == ring_step_n(
            (k - 2) as nat,
            h,
            p,
            len,
        ));
    } else {
        assert(ring_step_n(0, head, phase, len) == (head, phase));
        assert(ring_step_n(0, h, p, len) == (h, p));
    }
}

/// After exactly as many successful completions as the ring holds entries,
/// the head is back at 0 and the expected phase has toggled exactly once.
pub proof fn lemma_phase_toggles_once_per_lap(phase: bool, len: int)
    requires
        2 <= len,
    ensures
        ring_step_n(len as nat, 0, phase, len) == (0int, !phase),
{
    lemma_ring_step_n_no_wrap((len - 1) as nat, phase, len);
    lemma_ring_step_n_unfold_back(len as nat, 0, phase, len);
}

/// A fixed-capacity submission ring backed by one DMA region.
///
/// `slots` models the content of that region: slot `i` stands for the 64
/// bytes at offset `64 * i`. The driver writes commands at `tail`; the device
/// consumes them up to `head`, which the driver learns from completions.
#[derive(Debug)]
pub struct SubmissionQueue {
    pub dma: Dma,
    pub slots: Vec<NvmeCommand>,
    pub head: usize,
    pub tail: usize,
    pub len: usize,
    pub doorbell: usize,
}

impl SubmissionQueue {
    pub open spec fn wf(&self) -> bool {
        &&& 2 <= self.len <= 0x10000
        &&& self.slots@.len() == self.len
        &&& self.head < self.len
        &&& self.tail < self.len
    }

    pub open spec fn spec_is_empty(&self) -> bool {
        self.head == self.tail
    }

    pub open spec fn spec_is_full(&self) -> bool {
        self.head as int == (self.tail as int + 1) % (self.len as int)
    }

    /// Allocate the backing DMA region (64 bytes per entry) and start with
    /// `head == tail == 0` and every slot zeroed.
    pub fn new<A: Allocator>(
        number_of_queue_entries: usize,
        page_size: usize,
        doorbell: usize,
        allocator: &A,
    ) -> (r: Result<Self, Error>)
        requires
            2 <= number_of_queue_entries <= 0x10000,
            page_size_is_valid(page_size as int),
        ensures
            (r matches Ok(q) ==> {
                &&& q.wf()
                &&& q.len == number_of_queue_entries
                &&& q.head == 0
                &&& q.tail == 0
                &&& q.doorbell == doorbell
                &&& q.dma.size == number_of_queue_entries * 64
                &&& q.dma.physical_address != 0
                &&& q.dma.physical_address as int % 4096 == 0
                &&& q.dma.virtual_address != 0
                &&& q.dma.virtual_address as int % page_size as int == 0
                &&& q.dma.virtual_address as int % 4096 == 0
                &&& q.dma.virtual_address + q.dma.size <= usize::MAX
                &&& (forall|i: int|
                    0 <= i < number_of_queue_entries ==> q.slots@[i] == zero_command())
            }),
            (r matches Err(e) ==> (e is Allocate || e is TranslateVirtualToPhysical)),
    {
        let dma = match Dma::allocate(number_of_queue_entries * 64, page_size, allocator) {
            Ok(d) => d,
            Err(e) => {
                return Err(e);
            },
        };
        let slots = vec![NvmeCommand::zeroed(); number_of_queue_entries];
        Ok(
            SubmissionQueue {
                dma,
                slots,
                head: 0,
                tail: 0,
                len: number_of_queue_entries,
                doorbell,
            },
        )
    }

    /// The ring reports empty when the driver's head estimate has caught up
    /// with the tail.
    pub fn is_empty(&self) -> (r: bool)
        ensures
            r == self.spec_is_empty(),
    {
        self.head == self.tail
    }

    /// The ring reports full when advancing the tail would make it collide
    /// with the head; one slot is always left unused.
    pub fn is_full(&self) -> (r: bool)
        requires
            self.wf(),
        ensures
            r == self.spec_is_full(),
    {
        self.head == (self.tail + 1) % self.len
    }

    /// Write `entry` at the tail slot and advance the tail; the returned new
    /// tail is the value for the submission queue tail doorbell. The caller
    /// must have checked for fullness: an unchecked submit on a full ring
    /// overtakes the device.
    pub fn submit(&mut self, entry: NvmeCommand) -> (r: usize)
        requires
            old(self).wf(),
        ensures
            final(self).wf(),
            final(self).slots@ == old(self).slots@.update(old(self).tail as int, entry),
            final(self).tail as int == (old(self).tail as int + 1) % (old(self).len as int),
            r == final(self).tail,
            final(self).head == old(self).head,
            final(self).len == old(self).len,
            final(self).doorbell == old(self).doorbell,
            final(self).dma == old(self).dma,
    {
        let tail = self.tail;
        self.slots[tail] = entry;
        proof {
            if old(self).tail + 1 < old(self).len {
                lemma_small_mod((old(self).tail + 1) as nat, old(self).len as nat);
            } else {
                lemma_mod_self_0(old(self).len as int);
            }
        }
        self.tail = (self.tail + 1) % self.len;
        self.tail
    }

    /// `submit`, refused with `SubmissionQueueFull` when the ring is full.
    pub fn submit_checked(&mut self, entry: NvmeCommand) -> (r: Result<usize, Error>)
        requires
            old(self).wf(),
        ensures
            final(self).wf(),
            (old(self).spec_is_full() ==> {
                &&& r matches Err(e) && e is SubmissionQueueFull
                &&& *final(self) == *old(self)
            }),
            (!old(self).spec_is_full() ==> {
                &&& final(self).slots@ == old(self).slots@.update(old(self).tail as int, entry)
                &&& final(self).tail as int == (old(self).tail as int + 1) % (old(self).len as int)
                &&& r matches Ok(t) && t == final(self).tail
                &&& final(self).head == old(self).head
                &&& final(self).len == old(self).len
                &&& final(self).doorbell == old(self).doorbell
                &&& final(self).dma == old(self).dma
            }),
    {
        if self.is_full() {
            Err(Error::SubmissionQueueFull)
        } else {
            Ok(self.submit(entry))
        }
    }

    /// The physical address of the ring, as queue-creation commands carry it.
    pub fn get_addr(&self) -> (r: usize)
        ensures
            r == self.dma.physical_address,
    {
        self.dma.physical_address
    }

    /// The command stored at slot `index`; what the device would read there.
    pub fn get_slot(&self, index: usize) -> (r: NvmeCommand)
        requires
            index < self.slots@.len(),
        ensures
            r == self.slots@[index as int],
    {
        self.slots[index]
    }
}

/// A well-formed ring never reports both empty and full.
pub proof fn lemma_ring_never_empty_and_full(q: SubmissionQueue)
    requires
        q.wf(),
    ensures
        !(q.spec_is_empty() && q.spec_is_full()),
{
    if q.spec_is_empty() && q.spec_is_full() {
        if q.tail as int + 1 < q.len as int {
            lemma_small_mod((q.tail + 1) as nat, q.len as nat);
        } else {
            lemma_mod_self_0(q.len as int);
        }
    }
}

/// A fixed-capacity completion ring backed by one DMA region.
///
/// `slots` models the content of that region: slot `i` stands for the 16
/// bytes at offset `16 * i`. The device writes entries with its current phase
/// bit; the consumer reads at `head` and accepts an entry only when its phase
/// bit equals the expected `phase`, which toggles on every wrap of `head`.
#[derive(Debug)]
pub struct CompletionQueue {
    pub dma: Dma,
    pub slots: Vec<CompletionQueueEntry>,
    pub head: usize,
    pub phase: bool,
    pub len: usize,
    pub doorbell: usize,
}

impl CompletionQueue {
    pub open spec fn wf(&self) -> bool {
        &&& 2 <= self.len <= 0x10000
        &&& self.slots@.len() == self.len
        &&& self.head < self.len
    }

    /// Allocate the backing DMA region (16 bytes per entry) and start with
    /// `head == 0`, the expected phase set, and every slot zeroed.
    pub fn new<A: Allocator>(
        number_of_queue_entries: usize,
        page_size: usize,
        doorbell: usize,
        allocator: &A,
    ) -> (r: Result<Self, Error>)
        requires
            2 <= number_of_queue_entries <= 0x10000,
            page_size_is_valid(page_size as int),
        ensures
            (r matches Ok(q) ==> {
                &&& q.wf()
                &&& q.len == number_of_queue_entries
                &&& q.head == 0
                &&& q.phase == true
                &&& q.doorbell == doorbell
                &&& q.dma.size == number_of_queue_entries * 16
                &&& q.dma.physical_address != 0
                &&& q.dma.physical_address as int % 4096 == 0
                &&& q.dma.virtual_address != 0
                &&& q.dma.virtual_address as int % page_size as int == 0
                &&& q.dma.virtual_address as int % 4096 == 0
                &&& q.dma.virtual_address + q.dma.size <= usize::MAX
                &&& (forall|i: int| 0 <= i < number_of_queue_entries ==> q.slots@[i] == zero_entry())
            }),
            (r matches Err(e) ==> (e is Allocate || e is TranslateVirtualToPhysical)),
    {
        let dma = match Dma::allocate(number_of_queue_entries * 16, page_size, allocator) {
            Ok(d) => d,
            Err(e) => {
                return Err(e);
            },
        };
        let slots = vec![CompletionQueueEntry::zeroed(); number_of_queue_entries];
        Ok(
            CompletionQueue {
                dma,
                slots,
                head: 0,
                phase: true,
                len: number_of_queue_entries,
                doorbell,
            },
        )
    }

    /// Record what the device wrote at slot `index`: the model of a DMA store
    /// into the ring. The driver never calls this for itself; the party that
    /// observes the device's memory does.
    pub fn set_slot(&mut self, index: usize, entry: CompletionQueueEntry)
        requires
            old(self).wf(),
            index < old(self).len,
        ensures
            final(self).wf(),
            final(self).slots@ == old(self).slots@.update(index as int, entry),
            final(self).head == old(self).head,
            final(self).phase == old(self).phase,
            final(self).len == old(self).len,
            final(self).doorbell == old(self).doorbell,
            final(self).dma == old(self).dma,
    {
        self.slots[index] = entry;
    }

    /// Reap one completion, if one is pending: when the phase bit of the
    /// entry at `head` matches the expected phase, the entry is copied out,
    /// the head advances, and the expected phase toggles exactly when the
    /// head wraps to 0. Returns `(new head, entry, previous head)`; the new
    /// head is the value for the completion queue head doorbell. When no
    /// entry is pending the ring is left untouched.
    pub fn complete(&mut self) -> (r: Result<(usize, CompletionQueueEntry, usize), Error>)
        requires
            old(self).wf(),
        ensures
            final(self).wf(),
            final(self).slots == old(self).slots,
            final(self).len == old(self).len,
            final(self).doorbell == old(self).doorbell,
            final(self).dma == old(self).dma,
            (phase_matches(old(self).slots@[old(self).head as int].status, old(self).phase) ==> {
                &&& (final(self).head as int, final(self).phase) == ring_step(
                    old(self).head as int,
                    old(self).phase,
                    old(self).len as int,
                )
                &&& r matches Ok(v) && v == (
                    final(self).head,
                    old(self).slots@[old(self).head as int],
                    old(self).head,
                )
            }),
            (!phase_matches(old(self).slots@[old(self).head as int].status, old(self).phase) ==> {
                &&& *final(self) == *old(self)
                &&& r matches Err(e) && e is CompletionQueueCompletionFailure
            }),
    {
        let entry = self.slots[self.head];
        if ((entry.status & 1) == 1) == self.phase {
            let prev = self.head;
            proof {
                if old(self).head + 1 < old(self).len {
                    lemma_small_mod((old(self).head + 1) as nat, old(self).len as nat);
                } else {
                    lemma_mod_self_0(old(self).len as int);
                }
            }
            self.head = (self.head + 1) % self.len;
            if self.head == 0 {
                self.phase = !self.phase;
            }
            Ok((self.head, entry, prev))
        } else {
            Err(Error::CompletionQueueCompletionFailure)
        }
    }

    /// Reap the next completion, which must already be pending: against a
    /// live device this is a busy-wait that the device's own DMA store ends;
    /// in this model the ring's memory cannot change underneath the wait, so
    /// the entry at `head` has to match the expected phase on entry.
    pub fn complete_spin(&mut self) -> (r: (usize, CompletionQueueEntry, usize))
        requires
            old(self).wf(),
            phase_matches(old(self).slots@[old(self).head as int].status, old(self).phase),
        ensures
            final(self).wf(),
            final(self).slots == old(self).slots,
            final(self).len == old(self).len,
            final(self).doorbell == old(self).doorbell,
            final(self).dma == old(self).dma,
            (final(self).head as int, final(self).phase) == ring_step(
                old(self).head as int,
                old(self).phase,
                old(self).len as int,
            ),
            r == (final(self).head, old(self).slots@[old(self).head as int], old(self).head),
    {
        let attempt = self.complete();
        match attempt {
            Ok(v) => v,
            Err(_) => {
                proof {
                    assert(false);
                }
                (0, CompletionQueueEntry::zeroed(), 0)
            },
        }
    }

    /// Skip `commands - 1` entries, then reap the next one: the batched form
    /// used after a known number of completions has been posted, so the last
    /// entry of the batch must already be pending.
    /// Returns `(new head, last entry, head before the batch)`.
    pub fn complete_n(&mut self, commands: usize) -> (r: (
        usize,
        CompletionQueueEntry,
        usize,
    ))
        requires
            old(self).wf(),
            1 <= commands <= old(self).len,
            phase_matches(
                old(self).slots@[(old(self).head + commands - 1) % (old(self).len as int)].status,
                if old(self).head + commands - 1 >= old(self).len {
                    !old(self).phase
                } else {
                    old(self).phase
                },
            ),
        ensures
            final(self).wf(),
            final(self).slots == old(self).slots,
            final(self).len == old(self).len,
            final(self).doorbell == old(self).doorbell,
            final(self).dma == old(self).dma,
            r.2 == old(self).head,
            ({
                let skipped = (old(self).head + commands - 1) % (old(self).len as int);
                let skipped_phase = if old(self).head + commands - 1 >= old(self).len {
                    !old(self).phase
                } else {
                    old(self).phase
                };
                &&& phase_matches(old(self).slots@[skipped].status, skipped_phase)
                &&& (final(self).head as int, final(self).phase) == ring_step(
                    skipped,
                    skipped_phase,
                    old(self).len as int,
                )
                &&& r == (final(self).head, old(self).slots@[skipped], r.2)
            }),
    {
        let prev = self.head;
        proof {
            if old(self).head + commands - 1 < old(self).len {
                lemma_small_mod((old(self).head + commands - 1) as nat, old(self).len as nat);
            } else {
                vstd::arithmetic::div_mod::lemma_mod_sub_multiples_vanish(
                    (old(self).head + commands - 1) as int,
                    old(self).len as int,
                );
                lemma_small_mod(
                    (old(self).head + commands - 1 - old(self).len) as nat,
                    old(self).len as nat,
                );
            }
        }
        self.head = self.head + (commands - 1);
        if self.head >= self.len {
            self.phase = !self.phase;
        }
        self.head = self.head % self.len;
        let (head, entry, _) = self.complete_spin();
        (head, entry, prev)
    }

    /// The physical address of the ring, as queue-creation commands carry it.
    pub fn get_addr(&self) -> (r: usize)
        ensures
            r == self.dma.physical_address,
    {
        self.dma.physical_address
    }
}

} // verus!
