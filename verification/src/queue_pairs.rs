use vstd::prelude::*;

use std::sync::Arc;

use crate::cmd::NvmeCommand;
use crate::dma::{page_size_is_valid, Allocator, Dma};
use crate::error::Error;
use crate::nvme::Namespace;
use crate::prp;
use crate::prp::{allocate_post, spec_span, PrpContainer};
use crate::queues::{phase_matches, ring_step, CompletionQueue, CompletionQueueEntry,
    SubmissionQueue};

verus! {

use vstd::arithmetic::div_mod::{lemma_div_by_self, lemma_div_is_ordered,
    lemma_mod_division_less_than_divisor};

/// Identifier of an I/O queue pair; the admin queue pair owns identifier 0,
/// so live I/O queue pair identifiers are always at least 1.
#[derive(Debug, PartialEq, Eq, Hash, Clone, Copy, Structural)]
pub struct IoQueuePairId(pub u16);

/// The admin submission and completion rings, bound to the device's queue
/// identifier 0.
#[derive(Debug)]
pub struct AdminQueuePair {
    pub submission: SubmissionQueue,
    pub completion: CompletionQueue,
}

/// The command an admin submission actually carries: the caller's command
/// with the command identifier set to the submission tail. The caller builds
/// the data pointer: the scratch buffer for commands that return data, the
/// ring's base address for queue creation.
pub open spec fn admin_command(cmd: NvmeCommand, command_id: u16) -> NvmeCommand {
    NvmeCommand { command_id, ..cmd }
}

impl AdminQueuePair {
    pub open spec fn wf(&self) -> bool {
        &&& self.submission.wf()
        &&& self.completion.wf()
    }

    /// Execute one admin command synchronously: stamp it with the current
    /// submission tail as its command identifier, submit it, and reap its
    /// completion, which must already be pending (against a live device, the
    /// wait ends when the device posts).
    /// The caller rings the admin doorbells with the new tail and head.
    /// A completion whose status (bits 15:1) is nonzero fails the command.
    pub fn submit_and_complete(&mut self, cmd: NvmeCommand) -> (r: Result<
        CompletionQueueEntry,
        Error,
    >)
        requires
            old(self).wf(),
            phase_matches(
                old(self).completion.slots@[old(self).completion.head as int].status,
                old(self).completion.phase,
            ),
        ensures
            final(self).wf(),
            final(self).submission.slots@ == old(self).submission.slots@.update(
                old(self).submission.tail as int,
                admin_command(cmd, old(self).submission.tail as u16),
            ),
            final(self).submission.tail as int == (old(self).submission.tail as int + 1) % (
            old(self).submission.len as int),
            final(self).submission.head == old(self).submission.head,
            final(self).submission.len == old(self).submission.len,
            final(self).submission.doorbell == old(self).submission.doorbell,
            final(self).submission.dma == old(self).submission.dma,
            final(self).completion.slots == old(self).completion.slots,
            final(self).completion.len == old(self).completion.len,
            final(self).completion.doorbell == old(self).completion.doorbell,
            final(self).completion.dma == old(self).completion.dma,
            (final(self).completion.head as int, final(self).completion.phase) == ring_step(
                old(self).completion.head as int,
                old(self).completion.phase,
                old(self).completion.len as int,
            ),
            ({
                let entry = old(self).completion.slots@[old(self).completion.head as int];
                if entry.status >> 1u16 == 0 {
                    r == Ok::<CompletionQueueEntry, Error>(entry)
                } else {
                    r == Err::<CompletionQueueEntry, Error>(
                        Error::IoCompletionQueueFailure(entry.status >> 1u16),
                    )
                }
            }),
    {
        let cid = self.submission.tail;
        let command = NvmeCommand { command_id: cid as u16, ..cmd };
        let _tail = self.submission.submit(command);
        let (_head, entry, _prev) = self.completion.complete_spin();
        let status = entry.status >> 1u16;
        if status != 0 {
            return Err(Error::IoCompletionQueueFailure(status));
        }
        Ok(entry)
    }
}

/// One I/O submission/completion ring pair at a device queue identifier
/// above 0, bound to one namespace, together with the PRP containers of the
/// commands in flight, keyed by command identifier.
#[derive(Debug)]
pub struct IoQueuePair<A: Allocator> {
    pub id: IoQueuePairId,
    pub submission: SubmissionQueue,
    pub completion: CompletionQueue,
    pub page_size: usize,
    pub maximum_transfer_size: usize,
    pub allocator: Arc<A>,
    pub namespace: Namespace,
    pub device_address: usize,
    pub doorbell_stride: u16,
    pub prp_containers: Vec<(u16, PrpContainer)>,
}

impl<A: Allocator> IoQueuePair<A> {
    pub open spec fn wf(&self) -> bool {
        &&& self.submission.wf()
        &&& self.completion.wf()
        &&& page_size_is_valid(self.page_size as int)
        &&& (forall|i: int, j: int|
            0 <= i < j < self.prp_containers@.len() ==> (#[trigger] self.prp_containers@[i]).0 != (
            #[trigger] self.prp_containers@[j]).0)
    }

    /// Is a PRP container recorded under this command identifier?
    pub open spec fn spec_contains_container(&self, command_id: u16) -> bool {
        exists|i: int|
            0 <= i < self.prp_containers@.len() && (#[trigger] self.prp_containers@[i]).0
                == command_id
    }

    pub fn id(&self) -> (r: IoQueuePairId)
        ensures
            r == self.id,
    {
        self.id
    }

    /// The index of the in-flight record under `command_id`, if one exists.
    fn find_container(&self, command_id: u16) -> (r: Option<usize>)
        ensures
            (r matches Some(i) ==> i < self.prp_containers@.len()
                && self.prp_containers@[i as int].0 == command_id),
            (r is None ==> !self.spec_contains_container(command_id)),
    {
        let mut i: usize = 0;
        while i < self.prp_containers.len()
            invariant
                i <= self.prp_containers@.len(),
                forall|t: int| 0 <= t < i ==> (#[trigger] self.prp_containers@[t]).0 != command_id,
            decreases self.prp_containers@.len() - i,
        {
            if self.prp_containers[i].0 == command_id {
                return Some(i);
            }
            i += 1;
        }
        None
    }

    /// Round `number_of_bytes` up to a whole number of blocks of the bound
    /// namespace and allocate a DMA buffer of that size at page alignment.
    #[verifier::rlimit(100)]
    #[verifier::spinoff_prover]
    pub fn allocate_buffer(&self, number_of_bytes: usize) -> (r: Result<Dma, Error>)
        requires
            page_size_is_valid(self.page_size as int),
            1 <= self.namespace.block_size <= usize::MAX,
            number_of_bytes + self.namespace.block_size <= usize::MAX,
        ensures
            allocate_buffer_post(*self, number_of_bytes, r),
    {
        if number_of_bytes == 0 {
            return Err(Error::NumberOfElementsIsZero);
        }
        let block_size = self.namespace.block_size as usize;
        let remainder = number_of_bytes % block_size;
        proof {
            lemma_mod_division_less_than_divisor(number_of_bytes as int, block_size as int);
        }
        let size: usize;
        if remainder == 0 {
            size = number_of_bytes;
        } else {
            size = number_of_bytes + (block_size - remainder);
        }
        proof {
            vstd::arithmetic::div_mod::lemma_fundamental_div_mod(
                number_of_bytes as int,
                block_size as int,
            );
            let q = number_of_bytes as int / block_size as int;
            if remainder != 0 {
                assert(size as int == (q + 1) * block_size as int) by (nonlinear_arith)
                    requires
                        size as int == number_of_bytes as int + block_size as int - remainder as int,
                        number_of_bytes as int == block_size as int * q + remainder as int,
                ;
                vstd::arithmetic::div_mod::lemma_mod_multiples_basic(q + 1, block_size as int);
            }
        }
        Dma::allocate(size, self.page_size, &*self.allocator)
    }

    /// Return a buffer obtained from `allocate_buffer` to the allocator.
    pub fn deallocate_buffer(&self, buffer: Dma) -> (r: Result<(), Error>)
        ensures
            (r matches Err(e) ==> e is Deallocate),
    {
        buffer.deallocate(&*self.allocator)
    }

    /// Validate `buffer` against the transfer and block-size limits, build
    /// its PRP encoding, record it under the current submission tail, and
    /// submit a Write command for `blocks = size / block_size` blocks
    /// starting at `logical_block_address`. A request that fails validation
    /// changes nothing. The caller rings the submission doorbell with the new
    /// tail.
    pub fn submit_write(&mut self, buffer: &Dma, logical_block_address: u64) -> (r: Result<
        (),
        Error,
    >)
        requires
            old(self).wf(),
            1 <= old(self).namespace.block_size,
            1 <= buffer.size,
            buffer.size as int / old(self).namespace.block_size as int <= 0x10000,
            buffer.size + 2 * old(self).page_size <= usize::MAX,
            buffer.virtual_address + buffer.size <= usize::MAX,
        ensures
            final(self).wf(),
            io_submit_post(
                *old(self),
                *final(self),
                *buffer,
                logical_block_address,
                r,
                true,
            ),
    {
        self.submit_io(buffer, logical_block_address, true)
    }

    /// As `submit_write`, for a Read command.
    pub fn submit_read(&mut self, buffer: &mut Dma, logical_block_address: u64) -> (r: Result<
        (),
        Error,
    >)
        requires
            old(self).wf(),
            1 <= old(self).namespace.block_size,
            1 <= old(buffer).size,
            old(buffer).size as int / old(self).namespace.block_size as int <= 0x10000,
            old(buffer).size + 2 * old(self).page_size <= usize::MAX,
            old(buffer).virtual_address + old(buffer).size <= usize::MAX,
        ensures
            *final(buffer) == *old(buffer),
            final(self).wf(),
            io_submit_post(
                *old(self),
                *final(self),
                *old(buffer),
                logical_block_address,
                r,
                false,
            ),
    {
        self.submit_io(buffer, logical_block_address, false)
    }

    /// The shared submission path of `submit_write` and `submit_read`.
    #[verifier::rlimit(50)]
    #[verifier::spinoff_prover]
    fn submit_io(&mut self, buffer: &Dma, logical_block_address: u64, write: bool) -> (r: Result<
        (),
        Error,
    >)
        requires
            old(self).wf(),
            1 <= old(self).namespace.block_size,
            1 <= buffer.size,
            buffer.size as int / old(self).namespace.block_size as int <= 0x10000,
            buffer.size + 2 * old(self).page_size <= usize::MAX,
            buffer.virtual_address + buffer.size <= usize::MAX,
        ensures
            final(self).wf(),
            io_submit_post(*old(self), *final(self), *buffer, logical_block_address, r, write),
    {
        if buffer.size > self.maximum_transfer_size {
            return Err(
                Error::BufferLengthBiggerThanMaximumTransferSize(
                    buffer.size,
                    self.maximum_transfer_size,
                ),
            );
        }
        if (buffer.size as u64) % self.namespace.block_size != 0 {
            return Err(
                Error::BufferLengthNotAMultipleOfNamespaceBlockSize(
                    buffer.size,
                    self.namespace.block_size,
                ),
            );
        }
        let prp_container = match prp::allocate(buffer, self.page_size, &*self.allocator) {
            Ok(c) => c,
            Err(e) => {
                return Err(e);
            },
        };
        proof {
            if prp_container is Multiple {
                crate::dma::lemma_page_size_facts(self.page_size as int);
                lemma_div_is_ordered(4096, self.page_size as int, 8);
                crate::prp::lemma_ceil_div_bounds(
                    spec_span(
                        buffer.virtual_address as int,
                        buffer.size as int,
                        self.page_size as int,
                    ) - 1,
                    self.page_size as int / 8 - 1,
                );
            }
        }
        let prp_1 = prp_container.prp_1() as u64;
        let prp_2 = match prp_container.prp_2() {
            Some(p) => p as u64,
            None => 0,
        };
        proof {
            if (buffer.size as int) < self.namespace.block_size as int {
                vstd::arithmetic::div_mod::lemma_small_mod(
                    buffer.size as nat,
                    self.namespace.block_size as nat,
                );
            }
            lemma_div_is_ordered(
                self.namespace.block_size as int,
                buffer.size as int,
                self.namespace.block_size as int,
            );
            lemma_div_by_self(self.namespace.block_size as int);
        }
        let blocks = (buffer.size as u64) / self.namespace.block_size;
        let command_id = self.submission.tail as u16;
        match self.find_container(command_id) {
            Some(_) => {
                // The ring has wrapped onto an outstanding command: give the
                // freshly built encoding's list pages back before refusing.
                match prp::deallocate(prp_container, &*self.allocator) {
                    Ok(()) => {},
                    Err(e) => {
                        return Err(e);
                    },
                }
                return Err(Error::PrpContainerAlreadyExists(command_id));
            },
            None => {},
        }
        let command = if write {
            NvmeCommand::io_write(
                command_id,
                self.namespace.id.0,
                logical_block_address,
                (blocks - 1) as u16,
                prp_1,
                prp_2,
            )
        } else {
            NvmeCommand::io_read(
                command_id,
                self.namespace.id.0,
                logical_block_address,
                (blocks - 1) as u16,
                prp_1,
                prp_2,
            )
        };
        self.prp_containers.push((command_id, prp_container));
        let _tail = self.submission.submit(command);
        Ok(())
    }

    /// Reap one I/O completion, if one is pending: advance the completion
    /// ring, adopt the submission head the device reported, release the PRP
    /// container recorded under the completed command identifier, and check
    /// the status. The caller rings the completion doorbell with the new
    /// head. Returns the submission head the device reported.
    #[verifier::rlimit(50)]
    #[verifier::spinoff_prover]
    pub fn complete_io(&mut self) -> (r: Result<u16, Error>)
        requires
            old(self).wf(),
        ensures
            final(self).wf(),
            io_fields_fixed(*old(self), *final(self)),
            ({
                let cq = old(self).completion;
                let entry = cq.slots@[cq.head as int];
                &&& (!phase_matches(entry.status, cq.phase) ==> r == Err::<u16, Error>(
                    Error::CompletionQueueCompletionFailure,
                ) && *final(self) == *old(self))
                &&& (phase_matches(entry.status, cq.phase) ==> {
                    &&& (final(self).completion.head as int, final(self).completion.phase)
                        == ring_step(cq.head as int, cq.phase, cq.len as int)
                    &&& final(self).completion.slots == cq.slots
                    &&& final(self).completion.len == cq.len
                    &&& final(self).completion.doorbell == cq.doorbell
                    &&& final(self).submission.head as int == entry.sq_head as int % (
                    old(self).submission.len as int)
                    &&& final(self).submission.tail == old(self).submission.tail
                    &&& final(self).submission.slots == old(self).submission.slots
                    &&& final(self).submission.len == old(self).submission.len
                    &&& !final(self).spec_contains_container(entry.command_id)
                    &&& (forall|c: u16|
                        c != entry.command_id ==> (final(self).spec_contains_container(c)
                            <==> old(self).spec_contains_container(c)))
                    &&& (entry.status >> 1u16 != 0 ==> (r == Err::<u16, Error>(
                        Error::IoCompletionQueueFailure(entry.status >> 1u16),
                    ) || (r matches Err(e) && e is Deallocate)))
                    &&& (entry.status >> 1u16 == 0 ==> (r == Ok::<u16, Error>(entry.sq_head) || (
                    r matches Err(e) && e is Deallocate)))
                    // Releasing a container that owns no list pages cannot
                    // fail, so the result is then owed exactly.
                    &&& ((forall|i: int|
                        0 <= i < old(self).prp_containers@.len() && (
                        #[trigger] old(self).prp_containers@[i]).0 == entry.command_id ==> !(
                        old(self).prp_containers@[i].1 is Multiple)) ==> {
                        &&& (entry.status >> 1u16 == 0 ==> r == Ok::<u16, Error>(entry.sq_head))
                        &&& (entry.status >> 1u16 != 0 ==> r == Err::<u16, Error>(
                            Error::IoCompletionQueueFailure(entry.status >> 1u16),
                        ))
                    })
                })
            }),
    {
        let (_head, entry, _prev) = match self.completion.complete() {
            Ok(v) => v,
            Err(e) => {
                return Err(e);
            },
        };
        let sq_len = self.submission.len;
        proof {
            lemma_mod_division_less_than_divisor(entry.sq_head as int, sq_len as int);
        }
        self.submission.head = (entry.sq_head as usize) % sq_len;
        let released = match self.find_container(entry.command_id) {
            Some(i) => {
                let (_, container) = self.prp_containers.remove(i);
                proof {
                    assert forall|c: u16|
                        c != entry.command_id implies (self.spec_contains_container(c)
                        <==> old(self).spec_contains_container(c)) by {
                        if old(self).spec_contains_container(c) {
                            let t = choose|t: int|
                                0 <= t < old(self).prp_containers@.len() && (#[trigger] old(
                                    self,
                                ).prp_containers@[t]).0 == c;
                            if t < i {
                                assert(self.prp_containers@[t].0 == c);
                            } else {
                                assert(self.prp_containers@[t - 1].0 == c);
                            }
                        }
                        if self.spec_contains_container(c) {
                            let t = choose|t: int|
                                0 <= t < self.prp_containers@.len() && (
                                #[trigger] self.prp_containers@[t]).0 == c;
                            if t < i {
                                assert(old(self).prp_containers@[t].0 == c);
                            } else {
                                assert(old(self).prp_containers@[t + 1].0 == c);
                            }
                        }
                    }
                    assert(!self.spec_contains_container(entry.command_id)) by {
                        if self.spec_contains_container(entry.command_id) {
                            let t = choose|t: int|
                                0 <= t < self.prp_containers@.len() && (
                                #[trigger] self.prp_containers@[t]).0 == entry.command_id;
                            if t < i {
                                assert(old(self).prp_containers@[t].0 == entry.command_id);
                            } else {
                                assert(old(self).prp_containers@[t + 1].0 == entry.command_id);
                            }
                        }
                    }
                }
                Some(container)
            },
            None => None,
        };
        match released {
            Some(container) => {
                match prp::deallocate(container, &*self.allocator) {
                    Ok(()) => {},
                    Err(e) => {
                        return Err(e);
                    },
                }
            },
            None => {},
        }
        let status = entry.status >> 1u16;
        if status != 0 {
            return Err(Error::IoCompletionQueueFailure(status));
        }
        Ok(entry.sq_head)
    }

    /// Submit a Write and synchronously reap its completion; the completion
    /// must already be pending when the submission is posted, as with a
    /// loopback device that acts on the doorbell at once.
    #[verifier::rlimit(50)]
    #[verifier::spinoff_prover]
    pub fn write(&mut self, buffer: &Dma, logical_block_address: u64) -> (r: Result<(), Error>)
        requires
            old(self).wf(),
            1 <= old(self).namespace.block_size,
            1 <= buffer.size,
            buffer.size as int / old(self).namespace.block_size as int <= 0x10000,
            buffer.size + 2 * old(self).page_size <= usize::MAX,
            buffer.virtual_address + buffer.size <= usize::MAX,
        ensures
            final(self).wf(),
            io_rw_post(*old(self), *final(self), *buffer, logical_block_address, r, true),
    {
        match self.submit_io(buffer, logical_block_address, true) {
            Ok(()) => {},
            Err(e) => {
                return Err(e);
            },
        }
        let result = self.complete_io();
        match result {
            Ok(_sq_head) => Ok(()),
            Err(e) => Err(e),
        }
    }

    /// Submit a Read and synchronously reap its completion, as `write`.
    #[verifier::rlimit(50)]
    #[verifier::spinoff_prover]
    pub fn read(&mut self, buffer: &mut Dma, logical_block_address: u64) -> (r: Result<(), Error>)
        requires
            old(self).wf(),
            1 <= old(self).namespace.block_size,
            1 <= old(buffer).size,
            old(buffer).size as int / old(self).namespace.block_size as int <= 0x10000,
            old(buffer).size + 2 * old(self).page_size <= usize::MAX,
            old(buffer).virtual_address + old(buffer).size <= usize::MAX,
        ensures
            *final(buffer) == *old(buffer),
            final(self).wf(),
            io_rw_post(*old(self), *final(self), *old(buffer), logical_block_address, r, false),
    {
        match self.submit_io(buffer, logical_block_address, false) {
            Ok(()) => {},
            Err(e) => {
                return Err(e);
            },
        }
        let result = self.complete_io();
        match result {
            Ok(_sq_head) => Ok(()),
            Err(e) => Err(e),
        }
    }
}

/// The value the command's second data pointer carries for a container:
/// zero when one page suffices, the second page, or the first chained list
/// page.
pub open spec fn spec_prp_2_value(c: PrpContainer) -> u64 {
    match c {
        PrpContainer::One(_) => 0u64,
        PrpContainer::Two(_, b) => b as u64,
        PrpContainer::Multiple(_, lists) => lists@[0].dma.physical_address as u64,
    }
}

/// The fields of a queue pair that no submission or completion ever moves.
pub open spec fn io_fields_fixed<A: Allocator>(pre: IoQueuePair<A>, post: IoQueuePair<A>) -> bool {
    &&& post.id == pre.id
    &&& post.page_size == pre.page_size
    &&& post.maximum_transfer_size == pre.maximum_transfer_size
    &&& post.namespace == pre.namespace
    &&& post.device_address == pre.device_address
    &&& post.doorbell_stride == pre.doorbell_stride
    &&& post.allocator == pre.allocator
    &&& post.submission.dma == pre.submission.dma
    &&& post.submission.doorbell == pre.submission.doorbell
    &&& post.submission.len == pre.submission.len
    &&& post.completion.dma == pre.completion.dma
    &&& post.completion.doorbell == pre.completion.doorbell
    &&& post.completion.len == pre.completion.len
}

/// Everything `allocate_buffer` guarantees: a zero request is refused, and a
/// granted buffer is page-aligned, nonzero on both addresses, and holds a
/// whole number of blocks no smaller than the request.
pub open spec fn allocate_buffer_post<A: Allocator>(
    pre: IoQueuePair<A>,
    number_of_bytes: usize,
    r: Result<Dma, Error>,
) -> bool {
    &&& ((number_of_bytes == 0) <==> r == Err::<Dma, Error>(Error::NumberOfElementsIsZero))
    &&& (r matches Ok(d) ==> {
        &&& d.size as int % pre.namespace.block_size as int == 0
        &&& number_of_bytes <= d.size < number_of_bytes + pre.namespace.block_size
        &&& d.virtual_address != 0
        &&& d.virtual_address as int % pre.page_size as int == 0
        &&& d.virtual_address as int % 4096 == 0
        &&& d.physical_address != 0
        &&& d.physical_address as int % 4096 == 0
        &&& d.virtual_address + d.size <= usize::MAX
    })
    &&& (r matches Err(e) ==> (e is NumberOfElementsIsZero || e is Allocate
        || e is TranslateVirtualToPhysical))
}

/// The Read or Write command a validated submission encodes, given the PRP2
/// value of its container: dwords 10 and 11 carry the logical block address,
/// dword 12 the 0-based block count, the data pointer PRP1 and PRP2.
pub open spec fn spec_io_command<A: Allocator>(
    pre: IoQueuePair<A>,
    prp_2: u64,
    buffer: Dma,
    logical_block_address: u64,
    write: bool,
) -> NvmeCommand {
    let blocks = buffer.size as int / pre.namespace.block_size as int;
    NvmeCommand {
        opcode: if write {
            1
        } else {
            2
        },
        flags: 0,
        command_id: pre.submission.tail as u16,
        namespace_id: pre.namespace.id.0,
        reserved: 0,
        metadata_pointer: 0,
        data_pointer: [buffer.physical_address as u64, prp_2],
        cdw10: logical_block_address as u32,
        cdw11: (logical_block_address >> 32u64) as u32,
        cdw12: ((blocks - 1) as u16) as u32,
        cdw13: 0,
        cdw14: 0,
        cdw15: 0,
    }
}

/// Everything `submit_write` and `submit_read` guarantee. A request that
/// fails validation changes nothing and names the offending value, and each
/// of the driver's own rejections comes exactly when its condition holds; a
/// buffer within one page makes no allocator call, so its outcome is owed: a
/// fresh command identifier succeeds and a collision is refused. A successful
/// submission records the PRP container under the command identifier and
/// posts the encoded command at the old tail.
pub open spec fn io_submit_post<A: Allocator>(
    pre: IoQueuePair<A>,
    post: IoQueuePair<A>,
    buffer: Dma,
    logical_block_address: u64,
    r: Result<(), Error>,
    write: bool,
) -> bool {
    let size = buffer.size;
    let mts = pre.maximum_transfer_size;
    let bs = pre.namespace.block_size;
    let virt = buffer.virtual_address as int;
    let span = spec_span(virt, size as int, pre.page_size as int);
    let cid = pre.submission.tail as u16;
    let size_valid = size <= mts && size as int % bs as int == 0;
    let aligned = virt % 4 == 0 && (span < 2 || virt % (pre.page_size as int) == 0);
    &&& ((size > mts) <==> r == Err::<(), Error>(
        Error::BufferLengthBiggerThanMaximumTransferSize(size, mts),
    ))
    &&& ((size <= mts && size as int % bs as int != 0) <==> r == Err::<(), Error>(
        Error::BufferLengthNotAMultipleOfNamespaceBlockSize(size, bs),
    ))
    &&& ((size_valid && virt % 4 != 0) <==> r == Err::<(), Error>(
        Error::VirtualAddressIsNotDwordAligned(buffer.virtual_address),
    ))
    &&& ((size_valid && virt % 4 == 0 && span >= 2 && virt % (pre.page_size as int) != 0) <==> r
        == Err::<(), Error>(Error::VirtualAddressIsNotPageAligned(buffer.virtual_address)))
    &&& (r matches Err(e) ==> (e is BufferLengthBiggerThanMaximumTransferSize
        || e is BufferLengthNotAMultipleOfNamespaceBlockSize || e is VirtualAddressIsNotDwordAligned
        || e is VirtualAddressIsNotPageAligned || e is Allocate || e is TranslateVirtualToPhysical
        || e is Deallocate || e is PrpContainerAlreadyExists))
    &&& (r matches Err(e) ==> (e is PrpContainerAlreadyExists ==> e
        == Error::PrpContainerAlreadyExists(cid) && size_valid && aligned
        && pre.spec_contains_container(cid)))
    &&& (r matches Err(e) ==> ((e is Allocate || e is TranslateVirtualToPhysical
        || e is Deallocate) ==> size_valid && aligned && span >= 2))
    &&& (size_valid && aligned && span == 1 && pre.spec_contains_container(cid) ==> r == Err::<
        (),
        Error,
    >(Error::PrpContainerAlreadyExists(cid)))
    &&& (size_valid && aligned && span == 1 && !pre.spec_contains_container(cid) ==> r is Ok)
    &&& (r matches Err(e) ==> post == pre)
    &&& (r is Ok ==> {
        let stored = post.prp_containers@.last();
        &&& size_valid && aligned
        &&& !pre.spec_contains_container(cid)
        &&& post.prp_containers@.len() == pre.prp_containers@.len() + 1
        &&& stored.0 == cid
        &&& allocate_post(stored.1, buffer, pre.page_size as int)
        &&& post.prp_containers@ == pre.prp_containers@.push(stored)
        &&& post.spec_contains_container(cid)
        &&& post.submission.slots@ == pre.submission.slots@.update(
            pre.submission.tail as int,
            spec_io_command(pre, spec_prp_2_value(stored.1), buffer, logical_block_address, write),
        )
        &&& post.submission.tail as int == (pre.submission.tail as int + 1) % (
        pre.submission.len as int)
        &&& post.submission.head == pre.submission.head
        &&& post.completion == pre.completion
        &&& io_fields_fixed(pre, post)
    })
}

/// Everything the synchronous `write` and `read` guarantee: each validation
/// failure comes exactly when its condition holds and leaves the pair
/// untouched; a collision on the current command identifier leaves the pair
/// untouched; "no completion pending" and a device-reported status failure
/// name their effects; a one-page buffer on a fresh command identifier with
/// its own zero-status completion pending is owed success; and a success
/// means the command stood at the old tail and its completion was reaped with
/// status zero.
pub open spec fn io_rw_post<A: Allocator>(
    pre: IoQueuePair<A>,
    post: IoQueuePair<A>,
    buffer: Dma,
    logical_block_address: u64,
    r: Result<(), Error>,
    write: bool,
) -> bool {
    let size = buffer.size;
    let mts = pre.maximum_transfer_size;
    let bs = pre.namespace.block_size;
    let virt = buffer.virtual_address as int;
    let span = spec_span(virt, size as int, pre.page_size as int);
    let cid = pre.submission.tail as u16;
    let size_valid = size <= mts && size as int % bs as int == 0;
    let aligned = virt % 4 == 0 && (span < 2 || virt % (pre.page_size as int) == 0);
    let entry = pre.completion.slots@[pre.completion.head as int];
    &&& ((size > mts) <==> r == Err::<(), Error>(
        Error::BufferLengthBiggerThanMaximumTransferSize(size, mts),
    ))
    &&& ((size <= mts && size as int % bs as int != 0) <==> r == Err::<(), Error>(
        Error::BufferLengthNotAMultipleOfNamespaceBlockSize(size, bs),
    ))
    &&& ((size_valid && virt % 4 != 0) <==> r == Err::<(), Error>(
        Error::VirtualAddressIsNotDwordAligned(buffer.virtual_address),
    ))
    &&& ((size_valid && virt % 4 == 0 && span >= 2 && virt % (pre.page_size as int) != 0) <==> r
        == Err::<(), Error>(Error::VirtualAddressIsNotPageAligned(buffer.virtual_address)))
    &&& (r matches Err(e) ==> (e is BufferLengthBiggerThanMaximumTransferSize
        || e is BufferLengthNotAMultipleOfNamespaceBlockSize || e is VirtualAddressIsNotDwordAligned
        || e is VirtualAddressIsNotPageAligned || e is Allocate || e is TranslateVirtualToPhysical
        || e is Deallocate || e is PrpContainerAlreadyExists
        || e is CompletionQueueCompletionFailure || e is IoCompletionQueueFailure))
    &&& (r matches Err(e) ==> (e is PrpContainerAlreadyExists ==> e
        == Error::PrpContainerAlreadyExists(cid) && pre.spec_contains_container(cid) && post
        == pre))
    // No completion was pending: the command stands submitted, nothing reaped.
    &&& (r == Err::<(), Error>(Error::CompletionQueueCompletionFailure) ==> {
        &&& !phase_matches(entry.status, pre.completion.phase)
        &&& post.submission.tail as int == (pre.submission.tail as int + 1) % (
        pre.submission.len as int)
        &&& post.completion == pre.completion
        &&& post.spec_contains_container(cid)
        &&& io_fields_fixed(pre, post)
    })
    // The device reported a failure: the completion was reaped and the
    // container under the reported command identifier released.
    &&& (r matches Err(e) ==> (e is IoCompletionQueueFailure ==> {
        &&& phase_matches(entry.status, pre.completion.phase)
        &&& e == Error::IoCompletionQueueFailure(entry.status >> 1u16)
        &&& entry.status >> 1u16 != 0
        &&& post.submission.tail as int == (pre.submission.tail as int + 1) % (
        pre.submission.len as int)
        &&& (post.completion.head as int, post.completion.phase) == ring_step(
            pre.completion.head as int,
            pre.completion.phase,
            pre.completion.len as int,
        )
        &&& post.completion.slots == pre.completion.slots
        &&& !post.spec_contains_container(entry.command_id)
        &&& io_fields_fixed(pre, post)
    }))
    // A one-page buffer on a fresh command identifier makes no allocator
    // call, and the device echoing it with a zero status owes success.
    &&& (size_valid && aligned && span == 1 && !pre.spec_contains_container(cid) && phase_matches(
        entry.status,
        pre.completion.phase,
    ) && entry.status >> 1u16 == 0 && entry.command_id == cid ==> r is Ok)
    // ... and a device-reported failure on that path owes exactly its error.
    &&& (size_valid && aligned && span == 1 && !pre.spec_contains_container(cid) && phase_matches(
        entry.status,
        pre.completion.phase,
    ) && entry.status >> 1u16 != 0 && entry.command_id == cid ==> r == Err::<(), Error>(
        Error::IoCompletionQueueFailure(entry.status >> 1u16),
    ))
    &&& (r is Ok ==> {
        let cmd = post.submission.slots@[pre.submission.tail as int];
        &&& size_valid && aligned
        &&& phase_matches(entry.status, pre.completion.phase)
        &&& entry.status >> 1u16 == 0
        &&& post.submission.slots@ == pre.submission.slots@.update(
            pre.submission.tail as int,
            cmd,
        )
        &&& cmd.opcode == (if write {
            1u8
        } else {
            2u8
        })
        &&& cmd.command_id == pre.submission.tail as u16
        &&& cmd.namespace_id == pre.namespace.id.0
        &&& cmd.data_pointer[0] == buffer.physical_address as u64
        &&& cmd.cdw10 == logical_block_address as u32
        &&& cmd.cdw11 == (logical_block_address >> 32u64) as u32
        &&& cmd.cdw12 == ((buffer.size as int / pre.namespace.block_size as int - 1) as u16) as u32
        &&& post.submission.tail as int == (pre.submission.tail as int + 1) % (
        pre.submission.len as int)
        &&& (post.completion.head as int, post.completion.phase) == ring_step(
            pre.completion.head as int,
            pre.completion.phase,
            pre.completion.len as int,
        )
        &&& post.completion.slots == pre.completion.slots
        &&& post.submission.head as int == entry.sq_head as int % (pre.submission.len as int)
        &&& !post.spec_contains_container(entry.command_id)
        &&& io_fields_fixed(pre, post)
    })
}

} // verus!
