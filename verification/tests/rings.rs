use std::cell::Cell;

use nvme_driver::cmd::NvmeCommand;
use nvme_driver::queues::{CompletionQueue, CompletionQueueEntry, SubmissionQueue};
use nvme_driver::{Allocator, Error};

struct BumpAllocator {
    next: Cell<usize>,
}

impl BumpAllocator {
    fn new() -> Self {
        BumpAllocator { next: Cell::new(0x10_0000) }
    }
}

impl Allocator for BumpAllocator {
    fn allocate(&self, size: usize, alignment: usize) -> Result<usize, String> {
        let base = self.next.get();
        let aligned = (base + alignment - 1) / alignment * alignment;
        self.next.set(aligned + size.max(1));
        Ok(aligned)
    }

    fn deallocate(&self, _virtual_address: usize, _size: usize) -> Result<(), String> {
        Ok(())
    }

    fn translate_virtual_to_physical(&self, virtual_address: usize) -> Result<usize, String> {
        Ok(virtual_address + 0x10_0000_0000)
    }
}

fn entry_with_phase(phase: bool) -> CompletionQueueEntry {
    let mut e = CompletionQueueEntry::zeroed();
    e.status = if phase { 1 } else { 0 };
    e
}

#[test]
fn fresh_submission_queue_is_empty_not_full() {
    let allocator = BumpAllocator::new();
    let q = SubmissionQueue::new(4, 4096, 0, &allocator).unwrap();
    assert!(q.is_empty());
    assert!(!q.is_full());
    assert_eq!(q.head, 0);
    assert_eq!(q.tail, 0);
}

#[test]
fn submit_advances_and_wraps_tail() {
    let allocator = BumpAllocator::new();
    let mut q = SubmissionQueue::new(4, 4096, 0, &allocator).unwrap();
    let cmd = NvmeCommand::identify_controller(0, 0x1000);
    assert_eq!(q.submit(cmd), 1);
    assert_eq!(q.submit(cmd), 2);
    assert_eq!(q.submit(cmd), 3);
    assert_eq!(q.submit(cmd), 0);
    assert_eq!(q.get_slot(2).opcode, 6);
}

#[test]
fn submit_checked_refuses_full_ring() {
    let allocator = BumpAllocator::new();
    let mut q = SubmissionQueue::new(2, 4096, 0, &allocator).unwrap();
    let cmd = NvmeCommand::identify_controller(0, 0x1000);
    assert!(q.submit_checked(cmd).is_ok());
    assert!(q.is_full());
    assert!(matches!(q.submit_checked(cmd), Err(Error::SubmissionQueueFull)));
    // A ring never reports both empty and full.
    assert!(!(q.is_empty() && q.is_full()));
}

#[test]
fn complete_without_pending_entry_fails() {
    let allocator = BumpAllocator::new();
    let mut q = CompletionQueue::new(4, 4096, 0, &allocator).unwrap();
    assert!(matches!(q.complete(), Err(Error::CompletionQueueCompletionFailure)));
    assert_eq!(q.head, 0);
    assert!(q.phase);
}

#[test]
fn complete_reaps_a_posted_entry() {
    let allocator = BumpAllocator::new();
    let mut q = CompletionQueue::new(4, 4096, 0, &allocator).unwrap();
    let mut e = entry_with_phase(true);
    e.command_id = 3;
    q.set_slot(0, e);
    let (new_head, entry, prev) = q.complete().unwrap();
    assert_eq!(new_head, 1);
    assert_eq!(prev, 0);
    assert_eq!(entry.command_id, 3);
    assert!(q.phase);
}

#[test]
fn phase_toggles_once_after_a_full_lap() {
    let allocator = BumpAllocator::new();
    let n = 4;
    let mut q = CompletionQueue::new(n, 4096, 0, &allocator).unwrap();
    assert!(q.phase);
    for i in 0..n {
        q.set_slot(i, entry_with_phase(true));
        let (_, _, prev) = q.complete().unwrap();
        assert_eq!(prev, i);
    }
    // After exactly n successful completions the head is back at 0 and the
    // expected phase has toggled exactly once.
    assert_eq!(q.head, 0);
    assert!(!q.phase);
    // The second lap completes against the toggled phase.
    q.set_slot(0, entry_with_phase(false));
    let (new_head, _, prev) = q.complete().unwrap();
    assert_eq!((new_head, prev), (1, 0));
    // A stale first-lap entry no longer matches.
    q.set_slot(1, entry_with_phase(true));
    assert!(q.complete().is_err());
}

#[test]
fn complete_n_skips_to_the_last_of_a_batch() {
    let allocator = BumpAllocator::new();
    let mut q = CompletionQueue::new(4, 4096, 0, &allocator).unwrap();
    for i in 0..3 {
        let mut e = entry_with_phase(true);
        e.command_id = i as u16;
        q.set_slot(i, e);
    }
    let (new_head, entry, prev) = q.complete_n(3);
    assert_eq!(prev, 0);
    assert_eq!(new_head, 3);
    assert_eq!(entry.command_id, 2);
}
