use std::cell::Cell;
use std::collections::HashMap;

use nvme_driver::cmd::NvmeCommand;
use nvme_driver::nvme::{parse_identify_namespace, NvmeDevice};
use nvme_driver::queue_pairs::AdminQueuePair;
use nvme_driver::queues::{CompletionQueue, CompletionQueueEntry, SubmissionQueue};
use nvme_driver::{Allocator, Dma, Error, NamespaceId};

const PAGE: usize = 4096;
const PHYS_OFFSET: usize = 0x10_0000_0000;

struct BumpAllocator {
    next: Cell<usize>,
}

impl BumpAllocator {
    fn new() -> Self {
        BumpAllocator { next: Cell::new(0x10_0000) }
    }
}

impl Allocator for BumpAllocator {
    fn allocate(&self, size: usize, alignment: usize) -> Result<usize, String> {
        let base = self.next.get();
        let aligned = (base + alignment - 1) / alignment * alignment;
        self.next.set(aligned + size.max(1));
        Ok(aligned)
    }

    fn deallocate(&self, _virtual_address: usize, _size: usize) -> Result<(), String> {
        Ok(())
    }

    fn translate_virtual_to_physical(&self, virtual_address: usize) -> Result<usize, String> {
        Ok(virtual_address + PHYS_OFFSET)
    }
}

/// CAP with MQES = 31 (capacity 32), DSTRD = 0, the NVM command set
/// supported, and MPSMIN = MPSMAX = 4 KiB.
fn cap_value() -> u64 {
    31 | (1u64 << 37)
}

fn identify_controller_data() -> Vec<u8> {
    let mut data = vec![0u8; 4096];
    data[0..2].copy_from_slice(&0x1B36u16.to_le_bytes()); // VID
    data[2..4].copy_from_slice(&0x1AF4u16.to_le_bytes()); // SSVID
    data[4..24].copy_from_slice(b"  unit sn 42      \0\0"); // SN
    data[24..32].copy_from_slice(b"model x\0"); // MN, NUL-terminated
    data[64..72].copy_from_slice(b"1.0     "); // FR, space-padded
    data[77] = 5; // MDTS: 4 KiB << 5 = 128 KiB
    data[78..80].copy_from_slice(&7u16.to_le_bytes()); // CNTLID
    data[80..84].copy_from_slice(&0x0001_0400u32.to_le_bytes()); // VER
    data[111] = 1; // CNTRLTYPE: I/O controller
    data
}

fn identify_namespace_data() -> Vec<u8> {
    let mut data = vec![0u8; 4096];
    data[8..16].copy_from_slice(&2048u64.to_le_bytes()); // NCAP
    data[26] = 0; // FLBAS: format 0
    data[128..132].copy_from_slice(&(9u32 << 16).to_le_bytes()); // LBAF0: LBADS 9
    data
}

/// The admin rings (at the controller's capacity of 32) and the one-page
/// scratch buffer a device is assembled with.
fn admin_parts<A: Allocator>(allocator: &A) -> (AdminQueuePair, Dma) {
    let submission = SubmissionQueue::new(32, PAGE, 0, allocator).unwrap();
    let completion = CompletionQueue::new(32, PAGE, 0, allocator).unwrap();
    let buffer = Dma::allocate(PAGE, PAGE, allocator).unwrap();
    (AdminQueuePair { submission, completion }, buffer)
}

fn make_device() -> NvmeDevice<BumpAllocator> {
    let namespace = parse_identify_namespace(&identify_namespace_data(), NamespaceId(1));
    assert_eq!(namespace.block_size, 512);
    assert_eq!(namespace.blocks, 2048);
    let allocator = BumpAllocator::new();
    let (admin_queue_pair, buffer) = admin_parts(&allocator);
    NvmeDevice::new(
        0x1000_0000,
        0x2000,
        PAGE,
        allocator,
        cap_value(),
        admin_queue_pair,
        buffer,
        &identify_controller_data(),
        4 | (4u32 << 16), // 4 submission and 4 completion queues granted
        vec![namespace],
    )
    .unwrap()
}

fn success_entry(phase: bool) -> CompletionQueueEntry {
    let mut e = CompletionQueueEntry::zeroed();
    e.status = if phase { 1 } else { 0 };
    e
}

/// Post `count` successful admin completions, continuing at `next_slot`.
fn post_admin(device: &mut NvmeDevice<BumpAllocator>, next_slot: &mut usize, count: usize) {
    for _ in 0..count {
        device.post_admin_completion(*next_slot, success_entry(true));
        *next_slot += 1;
    }
}

#[test]
fn init_reports_controller_information() {
    let device = make_device();
    let info = device.controller_information();
    assert_eq!(info.maximum_queue_entries_supported, 32);
    assert_eq!(info.maximum_transfer_size, 128 * 1024);
    assert_eq!(info.memory_page_size, PAGE);
    assert_eq!(info.minimum_memory_page_size, 4096);
    assert_eq!(info.maximum_memory_page_size, 4096);
    assert_eq!(info.maximum_number_of_io_queue_pairs, 4);
    assert_eq!(info.pci_vendor_id, 0x1B36);
    assert_eq!(info.pci_subsystem_vendor_id, 0x1AF4);
    assert_eq!(info.serial_number, "unit sn 42");
    assert_eq!(info.model_number, "model x");
    assert_eq!(info.firmware_revision, "1.0");
    assert_eq!(info.controller_id, 7);
    assert_eq!(info.version, 0x0001_0400);
    assert_eq!(device.namespace_ids(), vec![NamespaceId(1)]);
    assert_eq!(device.namespace(&NamespaceId(1)).unwrap().block_size, 512);
    assert!(matches!(
        device.namespace(&NamespaceId(9)),
        Err(Error::NamespaceDoesNotExist(NamespaceId(9)))
    ));
    // No admin command has been issued yet.
    assert_eq!(device.admin_queue_pair.submission.tail, 0);
}

#[test]
fn one_admin_command_advances_the_tail_once() {
    let mut device = make_device();
    let mut slot = 0;
    post_admin(&mut device, &mut slot, 1);
    let scratch = device.buffer.physical_address;
    let entry = device
        .submit_and_complete_admin(NvmeCommand::identify_controller(0, scratch))
        .unwrap();
    assert_eq!(entry.status >> 1, 0);
    // Exactly one admin command stands in the ring.
    assert_eq!(device.admin_queue_pair.submission.tail, 1);
    let cmd = device.admin_queue_pair.submission.get_slot(0);
    assert_eq!(cmd.opcode, 6);
    assert_eq!(cmd.cdw10, 1);
    assert_eq!(cmd.command_id, 0);
    assert_eq!(device.admin_queue_pair.completion.head, 1);
}

fn device_with(cap: u64, page_size: usize, data: &[u8]) -> Result<NvmeDevice<BumpAllocator>, Error> {
    let allocator = BumpAllocator::new();
    let (admin_queue_pair, buffer) = admin_parts(&allocator);
    NvmeDevice::new(
        0,
        0x2000,
        page_size,
        allocator,
        cap,
        admin_queue_pair,
        buffer,
        data,
        0,
        Vec::new(),
    )
}

#[test]
fn init_validation_errors() {
    let data = identify_controller_data();
    // MQES 0: capacity 1.
    let r = device_with(1u64 << 37, PAGE, &data);
    assert!(matches!(r, Err(Error::MaximumQueueEntriesSupportedInvalidlyZero)));
    // No NVM command set.
    let r = device_with(31, PAGE, &data);
    assert!(matches!(r, Err(Error::NvmCommandSetNotSupported)));
    // MPSMIN (8 KiB) above MPSMAX (4 KiB); the error carries both values.
    let r = device_with(31 | (1u64 << 37) | (1u64 << 48), PAGE, &data);
    assert!(matches!(r, Err(Error::MemoryPageSizeMinimumBiggerThanMaximum(8192, 4096))));
    // Page size below the NVMe minimum.
    let r = device_with(cap_value(), 2048, &data);
    assert!(matches!(r, Err(Error::PageSizeLessThanNvmeMinimum(2048))));
    // Page size above the NVMe maximum.
    let r = device_with(cap_value(), 1 << 29, &data);
    assert!(matches!(r, Err(Error::PageSizeMoreThanNvmeMaximum(_))));
    // Page size above the controller maximum (here 4 KiB).
    let r = device_with(cap_value(), 8192, &data);
    assert!(matches!(r, Err(Error::PageSizeMoreThanControllerMaximum(8192, 4096))));
    // Page size below the controller minimum (8 KiB to 16 KiB range).
    let r = device_with(31 | (1u64 << 37) | (1u64 << 48) | (2u64 << 52), PAGE, &data);
    assert!(matches!(r, Err(Error::PageSizeLessThanControllerMinimum(_, 8192))));
    // Not an I/O controller.
    let mut bad = identify_controller_data();
    bad[111] = 2;
    let r = device_with(cap_value(), PAGE, &bad);
    assert!(matches!(r, Err(Error::ControllerTypeInvalid(_))));
}

#[test]
fn allocator_failure_surfaces() {
    struct NoMemory;

    impl Allocator for NoMemory {
        fn allocate(&self, _size: usize, _alignment: usize) -> Result<usize, String> {
            Err(String::from("out of huge pages"))
        }

        fn deallocate(&self, _virtual_address: usize, _size: usize) -> Result<(), String> {
            Ok(())
        }

        fn translate_virtual_to_physical(&self, va: usize) -> Result<usize, String> {
            Ok(va)
        }
    }

    let r = SubmissionQueue::new(32, PAGE, 0, &NoMemory);
    assert!(matches!(r, Err(Error::Allocate(_))));
}

#[test]
fn queue_entry_count_boundaries() {
    let mut device = make_device();
    let mut slot = 0;
    // 1 entry is refused without touching the device.
    let r = device.create_io_queue_pair(&NamespaceId(1), 1);
    assert!(matches!(r, Err(Error::NumberOfQueueEntriesLessThanTwo(1))));
    // MQES + 2 = 34 exceeds the supported 32.
    let r = device.create_io_queue_pair(&NamespaceId(1), 34);
    assert!(matches!(r, Err(Error::NumberOfQueueEntriesMoreThanMaximum(34, 32))));
    assert_eq!(device.admin_queue_pair.submission.tail, 0);
    // 2 entries succeed.
    post_admin(&mut device, &mut slot, 2);
    let qp = device.create_io_queue_pair(&NamespaceId(1), 2).unwrap();
    assert_eq!(qp.id().0, 1);
    // An unknown namespace is refused.
    let r = device.create_io_queue_pair(&NamespaceId(9), 2);
    assert!(matches!(r, Err(Error::NamespaceDoesNotExist(NamespaceId(9)))));
}

#[test]
fn create_issues_create_cq_then_create_sq() {
    let mut device = make_device();
    let mut slot = 0;
    post_admin(&mut device, &mut slot, 2);
    let qp = device.create_io_queue_pair(&NamespaceId(1), 8).unwrap();
    assert_eq!(device.admin_queue_pair.submission.tail, 2);
    let create_cq = device.admin_queue_pair.submission.get_slot(0);
    assert_eq!(create_cq.opcode, 5);
    assert_eq!(create_cq.cdw10, (7u32 << 16) | 1);
    assert_eq!(create_cq.cdw11, 1);
    assert_eq!(create_cq.data_pointer[0], qp.completion.dma.physical_address as u64);
    let create_sq = device.admin_queue_pair.submission.get_slot(1);
    assert_eq!(create_sq.opcode, 1);
    assert_eq!(create_sq.cdw10, (7u32 << 16) | 1);
    assert_eq!(create_sq.cdw11, (1u32 << 16) | 1);
    assert_eq!(create_sq.data_pointer[0], qp.submission.dma.physical_address as u64);
    // Doorbells with stride 0: SQ1TDBL at 0x1008, CQ1HDBL at 0x100C.
    assert_eq!(qp.submission.doorbell, 0x1000_0000 + 0x1008);
    assert_eq!(qp.completion.doorbell, 0x1000_0000 + 0x100C);
}

#[test]
fn lowest_free_identifier_is_reused() {
    let mut device = make_device();
    let mut slot = 0;
    post_admin(&mut device, &mut slot, 2);
    let qp1 = device.create_io_queue_pair(&NamespaceId(1), 8).unwrap();
    post_admin(&mut device, &mut slot, 2);
    let qp2 = device.create_io_queue_pair(&NamespaceId(1), 8).unwrap();
    assert_eq!(qp1.id().0, 1);
    assert_eq!(qp2.id().0, 2);
    post_admin(&mut device, &mut slot, 2);
    device.delete_io_queue_pair(qp1).unwrap();
    // Deleting issued Delete SQ (opcode 0) then Delete CQ (opcode 4).
    let delete_sq = device.admin_queue_pair.submission.get_slot(4);
    assert_eq!(delete_sq.opcode, 0);
    assert_eq!(delete_sq.cdw10, 1);
    let delete_cq = device.admin_queue_pair.submission.get_slot(5);
    assert_eq!(delete_cq.opcode, 4);
    assert_eq!(delete_cq.cdw10, 1);
    post_admin(&mut device, &mut slot, 2);
    let qp3 = device.create_io_queue_pair(&NamespaceId(1), 8).unwrap();
    assert_eq!(qp3.id().0, 1);
}

#[test]
fn all_identifiers_taken_is_refused() {
    let mut device = make_device();
    let mut slot = 0;
    let mut pairs = Vec::new();
    for expected in 1..=4u16 {
        post_admin(&mut device, &mut slot, 2);
        let qp = device.create_io_queue_pair(&NamespaceId(1), 4).unwrap();
        assert_eq!(qp.id().0, expected);
        pairs.push(qp);
    }
    let r = device.create_io_queue_pair(&NamespaceId(1), 4);
    assert!(matches!(r, Err(Error::MaximumNumberOfQueuesReached)));
}

#[test]
fn deleting_a_foreign_queue_pair_is_refused() {
    let mut donor = make_device();
    let mut slot = 0;
    post_admin(&mut donor, &mut slot, 2);
    let qp = donor.create_io_queue_pair(&NamespaceId(1), 4).unwrap();
    let mut device = make_device();
    let r = device.delete_io_queue_pair(qp);
    assert!(matches!(r, Err(Error::IoQueuePairDoesNotExist(id)) if id.0 == 1));
}

#[test]
fn write_then_read_round_trip() {
    let mut device = make_device();
    let mut slot = 0;
    post_admin(&mut device, &mut slot, 2);
    let mut qp = device.create_io_queue_pair(&NamespaceId(1), 8).unwrap();

    // Host memory and disk as the simulated controller sees them.
    let mut host_memory: HashMap<usize, Vec<u8>> = HashMap::new();
    let mut disk: HashMap<u64, Vec<u8>> = HashMap::new();

    let buf = qp.allocate_buffer(13).unwrap();
    assert_eq!(buf.size, 512); // rounded up to one block
    let mut payload = vec![0u8; 512];
    payload[..13].copy_from_slice(b"Hello, world!");
    host_memory.insert(buf.virtual_address, payload);

    qp.submit_write(&buf, 0).unwrap();
    assert_eq!(qp.submission.tail, 1);
    // The simulated controller consumes the command.
    let cmd = qp.submission.get_slot(0);
    assert_eq!(cmd.opcode, 1);
    let lba = cmd.cdw10 as u64 | ((cmd.cdw11 as u64) << 32);
    assert_eq!(cmd.cdw12, 0); // one block, 0-based
    let virt = cmd.data_pointer[0] as usize - PHYS_OFFSET;
    let bytes = host_memory.get(&virt).unwrap().clone();
    disk.insert(lba, bytes);
    let mut e = success_entry(true);
    e.command_id = cmd.command_id;
    e.sq_head = 1;
    qp.completion.set_slot(0, e);
    assert_eq!(qp.complete_io().unwrap(), 1);

    let mut read_buf = qp.allocate_buffer(512).unwrap();
    host_memory.insert(read_buf.virtual_address, vec![0u8; 512]);
    qp.submit_read(&mut read_buf, 0).unwrap();
    assert_eq!(qp.submission.tail, 2);
    let cmd = qp.submission.get_slot(1);
    assert_eq!(cmd.opcode, 2);
    let lba = cmd.cdw10 as u64 | ((cmd.cdw11 as u64) << 32);
    let virt = cmd.data_pointer[0] as usize - PHYS_OFFSET;
    let stored = disk.get(&lba).unwrap().clone();
    host_memory.insert(virt, stored);
    let mut e = success_entry(true);
    e.command_id = cmd.command_id;
    e.sq_head = 2;
    qp.completion.set_slot(1, e);
    assert_eq!(qp.complete_io().unwrap(), 2);

    // The bytes written at LBA 0 come back identically.
    let read_back = host_memory.get(&read_buf.virtual_address).unwrap();
    assert_eq!(&read_back[..13], b"Hello, world!");
    assert_eq!(read_back.len(), 512);
    // SQ tail advanced twice, CQ head advanced twice, phase still initial.
    assert_eq!(qp.submission.tail, 2);
    assert_eq!(qp.completion.head, 2);
    assert!(qp.completion.phase);
    assert!(qp.prp_containers.is_empty());

    post_admin(&mut device, &mut slot, 2);
    device.delete_io_queue_pair(qp).unwrap();
    device.shutdown().unwrap();
}

#[test]
fn transfer_size_boundaries() {
    let mut device = make_device();
    let mut slot = 0;
    post_admin(&mut device, &mut slot, 2);
    let mut qp = device.create_io_queue_pair(&NamespaceId(1), 8).unwrap();
    let mts = 128 * 1024;
    // Exactly the maximum transfer size is accepted.
    let buf = Dma {
        virtual_address: 0x100_0000,
        physical_address: 0x100_0000 + PHYS_OFFSET,
        size: mts,
    };
    qp.submit_write(&buf, 0).unwrap();
    // One byte more is refused with the transfer-size error.
    let buf = Dma {
        virtual_address: 0x200_0000,
        physical_address: 0x200_0000 + PHYS_OFFSET,
        size: mts + 1,
    };
    match qp.submit_write(&buf, 0) {
        Err(Error::BufferLengthBiggerThanMaximumTransferSize(got, limit)) => {
            assert_eq!(got, mts + 1);
            assert_eq!(limit, mts);
        },
        other => panic!("expected transfer-size error, got {:?}", other),
    }
}

#[test]
fn block_size_boundaries() {
    let mut device = make_device();
    let mut slot = 0;
    post_admin(&mut device, &mut slot, 2);
    let mut qp = device.create_io_queue_pair(&NamespaceId(1), 8).unwrap();
    // One whole block is accepted.
    let buf = Dma {
        virtual_address: 0x100_0000,
        physical_address: 0x100_0000 + PHYS_OFFSET,
        size: 512,
    };
    qp.submit_write(&buf, 0).unwrap();
    // One byte less is refused with the block-size error.
    let buf = Dma {
        virtual_address: 0x200_0000,
        physical_address: 0x200_0000 + PHYS_OFFSET,
        size: 511,
    };
    match qp.submit_write(&buf, 0) {
        Err(Error::BufferLengthNotAMultipleOfNamespaceBlockSize(got, block)) => {
            assert_eq!(got, 511);
            assert_eq!(block, 512);
        },
        other => panic!("expected block-size error, got {:?}", other),
    }
}

#[test]
fn unaligned_buffer_does_not_advance_the_queue() {
    let mut device = make_device();
    let mut slot = 0;
    post_admin(&mut device, &mut slot, 2);
    let mut qp = device.create_io_queue_pair(&NamespaceId(1), 8).unwrap();
    let buf = Dma {
        virtual_address: 0x100_0002,
        physical_address: 0x100_0002 + PHYS_OFFSET,
        size: 512,
    };
    match qp.submit_write(&buf, 0) {
        Err(Error::VirtualAddressIsNotDwordAligned(a)) => assert_eq!(a, 0x100_0002),
        other => panic!("expected alignment error, got {:?}", other),
    }
    assert_eq!(qp.submission.tail, 0);
    assert!(qp.prp_containers.is_empty());
}

#[test]
fn prp_variants_for_8k_and_16k_writes() {
    let mut device = make_device();
    let mut slot = 0;
    post_admin(&mut device, &mut slot, 2);
    let mut qp = device.create_io_queue_pair(&NamespaceId(1), 8).unwrap();
    let buf = Dma {
        virtual_address: 0x100_0000,
        physical_address: 0x100_0000 + PHYS_OFFSET,
        size: 8 * 1024,
    };
    qp.submit_write(&buf, 0).unwrap();
    match &qp.prp_containers[0].1 {
        nvme_driver::prp::PrpContainer::Two(_, _) => {},
        other => panic!("expected Two for 8 KiB, got {:?}", other),
    }
    let buf = Dma {
        virtual_address: 0x200_0000,
        physical_address: 0x200_0000 + PHYS_OFFSET,
        size: 16 * 1024,
    };
    qp.submit_write(&buf, 8).unwrap();
    match &qp.prp_containers[1].1 {
        nvme_driver::prp::PrpContainer::Multiple(_, lists) => {
            assert_eq!(lists.len(), 1);
            let entries = &lists[0].entries;
            // Three payload entries, none of them a chain pointer.
            assert!(entries[..3].iter().all(|&e| e != 0));
            assert!(entries[3..].iter().all(|&e| e == 0));
        },
        other => panic!("expected Multiple for 16 KiB, got {:?}", other),
    }
}

#[test]
fn device_status_error_releases_the_container() {
    let mut device = make_device();
    let mut slot = 0;
    post_admin(&mut device, &mut slot, 2);
    let mut qp = device.create_io_queue_pair(&NamespaceId(1), 8).unwrap();
    let buf = Dma {
        virtual_address: 0x100_0000,
        physical_address: 0x100_0000 + PHYS_OFFSET,
        size: 512,
    };
    qp.submit_write(&buf, 0).unwrap();
    assert_eq!(qp.prp_containers.len(), 1);
    // The controller reports status 0x0181 (invalid field; phase bit set).
    let mut e = CompletionQueueEntry::zeroed();
    e.status = 0x0181;
    e.command_id = 0;
    e.sq_head = 1;
    qp.completion.set_slot(0, e);
    match qp.complete_io() {
        Err(Error::IoCompletionQueueFailure(status)) => assert_eq!(status, 0x0181 >> 1),
        other => panic!("expected status failure, got {:?}", other),
    }
    // The pending PRP container was still released.
    assert!(qp.prp_containers.is_empty());
}

#[test]
fn wrapped_queue_with_outstanding_command_is_refused() {
    let mut device = make_device();
    let mut slot = 0;
    post_admin(&mut device, &mut slot, 2);
    let mut qp = device.create_io_queue_pair(&NamespaceId(1), 2).unwrap();
    let buf = Dma {
        virtual_address: 0x100_0000,
        physical_address: 0x100_0000 + PHYS_OFFSET,
        size: 512,
    };
    qp.submit_write(&buf, 0).unwrap(); // command id 0
    qp.submit_write(&buf, 1).unwrap(); // command id 1
    // The tail has wrapped to 0 while command 0 is still outstanding.
    match qp.submit_write(&buf, 2) {
        Err(Error::PrpContainerAlreadyExists(0)) => {},
        other => panic!("expected container collision, got {:?}", other),
    }
}

#[test]
fn allocate_buffer_rejects_zero_elements() {
    let mut device = make_device();
    let mut slot = 0;
    post_admin(&mut device, &mut slot, 2);
    let qp = device.create_io_queue_pair(&NamespaceId(1), 8).unwrap();
    assert!(matches!(qp.allocate_buffer(0), Err(Error::NumberOfElementsIsZero)));
    let buf = qp.allocate_buffer(513).unwrap();
    assert_eq!(buf.size, 1024);
    qp.deallocate_buffer(buf).unwrap();
}

#[test]
fn clear_namespace_issues_format() {
    let mut device = make_device();
    let mut slot = 0;
    post_admin(&mut device, &mut slot, 1);
    device.clear_namespace(Some(NamespaceId(1))).unwrap();
    let cmd = device.admin_queue_pair.submission.get_slot(0);
    assert_eq!(cmd.opcode, 0x80);
    assert_eq!(cmd.namespace_id, 1);
    assert_eq!(cmd.cdw10, 1 << 9);
    post_admin(&mut device, &mut slot, 1);
    device.clear_namespace(None).unwrap();
    let cmd = device.admin_queue_pair.submission.get_slot(1);
    assert_eq!(cmd.namespace_id, 0xFFFF_FFFF);
}

#[test]
fn failing_deallocation_surfaces_on_shutdown() {
    struct NoFree {
        next: Cell<usize>,
    }

    impl Allocator for NoFree {
        fn allocate(&self, size: usize, alignment: usize) -> Result<usize, String> {
            let base = self.next.get();
            let aligned = (base + alignment - 1) / alignment * alignment;
            self.next.set(aligned + size.max(1));
            Ok(aligned)
        }

        fn deallocate(&self, _virtual_address: usize, _size: usize) -> Result<(), String> {
            Err(String::from("pinned"))
        }

        fn translate_virtual_to_physical(&self, va: usize) -> Result<usize, String> {
            Ok(va + PHYS_OFFSET)
        }
    }

    let namespace = parse_identify_namespace(&identify_namespace_data(), NamespaceId(1));
    let allocator = NoFree { next: Cell::new(0x10_0000) };
    let submission = SubmissionQueue::new(32, PAGE, 0, &allocator).unwrap();
    let completion = CompletionQueue::new(32, PAGE, 0, &allocator).unwrap();
    let buffer = Dma::allocate(PAGE, PAGE, &allocator).unwrap();
    let device = NvmeDevice::new(
        0,
        0x2000,
        PAGE,
        allocator,
        cap_value(),
        AdminQueuePair { submission, completion },
        buffer,
        &identify_controller_data(),
        4 | (4u32 << 16),
        vec![namespace],
    )
    .unwrap();
    assert!(matches!(device.shutdown(), Err(Error::Deallocate(_))));
}

#[test]
fn clear_namespace_broadcasts_an_unknown_identifier_to_the_device() {
    // The driver does not police the identifier; the device answers for it.
    let mut device = make_device();
    let mut slot = 0;
    post_admin(&mut device, &mut slot, 1);
    device.clear_namespace(Some(NamespaceId(7))).unwrap();
    let cmd = device.admin_queue_pair.submission.get_slot(0);
    assert_eq!(cmd.opcode, 0x80);
    assert_eq!(cmd.namespace_id, 7);
}

#[test]
fn delete_stops_after_a_failed_first_completion() {
    let mut device = make_device();
    let mut slot = 0;
    post_admin(&mut device, &mut slot, 2);
    let qp = device.create_io_queue_pair(&NamespaceId(1), 4).unwrap();
    // The Delete SQ completion reports a failure; Delete CQ is never issued.
    let mut e = CompletionQueueEntry::zeroed();
    e.status = 0x0003; // phase bit set, status code 1
    device.post_admin_completion(2, e);
    let r = device.delete_io_queue_pair(qp);
    assert!(matches!(r, Err(Error::IoCompletionQueueFailure(1))));
    assert_eq!(device.admin_queue_pair.submission.tail, 3);
    // The identifier left the live set regardless, as in the original flow.
    post_admin(&mut device, &mut slot, 0);
    device.post_admin_completion(3, success_entry(true));
    device.post_admin_completion(4, success_entry(true));
    let qp = device.create_io_queue_pair(&NamespaceId(1), 4).unwrap();
    assert_eq!(qp.id().0, 1);
}

#[test]
fn admin_status_error_is_reported() {
    let mut device = make_device();
    let mut e = CompletionQueueEntry::zeroed();
    e.status = 0x0003; // phase bit set, status code 1 (invalid opcode)
    device.post_admin_completion(0, e);
    let scratch = device.buffer.physical_address;
    let r = device.submit_and_complete_admin(NvmeCommand::identify_controller(0, scratch));
    assert!(matches!(r, Err(Error::IoCompletionQueueFailure(1))));
    // The command was still submitted and the completion reaped.
    assert_eq!(device.admin_queue_pair.submission.tail, 1);
    assert_eq!(device.admin_queue_pair.completion.head, 1);
}

#[test]
fn synchronous_write_reaps_its_pending_completion() {
    let mut device = make_device();
    let mut slot = 0;
    post_admin(&mut device, &mut slot, 2);
    let mut qp = device.create_io_queue_pair(&NamespaceId(1), 8).unwrap();
    let buf = Dma {
        virtual_address: 0x100_0000,
        physical_address: 0x100_0000 + PHYS_OFFSET,
        size: 512,
    };
    // A loopback device acts on the doorbell at once: its completion already
    // stands in the ring when the synchronous path polls.
    let mut e = success_entry(true);
    e.command_id = 0;
    e.sq_head = 1;
    qp.completion.set_slot(0, e);
    qp.write(&buf, 3).unwrap();
    assert_eq!(qp.submission.tail, 1);
    assert_eq!(qp.completion.head, 1);
    assert!(qp.prp_containers.is_empty());
    // Without a pending completion the synchronous path reports that none
    // was reaped, and the submitted command stays in flight.
    let r = qp.write(&buf, 4);
    assert!(matches!(r, Err(Error::CompletionQueueCompletionFailure)));
    assert_eq!(qp.submission.tail, 2);
    assert_eq!(qp.prp_containers.len(), 1);
    assert_eq!(qp.prp_containers[0].0, 1);
}
