use std::cell::Cell;

use nvme_driver::prp::{allocate, deallocate, PrpContainer};
use nvme_driver::{Allocator, Dma, Error};

const PAGE: usize = 4096;

struct BumpAllocator {
    next: Cell<usize>,
}

impl BumpAllocator {
    fn new() -> Self {
        BumpAllocator { next: Cell::new(0x10_0000) }
    }
}

impl Allocator for BumpAllocator {
    fn allocate(&self, size: usize, alignment: usize) -> Result<usize, String> {
        let base = self.next.get();
        let aligned = (base + alignment - 1) / alignment * alignment;
        self.next.set(aligned + size.max(1));
        Ok(aligned)
    }

    fn deallocate(&self, _virtual_address: usize, _size: usize) -> Result<(), String> {
        Ok(())
    }

    fn translate_virtual_to_physical(&self, virtual_address: usize) -> Result<usize, String> {
        Ok(virtual_address + 0x10_0000_0000)
    }
}

fn buffer(virtual_address: usize, size: usize) -> Dma {
    Dma { virtual_address, physical_address: virtual_address + 0x10_0000_0000, size }
}

#[test]
fn one_page_yields_prp1_alone() {
    let allocator = BumpAllocator::new();
    let buf = buffer(0x40_0000, PAGE);
    let container = allocate(&buf, PAGE, &allocator).unwrap();
    match &container {
        PrpContainer::One(prp_1) => assert_eq!(*prp_1, buf.physical_address),
        other => panic!("expected One, got {:?}", other),
    }
    assert_eq!(container.prp_1(), buf.physical_address);
    assert_eq!(container.prp_2(), None);
}

#[test]
fn sub_page_with_offset_still_one_page() {
    let allocator = BumpAllocator::new();
    // 512 bytes at a dword-aligned offset inside one page.
    let buf = buffer(0x40_0100, 512);
    let container = allocate(&buf, PAGE, &allocator).unwrap();
    assert!(matches!(container, PrpContainer::One(_)));
}

#[test]
fn two_pages_yield_prp1_and_prp2() {
    let allocator = BumpAllocator::new();
    let buf = buffer(0x40_0000, 2 * PAGE);
    let container = allocate(&buf, PAGE, &allocator).unwrap();
    match &container {
        PrpContainer::Two(prp_1, prp_2) => {
            assert_eq!(*prp_1, buf.physical_address);
            assert_eq!(*prp_2, buf.virtual_address + PAGE + 0x10_0000_0000);
        },
        other => panic!("expected Two, got {:?}", other),
    }
}

#[test]
fn three_pages_yield_one_list_page() {
    let allocator = BumpAllocator::new();
    let buf = buffer(0x40_0000, 3 * PAGE);
    let container = allocate(&buf, PAGE, &allocator).unwrap();
    match &container {
        PrpContainer::Multiple(prp_1, lists) => {
            assert_eq!(*prp_1, buf.physical_address);
            assert_eq!(lists.len(), 1);
            let entries = &lists[0].entries;
            assert_eq!(entries.len(), PAGE / 8);
            // Two payload entries; the rest, the chain slot included, zero.
            assert_eq!(entries[0], (buf.virtual_address + PAGE + 0x10_0000_0000) as u64);
            assert_eq!(entries[1], (buf.virtual_address + 2 * PAGE + 0x10_0000_0000) as u64);
            assert!(entries[2..].iter().all(|&e| e == 0));
        },
        other => panic!("expected Multiple, got {:?}", other),
    }
    assert!(deallocate(container, &allocator).is_ok());
}

#[test]
fn span_of_entries_per_page_still_one_list_page() {
    let allocator = BumpAllocator::new();
    // P/8 pages need P/8 - 1 list entries: exactly one list page.
    let span = PAGE / 8;
    let buf = buffer(0x40_0000, span * PAGE);
    let container = allocate(&buf, PAGE, &allocator).unwrap();
    match &container {
        PrpContainer::Multiple(_, lists) => {
            assert_eq!(lists.len(), 1);
            let entries = &lists[0].entries;
            // All payload slots used, the chain slot zero.
            assert!(entries[..span - 1].iter().all(|&e| e != 0));
            assert_eq!(entries[span - 1], 0);
        },
        other => panic!("expected Multiple, got {:?}", other),
    }
}

#[test]
fn span_of_entries_per_page_plus_one_needs_two_list_pages() {
    let allocator = BumpAllocator::new();
    let span = PAGE / 8 + 1;
    let buf = buffer(0x40_0000, span * PAGE);
    let container = allocate(&buf, PAGE, &allocator).unwrap();
    match &container {
        PrpContainer::Multiple(_, lists) => {
            assert_eq!(lists.len(), 2);
            // The first list page chains to the second.
            assert_eq!(lists[0].entries[PAGE / 8 - 1], lists[1].dma.physical_address as u64);
            // 512 payload entries: 511 in the first page, 1 in the second.
            assert_ne!(lists[1].entries[0], 0);
            assert_eq!(lists[1].entries[1], 0);
        },
        other => panic!("expected Multiple, got {:?}", other),
    }
}

#[test]
fn unaligned_virtual_address_is_refused() {
    let allocator = BumpAllocator::new();
    let buf = buffer(0x40_0002, PAGE);
    match allocate(&buf, PAGE, &allocator) {
        Err(Error::VirtualAddressIsNotDwordAligned(a)) => assert_eq!(a, 0x40_0002),
        other => panic!("expected dword alignment error, got {:?}", other),
    }
}

#[test]
fn multi_page_buffer_must_be_page_aligned() {
    let allocator = BumpAllocator::new();
    // Dword aligned but not page aligned, touching three pages.
    let buf = buffer(0x40_0100, 2 * PAGE);
    match allocate(&buf, PAGE, &allocator) {
        Err(Error::VirtualAddressIsNotPageAligned(a)) => assert_eq!(a, 0x40_0100),
        other => panic!("expected page alignment error, got {:?}", other),
    }
}

#[test]
fn translation_failure_is_reported() {
    struct NoTranslate;

    impl Allocator for NoTranslate {
        fn allocate(&self, _size: usize, _alignment: usize) -> Result<usize, String> {
            Ok(0x50_0000)
        }

        fn deallocate(&self, _virtual_address: usize, _size: usize) -> Result<(), String> {
            Ok(())
        }

        fn translate_virtual_to_physical(&self, _va: usize) -> Result<usize, String> {
            Err(String::from("no mapping"))
        }
    }

    let buf = buffer(0x40_0000, 2 * PAGE);
    match allocate(&buf, PAGE, &NoTranslate) {
        Err(Error::TranslateVirtualToPhysical(_)) => {},
        other => panic!("expected translation error, got {:?}", other),
    }
}
