use vstd::prelude::*;

use crate::error::Error;

verus! {

use vstd::arithmetic::div_mod::lemma_mod_mod;

/// The device page sizes NVMe admits: the powers of two from 4 KiB (the
/// architectural minimum) to 128 MiB (the architectural maximum).
pub open spec fn page_size_is_valid(p: int) -> bool {
    ||| p == 0x1000
    ||| p == 0x2000
    ||| p == 0x4000
    ||| p == 0x8000
    ||| p == 0x10000
    ||| p == 0x20000
    ||| p == 0x40000
    ||| p == 0x80000
    ||| p == 0x100000
    ||| p == 0x200000
    ||| p == 0x400000
    ||| p == 0x800000
    ||| p == 0x1000000
    ||| p == 0x2000000
    ||| p == 0x4000000
    ||| p == 0x8000000
    ||| p == 0x10000000
}

pub proof fn lemma_page_size_facts(p: int)
    requires
        page_size_is_valid(p),
    ensures
        4096 <= p <= 0x10000000,
        p % 4096 == 0,
        p % 8 == 0,
{
}

/// An address aligned to a valid device page is aligned to the 4 KiB
/// architectural page as well.
pub proof fn lemma_page_aligned_is_4096_aligned(v: int, p: int)
    requires
        p >= 4096,
        p % 4096 == 0,
        v % p == 0,
    ensures
        v % 4096 == 0,
{
    let k = p / 4096;
    assert(p == 4096 * k);
    lemma_mod_mod(v, 4096, k);
}

/// The capability through which all DMA-capable memory is obtained.
///
/// An implementation hands out regions that are contiguous in virtual and in
/// physical memory and pinned for the life of the allocation, and translates
/// virtual addresses inside such a region to physical ones. Every method may
/// fail with a message of the implementation's own.
pub trait Allocator: Sized {
    /// Allocate `size` bytes aligned to `alignment`, returning the virtual
    /// address of the region. The region is pinned and physically contiguous
    /// for at least `size` bytes.
    fn allocate(&self, size: usize, alignment: usize) -> (r: Result<usize, String>)
        requires
            alignment >= 1,
        ensures
            (r matches Ok(v) ==> v != 0 && v as int % alignment as int == 0 && v + size
                <= usize::MAX),
    ;

    /// Release a region previously returned by `allocate`.
    fn deallocate(&self, virtual_address: usize, size: usize) -> (r: Result<(), String>);

    /// Translate a virtual address inside an allocated region to the physical
    /// address the device must use. Translation walks page tables, so it
    /// keeps the offset within the 4 KiB architectural page.
    fn translate_virtual_to_physical(&self, virtual_address: usize) -> (r: Result<usize, String>)
        ensures
            (r matches Ok(p) ==> p != 0 && p as int % 4096 == virtual_address as int % 4096),
    ;
}

/// An owned handle over one DMA region: where the driver sees it, where the
/// device sees it, and how many bytes it spans. The handle is never
/// duplicated; whoever holds it releases it exactly once.
#[derive(Debug, PartialEq, Eq, Structural)]
pub struct Dma {
    pub virtual_address: usize,
    pub physical_address: usize,
    pub size: usize,
}

impl Dma {
    /// Obtain a region of `number_of_bytes` bytes at page alignment from the
    /// allocator and record both of its addresses.
    pub fn allocate<A: Allocator>(
        number_of_bytes: usize,
        page_size: usize,
        allocator: &A,
    ) -> (r: Result<Dma, Error>)
        requires
            page_size_is_valid(page_size as int),
        ensures
            (r matches Ok(d) ==> {
                &&& d.size == number_of_bytes
                &&& d.virtual_address != 0
                &&& d.virtual_address as int % page_size as int == 0
                &&& d.virtual_address as int % 4096 == 0
                &&& d.physical_address != 0
                &&& d.physical_address as int % 4096 == 0
                &&& d.virtual_address + d.size <= usize::MAX
            }),
            (r matches Err(e) ==> (e is Allocate || e is TranslateVirtualToPhysical)),
    {
        let virtual_address = match allocator.allocate(number_of_bytes, page_size) {
            Ok(v) => v,
            Err(m) => {
                return Err(Error::Allocate(m));
            },
        };
        let physical_address = match allocator.translate_virtual_to_physical(virtual_address) {
            Ok(p) => p,
            Err(m) => {
                return Err(Error::TranslateVirtualToPhysical(m));
            },
        };
        proof {
            lemma_page_size_facts(page_size as int);
            lemma_page_aligned_is_4096_aligned(virtual_address as int, page_size as int);
        }
        Ok(Dma { virtual_address, physical_address, size: number_of_bytes })
    }

    /// Return the region to the allocator; the handle is consumed.
    pub fn deallocate<A: Allocator>(self, allocator: &A) -> (r: Result<(), Error>)
        ensures
            (r matches Err(e) ==> e is Deallocate),
    {
        match allocator.deallocate(self.virtual_address, self.size) {
            Ok(()) => Ok(()),
            Err(m) => Err(Error::Deallocate(m)),
        }
    }
}

} // verus!

