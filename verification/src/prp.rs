use vstd::prelude::*;

use crate::dma::{lemma_page_aligned_is_4096_aligned, lemma_page_size_facts, page_size_is_valid,
    Allocator, Dma};
use crate::error::Error;

verus! {

use vstd::arithmetic::div_mod::{
    lemma_add_mod_noop, lemma_fundamental_div_mod, lemma_mod_division_less_than_divisor,
    lemma_mod_multiples_basic,
};
use vstd::arithmetic::mul::lemma_mul_inequality;

// A physical region page (PRP) entry is a 64-bit physical address; a command
// carries up to two directly and chains longer transfers through list pages,
// each of which holds `page_size / 8` entries whose last one points to the
// next list page when more entries remain.

/// How many device pages a buffer at virtual address `virt` of `size` bytes
/// touches: the distance from the page-start before its first byte to the
/// page-end after its last, in pages.
pub open spec fn spec_span(virt: int, size: int, page_size: int) -> int {
    (virt % page_size + size + page_size - 1) / page_size
}

/// How many list pages a chained encoding of `payload` entries needs when a
/// list page holds `epp` entries and every list page but the last gives up
/// its final entry to the chain pointer.
pub open spec fn spec_list_count(payload: int, epp: int) -> int {
    (payload + epp - 2) / (epp - 1)
}

/// The rounded-up quotient `(x + d - 1) / d` of positive `x` and `d` is the
/// least `q` with `x <= q * d`.
pub proof fn lemma_ceil_div_bounds(x: int, d: int)
    requires
        1 <= x,
        1 <= d,
    ensures
        ({
            let q = (x + d - 1) / d;
            &&& 1 <= q <= x
            &&& (q - 1) * d < x
            &&& x <= q * d
        }),
{
    let q = (x + d - 1) / d;
    let r = (x + d - 1) % d;
    lemma_fundamental_div_mod(x + d - 1, d);
    lemma_mod_division_less_than_divisor(x + d - 1, d);
    assert(q * d == x + d - 1 - r);
    assert((q - 1) * d == q * d - d) by (nonlinear_arith);
    assert(q >= 1) by (nonlinear_arith)
        requires
            q * d >= x,
            x >= 1,
            d >= 1,
    ;
    if q > x {
        lemma_mul_inequality(x + 1, q, d);
        assert((x + 1) * d == x * d + d) by (nonlinear_arith);
        assert(x * d >= x) by (nonlinear_arith)
            requires
                x >= 1,
                d >= 1,
        ;
    }
}

/// One chained list page: the DMA page the device reads and the entry values
/// that must stand in it, one `u64` per slot.
#[derive(Debug)]
pub struct PrpList {
    pub dma: Dma,
    pub entries: Vec<u64>,
}

/// The PRP encoding of one buffer. A buffer spanning one page is addressed by
/// PRP1 alone; one spanning two pages by PRP1 and PRP2; a longer one by PRP1
/// and a chain of list pages holding the remaining page addresses.
#[derive(Debug)]
pub enum PrpContainer {
    One(usize),
    Two(usize, usize),
    Multiple(usize, Vec<PrpList>),
}

/// The flattened payload entries of a chain: entry `k` lives in list
/// `k / (epp - 1)` at slot `k % (epp - 1)`.
pub open spec fn list_payload(lists: Seq<PrpList>, epp: int, payload: int) -> Seq<u64> {
    Seq::new(payload as nat, |k: int| lists[k / (epp - 1)].entries@[k % (epp - 1)])
}

/// Structural soundness of a chain of list pages carrying `payload` entries:
/// as many pages as the payload needs; every page full-sized, 4 KiB aligned
/// and nonzero; payload entries nonzero and 4 KiB aligned; the last slot of
/// every page but the last chains to the next page, and every other unused
/// slot - the last page's tail included - is zero.
pub open spec fn lists_well_formed(lists: Seq<PrpList>, epp: int, payload: int) -> bool {
    &&& lists.len() == spec_list_count(payload, epp)
    &&& (forall|i: int| 0 <= i < lists.len() ==> (#[trigger] lists[i]).entries@.len() == epp)
    &&& (forall|i: int|
        0 <= i < lists.len() ==> (#[trigger] lists[i]).dma.size == epp * 8
            && lists[i].dma.physical_address != 0 && lists[i].dma.physical_address as int % 4096
            == 0)
    &&& (forall|i: int|
        0 <= i < lists.len() - 1 ==> (#[trigger] lists[i]).entries@[epp - 1] == lists[i
            + 1].dma.physical_address as u64)
    &&& (lists.len() >= 1 ==> lists[lists.len() - 1].entries@[epp - 1] == 0)
    &&& (forall|i: int, j: int|
        0 <= i < lists.len() && 0 <= j < epp - 1 && i * (epp - 1) + j < payload
            ==> (#[trigger] lists[i].entries@[j]) != 0 && lists[i].entries@[j] as int % 4096 == 0)
    &&& (forall|i: int, j: int|
        0 <= i < lists.len() && 0 <= j < epp - 1 && i * (epp - 1) + j >= payload
            ==> (#[trigger] lists[i].entries@[j]) == 0)
}

impl PrpContainer {
    /// PRP1: the physical address of the first page of the buffer.
    pub open spec fn spec_prp_1(&self) -> usize {
        match self {
            PrpContainer::One(a) => *a,
            PrpContainer::Two(a, _) => *a,
            PrpContainer::Multiple(a, _) => *a,
        }
    }

    /// The value the command's first data pointer carries.
    pub fn prp_1(&self) -> (r: usize)
        ensures
            r == self.spec_prp_1(),
    {
        match self {
            PrpContainer::One(prp_1) => *prp_1,
            PrpContainer::Two(prp_1, _) => *prp_1,
            PrpContainer::Multiple(prp_1, _) => *prp_1,
        }
    }

    /// The value the command's second data pointer carries: nothing for a
    /// one-page buffer, the second page for a two-page buffer, and the first
    /// chained list page otherwise.
    pub fn prp_2(&self) -> (r: Option<usize>)
        requires
            (self matches PrpContainer::Multiple(_, lists) ==> lists@.len() >= 1),
        ensures
            r == (match self {
                PrpContainer::One(_) => None::<usize>,
                PrpContainer::Two(_, prp_2) => Some(*prp_2),
                PrpContainer::Multiple(_, lists) => Some(lists@[0].dma.physical_address),
            }),
    {
        match self {
            PrpContainer::One(_) => None,
            PrpContainer::Two(_, prp_2) => Some(*prp_2),
            PrpContainer::Multiple(_, prp_lists) => Some(prp_lists[0].dma.physical_address),
        }
    }
}

/// The sequence of payload page addresses a container encodes: PRP1, then
/// PRP2 or the chained list entries.
pub open spec fn encoded_addresses(c: PrpContainer, epp: int, span: int) -> Seq<u64> {
    match c {
        PrpContainer::One(a) => seq![a as u64],
        PrpContainer::Two(a, b) => seq![a as u64, b as u64],
        PrpContainer::Multiple(a, lists) => seq![a as u64] + list_payload(lists@, epp, span - 1),
    }
}

/// Everything `allocate` guarantees of a container built for `buffer` at
/// `page_size`: the variant is determined by the buffer's page span, PRP1 is
/// the buffer's physical address, and a chained encoding is structurally
/// sound.
pub open spec fn allocate_post(c: PrpContainer, buffer: Dma, page_size: int) -> bool {
    let span = spec_span(buffer.virtual_address as int, buffer.size as int, page_size);
    let epp = page_size / 8;
    &&& c.spec_prp_1() == buffer.physical_address
    &&& (c is One <==> span == 1)
    &&& (c is Two <==> span == 2)
    &&& (c is Multiple <==> span >= 3)
    &&& (c matches PrpContainer::Two(_, b) ==> b != 0 && b as int % 4096 == 0)
    &&& (c matches PrpContainer::Multiple(_, lists) ==> lists_well_formed(
        lists@,
        epp,
        span - 1,
    ))
}

/// Build the PRP encoding of `buffer` for a device using `page_size` pages.
///
/// The buffer's virtual address must be dword aligned, and page aligned as
/// soon as the buffer touches more than one page. A buffer within one page is
/// encoded as PRP1 alone; one touching two pages adds the translation of its
/// second page; a longer one chains list pages, each freshly allocated and
/// holding the translations of the successive pages of the buffer.
pub fn allocate<A: Allocator>(buffer: &Dma, page_size: usize, allocator: &A) -> (r: Result<
    PrpContainer,
    Error,
>)
    requires
        page_size_is_valid(page_size as int),
        1 <= buffer.size,
        buffer.size + 2 * page_size <= usize::MAX,
        buffer.virtual_address + buffer.size <= usize::MAX,
    ensures
        ({
            let virt = buffer.virtual_address as int;
            let span = spec_span(virt, buffer.size as int, page_size as int);
            &&& ((virt % 4 != 0) <==> r == Err::<PrpContainer, Error>(
                Error::VirtualAddressIsNotDwordAligned(buffer.virtual_address),
            ))
            &&& ((virt % 4 == 0 && span >= 2 && virt % (page_size as int) != 0) <==> r == Err::<
                PrpContainer,
                Error,
            >(Error::VirtualAddressIsNotPageAligned(buffer.virtual_address)))
            &&& (r matches Err(e) ==> (e is VirtualAddressIsNotDwordAligned
                || e is VirtualAddressIsNotPageAligned || e is Allocate
                || e is TranslateVirtualToPhysical))
            &&& ((virt % 4 == 0 && span == 1) ==> r == Ok::<PrpContainer, Error>(
                PrpContainer::One(buffer.physical_address),
            ))
            &&& (r matches Err(e) ==> ((e is Allocate || e is TranslateVirtualToPhysical)
                ==> span >= 2))
            &&& (r matches Ok(c) ==> allocate_post(c, *buffer, page_size as int))
        }),
{
    let virt = buffer.virtual_address;
    if virt % 4 != 0 {
        return Err(Error::VirtualAddressIsNotDwordAligned(virt));
    }
    let prp_1 = buffer.physical_address;
    let offset = virt % page_size;
    let span = (offset + buffer.size + (page_size - 1)) / page_size;
    proof {
        lemma_page_size_facts(page_size as int);
        lemma_mod_division_less_than_divisor(virt as int, page_size as int);
        lemma_ceil_div_bounds(offset + buffer.size, page_size as int);
    }
    if span == 1 {
        return Ok(PrpContainer::One(prp_1));
    }
    if offset != 0 {
        return Err(Error::VirtualAddressIsNotPageAligned(virt));
    }
    proof {
        lemma_ceil_div_bounds(buffer.size as int, page_size as int);
        lemma_page_aligned_is_4096_aligned(virt as int, page_size as int);
    }
    // The translations of pages 1 .. span of the buffer, in order.
    let mut translations: Vec<u64> = Vec::new();
    let mut k: usize = 1;
    while k < span
        invariant
            page_size_is_valid(page_size as int),
            virt == buffer.virtual_address,
            virt as int % 4 == 0,
            virt as int % page_size as int == 0,
            virt as int % 4096 == 0,
            1 <= buffer.size,
            buffer.size + 2 * page_size <= usize::MAX,
            virt + buffer.size <= usize::MAX,
            span == spec_span(virt as int, buffer.size as int, page_size as int),
            2 <= span <= buffer.size,
            (span - 1) * page_size < buffer.size,
            1 <= k <= span,
            translations@.len() == k - 1,
            forall|t: int|
                0 <= t < k - 1 ==> #[trigger] translations@[t] != 0 && translations@[t] as int
                    % 4096 == 0 && translations@[t] <= usize::MAX as u64,
        decreases span - k,
    {
        proof {
            lemma_page_size_facts(page_size as int);
            lemma_mul_inequality(k as int, span - 1, page_size as int);
            let m4 = page_size as int / 4096;
            lemma_fundamental_div_mod(page_size as int, 4096);
            assert(k as int * page_size as int == (k as int * m4) * 4096) by (nonlinear_arith)
                requires
                    page_size as int == 4096 * m4,
            ;
            lemma_mod_multiples_basic(k as int * m4, 4096);
            lemma_add_mod_noop(virt as int, k as int * page_size as int, 4096);
        }
        let address = virt + k * page_size;
        let phys = match allocator.translate_virtual_to_physical(address) {
            Ok(p) => p,
            Err(m) => {
                return Err(Error::TranslateVirtualToPhysical(m));
            },
        };
        translations.push(phys as u64);
        k += 1;
    }
    if span == 2 {
        let prp_2 = translations[0];
        return Ok(PrpContainer::Two(prp_1, prp_2 as usize));
    }
    // Chained encoding: spread the translations over freshly allocated list
    // pages, wiring each page's last entry to its successor.
    let n = span - 1;
    let entries_per_page = page_size / 8;
    proof {
        lemma_page_size_facts(page_size as int);
        lemma_fundamental_div_mod(page_size as int, 8);
        vstd::arithmetic::div_mod::lemma_div_is_ordered(4096, page_size as int, 8);
        lemma_ceil_div_bounds(n as int, entries_per_page as int - 1);
    }
    let lists_count = (n + (entries_per_page - 2)) / (entries_per_page - 1);
    let mut pages: Vec<Dma> = Vec::new();
    let mut page_phys: Vec<u64> = Vec::new();
    let mut i: usize = 0;
    while i < lists_count
        invariant
            page_size_is_valid(page_size as int),
            virt == buffer.virtual_address,
            virt as int % 4 == 0,
            virt as int % page_size as int == 0,
            i <= lists_count,
            span == spec_span(virt as int, buffer.size as int, page_size as int),
            3 <= span,
            pages@.len() == i,
            page_phys@.len() == i,
            forall|t: int|
                0 <= t < i ==> #[trigger] page_phys@[t] == pages@[t].physical_address as u64,
            forall|t: int|
                0 <= t < i ==> (#[trigger] pages@[t]).size == page_size
                    && pages@[t].physical_address != 0 && pages@[t].physical_address as int % 4096
                    == 0,
        decreases lists_count - i,
    {
        let dma = match Dma::allocate(page_size, page_size, allocator) {
            Ok(d) => d,
            Err(e) => {
                return Err(e);
            },
        };
        page_phys.push(dma.physical_address as u64);
        pages.push(dma);
        i += 1;
    }
    let ghost all_pages = pages@;
    let mut lists: Vec<PrpList> = Vec::new();
    let mut i: usize = 0;
    while i < lists_count
        invariant
            page_size_is_valid(page_size as int),
            virt == buffer.virtual_address,
            virt as int % 4 == 0,
            virt as int % page_size as int == 0,
            span == spec_span(virt as int, buffer.size as int, page_size as int),
            3 <= span,
            i <= lists_count,
            1 <= lists_count <= n,
            n == span - 1,
            2 <= n,
            n == translations@.len(),
            n + entries_per_page <= usize::MAX,
            512 <= entries_per_page,
            entries_per_page as int * 8 == page_size,
            (lists_count - 1) * (entries_per_page - 1) < n,
            n <= lists_count * (entries_per_page - 1),
            lists_count == spec_list_count(n as int, entries_per_page as int),
            forall|t: int|
                0 <= t < n ==> #[trigger] translations@[t] != 0 && translations@[t] as int % 4096
                    == 0,
            all_pages.len() == lists_count,
            pages@ == all_pages.skip(i as int),
            page_phys@.len() == lists_count,
            forall|t: int|
                0 <= t < lists_count ==> #[trigger] page_phys@[t] == all_pages[t].physical_address
                    as u64,
            forall|t: int|
                0 <= t < lists_count ==> (#[trigger] all_pages[t]).size == page_size
                    && all_pages[t].physical_address != 0 && all_pages[t].physical_address as int
                    % 4096 == 0,
            lists@.len() == i,
            forall|ii: int| 0 <= ii < i ==> (#[trigger] lists@[ii]).dma == all_pages[ii],
            forall|ii: int|
                0 <= ii < i ==> (#[trigger] lists@[ii]).entries@.len() == entries_per_page,
            forall|ii: int, j: int|
                0 <= ii < i && 0 <= j < entries_per_page - 1 ==> (#[trigger] lists@[ii].entries@[j])
                    == (if ii * (entries_per_page - 1) + j < n {
                    translations@[ii * (entries_per_page - 1) + j]
                } else {
                    0u64
                }),
            forall|ii: int|
                0 <= ii < i ==> (#[trigger] lists@[ii]).entries@[entries_per_page - 1] == (if ii + 1
                    < lists_count {
                    page_phys@[ii + 1]
                } else {
                    0u64
                }),
        decreases lists_count - i,
    {
        proof {
            lemma_mul_inequality(i as int, lists_count as int - 1, entries_per_page as int - 1);
        }
        let dma = pages.remove(0);
        proof {
            assert(all_pages.skip(i as int).remove(0) =~= all_pages.skip(i as int + 1));
        }
        let base = i * (entries_per_page - 1);
        let mut entries: Vec<u64> = Vec::new();
        let mut j: usize = 0;
        while j < entries_per_page - 1
            invariant
                j <= entries_per_page - 1,
                2 <= entries_per_page,
                entries@.len() == j,
                base == i as int * (entries_per_page as int - 1),
                base < n,
                n == translations@.len(),
                n + entries_per_page <= usize::MAX,
                forall|jj: int|
                    0 <= jj < j ==> #[trigger] entries@[jj] == (if base + jj < n {
                        translations@[base + jj]
                    } else {
                        0u64
                    }),
            decreases entries_per_page - 1 - j,
        {
            if base + j < n {
                let v = translations[base + j];
                entries.push(v);
            } else {
                entries.push(0);
            }
            j += 1;
        }
        let chain: u64 = if i + 1 < lists_count {
            page_phys[i + 1]
        } else {
            0
        };
        entries.push(chain);
        lists.push(PrpList { dma, entries });
        i += 1;
    }
    proof {
        assert forall|ii: int, j: int|
            0 <= ii < lists@.len() && 0 <= j < entries_per_page - 1 && ii * (entries_per_page as int
                - 1) + j < n implies (#[trigger] lists@[ii].entries@[j]) != 0
            && lists@[ii].entries@[j] as int % 4096 == 0 by {
            assert(ii * (entries_per_page as int - 1) + j >= 0) by (nonlinear_arith)
                requires
                    ii >= 0,
                    j >= 0,
                    entries_per_page >= 2,
            ;
            assert(lists@[ii].entries@[j] == translations@[ii * (entries_per_page as int - 1) + j]);
        }
        assert(lists_well_formed(lists@, entries_per_page as int, n as int));
    }
    Ok(PrpContainer::Multiple(prp_1, lists))
}

/// Release every list page a container owns; `One` and `Two` own nothing, so
/// releasing them cannot fail.
pub fn deallocate<A: Allocator>(prp_container: PrpContainer, allocator: &A) -> (r: Result<
    (),
    Error,
>)
    ensures
        (r matches Err(e) ==> e is Deallocate),
        (!(prp_container is Multiple) ==> r == Ok::<(), Error>(())),
{
    match prp_container {
        PrpContainer::Multiple(_, lists) => {
            let mut lists = lists;
            loop
                invariant
                    prp_container is Multiple,
                decreases lists@.len(),
            {
                let list = match lists.pop() {
                    Some(l) => l,
                    None => {
                        break ;
                    },
                };
                match list.dma.deallocate(allocator) {
                    Ok(()) => {},
                    Err(e) => {
                        return Err(e);
                    },
                }
            }
            Ok(())
        },
        _ => Ok(()),
    }
}

/// The PRP encoding covers the buffer exactly: it holds one address per page
/// the buffer spans, every address after the first is nonzero and 4 KiB
/// aligned, and when the translated addresses are pairwise distinct and
/// differ from PRP1 the whole encoding holds as many distinct addresses as
/// the buffer spans pages.
pub proof fn lemma_prp_encoding_exact(c: PrpContainer, buffer: Dma, page_size: int)
    requires
        page_size_is_valid(page_size),
        allocate_post(c, buffer, page_size),
    ensures
        ({
            let span = spec_span(buffer.virtual_address as int, buffer.size as int, page_size);
            let epp = page_size / 8;
            let addrs = encoded_addresses(c, epp, span);
            &&& addrs.len() == span
            &&& (forall|k: int|
                1 <= k < span ==> #[trigger] addrs[k] != 0 && addrs[k] as int % 4096 == 0)
            &&& ((addrs.skip(1).no_duplicates() && !addrs.skip(1).contains(addrs[0]))
                ==> addrs.no_duplicates())
        }),
{
    let span = spec_span(buffer.virtual_address as int, buffer.size as int, page_size);
    let epp = page_size / 8;
    let addrs = encoded_addresses(c, epp, span);
    lemma_page_size_facts(page_size);
    lemma_fundamental_div_mod(page_size, 8);
    vstd::arithmetic::div_mod::lemma_div_is_ordered(4096, page_size, 8);
    match c {
        PrpContainer::One(_) => {},
        PrpContainer::Two(_, _) => {},
        PrpContainer::Multiple(_, lists) => {
            let n = span - 1;
            lemma_ceil_div_bounds(n, epp - 1);
            assert forall|k: int| 1 <= k < span implies #[trigger] addrs[k] != 0 && addrs[k] as int
                % 4096 == 0 by {
                let t = k - 1;
                let i = t / (epp - 1);
                let j = t % (epp - 1);
                lemma_fundamental_div_mod(t, epp - 1);
                lemma_mod_division_less_than_divisor(t, epp - 1);
                vstd::arithmetic::div_mod::lemma_div_pos_is_pos(t, epp - 1);
                if i >= lists@.len() {
                    lemma_mul_inequality(lists@.len() as int, i, epp - 1);
                }
                assert(addrs[k] == lists@[i].entries@[j]);
                assert(i * (epp - 1) + j < n);
            }
        },
    }
    if addrs.skip(1).no_duplicates() && !addrs.skip(1).contains(addrs[0]) {
        assert forall|x: int, y: int|
            0 <= x < addrs.len() && 0 <= y < addrs.len() && x != y implies addrs[x] != addrs[y] by {
            let a = if x < y {
                x
            } else {
                y
            };
            let b = if x < y {
                y
            } else {
                x
            };
            if a >= 1 {
                assert(addrs.skip(1)[a - 1] == addrs[a]);
                assert(addrs.skip(1)[b - 1] == addrs[b]);
            } else {
                assert(addrs.skip(1)[b - 1] == addrs[b]);
                if addrs[a] == addrs[b] {
                    assert(addrs.skip(1).contains(addrs[0]));
                }
            }
        }
        assert(addrs.no_duplicates());
    }
}

} // verus!
