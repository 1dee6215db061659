use vstd::prelude::*;

use std::sync::Arc;

use crate::dma::{page_size_is_valid, Allocator, Dma};
use crate::error::Error;
use crate::cmd::NvmeCommand;
use crate::queue_pairs::{admin_command, AdminQueuePair, IoQueuePair, IoQueuePairId};
use crate::queues::{ring_step, CompletionQueue, CompletionQueueEntry, SubmissionQueue};

verus! {

use vstd::arithmetic::power2::pow2;
use vstd::bits::lemma_u64_shl_is_mul;
use vstd::bytes::{
    spec_u16_from_le_bytes, spec_u32_from_le_bytes, spec_u64_from_le_bytes, u16_from_le_bytes,
    u32_from_le_bytes, u64_from_le_bytes,
};
use vstd::slice::{slice_index_get, slice_subrange};

/// Identifier of a namespace as reported by the controller (NSID).
#[derive(Debug, Clone, Copy, PartialEq, Eq, Structural, Hash)]
pub struct NamespaceId(pub u32);

/// One namespace of the controller: its identifier, its capacity in blocks,
/// and its block size in bytes.
///
/// A block size of 0 marks a namespace whose active LBA format reports a
/// block size outside the representable range; such a namespace is unusable.
#[derive(Debug, Clone, Copy, PartialEq, Eq, Structural)]
pub struct Namespace {
    pub id: NamespaceId,
    pub blocks: u64,
    pub block_size: u64,
}

/// Controller data gathered once during initialization, immutable afterwards.
#[derive(Debug)]
pub struct ControllerInformation {
    pub pci_vendor_id: u16,
    pub pci_subsystem_vendor_id: u16,
    pub serial_number: String,
    pub model_number: String,
    pub firmware_revision: String,
    pub minimum_memory_page_size: u64,
    pub maximum_memory_page_size: u64,
    pub memory_page_size: usize,
    pub maximum_number_of_io_queue_pairs: u16,
    pub maximum_queue_entries_supported: u32,
    pub maximum_transfer_size: usize,
    pub controller_id: u16,
    pub version: u32,
}

// Byte offsets of the controller registers in the memory-mapped window
// (PCIe BAR0).
/// Controller Capabilities, 64 bits.
pub const REGISTER_CAP: usize = 0x0;

/// Version, 32 bits.
pub const REGISTER_VS: usize = 0x8;

/// Controller Configuration, 32 bits.
pub const REGISTER_CC: usize = 0x14;

/// Controller Status, 32 bits.
pub const REGISTER_CSTS: usize = 0x1C;

/// Admin Queue Attributes, 32 bits.
pub const REGISTER_AQA: usize = 0x24;

/// Admin Submission Queue base physical address, 64 bits.
pub const REGISTER_ASQ: usize = 0x28;

/// Admin Completion Queue base physical address, 64 bits.
pub const REGISTER_ACQ: usize = 0x30;

/// May a register of `width` bytes at `offset` be accessed inside a mapped
/// window of `length` bytes?
pub fn register_access_in_bounds(offset: usize, width: usize, length: usize) -> (r: bool)
    ensures
        r == (offset as int + width as int <= length as int),
{
    width <= length && offset <= length - width
}

/// The fields of the capabilities register (CAP) the driver reads.
#[derive(Debug, Clone, Copy, PartialEq, Eq, Structural)]
pub struct ControllerCapabilities {
    /// MQES converted to a capacity: the register's 0-based value plus 1.
    pub maximum_queue_entries_supported: u32,
    /// DSTRD: the doorbell stride exponent.
    pub doorbell_stride: u16,
    /// CSS bit 37: the controller supports the NVM command set.
    pub nvm_command_set_support: bool,
    /// MPSMIN converted to bytes.
    pub minimum_memory_page_size: u64,
    /// MPSMAX converted to bytes.
    pub maximum_memory_page_size: u64,
}

/// The decoded capabilities register: MQES in bits 15:0 (0-based), DSTRD in
/// bits 35:32, NVM command set support in bit 37, MPSMIN and MPSMAX in bits
/// 51:48 and 55:52 as exponents over the 4 KiB unit.
pub open spec fn spec_decode_capabilities(cap: u64) -> ControllerCapabilities {
    ControllerCapabilities {
        maximum_queue_entries_supported: ((cap & 0xFFFF) + 1) as u32,
        doorbell_stride: ((cap >> 32u64) & 0xF) as u16,
        nvm_command_set_support: ((cap >> 37u64) & 1) == 1,
        minimum_memory_page_size: (1u64 << (((cap >> 48u64) & 0xF) + 12) as u64),
        maximum_memory_page_size: (1u64 << (((cap >> 52u64) & 0xF) + 12) as u64),
    }
}

/// Decode the capabilities register.
pub fn decode_capabilities(cap: u64) -> (r: ControllerCapabilities)
    ensures
        r == spec_decode_capabilities(cap),
        r.doorbell_stride <= 0xF,
        4096 <= r.minimum_memory_page_size,
        4096 <= r.maximum_memory_page_size,
        1 <= r.maximum_queue_entries_supported <= 0x10000,
{
    proof {
        assert(cap & 0xFFFF <= 0xFFFF) by (bit_vector);
        assert((cap >> 48u64) & 0xF <= 0xF) by (bit_vector);
        assert((cap >> 52u64) & 0xF <= 0xF) by (bit_vector);
        assert((cap >> 32u64) & 0xF <= 0xF) by (bit_vector);
        assert(forall|e: u64| 12 <= e <= 27 ==> (1u64 << e) >= 4096) by (bit_vector);
    }
    let mqes = (cap & 0xFFFF) as u32;
    let doorbell_stride = ((cap >> 32u64) & 0xF) as u16;
    let nvm_command_set_support = ((cap >> 37u64) & 1) == 1;
    let mpsmin_exponent = ((cap >> 48u64) & 0xF) + 12;
    let mpsmax_exponent = ((cap >> 52u64) & 0xF) + 12;
    ControllerCapabilities {
        maximum_queue_entries_supported: mqes + 1,
        doorbell_stride,
        nvm_command_set_support,
        minimum_memory_page_size: 1u64 << mpsmin_exponent,
        maximum_memory_page_size: 1u64 << mpsmax_exponent,
    }
}

/// The outcome of validating the decoded capabilities and the caller's page
/// size, in the order the errors are reported: a capacity of 1 (a 0 MQES
/// field), a missing NVM command set, an inverted page-size range, then the
/// page size against the NVMe minimum and maximum, the controller's minimum
/// and maximum, and power-of-two-ness.
pub open spec fn spec_validate_controller(
    caps: ControllerCapabilities,
    page_size: usize,
) -> Result<(), Error> {
    if caps.maximum_queue_entries_supported == 1 {
        Err(Error::MaximumQueueEntriesSupportedInvalidlyZero)
    } else if !caps.nvm_command_set_support {
        Err(Error::NvmCommandSetNotSupported)
    } else if caps.minimum_memory_page_size > caps.maximum_memory_page_size {
        Err(
            Error::MemoryPageSizeMinimumBiggerThanMaximum(
                caps.minimum_memory_page_size,
                caps.maximum_memory_page_size,
            ),
        )
    } else if page_size < 0x1000 {
        Err(Error::PageSizeLessThanNvmeMinimum(page_size))
    } else if page_size > 0x10000000 {
        Err(Error::PageSizeMoreThanNvmeMaximum(page_size))
    } else if (page_size as u64) < caps.minimum_memory_page_size {
        Err(Error::PageSizeLessThanControllerMinimum(page_size, caps.minimum_memory_page_size))
    } else if (page_size as u64) > caps.maximum_memory_page_size {
        Err(Error::PageSizeMoreThanControllerMaximum(page_size, caps.maximum_memory_page_size))
    } else if !page_size_is_valid(page_size as int) {
        Err(Error::PageSizeNotAPowerOfTwo(page_size))
    } else {
        Ok(())
    }
}

/// Validate the decoded capabilities and the caller's page size.
pub fn validate_controller(caps: &ControllerCapabilities, page_size: usize) -> (r: Result<
    (),
    Error,
>)
    ensures
        r == spec_validate_controller(*caps, page_size),
        (r is Ok ==> page_size_is_valid(page_size as int) && caps.maximum_queue_entries_supported
            != 1 && caps.nvm_command_set_support),
{
    if caps.maximum_queue_entries_supported == 1 {
        return Err(Error::MaximumQueueEntriesSupportedInvalidlyZero);
    }
    if !caps.nvm_command_set_support {
        return Err(Error::NvmCommandSetNotSupported);
    }
    if caps.minimum_memory_page_size > caps.maximum_memory_page_size {
        return Err(
            Error::MemoryPageSizeMinimumBiggerThanMaximum(
                caps.minimum_memory_page_size,
                caps.maximum_memory_page_size,
            ),
        );
    }
    if page_size < 0x1000 {
        return Err(Error::PageSizeLessThanNvmeMinimum(page_size));
    }
    if page_size > 0x10000000 {
        return Err(Error::PageSizeMoreThanNvmeMaximum(page_size));
    }
    if (page_size as u64) < caps.minimum_memory_page_size {
        return Err(
            Error::PageSizeLessThanControllerMinimum(page_size, caps.minimum_memory_page_size),
        );
    }
    if (page_size as u64) > caps.maximum_memory_page_size {
        return Err(
            Error::PageSizeMoreThanControllerMaximum(page_size, caps.maximum_memory_page_size),
        );
    }
    if !is_valid_page_size(page_size) {
        return Err(Error::PageSizeNotAPowerOfTwo(page_size));
    }
    Ok(())
}

/// Is `page_size` one of the powers of two NVMe admits?
pub fn is_valid_page_size(page_size: usize) -> (r: bool)
    ensures
        r == page_size_is_valid(page_size as int),
{
    page_size == 0x1000 || page_size == 0x2000 || page_size == 0x4000 || page_size == 0x8000
        || page_size == 0x10000 || page_size == 0x20000 || page_size == 0x40000 || page_size
        == 0x80000 || page_size == 0x100000 || page_size == 0x200000 || page_size == 0x400000
        || page_size == 0x800000 || page_size == 0x1000000 || page_size == 0x2000000 || page_size
        == 0x4000000 || page_size == 0x8000000 || page_size == 0x10000000
}

/// The exponent of a valid page size over the 4 KiB unit: the MPS field of
/// the configuration register.
pub open spec fn spec_page_size_exponent(p: int) -> u32 {
    if p == 0x1000 {
        0
    } else if p == 0x2000 {
        1
    } else if p == 0x4000 {
        2
    } else if p == 0x8000 {
        3
    } else if p == 0x10000 {
        4
    } else if p == 0x20000 {
        5
    } else if p == 0x40000 {
        6
    } else if p == 0x80000 {
        7
    } else if p == 0x100000 {
        8
    } else if p == 0x200000 {
        9
    } else if p == 0x400000 {
        10
    } else if p == 0x800000 {
        11
    } else if p == 0x1000000 {
        12
    } else if p == 0x2000000 {
        13
    } else if p == 0x4000000 {
        14
    } else if p == 0x8000000 {
        15
    } else {
        16
    }
}

/// The value written to the configuration register (CC) to enable the
/// controller: EN set, the NVM command set and round-robin arbitration
/// selected, MPS carrying the page size, 64-byte submission entries (IOSQES
/// 6) and 16-byte completion entries (IOCQES 4).
pub fn controller_configuration_value(page_size: usize) -> (r: u32)
    requires
        page_size_is_valid(page_size as int),
    ensures
        r == 1u32 | (spec_page_size_exponent(page_size as int) << 7u32) | (6u32 << 16u32) | (
        4u32 << 20u32),
{
    let memory_page_size: u32 = if page_size == 0x1000 {
        0
    } else if page_size == 0x2000 {
        1
    } else if page_size == 0x4000 {
        2
    } else if page_size == 0x8000 {
        3
    } else if page_size == 0x10000 {
        4
    } else if page_size == 0x20000 {
        5
    } else if page_size == 0x40000 {
        6
    } else if page_size == 0x80000 {
        7
    } else if page_size == 0x100000 {
        8
    } else if page_size == 0x200000 {
        9
    } else if page_size == 0x400000 {
        10
    } else if page_size == 0x800000 {
        11
    } else if page_size == 0x1000000 {
        12
    } else if page_size == 0x2000000 {
        13
    } else if page_size == 0x4000000 {
        14
    } else if page_size == 0x8000000 {
        15
    } else {
        16
    };
    1u32 | (memory_page_size << 7u32) | (6u32 << 16u32) | (4u32 << 20u32)
}

/// The value written to the configuration register to request a normal
/// shutdown: the given configuration with SHN (bits 15:14) set to 01.
pub fn shutdown_configuration_value(cc: u32) -> (r: u32)
    ensures
        r == ((cc & 0xFFFF_3FFF) | (1u32 << 14u32)),
{
    (cc & 0xFFFF_3FFF) | (1u32 << 14u32)
}

/// Does the status register (CSTS) report the controller ready (RDY, bit 0)?
pub fn controller_ready(csts: u32) -> (r: bool)
    ensures
        r == ((csts & 1) == 1),
{
    (csts & 1) == 1
}

/// Does the status register report shutdown processing complete
/// (SHST, bits 3:2, value 10)?
pub fn shutdown_complete(csts: u32) -> (r: bool)
    ensures
        r == (((csts >> 2u32) & 3) == 2),
{
    ((csts >> 2u32) & 3) == 2
}

/// The value written to the admin queue attributes register (AQA): the
/// 0-based admin queue size in both halves.
pub fn admin_queue_attributes_value(number_of_queue_entries: u32) -> (r: u32)
    requires
        1 <= number_of_queue_entries <= 0x1000,
    ensures
        r == ((((number_of_queue_entries - 1) as u32) << 16u32) | ((number_of_queue_entries
            - 1) as u32)),
{
    ((number_of_queue_entries - 1) << 16u32) | (number_of_queue_entries - 1)
}

/// The byte offset of the submission queue tail doorbell of queue
/// `queue_id`: `0x1000 + (4 << stride) * (2 * queue_id)`.
pub fn submission_queue_doorbell_offset(queue_id: u16, doorbell_stride: u16) -> (r: usize)
    requires
        doorbell_stride <= 0xF,
        0x1000 + (4 * pow2(doorbell_stride as nat)) * (2 * queue_id as int) <= usize::MAX,
    ensures
        r == 0x1000 + (4 * pow2(doorbell_stride as nat)) * (2 * queue_id as int),
{
    proof {
        vstd::arithmetic::power2::lemma2_to64();
        if doorbell_stride < 16 {
            vstd::arithmetic::power2::lemma_pow2_strictly_increases(doorbell_stride as nat, 16);
        }
        assert(4 * pow2(doorbell_stride as nat) <= u64::MAX) by (nonlinear_arith)
            requires
                pow2(doorbell_stride as nat) <= 0x10000,
        ;
        lemma_u64_shl_is_mul(4, doorbell_stride as u64);
    }
    let step = 4u64 << doorbell_stride;
    let offset = 0x1000u64 + step * (2 * queue_id as u64);
    offset as usize
}

/// The byte offset of the completion queue head doorbell of queue
/// `queue_id`: `0x1000 + (4 << stride) * (2 * queue_id + 1)`.
pub fn completion_queue_doorbell_offset(queue_id: u16, doorbell_stride: u16) -> (r: usize)
    requires
        doorbell_stride <= 0xF,
        0x1000 + (4 * pow2(doorbell_stride as nat)) * (2 * queue_id as int + 1) <= usize::MAX,
    ensures
        r == 0x1000 + (4 * pow2(doorbell_stride as nat)) * (2 * queue_id as int + 1),
{
    proof {
        vstd::arithmetic::power2::lemma2_to64();
        if doorbell_stride < 16 {
            vstd::arithmetic::power2::lemma_pow2_strictly_increases(doorbell_stride as nat, 16);
        }
        assert(4 * pow2(doorbell_stride as nat) <= u64::MAX) by (nonlinear_arith)
            requires
                pow2(doorbell_stride as nat) <= 0x10000,
        ;
        lemma_u64_shl_is_mul(4, doorbell_stride as u64);
    }
    let step = 4u64 << doorbell_stride;
    let offset = 0x1000u64 + step * (2 * queue_id as u64 + 1);
    offset as usize
}

/// The number of I/O queue pairs granted by a Get Features (Number of
/// Queues) completion: the smaller of the allocated submission and completion
/// queue counts in the two halves of dword 0. The register values are
/// 0-based; the driver keeps them as they are, which leaves the admin pair
/// out of the count.
pub fn maximum_io_queue_pairs_from_features(dword_0: u32) -> (r: u16)
    ensures
        r == (if (dword_0 as u16) < ((dword_0 >> 16u32) as u16) {
            dword_0 as u16
        } else {
            (dword_0 >> 16u32) as u16
        }),
{
    let submission_queues = dword_0 as u16;
    let completion_queues = (dword_0 >> 16u32) as u16;
    if submission_queues < completion_queues {
        submission_queues
    } else {
        completion_queues
    }
}

/// ASCII whitespace as string trimming sees it.
pub open spec fn is_ascii_whitespace(b: u8) -> bool {
    b == 0x20 || (0x09 <= b <= 0x0D)
}

/// The length of the prefix of `s` before its first NUL byte.
pub open spec fn nul_prefix_len(s: Seq<u8>) -> int
    decreases s.len(),
{
    if s.len() == 0 {
        0
    } else if s[0] == 0 {
        0
    } else {
        1 + nul_prefix_len(s.drop_first())
    }
}

/// `nul_prefix_len` is the first index holding a NUL, or the length when none
/// does.
pub proof fn lemma_nul_prefix_len_is(s: Seq<u8>, k: int)
    requires
        0 <= k <= s.len(),
        forall|i: int| 0 <= i < k ==> s[i] != 0,
        k < s.len() ==> s[k] == 0,
    ensures
        nul_prefix_len(s) == k,
    decreases s.len(),
{
    if s.len() == 0 {
    } else if s[0] == 0 {
        assert(k == 0);
    } else {
        assert(s[0] != 0);
        assert(k >= 1);
        let t = s.drop_first();
        assert forall|i: int| 0 <= i < k - 1 implies t[i] != 0 by {
            assert(t[i] == s[i + 1]);
        }
        assert(k - 1 < t.len() ==> t[k - 1] == s[k] && s[k] == 0);
        lemma_nul_prefix_len_is(t, k - 1);
    }
}

/// The number of leading whitespace bytes of `s`.
pub open spec fn leading_spaces(s: Seq<u8>) -> int
    decreases s.len(),
{
    if s.len() > 0 && is_ascii_whitespace(s[0]) {
        1 + leading_spaces(s.drop_first())
    } else {
        0
    }
}

/// `leading_spaces` is the first non-whitespace index, or the length.
pub proof fn lemma_leading_spaces_is(s: Seq<u8>, k: int)
    requires
        0 <= k <= s.len(),
        forall|i: int| 0 <= i < k ==> is_ascii_whitespace(s[i]),
        k < s.len() ==> !is_ascii_whitespace(s[k]),
    ensures
        leading_spaces(s) == k,
    decreases s.len(),
{
    if s.len() == 0 {
    } else if is_ascii_whitespace(s[0]) {
        assert(k >= 1);
        let t = s.drop_first();
        assert forall|i: int| 0 <= i < k - 1 implies is_ascii_whitespace(t[i]) by {
            assert(t[i] == s[i + 1]);
        }
        assert(k - 1 < t.len() ==> t[k - 1] == s[k]);
        lemma_leading_spaces_is(t, k - 1);
    } else {
        assert(k == 0);
    }
}

/// The index just after the last non-whitespace byte of `s`.
pub open spec fn content_end(s: Seq<u8>) -> int
    decreases s.len(),
{
    if s.len() > 0 && is_ascii_whitespace(s[s.len() - 1]) {
        content_end(s.drop_last())
    } else {
        s.len() as int
    }
}

/// `content_end` stays within the sequence.
pub proof fn lemma_content_end_bounds(s: Seq<u8>)
    ensures
        0 <= content_end(s) <= s.len(),
    decreases s.len(),
{
    if s.len() > 0 && is_ascii_whitespace(s[s.len() - 1]) {
        lemma_content_end_bounds(s.drop_last());
    }
}

/// `content_end` is the index after the last non-whitespace byte, or 0.
pub proof fn lemma_content_end_is(s: Seq<u8>, k: int)
    requires
        0 <= k <= s.len(),
        forall|i: int| k <= i < s.len() ==> is_ascii_whitespace(s[i]),
        k > 0 ==> !is_ascii_whitespace(s[k - 1]),
    ensures
        content_end(s) == k,
    decreases s.len(),
{
    if s.len() > 0 && is_ascii_whitespace(s[s.len() - 1]) {
        assert(k < s.len());
        let t = s.drop_last();
        assert forall|i: int| k <= i < t.len() implies is_ascii_whitespace(t[i]) by {
            assert(t[i] == s[i]);
        }
        lemma_content_end_is(t, k);
    } else {
        assert(k == s.len());
    }
}

/// `s` with leading and trailing whitespace removed.
pub open spec fn trimmed(s: Seq<u8>) -> Seq<u8> {
    if leading_spaces(s) >= content_end(s) {
        Seq::empty()
    } else {
        s.subrange(leading_spaces(s), content_end(s))
    }
}

/// The bytes of `s` read as characters.
pub open spec fn chars_of(s: Seq<u8>) -> Seq<char> {
    s.map_values(|b: u8| b as char)
}

/// An ASCII identification field as the driver reports it: the bytes up to
/// the first NUL, whitespace-trimmed, as characters.
pub open spec fn trimmed_c_string(s: Seq<u8>) -> Seq<char> {
    chars_of(trimmed(s.take(nul_prefix_len(s))))
}

/// Relies on String::push: it appends exactly the one character.
#[verifier::external_body]
fn push_char(s: &mut String, c: char)
    ensures
        final(s)@ == old(s)@.push(c),
{
    s.push(c);
}

/// Is this byte ASCII whitespace?
fn is_whitespace_byte(b: u8) -> (r: bool)
    ensures
        r == is_ascii_whitespace(b),
{
    b == 0x20 || (0x09 <= b && b <= 0x0D)
}

/// Read the ASCII field at `data[start .. end]`: the bytes up to the first
/// NUL, whitespace-trimmed, as a string.
pub fn read_trimmed_string(data: &[u8], start: usize, end: usize) -> (r: String)
    requires
        start <= end <= data@.len(),
    ensures
        r@ == trimmed_c_string(data@.subrange(start as int, end as int)),
{
    let ghost field = data@.subrange(start as int, end as int);
    let mut n = start;
    while n < end && *slice_index_get(data, n) != 0
        invariant
            start <= n <= end <= data@.len(),
            field == data@.subrange(start as int, end as int),
            forall|i: int| start <= i < n ==> data@[i] != 0,
        decreases end - n,
    {
        n += 1;
    }
    proof {
        assert forall|i: int| 0 <= i < n - start implies field[i] != 0 by {
            assert(field[i] == data@[start + i]);
        }
        assert(n - start < field.len() ==> field[n - start] == data@[n as int] && data@[n as int]
            == 0);
        lemma_nul_prefix_len_is(field, n - start);
    }
    let ghost content = field.take(nul_prefix_len(field));
    proof {
        assert(content.len() == n - start);
        assert forall|i: int| 0 <= i < content.len() implies content[i] == data@[start + i] by {
            assert(content[i] == field[i]);
        }
    }
    let mut lo = start;
    while lo < n && is_whitespace_byte(*slice_index_get(data, lo))
        invariant
            start <= lo <= n,
            n <= data@.len(),
            forall|i: int| start <= i < lo ==> is_ascii_whitespace(data@[i]),
        decreases n - lo,
    {
        lo += 1;
    }
    let mut hi = n;
    while hi > lo && is_whitespace_byte(*slice_index_get(data, hi - 1))
        invariant
            lo <= hi <= n,
            n <= data@.len(),
            forall|i: int| hi <= i < n ==> is_ascii_whitespace(data@[i]),
        decreases hi - lo,
    {
        hi -= 1;
    }
    let mut out = String::new();
    let mut i = lo;
    while i < hi
        invariant
            lo <= i <= hi <= n,
            n <= data@.len(),
            out@ == chars_of(data@.subrange(lo as int, i as int)),
        decreases hi - i,
    {
        let b = *slice_index_get(data, i);
        push_char(&mut out, b as char);
        proof {
            assert(data@.subrange(lo as int, i + 1).drop_last() =~= data@.subrange(
                lo as int,
                i as int,
            ));
            assert(chars_of(data@.subrange(lo as int, i + 1)) =~= chars_of(
                data@.subrange(lo as int, i as int),
            ).push(b as char));
        }
        i += 1;
    }
    proof {
        assert forall|i: int| 0 <= i < lo - start implies is_ascii_whitespace(content[i]) by {
            assert(content[i] == data@[start + i]);
        }
        if lo < n {
            assert(content[lo - start] == data@[lo as int]);
        }
        lemma_leading_spaces_is(content, lo - start);
        if lo == n {
            // Everything up to the NUL is whitespace: the field is empty.
            assert(hi == n);
            lemma_content_end_bounds(content);
            assert(out@ =~= chars_of(data@.subrange(lo as int, lo as int)));
            assert(data@.subrange(lo as int, lo as int) =~= Seq::<u8>::empty());
            assert(chars_of(Seq::<u8>::empty()) =~= Seq::<char>::empty());
            assert(trimmed(content) =~= Seq::<u8>::empty());
            assert(trimmed_c_string(field) =~= Seq::<char>::empty());
        } else {
            assert(!is_ascii_whitespace(data@[lo as int]));
            assert(hi > lo);
            assert forall|i: int| hi - start <= i < content.len() implies is_ascii_whitespace(
                content[i],
            ) by {
                assert(content[i] == data@[start + i]);
            }
            assert(content[hi - start - 1] == data@[hi - 1]);
            assert(!is_ascii_whitespace(content[hi - start - 1]));
            lemma_content_end_is(content, hi - start);
            assert(trimmed(content) =~= content.subrange(lo - start, hi - start));
            assert(trimmed(content) =~= data@.subrange(lo as int, hi as int)) by {
                assert forall|i: int|
                    0 <= i < hi - lo implies content.subrange(lo - start, hi - start)[i] == data@.subrange(
                    lo as int,
                    hi as int,
                )[i] by {
                    assert(content.subrange(lo - start, hi - start)[i] == content[lo - start + i]);
                    assert(content[lo - start + i] == data@[lo + i]);
                }
                assert(content.subrange(lo - start, hi - start) =~= data@.subrange(
                    lo as int,
                    hi as int,
                ));
            }
            assert(trimmed_c_string(field) =~= chars_of(data@.subrange(lo as int, hi as int)));
        }
    }
    out
}

/// A 16-bit little-endian field at `offset`.
pub open spec fn word_le(data: Seq<u8>, offset: int) -> u16 {
    spec_u16_from_le_bytes(data.subrange(offset, offset + 2))
}

/// A 32-bit little-endian field at `offset`.
pub open spec fn dword_le(data: Seq<u8>, offset: int) -> u32 {
    spec_u32_from_le_bytes(data.subrange(offset, offset + 4))
}

/// A 64-bit little-endian field at `offset`.
pub open spec fn qword_le(data: Seq<u8>, offset: int) -> u64 {
    spec_u64_from_le_bytes(data.subrange(offset, offset + 8))
}

/// The maximum transfer size in bytes: MDTS is a power-of-two multiplier of
/// the controller's minimum memory page size.
pub open spec fn spec_maximum_transfer_size(minimum_memory_page_size: u64, mdts: u8) -> int {
    minimum_memory_page_size as int * pow2(mdts as nat)
}

/// Parse the 4096-byte Identify Controller structure (CNS 1): the PCI
/// vendor identifiers, the trimmed ASCII identification strings, MDTS at
/// byte 77 as a power-of-two multiplier of the minimum page size, the
/// controller identifier and version, and the controller type at byte 111,
/// which must name an I/O controller.
pub fn parse_identify_controller(
    data: &[u8],
    memory_page_size: usize,
    minimum_memory_page_size: u64,
    maximum_memory_page_size: u64,
    maximum_queue_entries_supported: u32,
    maximum_number_of_io_queue_pairs: u16,
) -> (r: Result<ControllerInformation, Error>)
    requires
        data@.len() >= 112,
        4096 <= minimum_memory_page_size,
        data@[77] < 64,
        spec_maximum_transfer_size(minimum_memory_page_size, data@[77]) <= usize::MAX,
    ensures
        ((data@[111] == 1) <==> r is Ok),
        (r matches Err(e) ==> e is ControllerTypeInvalid),
        (r matches Ok(info) ==> {
            &&& info.pci_vendor_id == word_le(data@, 0)
            &&& info.pci_subsystem_vendor_id == word_le(data@, 2)
            &&& info.serial_number@ == trimmed_c_string(data@.subrange(4, 24))
            &&& info.model_number@ == trimmed_c_string(data@.subrange(24, 64))
            &&& info.firmware_revision@ == trimmed_c_string(data@.subrange(64, 72))
            &&& info.minimum_memory_page_size == minimum_memory_page_size
            &&& info.maximum_memory_page_size == maximum_memory_page_size
            &&& info.memory_page_size == memory_page_size
            &&& info.maximum_number_of_io_queue_pairs == maximum_number_of_io_queue_pairs
            &&& info.maximum_queue_entries_supported == maximum_queue_entries_supported
            &&& info.maximum_transfer_size == spec_maximum_transfer_size(
                minimum_memory_page_size,
                data@[77],
            )
            &&& info.controller_id == word_le(data@, 78)
            &&& info.version == dword_le(data@, 80)
        }),
{
    let controller_type = *slice_index_get(data, 111);
    if controller_type != 1 {
        let kind = if controller_type == 0 {
            String::from_str("not reported")
        } else if controller_type == 2 {
            String::from_str("discovery controller")
        } else if controller_type == 3 {
            String::from_str("administrative controller")
        } else {
            String::from_str("unknown")
        };
        return Err(Error::ControllerTypeInvalid(kind));
    }
    let pci_vendor_id = u16_from_le_bytes(slice_subrange(data, 0, 2));
    let pci_subsystem_vendor_id = u16_from_le_bytes(slice_subrange(data, 2, 4));
    let serial_number = read_trimmed_string(data, 4, 24);
    let model_number = read_trimmed_string(data, 24, 64);
    let firmware_revision = read_trimmed_string(data, 64, 72);
    let mdts = *slice_index_get(data, 77);
    proof {
        vstd::arithmetic::power2::lemma2_to64();
        vstd::arithmetic::power2::lemma_pow2_strictly_increases(mdts as nat, 64);
        lemma_u64_shl_is_mul(1, mdts as u64);
    }
    let factor = 1u64 << mdts;
    let maximum_transfer_size = (minimum_memory_page_size * factor) as usize;
    let controller_id = u16_from_le_bytes(slice_subrange(data, 78, 80));
    let version = u32_from_le_bytes(slice_subrange(data, 80, 84));
    Ok(
        ControllerInformation {
            pci_vendor_id,
            pci_subsystem_vendor_id,
            serial_number,
            model_number,
            firmware_revision,
            minimum_memory_page_size,
            maximum_memory_page_size,
            memory_page_size,
            maximum_number_of_io_queue_pairs,
            maximum_queue_entries_supported,
            maximum_transfer_size,
            controller_id,
            version,
        },
    )
}

/// Parse an active namespace list (Identify CNS 2): the 32-bit namespace
/// identifiers, taken in order up to the first zero.
pub fn parse_namespace_list(data: &[u8]) -> (r: Vec<NamespaceId>)
    ensures
        r@.len() <= data@.len() / 4,
        (forall|k: int|
            0 <= k < r@.len() ==> (#[trigger] r@[k]).0 == dword_le(data@, 4 * k) && r@[k].0 != 0),
        (r@.len() < data@.len() / 4 ==> dword_le(data@, 4 * r@.len() as int) == 0),
{
    let count = data.len() / 4;
    let mut r: Vec<NamespaceId> = Vec::new();
    let mut k: usize = 0;
    while k < count
        invariant
            count == data@.len() / 4,
            k <= count,
            r@.len() == k,
            forall|t: int|
                0 <= t < k ==> (#[trigger] r@[t]).0 == dword_le(data@, 4 * t) && r@[t].0 != 0,
        decreases count - k,
    {
        proof {
            vstd::slice::axiom_spec_len(data);
            vstd::arithmetic::div_mod::lemma_fundamental_div_mod(data@.len() as int, 4);
            vstd::arithmetic::div_mod::lemma_mod_division_less_than_divisor(data@.len() as int, 4);
            assert(4 * k as int + 4 <= data@.len());
        }
        let id = u32_from_le_bytes(slice_subrange(data, 4 * k, 4 * k + 4));
        if id == 0 {
            return r;
        }
        r.push(NamespaceId(id));
        k += 1;
    }
    r
}

/// The block size a namespace's active LBA format reports: `1 << LBADS` when
/// the exponent lies in `[9, 32)`, otherwise 0, which marks the namespace
/// unusable.
pub open spec fn spec_block_size(data: Seq<u8>) -> u64 {
    let index = (data[26] & 0xF) as int;
    let lbads = (dword_le(data, 128 + 4 * index) >> 16u32) & 0xFF;
    if 9 <= lbads < 32 {
        1u64 << (lbads as u64)
    } else {
        0
    }
}

/// Parse an Identify Namespace structure (CNS 0): the capacity in blocks
/// (NCAP, bytes 8 to 15) and the block size of the active LBA format, chosen
/// by the low half of FLBAS (byte 26) from the descriptor list at byte 128.
pub fn parse_identify_namespace(data: &[u8], namespace_id: NamespaceId) -> (r: Namespace)
    requires
        data@.len() >= 384,
    ensures
        r.id == namespace_id,
        r.blocks == qword_le(data@, 8),
        r.block_size == spec_block_size(data@),
{
    let blocks = u64_from_le_bytes(slice_subrange(data, 8, 16));
    let flbas = *slice_index_get(data, 26);
    proof {
        assert(forall|b: u8| (b & 0xF) < 16) by (bit_vector);
    }
    let flba_index = (flbas & 0xF) as usize;
    let lbaf = u32_from_le_bytes(slice_subrange(data, 128 + 4 * flba_index, 128 + 4 * flba_index
        + 4));
    let lbads = (lbaf >> 16u32) & 0xFF;
    let block_size: u64 = if 9 <= lbads && lbads < 32 {
        1u64 << (lbads as u64)
    } else {
        0
    };
    Namespace { id: namespace_id, blocks, block_size }
}

/// A controller brought to its operational state: the admin queue pair, the
/// controller information, the namespace catalog, and the identifiers of the
/// live I/O queue pairs.
///
/// `address` and `length` record the memory-mapped register window; the
/// party that owns the real window performs the register and doorbell stores
/// at the offsets this module computes.
#[derive(Debug)]
pub struct NvmeDevice<A: Allocator> {
    pub allocator: Arc<A>,
    pub address: usize,
    pub length: usize,
    pub doorbell_stride: u16,
    pub admin_queue_pair: AdminQueuePair,
    pub io_queue_pair_ids: Vec<IoQueuePairId>,
    pub information: ControllerInformation,
    pub namespaces: Vec<Namespace>,
    pub buffer: Dma,
}

impl<A: Allocator> NvmeDevice<A> {
    pub open spec fn wf(&self) -> bool {
        &&& self.admin_queue_pair.wf()
        &&& page_size_is_valid(self.information.memory_page_size as int)
        &&& 2 <= self.information.maximum_queue_entries_supported <= 0x10000
        &&& self.doorbell_stride <= 0xF
        &&& (forall|i: int|
            0 <= i < self.io_queue_pair_ids@.len() ==> 1 <= (
            #[trigger] self.io_queue_pair_ids@[i]).0
                <= self.information.maximum_number_of_io_queue_pairs)
        &&& (forall|i: int, j: int|
            0 <= i < j < self.io_queue_pair_ids@.len() ==> (#[trigger] self.io_queue_pair_ids@[i])
                != (#[trigger] self.io_queue_pair_ids@[j]))
        &&& (forall|i: int, j: int|
            0 <= i < j < self.namespaces@.len() ==> (#[trigger] self.namespaces@[i]).id != (
            #[trigger] self.namespaces@[j]).id)
    }

    /// Is this I/O queue pair identifier live?
    pub open spec fn spec_contains_queue_id(&self, id: IoQueuePairId) -> bool {
        self.io_queue_pair_ids@.contains(id)
    }

    /// Does the catalog hold a namespace under this identifier?
    pub open spec fn spec_contains_namespace(&self, id: NamespaceId) -> bool {
        exists|i: int| 0 <= i < self.namespaces@.len() && (#[trigger] self.namespaces@[i]).id == id
    }

    /// Bring a controller model to its operational state from the values the
    /// register protocol produced: the capabilities register, the admin queue
    /// pair whose rings the controller was programmed with, the scratch
    /// buffer, the Identify Controller data, the Get Features (Number of
    /// Queues) completion dword, and the parsed namespace catalog.
    pub fn new(
        address: usize,
        length: usize,
        page_size: usize,
        allocator: A,
        capabilities_register: u64,
        admin_queue_pair: AdminQueuePair,
        buffer: Dma,
        controller_data: &[u8],
        queue_feature_dword: u32,
        namespaces: Vec<Namespace>,
    ) -> (r: Result<Self, Error>)
        requires
            admin_queue_pair.wf(),
            controller_data@.len() >= 112,
            controller_data@[77] < 64,
            ({
                let caps = spec_decode_capabilities(capabilities_register);
                spec_maximum_transfer_size(caps.minimum_memory_page_size, controller_data@[77])
                    <= usize::MAX
            }),
            (forall|i: int, j: int|
                0 <= i < j < namespaces@.len() ==> (#[trigger] namespaces@[i]).id != (
                #[trigger] namespaces@[j]).id),
        ensures
            ({
                let caps = spec_decode_capabilities(capabilities_register);
                &&& (spec_validate_controller(caps, page_size) matches Err(e) ==> r == Err::<
                    Self,
                    Error,
                >(e))
                &&& (r matches Err(e) ==> (spec_validate_controller(caps, page_size) == Err::<
                    (),
                    Error,
                >(e) || e is ControllerTypeInvalid))
                &&& ((spec_validate_controller(caps, page_size) is Ok && controller_data@[111]
                    == 1) <==> r is Ok)
                &&& (r matches Ok(d) ==> {
                    &&& d.wf()
                    &&& d.address == address
                    &&& d.length == length
                    &&& d.doorbell_stride == caps.doorbell_stride
                    &&& d.io_queue_pair_ids@.len() == 0
                    &&& d.namespaces == namespaces
                    &&& d.admin_queue_pair == admin_queue_pair
                    &&& d.buffer == buffer
                    &&& d.information.memory_page_size == page_size
                    &&& d.information.maximum_queue_entries_supported
                        == caps.maximum_queue_entries_supported
                    &&& d.information.minimum_memory_page_size == caps.minimum_memory_page_size
                    &&& d.information.maximum_memory_page_size == caps.maximum_memory_page_size
                    &&& d.information.maximum_number_of_io_queue_pairs == (if (
                    queue_feature_dword as u16) < ((queue_feature_dword >> 16u32) as u16) {
                        queue_feature_dword as u16
                    } else {
                        (queue_feature_dword >> 16u32) as u16
                    })
                    &&& d.information.maximum_transfer_size == spec_maximum_transfer_size(
                        caps.minimum_memory_page_size,
                        controller_data@[77],
                    )
                    &&& d.information.pci_vendor_id == word_le(controller_data@, 0)
                    &&& d.information.pci_subsystem_vendor_id == word_le(controller_data@, 2)
                    &&& d.information.serial_number@ == trimmed_c_string(
                        controller_data@.subrange(4, 24),
                    )
                    &&& d.information.model_number@ == trimmed_c_string(
                        controller_data@.subrange(24, 64),
                    )
                    &&& d.information.firmware_revision@ == trimmed_c_string(
                        controller_data@.subrange(64, 72),
                    )
                    &&& d.information.controller_id == word_le(controller_data@, 78)
                    &&& d.information.version == dword_le(controller_data@, 80)
                })
            }),
    {
        let caps = decode_capabilities(capabilities_register);
        match validate_controller(&caps, page_size) {
            Ok(()) => {},
            Err(e) => {
                return Err(e);
            },
        }
        let maximum_number_of_io_queue_pairs = maximum_io_queue_pairs_from_features(
            queue_feature_dword,
        );
        let information = match parse_identify_controller(
            controller_data,
            page_size,
            caps.minimum_memory_page_size,
            caps.maximum_memory_page_size,
            caps.maximum_queue_entries_supported,
            maximum_number_of_io_queue_pairs,
        ) {
            Ok(info) => info,
            Err(e) => {
                return Err(e);
            },
        };
        Ok(
            NvmeDevice {
                allocator: Arc::new(allocator),
                address,
                length,
                doorbell_stride: caps.doorbell_stride,
                admin_queue_pair,
                io_queue_pair_ids: Vec::new(),
                information,
                namespaces,
                buffer,
            },
        )
    }

    pub fn controller_information(&self) -> (r: &ControllerInformation)
        ensures
            r == &self.information,
    {
        &self.information
    }

    /// The identifiers of the catalogued namespaces, in catalog order.
    pub fn namespace_ids(&self) -> (r: Vec<NamespaceId>)
        ensures
            r@ == self.namespaces@.map_values(|n: Namespace| n.id),
    {
        let mut r: Vec<NamespaceId> = Vec::new();
        let mut i: usize = 0;
        while i < self.namespaces.len()
            invariant
                i <= self.namespaces@.len(),
                r@.len() == i,
                forall|t: int| 0 <= t < i ==> #[trigger] r@[t] == self.namespaces@[t].id,
            decreases self.namespaces@.len() - i,
        {
            r.push(self.namespaces[i].id);
            i += 1;
        }
        proof {
            assert(r@ =~= self.namespaces@.map_values(|n: Namespace| n.id));
        }
        r
    }

    /// Look a namespace up by identifier.
    pub fn namespace(&self, namespace_id: &NamespaceId) -> (r: Result<&Namespace, Error>)
        ensures
            (self.spec_contains_namespace(*namespace_id) <==> r is Ok),
            (r matches Ok(n) ==> n.id == *namespace_id && self.namespaces@.contains(*n)),
            (r matches Err(e) ==> e == Error::NamespaceDoesNotExist(*namespace_id)),
    {
        let mut i: usize = 0;
        while i < self.namespaces.len()
            invariant
                i <= self.namespaces@.len(),
                forall|t: int| 0 <= t < i ==> (#[trigger] self.namespaces@[t]).id != *namespace_id,
            decreases self.namespaces@.len() - i,
        {
            if self.namespaces[i].id.0 == namespace_id.0 {
                return Ok(&self.namespaces[i]);
            }
            i += 1;
        }
        Err(Error::NamespaceDoesNotExist(*namespace_id))
    }

    /// Is this queue pair identifier live?
    fn contains_queue_id(&self, id: IoQueuePairId) -> (r: bool)
        ensures
            r == self.spec_contains_queue_id(id),
    {
        let mut i: usize = 0;
        while i < self.io_queue_pair_ids.len()
            invariant
                i <= self.io_queue_pair_ids@.len(),
                forall|t: int| 0 <= t < i ==> (#[trigger] self.io_queue_pair_ids@[t]).0 != id.0,
            decreases self.io_queue_pair_ids@.len() - i,
        {
            if self.io_queue_pair_ids[i].0 == id.0 {
                return true;
            }
            i += 1;
        }
        proof {
            if self.io_queue_pair_ids@.contains(id) {
                let t = choose|t: int|
                    0 <= t < self.io_queue_pair_ids@.len() && self.io_queue_pair_ids@[t] == id;
                assert(self.io_queue_pair_ids@[t].0 == id.0);
            }
        }
        false
    }

    /// Record what the device wrote into the admin completion ring at
    /// `slot`: the model of a DMA store by the device.
    pub fn post_admin_completion(&mut self, slot: usize, entry: CompletionQueueEntry)
        requires
            old(self).wf(),
            slot < old(self).admin_queue_pair.completion.len,
        ensures
            final(self).wf(),
            final(self).admin_queue_pair.completion.slots@ == old(
                self,
            ).admin_queue_pair.completion.slots@.update(slot as int, entry),
            final(self).admin_queue_pair.completion.head == old(
                self,
            ).admin_queue_pair.completion.head,
            final(self).admin_queue_pair.completion.phase == old(
                self,
            ).admin_queue_pair.completion.phase,
            final(self).admin_queue_pair.submission == old(self).admin_queue_pair.submission,
            device_fields_fixed(*old(self), *final(self)),
    {
        self.admin_queue_pair.completion.set_slot(slot, entry);
    }

    /// Execute one admin command through the admin queue pair; the completion
    /// must already be pending, as for `AdminQueuePair::submit_and_complete`.
    pub fn submit_and_complete_admin(&mut self, cmd: NvmeCommand) -> (r: Result<
        CompletionQueueEntry,
        Error,
    >)
        requires
            old(self).wf(),
            admin_completion_pending(*old(self)),
        ensures
            final(self).wf(),
            device_fields_fixed(*old(self), *final(self)),
            final(self).io_queue_pair_ids == old(self).io_queue_pair_ids,
            ({
                let pre = old(self).admin_queue_pair;
                let post = final(self).admin_queue_pair;
                let entry = pre.completion.slots@[pre.completion.head as int];
                &&& post.submission.slots@ == pre.submission.slots@.update(
                    pre.submission.tail as int,
                    admin_command(cmd, pre.submission.tail as u16),
                )
                &&& post.submission.tail as int == (pre.submission.tail as int + 1) % (
                pre.submission.len as int)
                &&& post.submission.head == pre.submission.head
                &&& post.completion.slots == pre.completion.slots
                &&& (post.completion.head as int, post.completion.phase) == ring_step(
                    pre.completion.head as int,
                    pre.completion.phase,
                    pre.completion.len as int,
                )
                &&& (if entry.status >> 1u16 == 0 {
                    r == Ok::<CompletionQueueEntry, Error>(entry)
                } else {
                    r == Err::<CompletionQueueEntry, Error>(
                        Error::IoCompletionQueueFailure(entry.status >> 1u16),
                    )
                })
            }),
    {
        self.admin_queue_pair.submit_and_complete(cmd)
    }

    /// Create an I/O queue pair bound to a catalogued namespace: validate the
    /// requested capacity, pick the lowest free identifier, allocate the two
    /// rings, and ask the device to create first the completion queue and
    /// then the submission queue bound to it. Where the request reaches the
    /// device, both admin completions must already be pending. The new
    /// identifier joins the live set.
    #[verifier::rlimit(100)]
    #[verifier::spinoff_prover]
    pub fn create_io_queue_pair(
        &mut self,
        namespace_id: &NamespaceId,
        number_of_queue_entries: u32,
    ) -> (r: Result<IoQueuePair<A>, Error>)
        requires
            old(self).wf(),
            // The admin completions need to be pending only where a request
            // reaches the device: past validation, with a free identifier.
            (2 <= number_of_queue_entries <= old(
                self,
            ).information.maximum_queue_entries_supported && old(self).spec_contains_namespace(
                *namespace_id,
            ) && !(forall|q: u16|
                1 <= q <= old(self).information.maximum_number_of_io_queue_pairs ==> old(
                    self,
                ).spec_contains_queue_id(IoQueuePairId(q)))) ==> admin_completion_pending(
                *old(self),
            ) && admin_second_completion_pending(*old(self)),
            old(self).address + 0x1000 + (4 * pow2(old(self).doorbell_stride as nat)) * (2 * old(
                self,
            ).information.maximum_number_of_io_queue_pairs as int + 1) <= usize::MAX,
        ensures
            final(self).wf(),
            device_fields_fixed(*old(self), *final(self)),
            (number_of_queue_entries < 2 ==> r == Err::<IoQueuePair<A>, Error>(
                Error::NumberOfQueueEntriesLessThanTwo(number_of_queue_entries),
            ) && *final(self) == *old(self)),
            (number_of_queue_entries >= 2 && number_of_queue_entries > old(
                self,
            ).information.maximum_queue_entries_supported ==> r == Err::<IoQueuePair<A>, Error>(
                Error::NumberOfQueueEntriesMoreThanMaximum(
                    number_of_queue_entries,
                    old(self).information.maximum_queue_entries_supported,
                ),
            ) && *final(self) == *old(self)),
            (2 <= number_of_queue_entries <= old(
                self,
            ).information.maximum_queue_entries_supported && !old(self).spec_contains_namespace(
                *namespace_id,
            ) ==> r == Err::<IoQueuePair<A>, Error>(Error::NamespaceDoesNotExist(*namespace_id))
                && *final(self) == *old(self)),
            (2 <= number_of_queue_entries <= old(
                self,
            ).information.maximum_queue_entries_supported && old(self).spec_contains_namespace(
                *namespace_id,
            ) && (forall|q: u16|
                1 <= q <= old(self).information.maximum_number_of_io_queue_pairs ==> old(
                    self,
                ).spec_contains_queue_id(IoQueuePairId(q))) ==> r == Err::<IoQueuePair<A>, Error>(
                Error::MaximumNumberOfQueuesReached,
            ) && *final(self) == *old(self)),
            (r matches Err(e) ==> (e is NumberOfQueueEntriesLessThanTwo
                || e is NumberOfQueueEntriesMoreThanMaximum || e is NamespaceDoesNotExist
                || e is MaximumNumberOfQueuesReached || e is Allocate
                || e is TranslateVirtualToPhysical || e is IoCompletionQueueFailure)),
            (r matches Err(e) ==> (e is NumberOfQueueEntriesLessThanTwo
                ==> number_of_queue_entries < 2)),
            (r matches Err(e) ==> (e is NumberOfQueueEntriesMoreThanMaximum
                ==> number_of_queue_entries >= 2 && number_of_queue_entries > old(
                self,
            ).information.maximum_queue_entries_supported)),
            (r matches Err(e) ==> (e is NamespaceDoesNotExist ==> 2 <= number_of_queue_entries
                <= old(self).information.maximum_queue_entries_supported && !old(
                self,
            ).spec_contains_namespace(*namespace_id))),
            (r matches Err(e) ==> (e is MaximumNumberOfQueuesReached ==> 2
                <= number_of_queue_entries <= old(
                self,
            ).information.maximum_queue_entries_supported && old(self).spec_contains_namespace(
                *namespace_id,
            ) && (forall|q: u16|
                1 <= q <= old(self).information.maximum_number_of_io_queue_pairs ==> old(
                    self,
                ).spec_contains_queue_id(IoQueuePairId(q))))),
            (r matches Err(e) ==> final(self).io_queue_pair_ids == old(self).io_queue_pair_ids),
            (r matches Ok(qp) ==> {
                let pre = old(self).admin_queue_pair;
                let t0 = pre.submission.tail as int;
                let t1 = (t0 + 1) % (pre.submission.len as int);
                let s = final(self).admin_queue_pair.submission.slots@;
                &&& 1 <= qp.id.0 <= old(self).information.maximum_number_of_io_queue_pairs
                &&& !old(self).spec_contains_queue_id(qp.id)
                &&& (forall|q: u16|
                    1 <= q < qp.id.0 ==> old(self).spec_contains_queue_id(IoQueuePairId(q)))
                &&& final(self).io_queue_pair_ids@ == old(self).io_queue_pair_ids@.push(qp.id)
                &&& qp.wf()
                &&& qp.namespace.id == *namespace_id
                &&& old(self).namespaces@.contains(qp.namespace)
                &&& qp.submission.len == number_of_queue_entries
                &&& qp.completion.len == number_of_queue_entries
                &&& qp.submission.head == 0 && qp.submission.tail == 0
                &&& qp.completion.head == 0 && qp.completion.phase == true
                &&& qp.page_size == old(self).information.memory_page_size
                &&& qp.maximum_transfer_size == old(self).information.maximum_transfer_size
                &&& qp.device_address == old(self).address
                &&& qp.doorbell_stride == old(self).doorbell_stride
                &&& qp.prp_containers@.len() == 0
                &&& qp.submission.doorbell == old(self).address + 0x1000 + (4 * pow2(
                    old(self).doorbell_stride as nat,
                )) * (2 * qp.id.0 as int)
                &&& qp.completion.doorbell == old(self).address + 0x1000 + (4 * pow2(
                    old(self).doorbell_stride as nat,
                )) * (2 * qp.id.0 as int + 1)
                &&& s == pre.submission.slots@.update(t0, s[t0]).update(t1, s[t1])
                &&& s[t0].opcode == 5 && s[t0].command_id == t0 as u16 && s[t0].cdw10 == ((((
                number_of_queue_entries - 1) as u16) as u32) << 16u32) | (qp.id.0 as u32)
                    && s[t0].cdw11 == 1 && s[t0].data_pointer[0]
                    == qp.completion.dma.physical_address as u64
                &&& s[t1].opcode == 1 && s[t1].command_id == t1 as u16 && s[t1].cdw10 == ((((
                number_of_queue_entries - 1) as u16) as u32) << 16u32) | (qp.id.0 as u32)
                    && s[t1].cdw11 == (((qp.id.0 as u32) << 16u32) | 1u32)
                    && s[t1].data_pointer[0] == qp.submission.dma.physical_address as u64
                &&& final(self).admin_queue_pair.submission.tail as int == (t1 + 1) % (
                pre.submission.len as int)
            }),
    {
        if number_of_queue_entries < 2 {
            return Err(Error::NumberOfQueueEntriesLessThanTwo(number_of_queue_entries));
        }
        if number_of_queue_entries > self.information.maximum_queue_entries_supported {
            return Err(
                Error::NumberOfQueueEntriesMoreThanMaximum(
                    number_of_queue_entries,
                    self.information.maximum_queue_entries_supported,
                ),
            );
        }
        let namespace = match self.namespace(namespace_id) {
            Ok(n) => *n,
            Err(e) => {
                return Err(e);
            },
        };
        let mut chosen: u16 = 0;
        let mut i: u32 = 1;
        while i <= self.information.maximum_number_of_io_queue_pairs as u32
            invariant_except_break
                chosen == 0,
            invariant
                1 <= i <= self.information.maximum_number_of_io_queue_pairs as int + 1,
                chosen == 0 ==> (forall|q: u16|
                    1 <= q < i ==> self.spec_contains_queue_id(IoQueuePairId(q))),
            ensures
                chosen != 0 ==> (1 <= chosen <= self.information.maximum_number_of_io_queue_pairs
                    && !self.spec_contains_queue_id(IoQueuePairId(chosen)) && (forall|q: u16|
                    1 <= q < chosen ==> self.spec_contains_queue_id(IoQueuePairId(q)))),
                chosen == 0 ==> (forall|q: u16|
                    1 <= q <= self.information.maximum_number_of_io_queue_pairs
                        ==> self.spec_contains_queue_id(IoQueuePairId(q))),
            decreases self.information.maximum_number_of_io_queue_pairs as int + 1 - i,
        {
            if !self.contains_queue_id(IoQueuePairId(i as u16)) {
                chosen = i as u16;
                break ;
            }
            i += 1;
        }
        if chosen == 0 {
            return Err(Error::MaximumNumberOfQueuesReached);
        }
        let queue_id = IoQueuePairId(chosen);
        proof {
            vstd::arithmetic::power2::lemma_pow2_pos(self.doorbell_stride as nat);
            vstd::arithmetic::mul::lemma_mul_inequality(
                2 * queue_id.0 as int + 1,
                2 * self.information.maximum_number_of_io_queue_pairs as int + 1,
                4 * pow2(self.doorbell_stride as nat) as int,
            );
            vstd::arithmetic::mul::lemma_mul_is_commutative(
                2 * queue_id.0 as int + 1,
                4 * pow2(self.doorbell_stride as nat) as int,
            );
            vstd::arithmetic::mul::lemma_mul_is_commutative(
                2 * self.information.maximum_number_of_io_queue_pairs as int + 1,
                4 * pow2(self.doorbell_stride as nat) as int,
            );
            vstd::arithmetic::mul::lemma_mul_inequality(
                2 * queue_id.0 as int,
                2 * self.information.maximum_number_of_io_queue_pairs as int + 1,
                4 * pow2(self.doorbell_stride as nat) as int,
            );
            vstd::arithmetic::mul::lemma_mul_is_commutative(
                2 * queue_id.0 as int,
                4 * pow2(self.doorbell_stride as nat) as int,
            );
        }
        let page_size = self.information.memory_page_size;
        let cq_doorbell = self.address + completion_queue_doorbell_offset(
            queue_id.0,
            self.doorbell_stride,
        );
        let completion_queue = match CompletionQueue::new(
            number_of_queue_entries as usize,
            page_size,
            cq_doorbell,
            &*self.allocator,
        ) {
            Ok(q) => q,
            Err(e) => {
                return Err(e);
            },
        };
        let create_cq = NvmeCommand::create_io_completion_queue(
            0,
            queue_id.0,
            completion_queue.get_addr(),
            (number_of_queue_entries - 1) as u16,
        );
        match self.admin_queue_pair.submit_and_complete(create_cq) {
            Ok(_) => {},
            Err(e) => {
                return Err(e);
            },
        }
        let sq_doorbell = self.address + submission_queue_doorbell_offset(
            queue_id.0,
            self.doorbell_stride,
        );
        let submission_queue = match SubmissionQueue::new(
            number_of_queue_entries as usize,
            page_size,
            sq_doorbell,
            &*self.allocator,
        ) {
            Ok(q) => q,
            Err(e) => {
                return Err(e);
            },
        };
        let create_sq = NvmeCommand::create_io_submission_queue(
            0,
            queue_id.0,
            submission_queue.get_addr(),
            (number_of_queue_entries - 1) as u16,
            queue_id.0,
        );
        match self.admin_queue_pair.submit_and_complete(create_sq) {
            Ok(_) => {},
            Err(e) => {
                return Err(e);
            },
        }
        let io_queue_pair = IoQueuePair {
            id: queue_id,
            submission: submission_queue,
            completion: completion_queue,
            page_size,
            maximum_transfer_size: self.information.maximum_transfer_size,
            allocator: share_allocator(&self.allocator),
            namespace,
            device_address: self.address,
            doorbell_stride: self.doorbell_stride,
            prp_containers: Vec::new(),
        };
        self.io_queue_pair_ids.push(queue_id);
        proof {
            let pre = old(self).admin_queue_pair;
            let t0 = pre.submission.tail as int;
            let len = pre.submission.len as int;
            let t1 = (t0 + 1) % len;
            if t0 + 1 < len {
                vstd::arithmetic::div_mod::lemma_small_mod((t0 + 1) as nat, len as nat);
            } else {
                vstd::arithmetic::div_mod::lemma_mod_self_0(len);
            }
            assert(t0 != t1);
            let s_now = self.admin_queue_pair.submission.slots@;
            assert(s_now =~= pre.submission.slots@.update(t0, s_now[t0]).update(t1, s_now[t1]));
            let ids = self.io_queue_pair_ids@;
            assert forall|a: int, b: int| 0 <= a < b < ids.len() implies ids[a] != ids[b] by {
                if b == ids.len() - 1 {
                    assert(ids[a] == old(self).io_queue_pair_ids@[a]);
                    if ids[a] == queue_id {
                        assert(old(self).io_queue_pair_ids@.contains(queue_id));
                    }
                } else {
                    assert(ids[a] == old(self).io_queue_pair_ids@[a]);
                    assert(ids[b] == old(self).io_queue_pair_ids@[b]);
                }
            }
        }
        Ok(io_queue_pair)
    }

    /// Delete a live I/O queue pair: take its identifier out of the live set,
    /// then ask the device to delete first the submission queue and then the
    /// completion queue, whose completions must then already be pending. An
    /// identifier that is not live is refused without a command.
    #[verifier::rlimit(50)]
    #[verifier::spinoff_prover]
    pub fn delete_io_queue_pair(&mut self, queue_pair: IoQueuePair<A>) -> (r: Result<(), Error>)
        requires
            old(self).wf(),
            // The admin completions need to be pending only for a live
            // identifier; an unknown one is refused without a command.
            old(self).spec_contains_queue_id(queue_pair.id) ==> admin_completion_pending(
                *old(self),
            ) && admin_second_completion_pending(*old(self)),
        ensures
            final(self).wf(),
            device_fields_fixed(*old(self), *final(self)),
            ((!old(self).spec_contains_queue_id(queue_pair.id)) <==> r == Err::<(), Error>(
                Error::IoQueuePairDoesNotExist(queue_pair.id),
            )),
            (!old(self).spec_contains_queue_id(queue_pair.id) ==> *final(self) == *old(self)),
            (old(self).spec_contains_queue_id(queue_pair.id) ==> {
                let pre = old(self).admin_queue_pair;
                let t0 = pre.submission.tail as int;
                let len = pre.submission.len as int;
                let t1 = (t0 + 1) % len;
                let s = final(self).admin_queue_pair.submission.slots@;
                let e0 = pre.completion.slots@[pre.completion.head as int];
                let step1 = ring_step(
                    pre.completion.head as int,
                    pre.completion.phase,
                    pre.completion.len as int,
                );
                let e1 = pre.completion.slots@[step1.0];
                &&& !final(self).spec_contains_queue_id(queue_pair.id)
                &&& (forall|q: IoQueuePairId|
                    q != queue_pair.id ==> (final(self).spec_contains_queue_id(q) <==> old(
                        self,
                    ).spec_contains_queue_id(q)))
                &&& final(self).io_queue_pair_ids@.len() == old(self).io_queue_pair_ids@.len() - 1
                // Delete SQ is always posted at the old tail.
                &&& s[t0].opcode == 0 && s[t0].command_id == t0 as u16 && s[t0].cdw10
                    == queue_pair.id.0 as u32
                // A failed first completion ends the sequence there.
                &&& (e0.status >> 1u16 != 0 ==> {
                    &&& r == Err::<(), Error>(Error::IoCompletionQueueFailure(e0.status >> 1u16))
                    &&& s == pre.submission.slots@.update(t0, s[t0])
                    &&& final(self).admin_queue_pair.submission.tail as int == t1
                    &&& (final(self).admin_queue_pair.completion.head as int,
                    final(self).admin_queue_pair.completion.phase) == step1
                })
                // Otherwise Delete CQ follows, and its status decides.
                &&& (e0.status >> 1u16 == 0 ==> {
                    &&& s == pre.submission.slots@.update(t0, s[t0]).update(t1, s[t1])
                    &&& s[t1].opcode == 4 && s[t1].command_id == t1 as u16 && s[t1].cdw10
                        == queue_pair.id.0 as u32
                    &&& final(self).admin_queue_pair.submission.tail as int == (t1 + 1) % len
                    &&& (final(self).admin_queue_pair.completion.head as int,
                    final(self).admin_queue_pair.completion.phase) == ring_step(
                        step1.0,
                        step1.1,
                        pre.completion.len as int,
                    )
                    &&& (e1.status >> 1u16 != 0 ==> r == Err::<(), Error>(
                        Error::IoCompletionQueueFailure(e1.status >> 1u16),
                    ))
                    &&& (e1.status >> 1u16 == 0 ==> r == Ok::<(), Error>(()))
                })
            }),
    {
        let mut index: usize = 0;
        let mut found = false;
        while index < self.io_queue_pair_ids.len()
            invariant_except_break
                !found,
            invariant
                index <= self.io_queue_pair_ids@.len(),
                found ==> index < self.io_queue_pair_ids@.len()
                    && self.io_queue_pair_ids@[index as int] == queue_pair.id,
                !found ==> (forall|t: int|
                    0 <= t < index ==> (#[trigger] self.io_queue_pair_ids@[t]).0
                        != queue_pair.id.0),
            ensures
                found ==> index < self.io_queue_pair_ids@.len()
                    && self.io_queue_pair_ids@[index as int] == queue_pair.id,
                !found ==> !self.spec_contains_queue_id(queue_pair.id),
            decreases self.io_queue_pair_ids@.len() - index,
        {
            if self.io_queue_pair_ids[index].0 == queue_pair.id.0 {
                found = true;
                break ;
            }
            index += 1;
        }
        if !found {
            return Err(Error::IoQueuePairDoesNotExist(queue_pair.id));
        }
        let _removed = self.io_queue_pair_ids.remove(index);
        proof {
            let pre_ids = old(self).io_queue_pair_ids@;
            let ids = self.io_queue_pair_ids@;
            assert forall|q: IoQueuePairId|
                q != queue_pair.id implies (self.spec_contains_queue_id(q) <==> old(
                self,
            ).spec_contains_queue_id(q)) by {
                if pre_ids.contains(q) {
                    let t = choose|t: int| 0 <= t < pre_ids.len() && pre_ids[t] == q;
                    if t < index {
                        assert(ids[t] == q);
                    } else {
                        assert(ids[t - 1] == q);
                    }
                }
                if ids.contains(q) {
                    let t = choose|t: int| 0 <= t < ids.len() && ids[t] == q;
                    if t < index {
                        assert(pre_ids[t] == q);
                    } else {
                        assert(pre_ids[t + 1] == q);
                    }
                }
            }
            assert(!self.spec_contains_queue_id(queue_pair.id)) by {
                if self.spec_contains_queue_id(queue_pair.id) {
                    let t = choose|t: int| 0 <= t < ids.len() && ids[t] == queue_pair.id;
                    if t < index {
                        assert(pre_ids[t] == queue_pair.id);
                    } else {
                        assert(pre_ids[t + 1] == queue_pair.id);
                    }
                }
            }
        }
        let delete_sq = NvmeCommand::delete_io_submission_queue(0, queue_pair.id.0);
        match self.admin_queue_pair.submit_and_complete(delete_sq) {
            Ok(_) => {},
            Err(e) => {
                proof {
                    let pre = old(self).admin_queue_pair;
                    let t0 = pre.submission.tail as int;
                    let s_now = self.admin_queue_pair.submission.slots@;
                    assert(s_now =~= pre.submission.slots@.update(t0, s_now[t0]));
                }
                return Err(e);
            },
        }
        let delete_cq = NvmeCommand::delete_io_completion_queue(0, queue_pair.id.0);
        let second = self.admin_queue_pair.submit_and_complete(delete_cq);
        proof {
            let pre = old(self).admin_queue_pair;
            let t0 = pre.submission.tail as int;
            let len = pre.submission.len as int;
            if t0 + 1 < len {
                vstd::arithmetic::div_mod::lemma_small_mod((t0 + 1) as nat, len as nat);
            } else {
                vstd::arithmetic::div_mod::lemma_mod_self_0(len);
            }
            let t1 = (t0 + 1) % len;
            let s_now = self.admin_queue_pair.submission.slots@;
            assert(s_now =~= pre.submission.slots@.update(t0, s_now[t0]).update(t1, s_now[t1]));
        }
        match second {
            Ok(_) => {},
            Err(e) => {
                return Err(e);
            },
        }
        Ok(())
    }

    /// Format the named namespace, or all namespaces under the broadcast
    /// identifier when none is named. The admin completion must already be
    /// pending; a namespace the device does not know is its to refuse.
    pub fn clear_namespace(&mut self, namespace_id_option: Option<NamespaceId>) -> (r: Result<
        (),
        Error,
    >)
        requires
            old(self).wf(),
            admin_completion_pending(*old(self)),
        ensures
            final(self).wf(),
            device_fields_fixed(*old(self), *final(self)),
            final(self).io_queue_pair_ids == old(self).io_queue_pair_ids,
            ({
                let pre = old(self).admin_queue_pair;
                let t0 = pre.submission.tail as int;
                let s = final(self).admin_queue_pair.submission.slots@;
                let target = (match namespace_id_option {
                    Some(id) => id.0,
                    None => 0xFFFF_FFFFu32,
                });
                let entry = pre.completion.slots@[pre.completion.head as int];
                &&& s == pre.submission.slots@.update(t0, s[t0])
                &&& s[t0].opcode == 0x80 && s[t0].command_id == t0 as u16 && s[t0].namespace_id
                    == target && s[t0].cdw10 == (1u32 << 9u32)
                &&& final(self).admin_queue_pair.submission.tail as int == (t0 + 1) % (
                pre.submission.len as int)
                &&& (entry.status >> 1u16 == 0 ==> r is Ok)
                &&& (entry.status >> 1u16 != 0 ==> r == Err::<(), Error>(
                    Error::IoCompletionQueueFailure(entry.status >> 1u16),
                ))
            }),
    {
        let namespace_id = match namespace_id_option {
            Some(id) => id,
            None => NamespaceId(0xFFFF_FFFF),
        };
        let format = NvmeCommand::format_nvm(0, namespace_id.0);
        let result = self.admin_queue_pair.submit_and_complete(format);
        proof {
            let pre = old(self).admin_queue_pair;
            let t0 = pre.submission.tail as int;
            let s_now = self.admin_queue_pair.submission.slots@;
            assert(s_now =~= pre.submission.slots@.update(t0, s_now[t0]));
        }
        match result {
            Ok(_) => Ok(()),
            Err(e) => Err(e),
        }
    }

    /// Surrender the controller: return the admin rings and the scratch
    /// buffer to the allocator. The register side of an orderly shutdown -
    /// requesting SHN and polling SHST - belongs to the owner of the register
    /// window, which performs it before calling here.
    pub fn shutdown(self) -> (r: Result<(), Error>)
        ensures
            (r matches Err(e) ==> e is Deallocate),
    {
        let NvmeDevice {
            allocator,
            address: _,
            length: _,
            doorbell_stride: _,
            admin_queue_pair,
            io_queue_pair_ids: _,
            information: _,
            namespaces: _,
            buffer,
        } = self;
        let AdminQueuePair { submission, completion } = admin_queue_pair;
        match buffer.deallocate(&*allocator) {
            Ok(()) => {},
            Err(e) => {
                return Err(e);
            },
        }
        match submission.dma.deallocate(&*allocator) {
            Ok(()) => {},
            Err(e) => {
                return Err(e);
            },
        }
        match completion.dma.deallocate(&*allocator) {
            Ok(()) => {},
            Err(e) => {
                return Err(e);
            },
        }
        Ok(())
    }
}

/// Is a completion pending at the admin completion ring's head?
pub open spec fn admin_completion_pending<A: Allocator>(d: NvmeDevice<A>) -> bool {
    let cq = d.admin_queue_pair.completion;
    crate::queues::phase_matches(cq.slots@[cq.head as int].status, cq.phase)
}

/// Will a completion be pending after the first admin completion of a
/// two-command sequence is reaped with a zero status?
pub open spec fn admin_second_completion_pending<A: Allocator>(d: NvmeDevice<A>) -> bool {
    let cq = d.admin_queue_pair.completion;
    let stepped = ring_step(cq.head as int, cq.phase, cq.len as int);
    cq.slots@[cq.head as int].status >> 1u16 == 0 ==> crate::queues::phase_matches(
        cq.slots@[stepped.0].status,
        stepped.1,
    )
}

/// The device fields that queue-pair management never moves.
pub open spec fn device_fields_fixed<A: Allocator>(pre: NvmeDevice<A>, post: NvmeDevice<A>) -> bool {
    &&& post.allocator == pre.allocator
    &&& post.address == pre.address
    &&& post.length == pre.length
    &&& post.doorbell_stride == pre.doorbell_stride
    &&& post.information == pre.information
    &&& post.namespaces == pre.namespaces
    &&& post.buffer == pre.buffer
    &&& post.admin_queue_pair.submission.len == pre.admin_queue_pair.submission.len
    &&& post.admin_queue_pair.completion.len == pre.admin_queue_pair.completion.len
    &&& post.admin_queue_pair.submission.dma == pre.admin_queue_pair.submission.dma
    &&& post.admin_queue_pair.completion.dma == pre.admin_queue_pair.completion.dma
}

/// Creating an I/O queue pair and then deleting it restores the set of live
/// queue pair identifiers, as `create_io_queue_pair` and
/// `delete_io_queue_pair` describe their effects on it.
pub proof fn lemma_create_then_delete_restores_live_set<A: Allocator>(
    before: NvmeDevice<A>,
    created: NvmeDevice<A>,
    after: NvmeDevice<A>,
    id: IoQueuePairId,
)
    requires
        !before.spec_contains_queue_id(id),
        created.io_queue_pair_ids@ == before.io_queue_pair_ids@.push(id),
        !after.spec_contains_queue_id(id),
        forall|q: IoQueuePairId|
            q != id ==> (after.spec_contains_queue_id(q) <==> created.spec_contains_queue_id(q)),
    ensures
        forall|q: IoQueuePairId|
            #[trigger] after.spec_contains_queue_id(q) <==> before.spec_contains_queue_id(q),
{
    assert forall|q: IoQueuePairId|
        #[trigger] after.spec_contains_queue_id(q) <==> before.spec_contains_queue_id(q) by {
        if q == id {
            if before.spec_contains_queue_id(q) {
            }
        } else {
            if created.spec_contains_queue_id(q) {
                let t = choose|t: int|
                    0 <= t < created.io_queue_pair_ids@.len() && created.io_queue_pair_ids@[t]
                        == q;
                if t < before.io_queue_pair_ids@.len() {
                    assert(before.io_queue_pair_ids@[t] == q);
                }
            }
            if before.spec_contains_queue_id(q) {
                let t = choose|t: int|
                    0 <= t < before.io_queue_pair_ids@.len() && before.io_queue_pair_ids@[t] == q;
                assert(created.io_queue_pair_ids@[t] == q);
            }
        }
    }
}

/// Relies on Arc::clone: the returned handle shares the same allocator.
#[verifier::external_body]
fn share_allocator<A: Allocator>(allocator: &Arc<A>) -> (r: Arc<A>)
    ensures
        r == *allocator,
{
    allocator.clone()
}

} // verus!
