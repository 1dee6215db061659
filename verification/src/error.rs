use vstd::prelude::*;

use crate::nvme::NamespaceId;
use crate::queue_pairs::IoQueuePairId;

verus! {

/// Every failure the driver can report.
///
/// Allocator failures carry the allocator's own message; most other variants
/// carry the offending value and, where one applies, the violated limit, so
/// that callers can diagnose a rejection precisely.
#[derive(Debug)]
pub enum Error {
    Allocate(String),
    Deallocate(String),
    TranslateVirtualToPhysical(String),
    Layout(usize, usize),
    NotABlockDevice(String),
    MaximumQueueEntriesSupportedInvalidlyZero,
    NvmCommandSetNotSupported,
    MemoryPageSizeMinimumBiggerThanMaximum(u64, u64),
    PageSizeLessThanNvmeMinimum(usize),
    PageSizeMoreThanNvmeMaximum(usize),
    PageSizeLessThanControllerMinimum(usize, u64),
    PageSizeMoreThanControllerMaximum(usize, u64),
    PageSizeNotAPowerOfTwo(usize),
    ControllerTypeInvalid(String),
    NamespaceDoesNotExist(NamespaceId),
    NumberOfQueueEntriesLessThanTwo(u32),
    NumberOfQueueEntriesMoreThanMaximum(u32, u32),
    MaximumNumberOfQueuesReached,
    IoQueuePairDoesNotExist(IoQueuePairId),
    MemoryAccessOutOfBounds,
    UnixPciError(String),
    NumberOfElementsIsZero,
    VirtualAddressIsNotDwordAligned(usize),
    VirtualAddressIsNotPageAligned(usize),
    BufferLengthBiggerThanMaximumTransferSize(usize, usize),
    BufferLengthNotAMultipleOfNamespaceBlockSize(usize, u64),
    PrpContainerAlreadyExists(u16),
    IoCompletionQueueFailure(u16),
    SubmissionQueueFull,
    CompletionQueueCompletionFailure,
}

impl Error {
    /// A short, fixed description of the failure; the carried values let a
    /// caller render a fuller report.
    pub fn message(&self) -> String {
        match self {
            Error::Allocate(_) => String::from_str("allocation failed"),
            Error::Deallocate(_) => String::from_str("deallocation failed"),
            Error::TranslateVirtualToPhysical(_) => String::from_str(
                "virtual-to-physical translation failed",
            ),
            Error::Layout(_, _) => String::from_str("invalid memory layout"),
            Error::NotABlockDevice(_) => String::from_str(
                "the device at this PCI address is not a block device",
            ),
            Error::MaximumQueueEntriesSupportedInvalidlyZero => String::from_str(
                "the capabilities register invalidly reports zero maximum queue entries",
            ),
            Error::NvmCommandSetNotSupported => String::from_str(
                "the device does not support the NVM command set",
            ),
            Error::MemoryPageSizeMinimumBiggerThanMaximum(_, _) => String::from_str(
                "the controller's minimum memory page size exceeds its maximum",
            ),
            Error::PageSizeLessThanNvmeMinimum(_) => String::from_str(
                "the page size is less than the lowest NVMe minimum of 4 KiB",
            ),
            Error::PageSizeMoreThanNvmeMaximum(_) => String::from_str(
                "the page size is more than the highest NVMe maximum of 128 MiB",
            ),
            Error::PageSizeLessThanControllerMinimum(_, _) => String::from_str(
                "the page size is less than the controller's minimum memory page size",
            ),
            Error::PageSizeMoreThanControllerMaximum(_, _) => String::from_str(
                "the page size is more than the controller's maximum memory page size",
            ),
            Error::PageSizeNotAPowerOfTwo(_) => String::from_str(
                "the page size is not a power of two",
            ),
            Error::ControllerTypeInvalid(_) => String::from_str(
                "the controller is not an I/O controller",
            ),
            Error::NamespaceDoesNotExist(_) => String::from_str("the namespace does not exist"),
            Error::NumberOfQueueEntriesLessThanTwo(_) => String::from_str(
                "the number of queue entries must not be smaller than 2",
            ),
            Error::NumberOfQueueEntriesMoreThanMaximum(_, _) => String::from_str(
                "the number of queue entries exceeds the supported maximum",
            ),
            Error::MaximumNumberOfQueuesReached => String::from_str(
                "the maximum number of queues is reached",
            ),
            Error::IoQueuePairDoesNotExist(_) => String::from_str(
                "the I/O queue pair does not exist",
            ),
            Error::MemoryAccessOutOfBounds => String::from_str("memory access out of bounds"),
            Error::UnixPciError(_) => String::from_str("PCI access failed"),
            Error::NumberOfElementsIsZero => String::from_str(
                "the number of elements must not be zero",
            ),
            Error::VirtualAddressIsNotDwordAligned(_) => String::from_str(
                "the virtual address is not dword aligned",
            ),
            Error::VirtualAddressIsNotPageAligned(_) => String::from_str(
                "the virtual address is not page aligned",
            ),
            Error::BufferLengthBiggerThanMaximumTransferSize(_, _) => String::from_str(
                "the buffer length is bigger than the maximum transfer size",
            ),
            Error::BufferLengthNotAMultipleOfNamespaceBlockSize(_, _) => String::from_str(
                "the buffer length is not a multiple of the namespace block size",
            ),
            Error::PrpContainerAlreadyExists(_) => String::from_str(
                "a PRP container is already recorded under this command identifier",
            ),
            Error::IoCompletionQueueFailure(_) => String::from_str(
                "the device reported a non-zero completion status",
            ),
            Error::SubmissionQueueFull => String::from_str("the submission queue is full"),
            Error::CompletionQueueCompletionFailure => String::from_str(
                "no completion is pending",
            ),
        }
    }
}

} // verus!
