//! A user-space NVMe block driver core, verified with Verus.
//!
//! The crate holds the protocol logic of the driver: the 64-byte command
//! encodings, the submission/completion ring protocol with its phase tag, the
//! physical region page (PRP) construction for DMA buffers, the admin and I/O
//! queue pairs with their in-flight bookkeeping, and the controller
//! lifecycle: capability decoding, validation, identify parsing, and the
//! queue-pair catalog.
//!
//! Everything the hardware side needs - volatile register access, doorbell
//! stores, PCI bring-up and hugepage-backed DMA memory - stays outside; the
//! library computes the exact register values, byte images and doorbell
//! offsets, and models ring memory as data that the outside party mirrors
//! into and out of the device-visible regions.

pub mod cmd;
pub mod dma;
pub mod error;
pub mod nvme;
pub mod prp;
pub mod queue_pairs;
pub mod queues;

pub use dma::{Allocator, Dma};
pub use error::Error;
pub use nvme::{ControllerInformation, Namespace, NamespaceId, NvmeDevice};
pub use queue_pairs::{IoQueuePair, IoQueuePairId};
