use vstd::prelude::*;

verus! {

use vstd::bytes::{
    spec_u16_to_le_bytes, spec_u32_to_le_bytes, spec_u64_to_le_bytes, u16_to_le_bytes,
    u32_to_le_bytes, u64_to_le_bytes,
};

/// One submission queue entry: the fixed 64-byte command layout.
///
/// `data_pointer` holds PRP1 and PRP2; command dwords 10 to 15 carry the
/// opcode-specific fields.
#[derive(Debug, Clone, Copy, PartialEq, Eq)]
pub struct NvmeCommand {
    pub opcode: u8,
    /// FUSE (2 bits) | reserved (4 bits) | PSDT (2 bits)
    pub flags: u8,
    pub command_id: u16,
    pub namespace_id: u32,
    pub reserved: u64,
    pub metadata_pointer: u64,
    pub data_pointer: [u64; 2],
    pub cdw10: u32,
    pub cdw11: u32,
    pub cdw12: u32,
    pub cdw13: u32,
    pub cdw14: u32,
    pub cdw15: u32,
}

/// Feature selector (SEL) of the Get Features command.
#[derive(Debug, Clone, Copy)]
pub enum Select {
    Current,
    Default,
    Saved,
    SupportedCapabilites,
}

impl Select {
    /// The SEL field value placed in command dword 10, bits 13:11.
    pub fn value(&self) -> (r: u32)
        ensures
            r == self.spec_value(),
            r < 4,
    {
        match self {
            Select::Current => 0,
            Select::Default => 1,
            Select::Saved => 2,
            Select::SupportedCapabilites => 3,
        }
    }

    pub open spec fn spec_value(&self) -> u32 {
        match self {
            Select::Current => 0,
            Select::Default => 1,
            Select::Saved => 2,
            Select::SupportedCapabilites => 3,
        }
    }
}

/// Feature identifier (FID) of the Get Features command.
#[derive(Debug, Clone, Copy)]
pub enum FeatureIdentifier {
    Arbitration,
    PowerManagement,
    TemperatureThreshold,
    VolatileWriteCache,
    NumberOfQueues,
    InterruptCoalescing,
    InterruptVectorConfiguration,
    AsynchronousEventConfiguration,
    AutonomousPowerStateTransition,
    HostMemoryBuffer,
    Timestamp,
    KeepAliveTimer,
    HostControlledThermalManagement,
    NonOperationalPowerStateConfig,
}

impl FeatureIdentifier {
    /// The FID field value placed in command dword 10, bits 7:0.
    pub fn value(&self) -> (r: u32)
        ensures
            r == self.spec_value(),
            r < 0x100,
    {
        match self {
            FeatureIdentifier::Arbitration => 0x1,
            FeatureIdentifier::PowerManagement => 0x2,
            FeatureIdentifier::TemperatureThreshold => 0x4,
            FeatureIdentifier::VolatileWriteCache => 0x6,
            FeatureIdentifier::NumberOfQueues => 0x7,
            FeatureIdentifier::InterruptCoalescing => 0x8,
            FeatureIdentifier::InterruptVectorConfiguration => 0x9,
            FeatureIdentifier::AsynchronousEventConfiguration => 0xB,
            FeatureIdentifier::AutonomousPowerStateTransition => 0xC,
            FeatureIdentifier::HostMemoryBuffer => 0xD,
            FeatureIdentifier::Timestamp => 0xE,
            FeatureIdentifier::KeepAliveTimer => 0xF,
            FeatureIdentifier::HostControlledThermalManagement => 0x10,
            FeatureIdentifier::NonOperationalPowerStateConfig => 0x11,
        }
    }

    pub open spec fn spec_value(&self) -> u32 {
        match self {
            FeatureIdentifier::Arbitration => 0x1,
            FeatureIdentifier::PowerManagement => 0x2,
            FeatureIdentifier::TemperatureThreshold => 0x4,
            FeatureIdentifier::VolatileWriteCache => 0x6,
            FeatureIdentifier::NumberOfQueues => 0x7,
            FeatureIdentifier::InterruptCoalescing => 0x8,
            FeatureIdentifier::InterruptVectorConfiguration => 0x9,
            FeatureIdentifier::AsynchronousEventConfiguration => 0xB,
            FeatureIdentifier::AutonomousPowerStateTransition => 0xC,
            FeatureIdentifier::HostMemoryBuffer => 0xD,
            FeatureIdentifier::Timestamp => 0xE,
            FeatureIdentifier::KeepAliveTimer => 0xF,
            FeatureIdentifier::HostControlledThermalManagement => 0x10,
            FeatureIdentifier::NonOperationalPowerStateConfig => 0x11,
        }
    }
}

/// The all-zero command; freshly allocated submission queue slots hold it.
pub open spec fn zero_command() -> NvmeCommand {
    NvmeCommand {
        opcode: 0,
        flags: 0,
        command_id: 0,
        namespace_id: 0,
        reserved: 0,
        metadata_pointer: 0,
        data_pointer: [0u64, 0u64],
        cdw10: 0,
        cdw11: 0,
        cdw12: 0,
        cdw13: 0,
        cdw14: 0,
        cdw15: 0,
    }
}

impl NvmeCommand {
    /// The all-zero command; freshly allocated submission queue slots hold it.
    pub fn zeroed() -> (r: Self)
        ensures
            r == zero_command(),
    {
        NvmeCommand {
            opcode: 0,
            flags: 0,
            command_id: 0,
            namespace_id: 0,
            reserved: 0,
            metadata_pointer: 0,
            data_pointer: [0u64, 0u64],
            cdw10: 0,
            cdw11: 0,
            cdw12: 0,
            cdw13: 0,
            cdw14: 0,
            cdw15: 0,
        }
    }

    /// Create I/O Completion Queue: dword 10 holds the 0-based queue size in
    /// its high half and the queue identifier in its low half; dword 11 bit 0
    /// marks the queue physically contiguous.
    pub fn create_io_completion_queue(
        command_id: u16,
        queue_id: u16,
        data_pointer: usize,
        size: u16,
    ) -> (r: Self)
        ensures
            r == (NvmeCommand {
                opcode: 5,
                flags: 0,
                command_id,
                namespace_id: 0,
                reserved: 0,
                metadata_pointer: 0,
                data_pointer: [data_pointer as u64, 0u64],
                cdw10: ((size as u32) << 16u32) | (queue_id as u32),
                cdw11: 1,
                cdw12: 0,
                cdw13: 0,
                cdw14: 0,
                cdw15: 0,
            }),
    {
        NvmeCommand {
            opcode: 5,
            flags: 0,
            command_id,
            namespace_id: 0,
            reserved: 0,
            metadata_pointer: 0,
            data_pointer: [data_pointer as u64, 0u64],
            cdw10: ((size as u32) << 16u32) | (queue_id as u32),
            cdw11: 1,
            cdw12: 0,
            cdw13: 0,
            cdw14: 0,
            cdw15: 0,
        }
    }

    /// Create I/O Submission Queue: dword 10 as for the completion queue;
    /// dword 11 holds the bound completion queue identifier in its high half
    /// and marks the queue physically contiguous in bit 0.
    pub fn create_io_submission_queue(
        command_id: u16,
        submission_queue_id: u16,
        data_pointer: usize,
        size: u16,
        completion_queue_id: u16,
    ) -> (r: Self)
        ensures
            r == (NvmeCommand {
                opcode: 1,
                flags: 0,
                command_id,
                namespace_id: 0,
                reserved: 0,
                metadata_pointer: 0,
                data_pointer: [data_pointer as u64, 0u64],
                cdw10: ((size as u32) << 16u32) | (submission_queue_id as u32),
                cdw11: ((completion_queue_id as u32) << 16u32) | 1u32,
                cdw12: 0,
                cdw13: 0,
                cdw14: 0,
                cdw15: 0,
            }),
    {
        NvmeCommand {
            opcode: 1,
            flags: 0,
            command_id,
            namespace_id: 0,
            reserved: 0,
            metadata_pointer: 0,
            data_pointer: [data_pointer as u64, 0u64],
            cdw10: ((size as u32) << 16u32) | (submission_queue_id as u32),
            cdw11: ((completion_queue_id as u32) << 16u32) | 1u32,
            cdw12: 0,
            cdw13: 0,
            cdw14: 0,
            cdw15: 0,
        }
    }

    /// Delete I/O Submission Queue: dword 10 holds the queue identifier.
    pub fn delete_io_submission_queue(command_id: u16, queue_id: u16) -> (r: Self)
        ensures
            r == (NvmeCommand {
                opcode: 0,
                flags: 0,
                command_id,
                namespace_id: 0,
                reserved: 0,
                metadata_pointer: 0,
                data_pointer: [0u64, 0u64],
                cdw10: queue_id as u32,
                cdw11: 0,
                cdw12: 0,
                cdw13: 0,
                cdw14: 0,
                cdw15: 0,
            }),
    {
        NvmeCommand {
            opcode: 0,
            flags: 0,
            command_id,
            namespace_id: 0,
            reserved: 0,
            metadata_pointer: 0,
            data_pointer: [0u64, 0u64],
            cdw10: queue_id as u32,
            cdw11: 0,
            cdw12: 0,
            cdw13: 0,
            cdw14: 0,
            cdw15: 0,
        }
    }

    /// Delete I/O Completion Queue: dword 10 holds the queue identifier.
    pub fn delete_io_completion_queue(command_id: u16, queue_id: u16) -> (r: Self)
        ensures
            r == (NvmeCommand {
                opcode: 4,
                flags: 0,
                command_id,
                namespace_id: 0,
                reserved: 0,
                metadata_pointer: 0,
                data_pointer: [0u64, 0u64],
                cdw10: queue_id as u32,
                cdw11: 0,
                cdw12: 0,
                cdw13: 0,
                cdw14: 0,
                cdw15: 0,
            }),
    {
        NvmeCommand {
            opcode: 4,
            flags: 0,
            command_id,
            namespace_id: 0,
            reserved: 0,
            metadata_pointer: 0,
            data_pointer: [0u64, 0u64],
            cdw10: queue_id as u32,
            cdw11: 0,
            cdw12: 0,
            cdw13: 0,
            cdw14: 0,
            cdw15: 0,
        }
    }

    /// Identify, CNS 0: identify the namespace given in the namespace field.
    pub fn identify_namespace(command_id: u16, data_pointer: usize, namespace_id: u32) -> (r: Self)
        ensures
            r == (NvmeCommand {
                opcode: 6,
                flags: 0,
                command_id,
                namespace_id,
                reserved: 0,
                metadata_pointer: 0,
                data_pointer: [data_pointer as u64, 0u64],
                cdw10: 0,
                cdw11: 0,
                cdw12: 0,
                cdw13: 0,
                cdw14: 0,
                cdw15: 0,
            }),
    {
        NvmeCommand {
            opcode: 6,
            flags: 0,
            command_id,
            namespace_id,
            reserved: 0,
            metadata_pointer: 0,
            data_pointer: [data_pointer as u64, 0u64],
            cdw10: 0,
            cdw11: 0,
            cdw12: 0,
            cdw13: 0,
            cdw14: 0,
            cdw15: 0,
        }
    }

    /// Identify, CNS 1: identify the controller.
    pub fn identify_controller(command_id: u16, data_pointer: usize) -> (r: Self)
        ensures
            r == (NvmeCommand {
                opcode: 6,
                flags: 0,
                command_id,
                namespace_id: 0,
                reserved: 0,
                metadata_pointer: 0,
                data_pointer: [data_pointer as u64, 0u64],
                cdw10: 1,
                cdw11: 0,
                cdw12: 0,
                cdw13: 0,
                cdw14: 0,
                cdw15: 0,
            }),
    {
        NvmeCommand {
            opcode: 6,
            flags: 0,
            command_id,
            namespace_id: 0,
            reserved: 0,
            metadata_pointer: 0,
            data_pointer: [data_pointer as u64, 0u64],
            cdw10: 1,
            cdw11: 0,
            cdw12: 0,
            cdw13: 0,
            cdw14: 0,
            cdw15: 0,
        }
    }

    /// Identify, CNS 2: list active namespace identifiers above `base`.
    pub fn identify_namespace_list(command_id: u16, data_pointer: usize, base: u32) -> (r: Self)
        ensures
            r == (NvmeCommand {
                opcode: 6,
                flags: 0,
                command_id,
                namespace_id: base,
                reserved: 0,
                metadata_pointer: 0,
                data_pointer: [data_pointer as u64, 0u64],
                cdw10: 2,
                cdw11: 0,
                cdw12: 0,
                cdw13: 0,
                cdw14: 0,
                cdw15: 0,
            }),
    {
        NvmeCommand {
            opcode: 6,
            flags: 0,
            command_id,
            namespace_id: base,
            reserved: 0,
            metadata_pointer: 0,
            data_pointer: [data_pointer as u64, 0u64],
            cdw10: 2,
            cdw11: 0,
            cdw12: 0,
            cdw13: 0,
            cdw14: 0,
            cdw15: 0,
        }
    }

    /// Get Features: dword 10 holds SEL in bits 13:11 and FID in bits 7:0.
    /// The command identifier is left zero; the admin queue pair assigns it
    /// when the command is submitted.
    pub fn get_features(
        _command_id: u16,
        data_pointer: usize,
        feature_id: FeatureIdentifier,
        select: Select,
    ) -> (r: Self)
        ensures
            r == (NvmeCommand {
                opcode: 0xA,
                flags: 0,
                command_id: 0,
                namespace_id: 0,
                reserved: 0,
                metadata_pointer: 0,
                data_pointer: [data_pointer as u64, 0u64],
                cdw10: (select.spec_value() << 11u32) | feature_id.spec_value(),
                cdw11: 0,
                cdw12: 0,
                cdw13: 0,
                cdw14: 0,
                cdw15: 0,
            }),
    {
        NvmeCommand {
            opcode: 0xA,
            flags: 0,
            command_id: 0,
            namespace_id: 0,
            reserved: 0,
            metadata_pointer: 0,
            data_pointer: [data_pointer as u64, 0u64],
            cdw10: (select.value() << 11u32) | feature_id.value(),
            cdw11: 0,
            cdw12: 0,
            cdw13: 0,
            cdw14: 0,
            cdw15: 0,
        }
    }

    /// Read: dwords 10 and 11 hold the starting logical block address, dword
    /// 12 the 0-based number of blocks; the data pointer holds PRP1 and PRP2.
    pub fn io_read(
        command_id: u16,
        namespace_id: u32,
        logical_block_address: u64,
        number_of_blocks: u16,
        prp_1: u64,
        prp_2: u64,
    ) -> (r: Self)
        ensures
            r == (NvmeCommand {
                opcode: 2,
                flags: 0,
                command_id,
                namespace_id,
                reserved: 0,
                metadata_pointer: 0,
                data_pointer: [prp_1, prp_2],
                cdw10: logical_block_address as u32,
                cdw11: (logical_block_address >> 32u64) as u32,
                cdw12: number_of_blocks as u32,
                cdw13: 0,
                cdw14: 0,
                cdw15: 0,
            }),
    {
        NvmeCommand {
            opcode: 2,
            flags: 0,
            command_id,
            namespace_id,
            reserved: 0,
            metadata_pointer: 0,
            data_pointer: [prp_1, prp_2],
            cdw10: logical_block_address as u32,
            cdw11: (logical_block_address >> 32u64) as u32,
            cdw12: number_of_blocks as u32,
            cdw13: 0,
            cdw14: 0,
            cdw15: 0,
        }
    }

    /// Write: the same layout as Read under opcode 1.
    pub fn io_write(
        command_id: u16,
        namespace_id: u32,
        logical_block_address: u64,
        number_of_blocks: u16,
        prp_1: u64,
        prp_2: u64,
    ) -> (r: Self)
        ensures
            r == (NvmeCommand {
                opcode: 1,
                flags: 0,
                command_id,
                namespace_id,
                reserved: 0,
                metadata_pointer: 0,
                data_pointer: [prp_1, prp_2],
                cdw10: logical_block_address as u32,
                cdw11: (logical_block_address >> 32u64) as u32,
                cdw12: number_of_blocks as u32,
                cdw13: 0,
                cdw14: 0,
                cdw15: 0,
            }),
    {
        NvmeCommand {
            opcode: 1,
            flags: 0,
            command_id,
            namespace_id,
            reserved: 0,
            metadata_pointer: 0,
            data_pointer: [prp_1, prp_2],
            cdw10: logical_block_address as u32,
            cdw11: (logical_block_address >> 32u64) as u32,
            cdw12: number_of_blocks as u32,
            cdw13: 0,
            cdw14: 0,
            cdw15: 0,
        }
    }

    /// Format NVM without metadata: dword 10 bit 9 selects the variant that
    /// keeps no protection information.
    pub fn format_nvm(command_id: u16, namespace_id: u32) -> (r: Self)
        ensures
            r == (NvmeCommand {
                opcode: 0x80,
                flags: 0,
                command_id,
                namespace_id,
                reserved: 0,
                metadata_pointer: 0,
                data_pointer: [0u64, 0u64],
                cdw10: 1u32 << 9u32,
                cdw11: 0,
                cdw12: 0,
                cdw13: 0,
                cdw14: 0,
                cdw15: 0,
            }),
    {
        NvmeCommand {
            opcode: 0x80,
            flags: 0,
            command_id,
            namespace_id,
            reserved: 0,
            metadata_pointer: 0,
            data_pointer: [0u64, 0u64],
            cdw10: 1u32 << 9u32,
            cdw11: 0,
            cdw12: 0,
            cdw13: 0,
            cdw14: 0,
            cdw15: 0,
        }
    }

    /// Asynchronous Event Request: carries nothing besides the opcode and the
    /// command identifier.
    pub fn async_event_req(command_id: u16) -> (r: Self)
        ensures
            r == (NvmeCommand {
                opcode: 0xC,
                flags: 0,
                command_id,
                namespace_id: 0,
                reserved: 0,
                metadata_pointer: 0,
                data_pointer: [0u64, 0u64],
                cdw10: 0,
                cdw11: 0,
                cdw12: 0,
                cdw13: 0,
                cdw14: 0,
                cdw15: 0,
            }),
    {
        NvmeCommand {
            opcode: 0xC,
            flags: 0,
            command_id,
            namespace_id: 0,
            reserved: 0,
            metadata_pointer: 0,
            data_pointer: [0u64, 0u64],
            cdw10: 0,
            cdw11: 0,
            cdw12: 0,
            cdw13: 0,
            cdw14: 0,
            cdw15: 0,
        }
    }

    /// Get Log Page: dword 10 holds the lower dword count and the log page
    /// identifier, dword 11 the log-specific identifier and the upper count.
    pub fn get_log_page(
        command_id: u16,
        numd: u32,
        ptr0: u64,
        ptr1: u64,
        lid: u8,
        lpid: u16,
    ) -> (r: Self)
        ensures
            r == (NvmeCommand {
                opcode: 0,
                flags: 0,
                command_id,
                namespace_id: 0,
                reserved: 0,
                metadata_pointer: 0,
                data_pointer: [ptr0, ptr1],
                cdw10: (numd << 16u32) | (lid as u32),
                cdw11: ((lpid as u32) << 16u32) | (numd >> 16u32),
                cdw12: 0,
                cdw13: 0,
                cdw14: 0,
                cdw15: 0,
            }),
    {
        NvmeCommand {
            opcode: 0,
            flags: 0,
            command_id,
            namespace_id: 0,
            reserved: 0,
            metadata_pointer: 0,
            data_pointer: [ptr0, ptr1],
            cdw10: (numd << 16u32) | (lid as u32),
            cdw11: ((lpid as u32) << 16u32) | (numd >> 16u32),
            cdw12: 0,
            cdw13: 0,
            cdw14: 0,
            cdw15: 0,
        }
    }

    /// Write Zeroes: dwords 10 and 11 hold the starting logical block
    /// address; dword 12 holds the deallocate bit and the 0-based block count.
    pub fn write_zeroes(
        command_id: u16,
        namespace_id: u32,
        slba: u64,
        nlb: u16,
        deac: bool,
    ) -> (r: Self)
        ensures
            r == (NvmeCommand {
                opcode: 8,
                flags: 0,
                command_id,
                namespace_id,
                reserved: 0,
                metadata_pointer: 0,
                data_pointer: [0u64, 0u64],
                cdw10: slba as u32,
                cdw11: (slba >> 32u64) as u32,
                cdw12: ((if deac { 1u32 } else { 0u32 }) << 25u32) | (nlb as u32),
                cdw13: 0,
                cdw14: 0,
                cdw15: 0,
            }),
    {
        let deac_bit: u32 = if deac { 1 } else { 0 };
        NvmeCommand {
            opcode: 8,
            flags: 0,
            command_id,
            namespace_id,
            reserved: 0,
            metadata_pointer: 0,
            data_pointer: [0u64, 0u64],
            cdw10: slba as u32,
            cdw11: (slba >> 32u64) as u32,
            cdw12: (deac_bit << 25u32) | (nlb as u32),
            cdw13: 0,
            cdw14: 0,
            cdw15: 0,
        }
    }

    /// The 64-byte little-endian wire image of the command: opcode, flags,
    /// command identifier, namespace identifier, 8 reserved bytes, metadata
    /// pointer, PRP1, PRP2, then command dwords 10 to 15.
    pub open spec fn wire_bytes(self) -> Seq<u8> {
        seq![self.opcode, self.flags] + spec_u16_to_le_bytes(self.command_id)
            + spec_u32_to_le_bytes(self.namespace_id) + spec_u64_to_le_bytes(self.reserved)
            + spec_u64_to_le_bytes(self.metadata_pointer) + spec_u64_to_le_bytes(
            self.data_pointer[0],
        ) + spec_u64_to_le_bytes(self.data_pointer[1]) + spec_u32_to_le_bytes(self.cdw10)
            + spec_u32_to_le_bytes(self.cdw11) + spec_u32_to_le_bytes(self.cdw12)
            + spec_u32_to_le_bytes(self.cdw13) + spec_u32_to_le_bytes(self.cdw14)
            + spec_u32_to_le_bytes(self.cdw15)
    }

    /// Encode the command in wire order; the caller stores the bytes into the
    /// submission queue slot the device will read.
    pub fn encode(&self) -> (r: Vec<u8>)
        ensures
            r@ == self.wire_bytes(),
            r@.len() == 64,
    {
        proof {
            vstd::bytes::lemma_auto_spec_u16_to_from_le_bytes();
            vstd::bytes::lemma_auto_spec_u32_to_from_le_bytes();
            vstd::bytes::lemma_auto_spec_u64_to_from_le_bytes();
        }
        let mut r: Vec<u8> = Vec::new();
        r.push(self.opcode);
        r.push(self.flags);
        let mut part = u16_to_le_bytes(self.command_id);
        r.append(&mut part);
        let mut part = u32_to_le_bytes(self.namespace_id);
        r.append(&mut part);
        let mut part = u64_to_le_bytes(self.reserved);
        r.append(&mut part);
        let mut part = u64_to_le_bytes(self.metadata_pointer);
        r.append(&mut part);
        let mut part = u64_to_le_bytes(self.data_pointer[0]);
        r.append(&mut part);
        let mut part = u64_to_le_bytes(self.data_pointer[1]);
        r.append(&mut part);
        let mut part = u32_to_le_bytes(self.cdw10);
        r.append(&mut part);
        let mut part = u32_to_le_bytes(self.cdw11);
        r.append(&mut part);
        let mut part = u32_to_le_bytes(self.cdw12);
        r.append(&mut part);
        let mut part = u32_to_le_bytes(self.cdw13);
        r.append(&mut part);
        let mut part = u32_to_le_bytes(self.cdw14);
        r.append(&mut part);
        let mut part = u32_to_le_bytes(self.cdw15);
        r.append(&mut part);
        proof {
            assert(r@ =~= self.wire_bytes());
        }
        r
    }
}

} // verus!
