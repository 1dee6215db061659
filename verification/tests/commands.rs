use nvme_driver::cmd::{FeatureIdentifier, NvmeCommand, Select};
use nvme_driver::queues::CompletionQueueEntry;

#[test]
fn create_io_completion_queue_layout() {
    let cmd = NvmeCommand::create_io_completion_queue(7, 3, 0x4000, 31);
    assert_eq!(cmd.opcode, 5);
    assert_eq!(cmd.command_id, 7);
    assert_eq!(cmd.namespace_id, 0);
    assert_eq!(cmd.data_pointer, [0x4000, 0]);
    assert_eq!(cmd.cdw10, (31u32 << 16) | 3);
    assert_eq!(cmd.cdw11, 1);
}

#[test]
fn create_io_submission_queue_layout() {
    let cmd = NvmeCommand::create_io_submission_queue(8, 3, 0x8000, 31, 3);
    assert_eq!(cmd.opcode, 1);
    assert_eq!(cmd.command_id, 8);
    assert_eq!(cmd.data_pointer, [0x8000, 0]);
    assert_eq!(cmd.cdw10, (31u32 << 16) | 3);
    assert_eq!(cmd.cdw11, (3u32 << 16) | 1);
}

#[test]
fn delete_queue_layouts() {
    let sq = NvmeCommand::delete_io_submission_queue(1, 5);
    assert_eq!(sq.opcode, 0);
    assert_eq!(sq.cdw10, 5);
    let cq = NvmeCommand::delete_io_completion_queue(2, 5);
    assert_eq!(cq.opcode, 4);
    assert_eq!(cq.cdw10, 5);
}

#[test]
fn identify_layouts() {
    let c = NvmeCommand::identify_controller(1, 0x1000);
    assert_eq!(c.opcode, 6);
    assert_eq!(c.cdw10, 1);
    assert_eq!(c.data_pointer, [0x1000, 0]);
    let n = NvmeCommand::identify_namespace(1, 0x1000, 42);
    assert_eq!(n.opcode, 6);
    assert_eq!(n.cdw10, 0);
    assert_eq!(n.namespace_id, 42);
    let l = NvmeCommand::identify_namespace_list(1, 0x1000, 0);
    assert_eq!(l.opcode, 6);
    assert_eq!(l.cdw10, 2);
}

#[test]
fn get_features_number_of_queues() {
    let cmd = NvmeCommand::get_features(
        9,
        0x2000,
        FeatureIdentifier::NumberOfQueues,
        Select::Current,
    );
    assert_eq!(cmd.opcode, 0xA);
    // SEL Current is 0, FID Number of Queues is 7.
    assert_eq!(cmd.cdw10, 7);
    assert_eq!(cmd.data_pointer, [0x2000, 0]);
}

#[test]
fn io_read_write_layout() {
    let lba: u64 = 0x1_2345_6789;
    let r = NvmeCommand::io_read(3, 1, lba, 255, 0xAAAA000, 0xBBBB000);
    assert_eq!(r.opcode, 2);
    assert_eq!(r.cdw10, 0x2345_6789);
    assert_eq!(r.cdw11, 1);
    assert_eq!(r.cdw12, 255);
    assert_eq!(r.data_pointer, [0xAAAA000, 0xBBBB000]);
    let w = NvmeCommand::io_write(3, 1, lba, 255, 0xAAAA000, 0xBBBB000);
    assert_eq!(w.opcode, 1);
    assert_eq!(w.cdw10, 0x2345_6789);
    assert_eq!(w.cdw11, 1);
    assert_eq!(w.cdw12, 255);
}

#[test]
fn format_nvm_sets_bit_9() {
    let cmd = NvmeCommand::format_nvm(0, 0xFFFF_FFFF);
    assert_eq!(cmd.opcode, 0x80);
    assert_eq!(cmd.cdw10, 1 << 9);
    assert_eq!(cmd.namespace_id, 0xFFFF_FFFF);
}

#[test]
fn write_zeroes_layout() {
    let cmd = NvmeCommand::write_zeroes(1, 2, 0x3_0000_0004, 7, true);
    assert_eq!(cmd.opcode, 8);
    assert_eq!(cmd.cdw10, 4);
    assert_eq!(cmd.cdw11, 3);
    assert_eq!(cmd.cdw12, (1 << 25) | 7);
}

#[test]
fn get_log_page_layout() {
    let cmd = NvmeCommand::get_log_page(1, 0x12345, 0x1000, 0x2000, 2, 9);
    assert_eq!(cmd.cdw10, (0x12345u32 << 16) | 2);
    assert_eq!(cmd.cdw11, (9u32 << 16) | (0x12345u32 >> 16));
    assert_eq!(cmd.data_pointer, [0x1000, 0x2000]);
}

#[test]
fn async_event_req_layout() {
    let cmd = NvmeCommand::async_event_req(11);
    assert_eq!(cmd.opcode, 0xC);
    assert_eq!(cmd.command_id, 11);
    assert_eq!(cmd.cdw10, 0);
}

#[test]
fn wire_encoding_is_64_little_endian_bytes() {
    let cmd = NvmeCommand::io_write(0x1234, 0xAABBCCDD, 0x1122334455667788, 15, 0x1000, 0x2000);
    let bytes = cmd.encode();
    assert_eq!(bytes.len(), 64);
    assert_eq!(bytes[0], 1); // opcode
    assert_eq!(bytes[1], 0); // flags
    assert_eq!(&bytes[2..4], &[0x34, 0x12]); // command id
    assert_eq!(&bytes[4..8], &[0xDD, 0xCC, 0xBB, 0xAA]); // namespace id
    assert_eq!(&bytes[8..16], &[0; 8]); // reserved
    assert_eq!(&bytes[16..24], &[0; 8]); // metadata pointer
    assert_eq!(&bytes[24..32], &[0, 0x10, 0, 0, 0, 0, 0, 0]); // PRP1
    assert_eq!(&bytes[32..40], &[0, 0x20, 0, 0, 0, 0, 0, 0]); // PRP2
    assert_eq!(&bytes[40..44], &[0x88, 0x77, 0x66, 0x55]); // cdw10 = low lba
    assert_eq!(&bytes[44..48], &[0x44, 0x33, 0x22, 0x11]); // cdw11 = high lba
    assert_eq!(&bytes[48..52], &[15, 0, 0, 0]); // cdw12 = 0-based blocks
    assert_eq!(&bytes[52..64], &[0; 12]); // cdw13..cdw15
}

#[test]
fn completion_entry_decode() {
    let mut bytes = [0u8; 16];
    bytes[0..4].copy_from_slice(&0x0000_0004u32.to_le_bytes()); // command specific
    bytes[8..10].copy_from_slice(&5u16.to_le_bytes()); // sq head
    bytes[10..12].copy_from_slice(&1u16.to_le_bytes()); // sq id
    bytes[12..14].copy_from_slice(&9u16.to_le_bytes()); // command id
    bytes[14..16].copy_from_slice(&0x0181u16.to_le_bytes()); // status
    let entry = CompletionQueueEntry::decode(&bytes);
    assert_eq!(entry.command_specific, 4);
    assert_eq!(entry.sq_head, 5);
    assert_eq!(entry.sq_id, 1);
    assert_eq!(entry.command_id, 9);
    assert_eq!(entry.status, 0x0181);
}
