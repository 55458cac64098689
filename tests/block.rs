use noodles_core::block::{Block, ReadError};

fn block_over(c_offset: u64, data: Vec<u8>) -> Block {
    let mut block = Block::new();
    block.set_c_offset(c_offset);
    block.set_data(data);
    block
}

#[test]
fn new_block_is_empty_and_exhausted() {
    let block = Block::default();
    assert_eq!(block.c_offset(), 0);
    assert_eq!(block.position(), 0);
    assert_eq!(block.virtual_position(), 0);
    assert!(block.get_ref().is_empty());
    assert!(block.is_eof());
}

#[test]
fn exhausted_exactly_after_all_bytes_are_read() {
    let mut block = block_over(0, vec![1, 2, 3, 4, 5]);
    let mut buf = [0u8; 2];

    assert!(!block.is_eof());
    assert_eq!(block.read_record(&mut buf), 2);
    assert_eq!(buf, [1, 2]);
    assert!(!block.is_eof());
    assert_eq!(block.read_record(&mut buf), 2);
    assert_eq!(buf, [3, 4]);
    assert!(!block.is_eof());
    assert_eq!(block.read_record(&mut buf), 1);
    assert_eq!(buf, [5, 4]);
    assert!(block.is_eof());
    assert_eq!(block.read_record(&mut buf), 0);
    assert_eq!(block.read_record(&mut buf), 0);
    assert_eq!(buf, [5, 4]);
    assert_eq!(block.position(), 5);
    assert_eq!(block.u_offset(), 5);
}

#[test]
fn virtual_position_composition() {
    let mut block = block_over(5, vec![0; 10]);
    let mut buf = [0u8; 10];
    assert_eq!(block.read_record(&mut buf), 10);
    assert_eq!(block.virtual_position(), (5 << 16) | 10);
    assert_eq!(block.virtual_position(), 5 * 65536 + 10);
}

#[test]
fn virtual_position_at_largest_offset_in_unit() {
    let mut block = block_over(7, vec![0; 65535]);
    let mut buf = vec![0u8; 65535];
    assert_eq!(block.read_record(&mut buf), 65535);
    assert_eq!(block.virtual_position(), (7 << 16) | 65535);
    assert_eq!(block.virtual_position(), 7 * 65536 + 65535);
}

#[test]
fn set_c_offset_keeps_cursor() {
    let mut block = block_over(1, vec![9, 9, 9]);
    let mut buf = [0u8; 1];
    block.read_record(&mut buf);
    block.set_c_offset(0x1234);
    assert_eq!(block.c_offset(), 0x1234);
    assert_eq!(block.position(), 1);
    assert_eq!(block.virtual_position(), 0x1234_0001);
}

#[test]
fn read_block_size_little_endian() {
    let mut block = block_over(0, vec![0x78, 0x56, 0x34, 0x12, 0xff, 0xff, 0xff, 0xff, 0x01]);
    assert_eq!(block.read_block_size(), Ok(0x1234_5678));
    assert_eq!(block.position(), 4);
    assert_eq!(block.read_block_size(), Ok(-1));
    assert_eq!(block.position(), 8);
}

#[test]
fn read_block_size_short_read_keeps_cursor() {
    let mut block = block_over(0, vec![1, 2, 3, 4, 5, 6]);
    let mut buf = [0u8; 3];
    assert_eq!(block.read_record(&mut buf), 3);
    assert_eq!(block.read_block_size(), Err(ReadError::ShortRead));
    assert_eq!(block.position(), 3);
    assert!(!block.is_eof());

    let mut empty = Block::new();
    assert_eq!(empty.read_block_size(), Err(ReadError::ShortRead));
    assert_eq!(empty.position(), 0);
}

#[test]
fn set_data_starts_a_new_unit() {
    let mut block = block_over(3, vec![1, 2]);
    let mut buf = [0u8; 4];
    assert_eq!(block.read_record(&mut buf), 2);
    assert!(block.is_eof());
    block.set_data(vec![7, 8, 9]);
    assert_eq!(block.position(), 0);
    assert!(!block.is_eof());
    assert_eq!(block.get_ref(), &vec![7, 8, 9]);
}
