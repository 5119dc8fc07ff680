use chip8::fault::Fault;
use chip8::ram::{RAM, RAM_SIZE_IN_BYTES};

#[test]
fn new_memory_is_zero_filled() {
    let ram = RAM::new();
    let all = ram.read(0, RAM_SIZE_IN_BYTES).unwrap();
    assert_eq!(all.len(), 4096);
    assert!(all.iter().all(|byte| *byte == 0));
}

#[test]
fn write_then_read_round_trips() {
    let mut ram = RAM::new();
    assert_eq!(ram.write(0x300, &[0xDE, 0xAD, 0xBE, 0xEF]), Ok(4));
    assert_eq!(ram.read(0x300, 4).unwrap(), &[0xDE, 0xAD, 0xBE, 0xEF]);
}

#[test]
fn read_returns_exactly_the_requested_count() {
    let mut ram = RAM::new();
    ram.write(10, &[1, 2, 3, 4, 5]).unwrap();
    assert_eq!(ram.read(11, 3).unwrap(), &[2, 3, 4]);
    assert_eq!(ram.read(11, 0).unwrap().len(), 0);
}

#[test]
fn write_leaves_neighbours_alone() {
    let mut ram = RAM::new();
    ram.write(100, &[7, 7, 7, 7]).unwrap();
    ram.write(101, &[1, 2]).unwrap();
    assert_eq!(ram.read(99, 6).unwrap(), &[0, 7, 1, 2, 7, 0]);
}

#[test]
fn span_ending_at_the_last_byte_is_accepted() {
    let mut ram = RAM::new();
    assert_eq!(ram.write(4093, &[9, 8, 7]), Ok(3));
    assert_eq!(ram.read(4093, 3).unwrap(), &[9, 8, 7]);
    assert_eq!(ram.read(4096, 0).unwrap().len(), 0);
}

#[test]
fn write_past_the_end_is_rejected_whole() {
    let mut ram = RAM::new();
    ram.write(4090, &[1, 2, 3, 4, 5, 6]).unwrap();
    assert_eq!(
        ram.write(4094, &[0xAA, 0xBB, 0xCC]),
        Err(Fault::MemoryOutOfBounds { address: 4094, count: 3 })
    );
    assert_eq!(ram.read(4090, 6).unwrap(), &[1, 2, 3, 4, 5, 6]);
}

#[test]
fn read_past_the_end_is_rejected() {
    let ram = RAM::new();
    assert_eq!(
        ram.read(4095, 2).err(),
        Some(Fault::MemoryOutOfBounds { address: 4095, count: 2 })
    );
    assert_eq!(
        ram.read(5000, 0).err(),
        Some(Fault::MemoryOutOfBounds { address: 5000, count: 0 })
    );
}

#[test]
fn huge_spans_are_rejected_without_overflow() {
    let mut ram = RAM::new();
    assert_eq!(
        ram.read(usize::MAX, 2).err(),
        Some(Fault::MemoryOutOfBounds { address: usize::MAX, count: 2 })
    );
    assert_eq!(
        ram.read(2, usize::MAX).err(),
        Some(Fault::MemoryOutOfBounds { address: 2, count: usize::MAX })
    );
    assert_eq!(
        ram.write(usize::MAX, &[1]),
        Err(Fault::MemoryOutOfBounds { address: usize::MAX, count: 1 })
    );
}
