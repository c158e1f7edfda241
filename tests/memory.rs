use emu::memory::constants::{MEMORY_SIZE, RAM_BASE};
use emu::memory::{Memory, MemoryBus, MemoryError};

#[test]
fn memory_is_padded_to_capacity() {
    let m = Memory::new(vec![1, 2, 3]);
    assert_eq!(m.size(), MEMORY_SIZE);
    assert_eq!(&m.contents[..4], &[1, 2, 3, 0]);
    assert_eq!(m.contents[MEMORY_SIZE - 1], 0);
}

#[test]
fn memory_is_truncated_to_capacity() {
    let image: Vec<u8> = (0..MEMORY_SIZE + 10).map(|i| (i % 251) as u8).collect();
    let m = Memory::new(image.clone());
    assert_eq!(m.size(), MEMORY_SIZE);
    assert_eq!(m.contents[..], image[..MEMORY_SIZE]);
}

#[test]
fn empty_image_gives_zeroed_memory() {
    let m = Memory::new(vec![]);
    assert_eq!(m.size(), MEMORY_SIZE);
    assert!(m.contents.iter().all(|b| *b == 0));
}

#[test]
fn load_is_little_endian() {
    let mut m = Memory::new(vec![0x78, 0x56, 0x34, 0x12, 0xef, 0xcd, 0xab, 0x90]);
    let bus = MemoryBus::new(&mut m);
    assert_eq!(bus.load(RAM_BASE, 8), Ok(0x78));
    assert_eq!(bus.load(RAM_BASE + 1, 16), Ok(0x3456));
    assert_eq!(bus.load(RAM_BASE, 32), Ok(0x1234_5678));
    assert_eq!(bus.load(RAM_BASE, 64), Ok(0x90ab_cdef_1234_5678));
    // misaligned
    assert_eq!(bus.load(RAM_BASE + 3, 32), Ok(0xabcd_ef12));
}

#[test]
fn store_word_byte_order() {
    let mut m = Memory::new(vec![]);
    let mut bus = MemoryBus::new(&mut m);
    assert_eq!(bus.store(RAM_BASE, 32, 0x1234_5678), Ok(()));
    assert_eq!(&m.contents[..5], &[0x78, 0x56, 0x34, 0x12, 0]);
}

#[test]
fn store_narrow_widths_keep_low_bits() {
    let mut m = Memory::new(vec![0xaa; 16]);
    let mut bus = MemoryBus::new(&mut m);
    assert_eq!(bus.store(RAM_BASE, 8, 0x1234_5678), Ok(()));
    assert_eq!(bus.store(RAM_BASE + 4, 16, 0x1234_5678), Ok(()));
    assert_eq!(bus.store(RAM_BASE + 8, 64, 0x0102_0304_0506_0708), Ok(()));
    assert_eq!(
        &m.contents[..16],
        &[0x78, 0xaa, 0xaa, 0xaa, 0x78, 0x56, 0xaa, 0xaa, 8, 7, 6, 5, 4, 3, 2, 1]
    );
}

#[test]
fn store_then_load_round_trip() {
    let mut m = Memory::new(vec![]);
    let mut bus = MemoryBus::new(&mut m);
    for (address, value) in [
        (RAM_BASE, 0u64),
        (RAM_BASE + 100, 0xdead_beef),
        (RAM_BASE + 7, 0xffff_ffff),
        (RAM_BASE + MEMORY_SIZE - 4, 0x8000_0001),
    ] {
        assert_eq!(bus.store(address, 32, value), Ok(()));
        assert_eq!(bus.load(address, 32), Ok(value));
    }
}

#[test]
fn access_below_ram_is_unmapped() {
    let mut m = Memory::new(vec![]);
    let mut bus = MemoryBus::new(&mut m);
    assert_eq!(bus.load(RAM_BASE - 1, 8), Err(MemoryError::UnmappedAddress));
    assert_eq!(bus.load(0, 32), Err(MemoryError::UnmappedAddress));
    assert_eq!(bus.store(0x10, 32, 1), Err(MemoryError::UnmappedAddress));
}

#[test]
fn unsupported_width_is_rejected() {
    let mut m = Memory::new(vec![]);
    let mut bus = MemoryBus::new(&mut m);
    assert_eq!(bus.load(RAM_BASE, 24), Err(MemoryError::UnsupportedAddressingSize));
    assert_eq!(bus.load(RAM_BASE, 0), Err(MemoryError::UnsupportedAddressingSize));
    assert_eq!(bus.store(RAM_BASE, 4, 1), Err(MemoryError::UnsupportedAddressingSize));
    assert!(m.contents.iter().all(|b| *b == 0));
}

#[test]
fn access_past_the_end_is_out_of_bounds() {
    let mut m = Memory::new(vec![]);
    let mut bus = MemoryBus::new(&mut m);
    let last = RAM_BASE + MEMORY_SIZE - 1;
    assert_eq!(bus.load(last, 8), Ok(0));
    assert_eq!(bus.load(last, 16), Err(MemoryError::OutOfBounds));
    assert_eq!(bus.load(RAM_BASE + MEMORY_SIZE, 8), Err(MemoryError::OutOfBounds));
    assert_eq!(bus.store(last - 2, 32, 0xffff_ffff), Err(MemoryError::OutOfBounds));
    assert_eq!(bus.load(usize::MAX, 64), Err(MemoryError::OutOfBounds));
    assert!(m.contents.iter().all(|b| *b == 0));
}
