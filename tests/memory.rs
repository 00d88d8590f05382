use std::cell::Cell;
use std::rc::Rc;

use memory_bus::{
    search_entries, Address, Bus, MemoryMap, MemoryMapEntry, MemoryMapEntryType, ReadHandler,
    WriteHandler, ADDRESS_MAX,
};

struct ByteSource {
    value: u8,
}

impl ReadHandler<u8> for ByteSource {
    fn reads(&self, addr: Address, value: u8) -> bool {
        value == self.value.wrapping_add(addr as u8)
    }

    fn read(&self, addr: Address) -> u8 {
        self.value.wrapping_add(addr as u8)
    }
}

struct WordSource;

impl ReadHandler<u16> for WordSource {
    fn reads(&self, _addr: Address, value: u16) -> bool {
        value == 0xBEEF
    }

    fn read(&self, _addr: Address) -> u16 {
        0xBEEF
    }
}

struct ByteSink {
    last: Rc<Cell<Option<(Address, u8)>>>,
}

impl WriteHandler<u8> for ByteSink {
    fn writes(&self, addr: Address, value: u8) -> bool {
        self.last.get() == Some((addr, value))
    }

    fn write(&self, addr: Address, value: u8) {
        self.last.set(Some((addr, value)));
    }
}

fn region(start: Address, end: Address, entry_type: MemoryMapEntryType) -> MemoryMapEntry {
    let mut e = MemoryMapEntry::new();
    e.start = start;
    e.end = end;
    e.entry_type = entry_type;
    e
}

#[test]
fn test_no_memory_map_entries() {
    let mut map = MemoryMap::new();
    map.select_address(5);
    let i = search_entries(&mut map);
    assert!(map.entries[i].func_read_u8.is_none());
}

#[test]
fn test_reading_unmapped() {
    let mut map = MemoryMap::new();
    map.select_address(0);
    assert_eq!(map.read_u8(), 0);
    map.entries[0].entry_type = MemoryMapEntryType::UnmappedHigh;
    assert_eq!(map.read_u8(), 0xFF);
}

#[test]
fn test_writing_unmapped() {
    let mut map = MemoryMap::new();
    map.select_address(0);
    map.entries[0].entry_type = MemoryMapEntryType::UnmappedHigh;
    map.write_u8(0x55);
    assert_eq!(map.read_u8(), 0xFF);
}

#[test]
fn test_global_address_mask() {
    let mut map = MemoryMap::new();
    map.global_addr_mask = 1;
    map.select_address(5);
    assert_eq!(map.current_addr, 1);
    map.global_addr_mask = 7;
    map.select_address(5);
    assert_eq!(map.current_addr, 5);
    map.select_address(8);
    assert_eq!(map.current_addr, 0);
}

#[test]
fn default_entry_covers_everything() {
    let e = MemoryMapEntry::new();
    assert_eq!(e.start, 0);
    assert_eq!(e.end, ADDRESS_MAX);
    assert_eq!(e.entry_type, MemoryMapEntryType::UnmappedLow);
    assert!(e.func_read_u128.is_none());
    assert!(e.func_write_u128.is_none());
    let map = MemoryMap::new();
    assert_eq!(map.entries.len(), 1);
    assert_eq!(map.current_addr, 0);
    assert_eq!(map.global_addr_mask, u128::MAX);
}

#[test]
fn masked_selection_is_the_same_selection() {
    let mut a = MemoryMap::new();
    let mut b = MemoryMap::new();
    a.global_addr_mask = 0xF0;
    b.global_addr_mask = 0xF0;
    a.entries[0] = region(0x10, 0x1F, MemoryMapEntryType::UnmappedHigh);
    b.entries[0] = region(0x10, 0x1F, MemoryMapEntryType::UnmappedHigh);
    a.select_address(0x1234);
    b.select_address(0x1234 & 0xF0);
    assert_eq!(a.current_addr, 0x30);
    assert_eq!(a.current_addr, b.current_addr);
    assert_eq!(a.read_u8(), b.read_u8());
    assert_eq!(a.read_u8(), 0);
    assert_eq!(a.entries.len(), b.entries.len());
}

#[test]
fn default_map_reads_zero_everywhere() {
    let mut map = MemoryMap::new();
    for addr in [0u128, 1, 0xFFFF, u128::MAX] {
        map.select_address(addr);
        map.write_u8(0x77);
        assert_eq!(map.read_u8(), 0);
        assert_eq!(map.entries.len(), 1);
    }
}

#[test]
fn unmapped_high_everywhere_after_write() {
    let mut map = MemoryMap::new();
    map.entries[0].entry_type = MemoryMapEntryType::UnmappedHigh;
    for addr in [0u128, 42, u128::MAX] {
        map.select_address(addr);
        map.write_u32(0x1234_5678);
        assert_eq!(map.read_u8(), 0xFF);
    }
}

#[test]
fn wide_reads_widen_the_fill_value() {
    let mut map = MemoryMap::new();
    map.select_address(9);
    assert_eq!(map.read_u16(), 0);
    assert_eq!(map.read_u128(), 0);
    map.entries[0].entry_type = MemoryMapEntryType::UnmappedHigh;
    assert_eq!(map.read_u16(), 0xFF);
    assert_eq!(map.read_u32(), 0xFF);
    assert_eq!(map.read_u64(), 0xFF);
    assert_eq!(map.read_u128(), 0xFF);
}

#[test]
fn byte_handler_value_is_widened_not_composed() {
    let mut map = MemoryMap::new();
    let mut e = region(0x100, 0x1FF, MemoryMapEntryType::Read);
    e.func_read_u8 = Some(Rc::new(ByteSource { value: 0xA0 }));
    map.entries.insert(0, e);
    map.select_address(0x105);
    assert_eq!(map.read_u8(), 0xA5);
    assert_eq!(map.read_u32(), 0xA5);
    assert_eq!(map.read_u128(), 0xA5);
}

#[test]
fn handler_at_wider_width_is_used() {
    let mut map = MemoryMap::new();
    let mut e = region(0, 0xFF, MemoryMapEntryType::Read);
    e.func_read_u8 = Some(Rc::new(ByteSource { value: 1 }));
    e.func_read_u16 = Some(Rc::new(WordSource));
    map.entries.insert(0, e);
    map.select_address(3);
    assert_eq!(map.read_u8(), 4);
    assert_eq!(map.read_u16(), 0xBEEF);
    assert_eq!(map.read_u64(), 0xBEEF);
}

#[test]
fn first_matching_entry_wins() {
    let mut map = MemoryMap::new();
    map.entries.insert(0, region(0x10, 0x20, MemoryMapEntryType::UnmappedHigh));
    map.entries.insert(0, region(0x18, 0x30, MemoryMapEntryType::UnmappedLow));
    map.select_address(0x19);
    assert_eq!(search_entries(&mut map), 0);
    assert_eq!(map.read_u8(), 0);
    map.select_address(0x12);
    assert_eq!(search_entries(&mut map), 1);
    assert_eq!(map.read_u8(), 0xFF);
    map.select_address(0x99);
    assert_eq!(search_entries(&mut map), 2);
    assert_eq!(map.entries.len(), 3);
}

#[test]
fn miss_appends_default_entry() {
    let mut map = MemoryMap::new();
    map.entries[0] = region(0x10, 0x1F, MemoryMapEntryType::UnmappedHigh);
    map.select_address(0x40);
    assert_eq!(search_entries(&mut map), 1);
    assert_eq!(map.entries.len(), 2);
    assert_eq!(map.entries[1].start, 0);
    assert_eq!(map.entries[1].end, u128::MAX);
    assert_eq!(map.entries[1].entry_type, MemoryMapEntryType::UnmappedLow);
    assert_eq!(search_entries(&mut map), 1);
    assert_eq!(map.entries.len(), 2);
    assert_eq!(map.read_u8(), 0);
}

#[test]
fn empty_map_appends_default_entry() {
    let mut map = MemoryMap::new();
    map.entries.clear();
    map.select_address(7);
    assert_eq!(search_entries(&mut map), 0);
    assert_eq!(map.entries.len(), 1);
    assert_eq!(map.read_u16(), 0);
}

#[test]
fn write_goes_to_handler_with_selected_address() {
    let last = Rc::new(Cell::new(None));
    let mut map = MemoryMap::new();
    let mut e = region(0x200, 0x2FF, MemoryMapEntryType::Write);
    e.func_write_u8 = Some(Rc::new(ByteSink { last: last.clone() }));
    map.entries.insert(0, e);
    map.select_address(0x210);
    map.write_u8(0x5A);
    assert_eq!(last.get(), Some((0x210, 0x5A)));
    map.write_u16(0x1111);
    assert_eq!(last.get(), Some((0x210, 0x5A)));
    map.select_address(0x300);
    map.write_u8(0x01);
    assert_eq!(last.get(), Some((0x210, 0x5A)));
}

#[test]
fn readability_of_handler_backed_regions() {
    let mut map = MemoryMap::new();
    map.entries.insert(0, region(0, 0xF, MemoryMapEntryType::ReadWrite));
    map.select_address(4);
    assert!(!map.is_readable(8));
    assert!(!map.is_readable(128));
    let mut e = region(0, 0xF, MemoryMapEntryType::ReadWrite);
    e.func_read_u16 = Some(Rc::new(WordSource));
    map.entries[0] = e;
    assert!(!map.is_readable(8));
    assert!(map.is_readable(16));
    assert!(map.is_readable(64));
    assert_eq!(map.read_u32(), 0xBEEF);
    map.select_address(0x10);
    assert!(map.is_readable(8));
}
