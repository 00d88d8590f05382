//! An address-space decoder for an emulated bus: a memory map routes reads
//! and writes of 8 to 128 bits to the handlers of the region that owns the
//! selected address.
pub mod memory;

pub use memory::{
    search_entries, Address, Bus, MemoryMap, MemoryMapEntry, MemoryMapEntryType, MemoryMapError,
    ReadHandler, WriteHandler, ADDRESS_MAX,
};
