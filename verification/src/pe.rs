//! The headers of an executable image, as far as the debugger reads them.
//! Each is read from the target's memory in its full size and holds the
//! fields that are used.

use vstd::prelude::*;

use crate::memory::{get_u16, get_u32, le_u16, le_u32, MemoryValue};
use crate::module::{Guid, PdbInfo};

verus! {

/// Index of the export directory in the table of data directories.
pub const DIRECTORY_ENTRY_EXPORT: usize = 0;

/// Index of the debug directory in the table of data directories.
pub const DIRECTORY_ENTRY_DEBUG: usize = 6;

/// The type of a debug directory entry that holds a CodeView record.
pub const DEBUG_TYPE_CODEVIEW: u32 = 2;

/// The leading header of an image.
#[derive(Copy, Clone, Debug)]
pub struct DosHeader {
    /// Offset of the image's second header from its start.
    pub e_lfanew: i32,
}

/// Where a table of the image lies, relative to its start, and how long it is.
#[derive(Copy, Clone, Debug)]
pub struct DataDirectory {
    pub virtual_address: u32,
    pub size: u32,
}

/// The second header of a 64-bit image.
#[derive(Copy, Clone, Debug)]
pub struct NtHeaders64 {
    pub size_of_image: u32,
    pub export_table: DataDirectory,
    pub debug_table: DataDirectory,
}

/// An entry of the debug directory.
#[derive(Copy, Clone, Debug)]
pub struct DebugDirectory {
    pub kind: u32,
    pub size_of_data: u32,
    pub address_of_raw_data: u32,
}

/// The header of the export directory.
#[derive(Copy, Clone, Debug)]
pub struct ExportDirectory {
    pub name: u32,
    pub base: u32,
    pub number_of_functions: u32,
    pub number_of_names: u32,
    pub address_of_functions: u32,
    pub address_of_names: u32,
    pub address_of_name_ordinals: u32,
}

/// The signed 32-bit number with the bits of `value`.
pub open spec fn as_signed(value: int) -> int {
    if value >= 0x8000_0000 {
        value - 0x1_0000_0000
    } else {
        value
    }
}

fn to_signed(value: u32) -> (signed: i32)
    ensures
        signed == as_signed(value as int),
{
    if value >= 0x8000_0000 {
        let low: u32 = value - 0x8000_0000;
        (low as i32) - 0x4000_0000 - 0x4000_0000
    } else {
        value as i32
    }
}

impl MemoryValue for DosHeader {
    open spec fn spec_size() -> nat {
        64
    }

    open spec fn decode(bytes: Seq<u8>) -> DosHeader {
        DosHeader { e_lfanew: as_signed(le_u32(bytes, 60)) as i32 }
    }

    fn size() -> (n: usize) {
        64
    }

    fn from_bytes(bytes: &[u8]) -> (value: DosHeader) {
        DosHeader { e_lfanew: to_signed(get_u32(bytes, 60)) }
    }
}

/// The data directory at `bytes[at..at + 8]`.
pub open spec fn directory_at(bytes: Seq<u8>, at: int) -> DataDirectory {
    DataDirectory { virtual_address: le_u32(bytes, at) as u32, size: le_u32(bytes, at + 4) as u32 }
}

fn get_directory(bytes: &[u8], at: usize) -> (directory: DataDirectory)
    requires
        at + 8 <= bytes.len(),
    ensures
        directory == directory_at(bytes@, at as int),
{
    DataDirectory { virtual_address: get_u32(bytes, at), size: get_u32(bytes, at + 4) }
}

impl MemoryValue for NtHeaders64 {
    open spec fn spec_size() -> nat {
        264
    }

    /// The optional header starts at 24; in it the image size stands at 56
    /// and the data directories, eight bytes each, from 112.
    open spec fn decode(bytes: Seq<u8>) -> NtHeaders64 {
        NtHeaders64 {
            size_of_image: le_u32(bytes, 80) as u32,
            export_table: directory_at(bytes, 136),
            debug_table: directory_at(bytes, 184),
        }
    }

    fn size() -> (n: usize) {
        264
    }

    fn from_bytes(bytes: &[u8]) -> (value: NtHeaders64) {
        NtHeaders64 {
            size_of_image: get_u32(bytes, 24 + 56),
            export_table: get_directory(bytes, 24 + 112 + 8 * DIRECTORY_ENTRY_EXPORT),
            debug_table: get_directory(bytes, 24 + 112 + 8 * DIRECTORY_ENTRY_DEBUG),
        }
    }
}

impl MemoryValue for DebugDirectory {
    open spec fn spec_size() -> nat {
        28
    }

    open spec fn decode(bytes: Seq<u8>) -> DebugDirectory {
        DebugDirectory {
            kind: le_u32(bytes, 12) as u32,
            size_of_data: le_u32(bytes, 16) as u32,
            address_of_raw_data: le_u32(bytes, 20) as u32,
        }
    }

    fn size() -> (n: usize) {
        28
    }

    fn from_bytes(bytes: &[u8]) -> (value: DebugDirectory) {
        DebugDirectory {
            kind: get_u32(bytes, 12),
            size_of_data: get_u32(bytes, 16),
            address_of_raw_data: get_u32(bytes, 20),
        }
    }
}

impl MemoryValue for ExportDirectory {
    open spec fn spec_size() -> nat {
        40
    }

    open spec fn decode(bytes: Seq<u8>) -> ExportDirectory {
        ExportDirectory {
            name: le_u32(bytes, 12) as u32,
            base: le_u32(bytes, 16) as u32,
            number_of_functions: le_u32(bytes, 20) as u32,
            number_of_names: le_u32(bytes, 24) as u32,
            address_of_functions: le_u32(bytes, 28) as u32,
            address_of_names: le_u32(bytes, 32) as u32,
            address_of_name_ordinals: le_u32(bytes, 36) as u32,
        }
    }

    fn size() -> (n: usize) {
        40
    }

    fn from_bytes(bytes: &[u8]) -> (value: ExportDirectory) {
        ExportDirectory {
            name: get_u32(bytes, 12),
            base: get_u32(bytes, 16),
            number_of_functions: get_u32(bytes, 20),
            number_of_names: get_u32(bytes, 24),
            address_of_functions: get_u32(bytes, 28),
            address_of_names: get_u32(bytes, 32),
            address_of_name_ordinals: get_u32(bytes, 36),
        }
    }
}

impl MemoryValue for PdbInfo {
    open spec fn spec_size() -> nat {
        24
    }

    open spec fn decode(bytes: Seq<u8>) -> PdbInfo {
        PdbInfo {
            signature: le_u32(bytes, 0) as u32,
            guid: Guid {
                data1: le_u32(bytes, 4) as u32,
                data2: le_u16(bytes, 8) as u16,
                data3: le_u16(bytes, 10) as u16,
                data4: [
                    bytes[12],
                    bytes[13],
                    bytes[14],
                    bytes[15],
                    bytes[16],
                    bytes[17],
                    bytes[18],
                    bytes[19],
                ],
            },
            age: le_u32(bytes, 20) as u32,
        }
    }

    fn size() -> (n: usize) {
        24
    }

    fn from_bytes(bytes: &[u8]) -> (value: PdbInfo) {
        PdbInfo {
            signature: get_u32(bytes, 0),
            guid: Guid {
                data1: get_u32(bytes, 4),
                data2: get_u16(bytes, 8),
                data3: get_u16(bytes, 10),
                data4: [
                    bytes[12],
                    bytes[13],
                    bytes[14],
                    bytes[15],
                    bytes[16],
                    bytes[17],
                    bytes[18],
                    bytes[19],
                ],
            },
            age: get_u32(bytes, 20),
        }
    }
}

} // verus!
