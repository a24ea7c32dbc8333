pub mod reader;
pub mod types;

use crate::command::{le16, le16_at, push_le16, read_le16};
use crate::eeprom::types::{CategoryType, SiiCategory};
use vstd::prelude::*;

verus! {

/// The EEPROM of one slave, reached through the slave's SII registers.
#[derive(Clone, Copy, Debug, PartialEq, Eq, Structural)]
pub struct Eeprom {
    /// The configured station address of the slave.
    pub configured_address: u16,
}

impl Eeprom {
    /// The EEPROM of the slave with the given configured station address.
    pub fn new(configured_address: u16) -> (eeprom: Eeprom)
        ensures
            eeprom.configured_address == configured_address,
    {
        Eeprom { configured_address }
    }

    /// The six bytes that ask the slave to read its EEPROM at the word
    /// address `address`: the read command in bit 8 of the control word,
    /// then the address in four bytes.
    pub open spec fn spec_read_request(address: u16) -> Seq<u8> {
        seq![0x00u8, 0x01u8] + le16(address) + seq![0x00u8, 0x00u8]
    }

    /// The bytes that are written to the SII control register to read the
    /// EEPROM at the word address `address`.
    pub fn read_request(&self, address: u16) -> (request: Vec<u8>)
        ensures
            request@ == Self::spec_read_request(address),
    {
        let mut request: Vec<u8> = Vec::new();
        request.push(0x00);
        request.push(0x01);
        push_le16(&mut request, address);
        request.push(0x00);
        request.push(0x00);
        request
    }

    /// Whether the SII control register, read into `status`, says that the
    /// EEPROM is still busy: bit 15 of the register is set.
    pub fn is_busy(&self, status: &[u8]) -> (busy: bool)
        ensures
            busy == (status@.len() >= 2 && status@[1] >= 0x80),
    {
        status.len() >= 2 && status[1] >= 0x80
    }

    /// The length of the first string of the strings category, from the first
    /// two bytes of the category: the number of strings, then the length of
    /// the first. Nothing where the category holds no string.
    pub open spec fn spec_first_string_len(header: Seq<u8>) -> Option<usize> {
        if header.len() < 2 || header[0] == 0 {
            None
        } else {
            Some(header[1] as usize)
        }
    }

    /// The length in bytes of the first string of the strings category,
    /// whose first two bytes are `header`. Returns `None` where the category
    /// holds no string, or `header` fewer than two bytes.
    pub fn first_string_len(&self, header: &[u8]) -> (len: Option<usize>)
        ensures
            len == Self::spec_first_string_len(header@),
    {
        if header.len() < 2 || header[0] == 0 {
            None
        } else {
            Some(header[1] as usize)
        }
    }

    /// One step of the search for a category: what the header at the word
    /// address `address` means for the search for `wanted`. The header holds
    /// the type of its category and the length of the category in words, two
    /// bytes each. The data of the category follows the header, and the next
    /// header follows the data.
    pub open spec fn spec_find_category(address: u16, header: Seq<u8>, wanted: CategoryType) -> CategoryStep {
        if header.len() < 4 || address + 2 > u16::MAX {
            CategoryStep::NotFound
        } else if le16_at(header, 0) == wanted.spec_code() {
            CategoryStep::Found(
                SiiCategory { start: (address + 2) as u16, len_words: le16_at(header, 2) },
            )
        } else if le16_at(header, 0) == CATEGORY_END || address + 2 + le16_at(header, 2) > u16::MAX {
            CategoryStep::NotFound
        } else {
            CategoryStep::Next { address: (address + 2 + le16_at(header, 2)) as u16 }
        }
    }

    /// One step of the search for the category `wanted`. The search starts
    /// at [`FIRST_CATEGORY`]. `header` holds what the EEPROM has at the word
    /// address `address`. The search ends where the category is found, at
    /// the end marker, and at the end of the address space.
    pub fn find_category(&self, address: u16, header: &[u8], wanted: CategoryType) -> (step:
        CategoryStep)
        ensures
            step == Self::spec_find_category(address, header@, wanted),
    {
        if header.len() < 4 || address > u16::MAX - 2 {
            return CategoryStep::NotFound;
        }
        let category = read_le16(header, 0);
        let len_words = read_le16(header, 2);
        let start = address + 2;
        if category == wanted.code() {
            CategoryStep::Found(SiiCategory { start, len_words })
        } else if category == CATEGORY_END {
            CategoryStep::NotFound
        } else {
            match start.checked_add(len_words) {
                Some(address) => CategoryStep::Next { address },
                None => CategoryStep::NotFound,
            }
        }
    }
}

/// Word address of the header of the first category.
pub const FIRST_CATEGORY: u16 = 0x0040;

/// The category type that marks the end of the categories.
pub const CATEGORY_END: u16 = 0xffff;

/// Where the search for a category stands after one header.
#[derive(Clone, Copy, Debug, PartialEq, Eq, Structural)]
pub enum CategoryStep {
    /// The category lies here.
    Found(SiiCategory),
    /// The EEPROM has no such category.
    NotFound,
    /// The next header lies at this word address.
    Next { address: u16 },
}

} // verus!
