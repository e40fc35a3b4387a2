//! Record headers on index pages: status and info bits, the next-record
//! pointer, and the column types of a record.
use vstd::prelude::*;
use crate::ut::{PAGE_SIZE, _mach_read_from_1, be_field, lemma_align_offset_page, mach_read_from_2, ut_align_offset};

verus! {

const REC_NEXT: u32 = 2;

/// Number of extra bytes in a compact (new-style) record header.
pub const REC_N_NEW_EXTRA_BYTES: u32 = 5;

/// Number of extra bytes in an old-style record header.
pub const _REC_N_OLD_EXTRA_BYTES: u32 = 6;

const REC_NEW_STATUS: u32 = 3;

const REC_NEW_STATUS_MASK: u32 = 0x7u32;

const REC_NEW_STATUS_SHIFT: u32 = 0;

/// Flag of a compact record in record offsets.
pub const REC_OFFS_COMPACT: u32 = 0x8000_0000;

const REC_INFO_BITS_MASK: u32 = 0xF0u32;

const REC_INFO_BITS_SHIFT: u32 = 4;

const REC_OLD_INFO_BITS: u32 = 6;

const REC_NEW_INFO_BITS: u32 = 5;

/// External flag in record offsets.
pub const REC_OFFS_EXTERNAL: u32 = 0x4000_0000;

/// SQL NULL flag in record offsets.
pub const REC_OFFS_SQL_NULL: u32 = 0x8000_0000;

/// Info bit that flags a versioned record.
const REC_INFO_VERSION_FLAG: u32 = 0x40u32;

/// Length of the header of record offsets.
pub const REC_OFFS_HEADER_SIZE: u32 = 4;

/// Status of an ordinary user record.
pub const REC_STATUS_ORDINARY: u32 = 0;

/// Instant-drop flag in record offsets.
const REC_OFFS_DROP: u32 = 0x1000_0000;

/// Mask for record offsets.
pub const REC_OFFS_MASK: u32 = 0x0FFF_FFFF;

/// The column types of MySQL, each with its type code.
#[allow(non_camel_case_types)]
#[derive(Debug, Clone, Copy, PartialEq, Eq, Structural)]
pub enum ColumnTypes {
    DECIMAL,
    TINY,
    SHORT,
    LONG,
    FLOAT,
    DOUBLE,
    TypeNull,
    TIMESTAMP,
    LONGLONG,
    INT24,
    DATE,
    TIME,
    DATETIME,
    YEAR,
    NEWDATE,
    VARCHAR,
    BIT,
    TIMESTAMP2,
    DATETIME2,
    TIME2,
    NEWDECIMAL,
    ENUM,
    SET,
    TinyBlob,
    MediumBlob,
    LongBlob,
    BLOB,
    VarString,
    STRING,
    GEOMETRY,
    JSON,
    VECTOR,
}

impl ColumnTypes {
    /// The type code of a column type.
    pub open spec fn code(self) -> u32 {
        match self {
            ColumnTypes::DECIMAL => 1,
            ColumnTypes::TINY => 2,
            ColumnTypes::SHORT => 3,
            ColumnTypes::LONG => 4,
            ColumnTypes::FLOAT => 5,
            ColumnTypes::DOUBLE => 6,
            ColumnTypes::TypeNull => 7,
            ColumnTypes::TIMESTAMP => 8,
            ColumnTypes::LONGLONG => 9,
            ColumnTypes::INT24 => 10,
            ColumnTypes::DATE => 11,
            ColumnTypes::TIME => 12,
            ColumnTypes::DATETIME => 13,
            ColumnTypes::YEAR => 14,
            ColumnTypes::NEWDATE => 15,
            ColumnTypes::VARCHAR => 16,
            ColumnTypes::BIT => 17,
            ColumnTypes::TIMESTAMP2 => 18,
            ColumnTypes::DATETIME2 => 19,
            ColumnTypes::TIME2 => 20,
            ColumnTypes::NEWDECIMAL => 21,
            ColumnTypes::ENUM => 22,
            ColumnTypes::SET => 23,
            ColumnTypes::TinyBlob => 24,
            ColumnTypes::MediumBlob => 25,
            ColumnTypes::LongBlob => 26,
            ColumnTypes::BLOB => 27,
            ColumnTypes::VarString => 28,
            ColumnTypes::STRING => 29,
            ColumnTypes::GEOMETRY => 30,
            ColumnTypes::JSON => 31,
            ColumnTypes::VECTOR => 32,
        }
    }

    /// The column type of a type code. Codes run from 1 to 32; any other
    /// code names no column type.
    pub fn from(value: u32) -> (r: ColumnTypes)
        requires
            1 <= value <= 32,
        ensures
            r.code() == value,
    {
        match value {
            1 => ColumnTypes::DECIMAL,
            2 => ColumnTypes::TINY,
            3 => ColumnTypes::SHORT,
            4 => ColumnTypes::LONG,
            5 => ColumnTypes::FLOAT,
            6 => ColumnTypes::DOUBLE,
            7 => ColumnTypes::TypeNull,
            8 => ColumnTypes::TIMESTAMP,
            9 => ColumnTypes::LONGLONG,
            10 => ColumnTypes::INT24,
            11 => ColumnTypes::DATE,
            12 => ColumnTypes::TIME,
            13 => ColumnTypes::DATETIME,
            14 => ColumnTypes::YEAR,
            15 => ColumnTypes::NEWDATE,
            16 => ColumnTypes::VARCHAR,
            17 => ColumnTypes::BIT,
            18 => ColumnTypes::TIMESTAMP2,
            19 => ColumnTypes::DATETIME2,
            20 => ColumnTypes::TIME2,
            21 => ColumnTypes::NEWDECIMAL,
            22 => ColumnTypes::ENUM,
            23 => ColumnTypes::SET,
            24 => ColumnTypes::TinyBlob,
            25 => ColumnTypes::MediumBlob,
            26 => ColumnTypes::LongBlob,
            27 => ColumnTypes::BLOB,
            28 => ColumnTypes::VarString,
            29 => ColumnTypes::STRING,
            30 => ColumnTypes::GEOMETRY,
            31 => ColumnTypes::JSON,
            32 => ColumnTypes::VECTOR,
            _ => ColumnTypes::VECTOR,
        }
    }

    /// The type code of this column type.
    pub fn to_code(&self) -> (r: u32)
        ensures
            r == self.code(),
    {
        match self {
            ColumnTypes::DECIMAL => 1,
            ColumnTypes::TINY => 2,
            ColumnTypes::SHORT => 3,
            ColumnTypes::LONG => 4,
            ColumnTypes::FLOAT => 5,
            ColumnTypes::DOUBLE => 6,
            ColumnTypes::TypeNull => 7,
            ColumnTypes::TIMESTAMP => 8,
            ColumnTypes::LONGLONG => 9,
            ColumnTypes::INT24 => 10,
            ColumnTypes::DATE => 11,
            ColumnTypes::TIME => 12,
            ColumnTypes::DATETIME => 13,
            ColumnTypes::YEAR => 14,
            ColumnTypes::NEWDATE => 15,
            ColumnTypes::VARCHAR => 16,
            ColumnTypes::BIT => 17,
            ColumnTypes::TIMESTAMP2 => 18,
            ColumnTypes::DATETIME2 => 19,
            ColumnTypes::TIME2 => 20,
            ColumnTypes::NEWDECIMAL => 21,
            ColumnTypes::ENUM => 22,
            ColumnTypes::SET => 23,
            ColumnTypes::TinyBlob => 24,
            ColumnTypes::MediumBlob => 25,
            ColumnTypes::LongBlob => 26,
            ColumnTypes::BLOB => 27,
            ColumnTypes::VarString => 28,
            ColumnTypes::STRING => 29,
            ColumnTypes::GEOMETRY => 30,
            ColumnTypes::JSON => 31,
            ColumnTypes::VECTOR => 32,
        }
    }
}

/// Type codes and column types correspond one to one: reading a type back
/// from its code gives the type, and distinct types have distinct codes.
pub proof fn law_column_type_codes(a: ColumnTypes, b: ColumnTypes)
    ensures
        1 <= a.code() <= 32,
        a.code() == b.code() ==> a == b,
{
}


/// The stored size of a column of a fixed-size type; `u32::MAX` for a type
/// of variable length.
pub open spec fn fixed_column_size(col_type: ColumnTypes) -> u32 {
    match col_type {
        ColumnTypes::TINY => 1,
        ColumnTypes::SHORT => 2,
        ColumnTypes::LONG => 4,
        ColumnTypes::FLOAT => 4,
        ColumnTypes::DOUBLE => 8,
        ColumnTypes::TypeNull => 0,
        ColumnTypes::TIMESTAMP => 4,
        ColumnTypes::LONGLONG => 8,
        ColumnTypes::INT24 => 3,
        ColumnTypes::DATE => 3,
        ColumnTypes::TIME => 3,
        ColumnTypes::DATETIME => 8,
        ColumnTypes::YEAR => 1,
        ColumnTypes::NEWDATE => 3,
        _ => u32::MAX,
    }
}

pub fn get_fixed_column_size(col_type: ColumnTypes) -> (r: u32)
    ensures
        r == fixed_column_size(col_type),
{
    match col_type {
        ColumnTypes::TINY => 1,
        ColumnTypes::SHORT => 2,
        ColumnTypes::LONG => 4,
        ColumnTypes::FLOAT => 4,
        ColumnTypes::DOUBLE => 8,
        ColumnTypes::TypeNull => 0,
        ColumnTypes::TIMESTAMP => 4,
        ColumnTypes::LONGLONG => 8,
        ColumnTypes::INT24 => 3,
        ColumnTypes::DATE => 3,
        ColumnTypes::TIME => 3,
        ColumnTypes::DATETIME => 8,
        ColumnTypes::YEAR => 1,
        ColumnTypes::NEWDATE => 3,
        _ => u32::MAX,
    }
}

/// The bits of the byte `offs` bytes before the record origin `rec`, taken
/// with `mask` and shifted right by `shift`.
pub fn rec_get_bit_field_1(page: &[u8], rec: u32, offs: u32, mask: u32, shift: u32) -> (r: u32)
    requires
        offs <= rec,
        rec - offs < page@.len(),
        shift < 32,
    ensures
        r == (page@[rec - offs] as u32 & mask) >> shift,
{
    let at = vstd::slice::slice_subrange(page, (rec - offs) as usize, page.len());
    let byte_val: u8 = _mach_read_from_1(at);
    (byte_val as u32 & mask) >> shift
}

/// The status of the compact record whose origin is `rec`: the low three
/// bits of the byte 3 bytes before it.
pub fn rec_get_status(page: &[u8], rec: u32) -> (r: u32)
    requires
        3 <= rec,
        rec - 3 < page@.len(),
    ensures
        r == page@[rec - 3] as u32 & 7,
        r < 8,
{
    let r = rec_get_bit_field_1(page, rec, REC_NEW_STATUS, REC_NEW_STATUS_MASK, REC_NEW_STATUS_SHIFT);
    proof {
        let b = page@[rec - 3] as u32;
        assert((b & 7u32) >> 0u32 == b & 7u32) by (bit_vector);
        assert(b & 7u32 < 8) by (bit_vector);
    }
    r
}

/// The byte offset, before the record origin, of the info bits: 5 on a
/// compact record, 6 on an old-style one.
pub open spec fn info_bits_offset(comp: bool) -> u32 {
    if comp { 5 } else { 6 }
}

/// The info bits of the record whose origin is `rec`: the high four bits of
/// the byte 5 (compact) or 6 (old-style) bytes before it.
pub fn rec_get_info_bits(page: &[u8], rec: u32, comp: bool) -> (r: u32)
    requires
        info_bits_offset(comp) <= rec,
        rec - info_bits_offset(comp) < page@.len(),
    ensures
        r == (page@[rec - info_bits_offset(comp)] as u32 & 0xF0) >> 4,
        r < 16,
{
    let offs: u32 = if comp {
        REC_NEW_INFO_BITS
    } else {
        REC_OLD_INFO_BITS
    };
    let r = rec_get_bit_field_1(page, rec, offs, REC_INFO_BITS_MASK, REC_INFO_BITS_SHIFT);
    proof {
        let b = page@[rec - offs] as u32;
        assert((b & 0xF0u32) >> 4u32 < 16) by (bit_vector);
    }
    r
}

/// Whether a compact record is flagged as versioned: the version flag
/// (0x40) among the info bits, taken in place in the byte 5 bytes before
/// the record origin.
pub fn rec_new_is_versioned(page: &[u8], rec: u32) -> (r: bool)
    requires
        5 <= rec,
        rec - 5 < page@.len(),
    ensures
        r == (page@[rec - 5] & 0x40 != 0),
{
    let bits = rec_get_bit_field_1(page, rec, REC_NEW_INFO_BITS, REC_INFO_BITS_MASK, 0);
    proof {
        let b = page@[rec - 5];
        assert((((b as u32) & 0xF0u32) >> 0u32) & 0x40u32 != 0 <==> b & 0x40u8 != 0) by (bit_vector);
    }
    bits & REC_INFO_VERSION_FLAG != 0
}

/// The next-record field of the record whose origin is `rec`: the 2-byte
/// big-endian value that ends at the origin.
pub open spec fn next_field(page: Seq<u8>, rec: int) -> nat {
    be_field(page, rec - 2, 2)
}

/// The next-record field is a 2-byte value.
pub proof fn lemma_next_field_bound(page: Seq<u8>, rec: int)
    requires
        2 <= rec <= page.len(),
    ensures
        next_field(page, rec) < 0x10000,
{
    crate::ut::lemma_be_value_2(page.subrange(rec - 2, rec));
}

/// Where the record after `rec` starts, as `rec_get_next_offs` finds it: on
/// a compact page (`comp > 0`) the next-record field is relative to `rec`,
/// and the result is the offset within the page of `rec` plus the field (0
/// when the field is 0); on an old-style page the field itself.
pub open spec fn spec_next_offs(page: Seq<u8>, rec: u32, comp: u32) -> int {
    let field = next_field(page, rec as int);
    if comp > 0 {
        if field == 0 { 0 } else { (rec + field) % (PAGE_SIZE as int) }
    } else {
        field as int
    }
}

/// The offset of the record after `rec`; see `spec_next_offs`. On a compact
/// page it is always within a page.
pub fn rec_get_next_offs(page: &[u8], rec: u32, comp: u32) -> (r: u32)
    requires
        5 <= rec <= page@.len(),
        comp > 0 ==> rec + next_field(page@, rec as int) <= u32::MAX,
    ensures
        r == spec_next_offs(page@, rec, comp),
        comp > 0 ==> r < PAGE_SIZE,
{
    rec_new_is_versioned(page, rec);
    if rec < REC_NEXT {
        return 0;
    }
    let at = vstd::slice::slice_subrange(page, (rec - REC_NEXT) as usize, page.len());
    let field_val: u32 = mach_read_from_2(at) as u32;
    proof {
        assert(at@.subrange(0, 2) =~= page@.subrange(rec - 2, rec as int));
    }
    if comp > 0 {
        if field_val == 0 {
            return 0;
        }
        let sum: u32 = rec + field_val;
        proof {
            lemma_align_offset_page(sum);
        }
        return ut_align_offset(sum, PAGE_SIZE as u32);
    } else {
        return field_val;
    }
}

} // verus!
