//! Reading the serialized dictionary information (SDI) of a tablespace:
//! the descent from the SDI root to the leftmost leaf, the SDI record
//! header, the pages of an externally stored record, and the assembly of
//! the records into one JSON array. Reading pages is left to the caller:
//! each step says which page it needs next.
use vstd::prelude::*;
use crate::fil0fil::{FIL_NULL, FIL_PAGE_SDI, FIL_PAGE_SDI_BLOB, FIL_PAGE_SDI_ZBLOB};
use crate::ibd::{
    FIL_PAGE_DATA, FIL_PAGE_NEXT, FIL_PAGE_TYPE, field4, get_first_user_rec, get_rec_type,
    header_field, sdi_page_level, spec_sdi_page_level,
};
use crate::page0types::{PAGE_HEADER, PAGE_N_RECS, PAGE_NEW_INFIMUM};
use crate::ut::{PAGE_SIZE, be_field, mach_read_from_2, mach_read_from_4};

verus! {

/// Offset, before a record origin, of the next-record field.
pub const REC_OFF_NEXT: u32 = 2;

/// Offset, before a record origin, of the byte that holds the record type.
pub const REC_OFF_TYPE: u32 = 3;

/// Length of the type field of an SDI record.
pub const REC_DATA_TYPE_LEN: u32 = 4;

/// Length of the id field of an SDI record.
pub const REC_DATA_ID_LEN: u32 = 8;

/// The first page number at which an SDI page or blob page may stand:
/// pages 0 to 3 are the tablespace header, the two bitmaps and the SDI root.
pub const SDI_BLOB_ALLOWED: u32 = 4;

/// Record type of the infimum record.
pub const REC_STATUS_INFIMUM: u32 = 2;

/// Record type of the supremum record.
pub const REC_STATUS_SUPREMUM: u32 = 3;

/// The status bits that mark the infimum and supremum records.
pub open spec fn rec_type_at(page: Seq<u8>, rec: int) -> u8 {
    page[rec - 3] & 7
}

/// Why the descent to the leftmost SDI leaf failed.
#[derive(Debug, Clone, Copy, PartialEq, Eq, Structural)]
pub enum DescentFailure {
    /// The root page is not an SDI page.
    RootNotSdi,
    /// The infimum record of a non-leaf page has not the infimum type.
    InfimumNotFound,
    /// The child pointer of the first record names one of the first pages.
    InvalidChild(u32),
    /// A child page is not at the level below its parent, and not a leaf.
    LeafNotFound,
}

/// What the descent from the SDI root to its leftmost leaf does next.
#[derive(Debug, Clone, Copy, PartialEq, Eq, Structural)]
pub enum DescentStep {
    /// The descent failed.
    Failed(DescentFailure),
    /// The root page holds no records.
    NoRecords,
    /// The page just read is the leftmost leaf; `at_root` when it is the root.
    ReachedLeaf { at_root: bool },
    /// Read this child page, whose parent is at `level`, and go on with it.
    ReadChild { page_no: u32, level: u64 },
    /// The first record of the page points outside the page.
    OutOfPage,
}

/// Offset of the child page number in the first record of a non-leaf SDI
/// page, given the infimum's next-record field.
pub open spec fn child_pointer_offset(page: Seq<u8>) -> int {
    PAGE_NEW_INFIMUM + be_field(page, PAGE_NEW_INFIMUM - REC_OFF_NEXT, 2) + REC_DATA_TYPE_LEN + REC_DATA_ID_LEN
}

/// One step down from a non-leaf SDI page at `level`: follow the child
/// pointer of the first record after the infimum.
pub open spec fn spec_descend(page: Seq<u8>, level: u64) -> DescentStep {
    if rec_type_at(page, PAGE_NEW_INFIMUM as int) != REC_STATUS_INFIMUM {
        DescentStep::Failed(DescentFailure::InfimumNotFound)
    } else if child_pointer_offset(page) + 4 > page.len() {
        DescentStep::OutOfPage
    } else {
        let child = field4(page, child_pointer_offset(page)) as u32;
        if child < SDI_BLOB_ALLOWED {
            DescentStep::Failed(DescentFailure::InvalidChild(child))
        } else {
            DescentStep::ReadChild { page_no: child, level }
        }
    }
}

/// The first step of the descent, on the root page.
pub open spec fn spec_descent_from_root(page: Seq<u8>) -> DescentStep {
    let level = spec_sdi_page_level(page);
    if level >= u64::MAX {
        DescentStep::Failed(DescentFailure::RootNotSdi)
    } else if header_field(page, PAGE_N_RECS) == 0 {
        DescentStep::NoRecords
    } else if level == 0 {
        DescentStep::ReachedLeaf { at_root: true }
    } else {
        spec_descend(page, level as u64)
    }
}

/// A later step of the descent, on a child page whose parent is at `parent_level`.
pub open spec fn spec_descent_from_child(page: Seq<u8>, parent_level: u64) -> DescentStep {
    let level = spec_sdi_page_level(page);
    if level == parent_level - 1 && level != 0 {
        spec_descend(page, level as u64)
    } else if level == 0 {
        DescentStep::ReachedLeaf { at_root: false }
    } else {
        DescentStep::Failed(DescentFailure::LeafNotFound)
    }
}

fn descend(page: &[u8], level: u64) -> (r: DescentStep)
    requires
        page@.len() == PAGE_SIZE,
    ensures
        r == spec_descend(page@, level),
{
    if get_rec_type(page, PAGE_NEW_INFIMUM) != REC_STATUS_INFIMUM as u8 {
        return DescentStep::Failed(DescentFailure::InfimumNotFound);
    }
    let at = vstd::slice::slice_subrange(page, (PAGE_NEW_INFIMUM - REC_OFF_NEXT) as usize, page.len());
    proof {
        assert(at@.subrange(0, 2) =~= page@.subrange(PAGE_NEW_INFIMUM - 2, PAGE_NEW_INFIMUM as int));
    }
    let next_rec_off = mach_read_from_2(at) as u32;
    let child_at = PAGE_NEW_INFIMUM + next_rec_off + REC_DATA_TYPE_LEN + REC_DATA_ID_LEN;
    if child_at as usize + 4 > page.len() {
        return DescentStep::OutOfPage;
    }
    let child_bytes = vstd::slice::slice_subrange(page, child_at as usize, page.len());
    proof {
        assert(child_bytes@.subrange(0, 4) =~= page@.subrange(child_at as int, child_at + 4));
    }
    let child_page_number = mach_read_from_4(child_bytes);
    if child_page_number < SDI_BLOB_ALLOWED {
        return DescentStep::Failed(DescentFailure::InvalidChild(child_page_number));
    }
    DescentStep::ReadChild { page_no: child_page_number, level }
}

/// The first step of the descent to the leftmost SDI leaf, on the root
/// page just read.
pub fn descent_from_root(page: &[u8]) -> (r: DescentStep)
    requires
        page@.len() == PAGE_SIZE,
    ensures
        r == spec_descent_from_root(page@),
        r matches DescentStep::ReachedLeaf { .. } ==> spec_sdi_page_level(page@) == 0,
        r matches DescentStep::ReadChild { page_no, level } ==> page_no >= SDI_BLOB_ALLOWED
            && level == spec_sdi_page_level(page@) && 0 < level <= u16::MAX,
{
    let page_level = sdi_page_level(page);
    if page_level >= u64::MAX {
        return DescentStep::Failed(DescentFailure::RootNotSdi);
    }
    let num_recs = crate::ibd::page_header_get_field(page, FIL_PAGE_DATA + PAGE_N_RECS) as u32;
    if num_recs == 0 {
        return DescentStep::NoRecords;
    }
    if page_level == 0 {
        return DescentStep::ReachedLeaf { at_root: true };
    }
    descend(page, page_level)
}

/// A later step of the descent, on the child page just read, whose parent
/// is at `parent_level`.
pub fn descent_from_child(page: &[u8], parent_level: u64) -> (r: DescentStep)
    requires
        page@.len() == PAGE_SIZE,
        0 < parent_level,
    ensures
        r == spec_descent_from_child(page@, parent_level),
        r matches DescentStep::ReachedLeaf { .. } ==> spec_sdi_page_level(page@) == 0,
        r matches DescentStep::ReadChild { page_no, level } ==> page_no >= SDI_BLOB_ALLOWED
            && level == spec_sdi_page_level(page@) && level == parent_level - 1 && 0 < level,
{
    let page_level = sdi_page_level(page);
    if page_level == parent_level - 1 && page_level != 0 {
        return descend(page, page_level);
    }
    if page_level != 0 {
        return DescentStep::Failed(DescentFailure::LeafNotFound);
    }
    DescentStep::ReachedLeaf { at_root: false }
}


/// Offset, from the record origin, of the type field of an SDI record.
pub const REC_OFF_DATA_TYPE: u32 = 0;

/// Offset of the id field of an SDI record.
pub const REC_OFF_DATA_ID: u32 = REC_OFF_DATA_TYPE + REC_DATA_TYPE_LEN;

/// Length of a transaction id.
pub const DATA_TRX_ID_LEN: u32 = 6;

/// Length of a roll pointer.
pub const DATA_ROLL_PTR_LEN: u32 = 7;

/// Offset of the transaction id of an SDI record.
pub const REC_OFF_DATA_TRX_ID: u32 = REC_OFF_DATA_ID + REC_DATA_ID_LEN;

/// Offset of the roll pointer of an SDI record.
pub const REC_OFF_DATA_ROLL_PTR: u32 = REC_OFF_DATA_TRX_ID + DATA_TRX_ID_LEN;

/// Length of the uncompressed length field of an SDI record.
pub const REC_DATA_UNCOMP_LEN: u32 = 4;

/// Length of the compressed length field of an SDI record.
pub const REC_DATA_COMP_LEN: u32 = 4;

/// Offset of the uncompressed length of the SDI data.
pub const REC_OFF_DATA_UNCOMP_LEN: u32 = REC_OFF_DATA_ROLL_PTR + DATA_ROLL_PTR_LEN;

/// Offset of the compressed length of the SDI data.
pub const REC_OFF_DATA_COMP_LEN: u32 = REC_OFF_DATA_UNCOMP_LEN + REC_DATA_UNCOMP_LEN;

/// Offset of the compressed SDI data itself.
pub const REC_OFF_DATA_VARCHAR: u32 = REC_OFF_DATA_COMP_LEN + REC_DATA_COMP_LEN;

/// Size of the header before the origin of a compact record.
pub const REC_MIN_HEADER_SIZE: u32 = 5;

/// Size of the reference to externally stored data.
pub const BTR_EXTERN_LEN: u32 = 12;

/// Offset, within the reference to external data, of the page number.
pub const BTR_EXTERN_PAGE_NO: u32 = 4;

/// The header of an SDI record.
#[derive(Debug, Clone, Copy, PartialEq, Eq, Structural)]
pub struct SdiRecordHeader {
    pub sdi_type: u32,
    pub sdi_id: u64,
    /// Length of the SDI data once decompressed.
    pub uncomp_len: u32,
    /// Length of the compressed SDI data, as the record states it.
    pub comp_len: u32,
    /// Length of the part of the data stored on the page, for external data.
    pub in_page_len: u32,
    /// Length of the compressed data, as its length bytes give it.
    pub data_length: u64,
    /// Whether the data is stored on other pages.
    pub external: bool,
}

/// The header of the SDI record whose origin is `rec`; `None` when a field
/// lies outside the page or the length overflows.
///
/// The length of the data is held in one byte below the origin (when below
/// 128), or in two: the first with bit 7 set holds bits 8 to 13 of the
/// length on the page, and bit 6 flags external data, whose total length
/// then follows the data on the page in the reference to it.
pub open spec fn spec_sdi_record_header(page: Seq<u8>, rec: int) -> Option<SdiRecordHeader> {
    if rec < REC_MIN_HEADER_SIZE + 1 || rec + REC_OFF_DATA_VARCHAR > page.len() {
        None
    } else {
        let partial = page[rec - REC_MIN_HEADER_SIZE - 1];
        let base = SdiRecordHeader {
            sdi_type: field4(page, rec + REC_OFF_DATA_TYPE) as u32,
            sdi_id: be_field(page, rec + REC_OFF_DATA_ID, 8) as u64,
            uncomp_len: field4(page, rec + REC_OFF_DATA_UNCOMP_LEN) as u32,
            comp_len: field4(page, rec + REC_OFF_DATA_COMP_LEN) as u32,
            in_page_len: 0,
            data_length: partial as u64,
            external: false,
        };
        if partial & 0x80 != 0 {
            let in_page = ((partial & 0x3f) as u32) << 8u32;
            if partial & 0x40 != 0 {
                let at = rec + REC_OFF_DATA_VARCHAR + in_page + BTR_EXTERN_LEN;
                if at + 8 > page.len() || be_field(page, at, 8) + in_page > u64::MAX {
                    None
                } else {
                    Some(SdiRecordHeader {
                        in_page_len: in_page,
                        data_length: (be_field(page, at, 8) + in_page) as u64,
                        external: true,
                        ..base
                    })
                }
            } else if rec < REC_MIN_HEADER_SIZE + 2 {
                None
            } else {
                Some(SdiRecordHeader {
                    in_page_len: in_page,
                    data_length: (page[rec - REC_MIN_HEADER_SIZE - 2] + in_page) as u64,
                    ..base
                })
            }
        } else {
            Some(base)
        }
    }
}

/// Reads the header of the SDI record whose origin is `rec`.
pub fn sdi_record_header(page: &[u8], rec: u32) -> (r: Option<SdiRecordHeader>)
    requires
        page@.len() == PAGE_SIZE,
    ensures
        r == spec_sdi_record_header(page@, rec as int),
        r matches Some(h) ==> h.in_page_len <= 0x3f00 && (!h.external ==> h.data_length < 0x4000),
{
    if rec < REC_MIN_HEADER_SIZE + 1 || rec > PAGE_SIZE as u32 - REC_OFF_DATA_VARCHAR {
        return None;
    }
    let sdi_type = read_at_4(page, rec + REC_OFF_DATA_TYPE);
    let id_bytes = vstd::slice::slice_subrange(page, (rec + REC_OFF_DATA_ID) as usize, page.len());
    proof {
        assert(id_bytes@.subrange(0, 8) =~= page@.subrange(rec + REC_OFF_DATA_ID, rec + REC_OFF_DATA_ID + 8));
    }
    let sdi_id = crate::ut::mach_read_from_8(id_bytes);
    let uncomp_len = read_at_4(page, rec + REC_OFF_DATA_UNCOMP_LEN);
    let comp_len = read_at_4(page, rec + REC_OFF_DATA_COMP_LEN);
    let partial: u8 = page[(rec - REC_MIN_HEADER_SIZE - 1) as usize];
    let base = SdiRecordHeader {
        sdi_type,
        sdi_id,
        uncomp_len,
        comp_len,
        in_page_len: 0,
        data_length: partial as u64,
        external: false,
    };
    if partial & 0x80 != 0 {
        let in_page: u32 = ((partial & 0x3f) as u32) << 8;
        proof {
            assert(((partial & 0x3fu8) as u32) << 8u32 <= 0x3f00) by (bit_vector);
        }
        if partial & 0x40 != 0 {
            let at = rec + REC_OFF_DATA_VARCHAR + in_page + BTR_EXTERN_LEN;
            if at as usize + 8 > page.len() {
                return None;
            }
            let len_bytes = vstd::slice::slice_subrange(page, at as usize, page.len());
            proof {
                assert(len_bytes@.subrange(0, 8) =~= page@.subrange(at as int, at + 8));
            }
            let ext = crate::ut::mach_read_from_8(len_bytes);
            if ext > u64::MAX - in_page as u64 {
                return None;
            }
            Some(SdiRecordHeader { in_page_len: in_page, data_length: ext + in_page as u64, external: true, ..base })
        } else if rec < REC_MIN_HEADER_SIZE + 2 {
            None
        } else {
            let low: u8 = page[(rec - REC_MIN_HEADER_SIZE - 2) as usize];
            Some(SdiRecordHeader { in_page_len: in_page, data_length: low as u64 + in_page as u64, ..base })
        }
    } else {
        Some(base)
    }
}

/// Reads the 4-byte big-endian field at `off` within `page`.
fn read_at_4(page: &[u8], off: u32) -> (r: u32)
    requires
        off + 4 <= page@.len(),
    ensures
        r == field4(page@, off as int),
{
    let at = vstd::slice::slice_subrange(page, off as usize, page.len());
    proof {
        assert(at@.subrange(0, 4) =~= page@.subrange(off as int, off + 4));
    }
    mach_read_from_4(at)
}


/// Where the compressed data of an SDI record is found.
#[derive(Debug, Clone, Copy, PartialEq, Eq, Structural)]
pub enum RecordSource {
    /// All of it is on the page, after the record header.
    Page,
    /// The rest follows on a chain of uncompressed blob pages from `first_page`.
    UncompressedBlob { first_page: u32 },
    /// The rest is a zlib stream on a chain of compressed blob pages.
    CompressedBlob { first_page: u32 },
}

/// Offset in the record data of the tablespace flags that decide whether
/// external data is stored compressed. (The flags are read from the record
/// data, at the place where page 0 holds them.)
pub open spec fn flags_offset() -> int {
    PAGE_HEADER + crate::ibd::FSP_SPACE_FLAGS
}

/// The data of the SDI record at `rec` as far as the page holds it, with
/// zeros in place of what external pages hold; `None` when the page
/// cannot give it (a field beyond the page, lengths that do not agree).
pub open spec fn spec_record_data(page: Seq<u8>, rec: int, h: SdiRecordHeader) -> Option<(Seq<u8>, RecordSource)> {
    let origin = rec + REC_OFF_DATA_VARCHAR;
    let dl = h.data_length as int;
    let ip = h.in_page_len as int;
    if !h.external {
        if origin + dl > page.len() {
            None
        } else {
            Some((page.subrange(origin, origin + dl), RecordSource::Page))
        }
    } else if dl > usize::MAX {
        None
    } else if ip != 0 && !(ip <= dl && dl % 0x1_0000_0000 == ip && origin + ip <= page.len()) {
        None
    } else if rec + ip + REC_OFF_DATA_VARCHAR + BTR_EXTERN_PAGE_NO + 4 > page.len() {
        None
    } else if dl < flags_offset() + 2 {
        None
    } else {
        let data = Seq::new(dl as nat, |i: int| if i < ip { page[origin + i] } else { 0u8 });
        let flags = be_field(data, flags_offset(), 2) as u32;
        let first_page = field4(page, rec + ip + REC_OFF_DATA_VARCHAR + BTR_EXTERN_PAGE_NO) as u32;
        if (flags & 30) >> 1 == 0 {
            Some((data, RecordSource::UncompressedBlob { first_page }))
        } else {
            Some((data, RecordSource::CompressedBlob { first_page }))
        }
    }
}

/// The lengths in an SDI record header: at most 0x3f00 bytes on the page,
/// and a length below 0x4000 for data that is all on the page.
pub proof fn lemma_header_bounds(page: Seq<u8>, rec: int)
    requires
        spec_sdi_record_header(page, rec) is Some,
    ensures
        spec_sdi_record_header(page, rec)->0.in_page_len <= 0x3f00,
        !spec_sdi_record_header(page, rec)->0.external ==> spec_sdi_record_header(page, rec)->0.data_length < 0x4000,
{
    let p = page[rec - 6];
    assert(((p & 0x3fu8) as u32) << 8u32 <= 0x3f00) by (bit_vector);
}

/// Copies `len` bytes of `src` from `from` onto the end of `dst`.
fn push_range(dst: &mut Vec<u8>, src: &[u8], from: usize, len: usize)
    requires
        from + len <= src@.len(),
    ensures
        final(dst)@ == old(dst)@ + src@.subrange(from as int, from + len),
{
    let mut i: usize = 0;
    while i < len
        invariant
            from + len <= src.len(),
            i <= len,
            dst@ == old(dst)@ + src@.subrange(from as int, from + i),
        decreases len - i,
    {
        dst.push(src[from + i]);
        i = i + 1;
        assert(dst@ =~= old(dst)@ + src@.subrange(from as int, from + i));
    }
}

/// The data of the SDI record at `rec` with header `h`, as far as the page
/// holds it, and where the rest is; see `spec_record_data`.
pub fn record_data(page: &[u8], rec: u32, h: SdiRecordHeader) -> (r: Option<(Vec<u8>, RecordSource)>)
    requires
        page@.len() == PAGE_SIZE,
        spec_sdi_record_header(page@, rec as int) == Some(h),
    ensures
        match r {
            Some((v, s)) => spec_record_data(page@, rec as int, h) == Some((v@, s)),
            None => spec_record_data(page@, rec as int, h) is None,
        },
{
    let origin: u32 = rec + REC_OFF_DATA_VARCHAR;
    if !h.external {
        proof {
            lemma_header_bounds(page@, rec as int);
        }
        if origin as u64 + h.data_length > PAGE_SIZE as u64 {
            return None;
        }
        let mut v: Vec<u8> = Vec::new();
        push_range(&mut v, page, origin as usize, h.data_length as usize);
        assert(v@ =~= page@.subrange(origin as int, origin + h.data_length));
        return Some((v, RecordSource::Page));
    }
    if h.data_length > usize::MAX as u64 {
        return None;
    }
    let dl = h.data_length as usize;
    let ip = h.in_page_len;
    proof {
        lemma_header_bounds(page@, rec as int);
    }
    proof {
        let d = h.data_length;
        assert((d as u32) == d % 0x1_0000_0000) by (bit_vector);
    }
    if ip != 0 {
        if !((ip as u64) <= h.data_length && (h.data_length as u32) == ip
            && origin + ip <= PAGE_SIZE as u32) {
            return None;
        }
    }
    let fp_at = rec + ip + REC_OFF_DATA_VARCHAR + BTR_EXTERN_PAGE_NO;
    if fp_at + 4 > PAGE_SIZE as u32 {
        return None;
    }
    if dl < (PAGE_HEADER + crate::ibd::FSP_SPACE_FLAGS + 2) as usize {
        return None;
    }
    let first_page = read_at_4(page, fp_at);
    let ghost spec_data = Seq::new(dl as nat, |i: int| if i < ip { page@[origin + i] } else { 0u8 });
    let mut data: Vec<u8> = Vec::new();
    push_range(&mut data, page, origin as usize, ip as usize);
    while data.len() < dl
        invariant
            ip <= data@.len() <= dl,
            dl == spec_data.len(),
            origin + ip <= PAGE_SIZE,
            spec_data == Seq::new(dl as nat, |i: int| if i < ip { page@[origin + i] } else { 0u8 }),
            forall|i: int| 0 <= i < data@.len() ==> data@[i] == spec_data[i],
        decreases dl - data@.len(),
    {
        data.push(0);
    }
    assert(data@ =~= spec_data);
    let flags = crate::ibd::page_header_get_field(data.as_slice(), PAGE_HEADER + crate::ibd::FSP_SPACE_FLAGS);
    let ssize = crate::ibd::fsp_flags_get_zip_ssize(flags as u32);
    assert(first_page == field4(page@, rec + ip + REC_OFF_DATA_VARCHAR + BTR_EXTERN_PAGE_NO));
    assert(flags == be_field(spec_data, flags_offset(), 2));
    assert(ssize == (be_field(spec_data, flags_offset(), 2) as u32 & 30) >> 1);
    if ssize == 0 {
        Some((data, RecordSource::UncompressedBlob { first_page }))
    } else {
        Some((data, RecordSource::CompressedBlob { first_page }))
    }
}

/// What follows a page of an uncompressed blob chain.
#[derive(Debug, Clone, Copy, PartialEq, Eq, Structural)]
pub enum BlobPageStep {
    /// Read this page next.
    Next(u32),
    /// The chain ends here.
    Finished,
    /// The page is not an uncompressed SDI blob page: the copy stops.
    NotBlobPage,
    /// The next page number names one of the first pages: the copy stops.
    UnexpectedNext,
}

/// A page of an uncompressed blob chain copied into `data` from `base` on,
/// with `calc` bytes already copied: the page's part is copied from the
/// page data into `data[base + calc .. base + part]`, where `part` is the
/// part length on the page. The copy takes as many bytes from the page as
/// the part length, so it only goes through when nothing was copied
/// before (`None` otherwise, and when the part does not fit).
pub open spec fn spec_blob_page(page: Seq<u8>, data: Seq<u8>, base: int, calc: u64) -> Option<(Seq<u8>, u64, BlobPageStep)> {
    let part = field4(page, (FIL_PAGE_DATA + LOB_HDR_PART_LEN) as int);
    let src = calc + FIL_PAGE_DATA + LOB_HDR_SIZE;
    let next = field4(page, (FIL_PAGE_DATA + LOB_HDR_NEXT_PAGE_NO) as int) as u32;
    if be_field(page, FIL_PAGE_TYPE as int, 2) != FIL_PAGE_SDI_BLOB {
        Some((data, calc, BlobPageStep::NotBlobPage))
    } else if !(calc <= part && base + part <= data.len() && part - calc == part && src + part <= page.len()) {
        None
    } else {
        let new_data = Seq::new(
            data.len(),
            |i: int| if base + calc <= i < base + part { page[src + i - base - calc] } else { data[i] },
        );
        let new_calc = (calc + part) as u64;
        if next <= SDI_BLOB_ALLOWED {
            Some((new_data, new_calc, BlobPageStep::UnexpectedNext))
        } else if next == FIL_NULL {
            Some((new_data, new_calc, BlobPageStep::Finished))
        } else {
            Some((new_data, new_calc, BlobPageStep::Next(next)))
        }
    }
}

/// Offset, within the page data of a blob page, of the part length.
pub const LOB_HDR_PART_LEN: u32 = 0;

/// Size of the header of an uncompressed blob page.
pub const LOB_HDR_SIZE: u32 = 8;

/// Offset, within the page data of a blob page, of the next page number.
pub const LOB_HDR_NEXT_PAGE_NO: u32 = 4;

/// Copies the part of an uncompressed blob page into `data`; see
/// `spec_blob_page`. Returns the new number of bytes copied and what
/// follows, or `None` (with `data` unchanged) when the part cannot be copied.
pub fn blob_page_step(page: &[u8], data: &mut Vec<u8>, base: usize, calc: u64) -> (r: Option<(u64, BlobPageStep)>)
    requires
        page@.len() == PAGE_SIZE,
        base <= old(data)@.len(),
    ensures
        match r {
            Some((c, s)) => spec_blob_page(page@, old(data)@, base as int, calc) == Some((final(data)@, c, s)),
            None => spec_blob_page(page@, old(data)@, base as int, calc) is None && final(data)@ == old(data)@,
        },
{
    let type_bytes = vstd::slice::slice_subrange(page, FIL_PAGE_TYPE as usize, page.len());
    proof {
        assert(type_bytes@.subrange(0, 2) =~= page@.subrange(FIL_PAGE_TYPE as int, FIL_PAGE_TYPE + 2));
    }
    if crate::ut::fil_page_get_type(type_bytes) != FIL_PAGE_SDI_BLOB {
        return Some((calc, BlobPageStep::NotBlobPage));
    }
    let part = read_at_4(page, FIL_PAGE_DATA + LOB_HDR_PART_LEN) as u64;
    let tail_len = (data.len() - base) as u64;
    if !(calc <= part && part <= tail_len && part - calc == part
        && part <= (PAGE_SIZE as u32 - FIL_PAGE_DATA - LOB_HDR_SIZE) as u64) {
        return None;
    }
    let src = (FIL_PAGE_DATA + LOB_HDR_SIZE) as usize;
    let n = part as usize;
    let ghost old_data = data@;
    let mut i: usize = 0;
    while i < n
        invariant
            calc == 0,
            base + n <= data.len(),
            page@.len() == PAGE_SIZE,
            src + n <= page@.len(),
            src == FIL_PAGE_DATA + LOB_HDR_SIZE,
            i <= n,
            data@.len() == old_data.len(),
            forall|j: int| 0 <= j < data@.len() ==> data@[j] == (if base <= j < base + i { page@[src + j - base] } else { old_data[j] }),
        decreases n - i,
    {
        data.set(base + i, page[src + i]);
        i = i + 1;
    }
    let next = read_at_4(page, FIL_PAGE_DATA + LOB_HDR_NEXT_PAGE_NO);
    proof {
        let sp = spec_blob_page(page@, old_data, base as int, calc);
        assert(sp matches Some((d, _, _)) && d =~= data@);
    }
    if next <= SDI_BLOB_ALLOWED {
        return Some((part, BlobPageStep::UnexpectedNext));
    }
    if next == FIL_NULL {
        return Some((part, BlobPageStep::Finished));
    }
    Some((part, BlobPageStep::Next(next)))
}


/// Where the record after the current one is.
#[derive(Debug, Clone, Copy, PartialEq, Eq, Structural)]
pub enum NextRec {
    /// At this record origin.
    At(u32),
    /// There is none: the current record was on the last page.
    End,
    /// The next-record offset (given) is 0 or beyond a page: there is none.
    InvalidOffset(u32),
    /// On the page with this number: read it and ask `next_rec_on_page`.
    ReadPage(u32),
    /// The following page is not an SDI page: there is none.
    NotSdiPage,
    /// A record offset falls outside the page.
    OutOfBounds,
}

/// The record after the record `rec` of the SDI leaf `page`. When the next
/// record is the supremum, the records go on on the next page of the level.
pub open spec fn spec_next_rec(page: Seq<u8>, rec: u32) -> NextRec {
    if !(5 <= rec <= page.len()) {
        NextRec::OutOfBounds
    } else {
        let next = crate::rem0rec::spec_next_offs(page, rec, crate::ibd::comp_flag(page));
        if next == 0 || next >= PAGE_SIZE {
            NextRec::InvalidOffset(next as u32)
        } else if !(3 <= rec + next && rec + next - 3 < page.len()) {
            NextRec::OutOfBounds
        } else if rec_type_at(page, rec + next) == REC_STATUS_SUPREMUM {
            let next_page = field4(page, FIL_PAGE_NEXT as int) as u32;
            if next_page == FIL_NULL {
                NextRec::End
            } else {
                NextRec::ReadPage(next_page)
            }
        } else {
            NextRec::At((rec + next) as u32)
        }
    }
}

/// The first record on the page that follows an SDI leaf.
pub open spec fn spec_next_rec_on_page(page: Seq<u8>) -> NextRec {
    if be_field(page, FIL_PAGE_TYPE as int, 2) != FIL_PAGE_SDI {
        NextRec::NotSdiPage
    } else {
        NextRec::At((PAGE_NEW_INFIMUM + be_field(page, PAGE_NEW_INFIMUM - 2, 2)) as u32)
    }
}

/// The record after the record `rec` of the SDI leaf `page`; see `spec_next_rec`.
pub fn next_rec(page: &[u8], rec: u32) -> (r: NextRec)
    requires
        page@.len() == PAGE_SIZE,
    ensures
        r == spec_next_rec(page@, rec),
{
    if rec < 5 || rec > PAGE_SIZE as u32 {
        return NextRec::OutOfBounds;
    }
    let comp = crate::ibd::page_is_comp(page) as u32;
    proof {
        crate::rem0rec::lemma_next_field_bound(page@, rec as int);
    }
    let next_rec_offset: u32 = crate::rem0rec::rec_get_next_offs(page, rec, comp);
    if next_rec_offset == 0 || next_rec_offset >= PAGE_SIZE as u32 {
        return NextRec::InvalidOffset(next_rec_offset);
    }
    let next = rec + next_rec_offset;
    if next < 3 || next - 3 >= PAGE_SIZE as u32 {
        return NextRec::OutOfBounds;
    }
    if get_rec_type(page, next) == REC_STATUS_SUPREMUM as u8 {
        let next_page_num = read_at_4(page, FIL_PAGE_NEXT);
        if next_page_num == FIL_NULL {
            return NextRec::End;
        }
        return NextRec::ReadPage(next_page_num);
    }
    NextRec::At(next)
}

/// The first record on the page that follows an SDI leaf, once it is read;
/// see `spec_next_rec_on_page`.
pub fn next_rec_on_page(page: &[u8]) -> (r: NextRec)
    requires
        page@.len() == PAGE_SIZE,
    ensures
        r == spec_next_rec_on_page(page@),
{
    let type_bytes = vstd::slice::slice_subrange(page, FIL_PAGE_TYPE as usize, page.len());
    proof {
        assert(type_bytes@.subrange(0, 2) =~= page@.subrange(FIL_PAGE_TYPE as int, FIL_PAGE_TYPE + 2));
    }
    if crate::ut::fil_page_get_type(type_bytes) != FIL_PAGE_SDI {
        return NextRec::NotSdiPage;
    }
    NextRec::At(get_first_user_rec(page))
}

/// Result code of zlib's `inflate`: progress was made.
pub const Z_OK: i32 = 0;

/// Result code of zlib's `inflate`: the end of the stream was reached.
pub const Z_STREAM_END: i32 = 1;

/// Result code of zlib's `inflate`: no progress was possible.
pub const Z_BUF_ERROR: i32 = -5;

/// What the copy of a compressed blob does after inflating a page.
#[derive(Debug, Clone, Copy, PartialEq, Eq, Structural)]
pub enum ZblobStep {
    /// The copy ends.
    Stop,
    /// Inflate what input is left with `Z_FINISH`, then ask `zblob_after_finish`.
    Finish,
    /// Go on with this page.
    Continue(u32),
}

/// The decision after inflating one page of a compressed blob, and what to
/// report on the way.
#[derive(Debug, Clone, Copy, PartialEq, Eq, Structural)]
pub struct ZblobDecision {
    pub step: ZblobStep,
    /// `inflate` returned this unexpected code.
    pub inflate_error: Option<i32>,
    /// The chain ends (or turns invalid) with no input left to finish.
    pub unexpected_end: bool,
}

/// The page number after a compressed blob page; `None` when the page is
/// not a compressed SDI blob page, which ends the copy.
pub fn zblob_page_next(page: &[u8]) -> (r: Option<u32>)
    requires
        page@.len() == PAGE_SIZE,
    ensures
        be_field(page@, FIL_PAGE_TYPE as int, 2) == FIL_PAGE_SDI_ZBLOB ==> r == Some(field4(page@, FIL_PAGE_NEXT as int) as u32),
        be_field(page@, FIL_PAGE_TYPE as int, 2) != FIL_PAGE_SDI_ZBLOB ==> r is None,
{
    let type_bytes = vstd::slice::slice_subrange(page, FIL_PAGE_TYPE as usize, page.len());
    proof {
        assert(type_bytes@.subrange(0, 2) =~= page@.subrange(FIL_PAGE_TYPE as int, FIL_PAGE_TYPE + 2));
    }
    if crate::ut::fil_page_get_type(type_bytes) != FIL_PAGE_SDI_ZBLOB {
        return None;
    }
    Some(read_at_4(page, FIL_PAGE_NEXT))
}

/// The decision after `inflate` returned `res` on a page of a compressed
/// blob whose successor is `next`, with `avail_out` bytes of output space
/// and `avail_in` bytes of input left.
pub open spec fn spec_zblob_after_inflate(res: i32, avail_out: u32, avail_in: u32, next: u32) -> ZblobDecision {
    if res == Z_OK || res == Z_BUF_ERROR || (res == Z_STREAM_END && next == FIL_NULL) {
        ZblobDecision { step: ZblobStep::Stop, inflate_error: None, unexpected_end: false }
    } else {
        let inflate_error = if res == Z_STREAM_END { None } else { Some(res) };
        if next == FIL_NULL || next <= SDI_BLOB_ALLOWED {
            if avail_in == 0 {
                ZblobDecision { step: ZblobStep::Continue(next), inflate_error, unexpected_end: true }
            } else {
                ZblobDecision { step: ZblobStep::Finish, inflate_error, unexpected_end: false }
            }
        } else {
            ZblobDecision { step: ZblobStep::Continue(next), inflate_error, unexpected_end: false }
        }
    }
}

/// The decision after `inflate` on a page of a compressed blob; see
/// `spec_zblob_after_inflate`.
pub fn zblob_after_inflate(res: i32, avail_out: u32, avail_in: u32, next: u32) -> (r: ZblobDecision)
    ensures
        r == spec_zblob_after_inflate(res, avail_out, avail_in, next),
{
    match res {
        Z_OK => {
            if avail_out <= 0 {
                return ZblobDecision { step: ZblobStep::Stop, inflate_error: None, unexpected_end: false };
            }
            return ZblobDecision { step: ZblobStep::Stop, inflate_error: None, unexpected_end: false };
        },
        Z_BUF_ERROR => {
            return ZblobDecision { step: ZblobStep::Stop, inflate_error: None, unexpected_end: false };
        },
        _ => {},
    }
    let mut inflate_error: Option<i32> = None;
    if res == Z_STREAM_END {
        if next == FIL_NULL {
            return ZblobDecision { step: ZblobStep::Stop, inflate_error: None, unexpected_end: false };
        }
    } else {
        inflate_error = Some(res);
    }
    if next == FIL_NULL || next <= SDI_BLOB_ALLOWED {
        if avail_in <= 0 {
            return ZblobDecision { step: ZblobStep::Continue(next), inflate_error, unexpected_end: true };
        }
        return ZblobDecision { step: ZblobStep::Finish, inflate_error, unexpected_end: false };
    }
    ZblobDecision { step: ZblobStep::Continue(next), inflate_error, unexpected_end: false }
}

/// The decision after `inflate` with `Z_FINISH` returned `res`, on a page
/// whose successor is `next`: the copy ends on the end of the stream or
/// when no progress is possible, and goes on with `next` otherwise, with
/// the code to report.
pub fn zblob_after_finish(res: i32, next: u32) -> (r: (ZblobStep, Option<i32>))
    ensures
        (res == Z_STREAM_END || res == Z_BUF_ERROR) ==> r == (ZblobStep::Stop, None::<i32>),
        !(res == Z_STREAM_END || res == Z_BUF_ERROR) ==> r == (ZblobStep::Continue(next), Some(res)),
{
    match res {
        Z_STREAM_END => (ZblobStep::Stop, None),
        Z_BUF_ERROR => (ZblobStep::Stop, None),
        e => (ZblobStep::Continue(next), Some(e)),
    }
}


/// The bytes that inflating `input`, a zlib stream, into a buffer of
/// `out_len` zero bytes leaves in the buffer; `None` when the inflater
/// reports the input as corrupt (or as needing a preset dictionary). A
/// stream cut short still gives the bytes inflated so far.
pub uninterp spec fn zlib_inflate(input: Seq<u8>, out_len: nat) -> Option<Seq<u8>>;

/// Inflates the zlib stream `input` into a buffer of `out_len` bytes with
/// `flate2::Decompress::decompress` (zlib header expected, no flush). The
/// contract claims that the buffer, of `out_len` bytes, is what
/// `zlib_inflate` names, and that `None` comes exactly when flate2 returns
/// an error; the bytes themselves are not stated.
#[verifier::external_body]
fn inflate_into(input: &[u8], out_len: usize) -> (r: Option<Vec<u8>>)
    ensures
        match r {
            Some(v) => zlib_inflate(input@, out_len as nat) == Some(v@) && v@.len() == out_len,
            None => zlib_inflate(input@, out_len as nat) is None,
        },
{
    let mut out = vec![0u8; out_len];
    let mut decomp = flate2::Decompress::new(true);
    match decomp.decompress(input, &mut out, flate2::FlushDecompress::None) {
        Ok(_) => Some(out),
        Err(_) => None,
    }
}

/// Inflates the compressed SDI data of a record into a buffer of the
/// record's uncompressed length; `None` when the inflater reports the data
/// as corrupt.
pub fn inflate_sdi(data: &[u8], uncomp_len: u32) -> (r: Option<Vec<u8>>)
    ensures
        match r {
            Some(v) => zlib_inflate(data@, uncomp_len as nat) == Some(v@) && v@.len() == uncomp_len,
            None => zlib_inflate(data@, uncomp_len as nat) is None,
        },
{
    inflate_into(data, uncomp_len as usize)
}

/// `[`, which opens the JSON array of the SDI records.
pub const OPEN_BRACKET: u8 = 0x5B;

/// `]`, which closes it.
pub const CLOSE_BRACKET: u8 = 0x5D;

/// `,`, which separates two records in it.
pub const COMMA: u8 = 0x2C;

/// Where the reading of the SDI stands.
#[derive(Debug, Clone, Copy, PartialEq, Eq, Structural)]
pub enum ScanPhase {
    /// Waits for the root page.
    AwaitRoot,
    /// Waits for a child page, whose parent is at `parent_level`.
    AwaitChild { parent_level: u64 },
    /// Waits for a page of an uncompressed blob, `calc` bytes copied so far.
    AwaitBlobPage { calc: u64 },
    /// Waits for the inflated bytes of a compressed blob.
    AwaitCompressedBlob,
    /// Waits for the page that follows the leaf.
    AwaitNextPage,
    /// The external data of the record is copied; resume to finish it.
    BlobDone,
    /// Resume to read the current record.
    AtRecord,
    /// Done: nothing more to do.
    Finished,
}

/// Something the reading reports on the way.
#[derive(Debug, Clone, Copy, PartialEq, Eq, Structural)]
pub enum SdiNote {
    /// The descent to the leftmost leaf failed.
    DescentFailed(DescentFailure),
    /// The SDI root holds no records.
    NoRecords,
    /// The root is itself a leaf.
    ReachedLeafAtRoot,
    /// A page of the uncompressed blob chain is of another type.
    NotUncompressedBlobPage,
    /// The uncompressed blob chain points to one of the first pages.
    UnexpectedNextBlob,
    /// The record's compressed length differs from its data length.
    LengthMismatch { sdi_id: u64, expected: u32, got: u64 },
    /// The next-record offset is 0 or beyond a page.
    InvalidNextOffset(u32),
    /// The page that follows the leaf is not an SDI page.
    NextPageNotSdi,
}

/// Why the reading cannot go on: the page does not hold what it should.
#[derive(Debug, Clone, Copy, PartialEq, Eq, Structural)]
pub enum SdiFault {
    /// An offset or a length read from a page falls outside it.
    OutOfPage,
    /// The inflater reports the compressed SDI data as corrupt.
    DecompressionFailed,
    /// The inflated blob has not the length asked for.
    BlobLength,
    /// The event does not fit the phase the reading is in.
    OutOfProtocol,
}

/// What the caller does next.
#[derive(Debug)]
pub enum SdiAction {
    /// Read this page and hand it to `on_page`.
    ReadPage(u32),
    /// Copy the compressed blob that starts at `first_page`, inflating up to
    /// `len` bytes into a buffer of `len` bytes, and hand it to `on_blob`.
    InflateBlob { first_page: u32, len: u64 },
    /// Call `resume`.
    Continue,
    /// The reading is over: the SDI records as one JSON array, if any.
    Done(Option<Vec<u8>>),
    /// The reading cannot go on.
    Fault(SdiFault),
}

/// The mathematical value of an action.
pub enum ActionModel {
    ReadPage(u32),
    InflateBlob { first_page: u32, len: u64 },
    Continue,
    Done(Option<Seq<u8>>),
    Fault(SdiFault),
}

impl View for SdiAction {
    type V = ActionModel;

    open spec fn view(&self) -> ActionModel {
        match self {
            SdiAction::ReadPage(n) => ActionModel::ReadPage(*n),
            SdiAction::InflateBlob { first_page, len } => ActionModel::InflateBlob { first_page: *first_page, len: *len },
            SdiAction::Continue => ActionModel::Continue,
            SdiAction::Done(r) => ActionModel::Done(
                match r {
                    Some(v) => Some(v@),
                    None => None,
                },
            ),
            SdiAction::Fault(f) => ActionModel::Fault(*f),
        }
    }
}

/// One step of the reading: what to do next, and what to report first.
#[derive(Debug)]
pub struct SdiStep {
    pub action: SdiAction,
    pub note: Option<SdiNote>,
}

/// The reading of the SDI records of a tablespace, from the SDI root page
/// to the closing bracket of the JSON array.
#[derive(Debug)]
pub struct SdiScan {
    phase: ScanPhase,
    out: Vec<u8>,
    leaf: Vec<u8>,
    rec: u32,
    hdr: SdiRecordHeader,
    data: Vec<u8>,
}

/// The state of the reading.
#[verifier::ext_equal]
pub struct ScanModel {
    pub phase: ScanPhase,
    /// The JSON array so far.
    pub out: Seq<u8>,
    /// The leaf page whose records are read.
    pub leaf: Seq<u8>,
    /// The origin of the current record.
    pub rec: u32,
    /// The header of the current record.
    pub hdr: SdiRecordHeader,
    /// The compressed data of the current record.
    pub data: Seq<u8>,
}

impl View for SdiScan {
    type V = ScanModel;

    closed spec fn view(&self) -> ScanModel {
        ScanModel {
            phase: self.phase,
            out: self.out@,
            leaf: self.leaf@,
            rec: self.rec,
            hdr: self.hdr,
            data: self.data@,
        }
    }
}

/// The JSON array closed: a trailing comma dropped and the closing bracket
/// added.
pub open spec fn close_array(out: Seq<u8>) -> Seq<u8> {
    let o = if out.len() > 0 && out.last() == COMMA { out.drop_last() } else { out };
    o.push(CLOSE_BRACKET)
}

/// A state with another phase.
pub open spec fn with_phase(m: ScanModel, phase: ScanPhase) -> ScanModel {
    ScanModel { phase, ..m }
}

/// The reading stops on a fault.
pub open spec fn spec_fault(m: ScanModel, f: SdiFault) -> (ScanModel, ActionModel, Option<SdiNote>) {
    (with_phase(m, ScanPhase::Finished), ActionModel::Fault(f), None)
}

/// The reading ends with the array closed.
pub open spec fn spec_finish(m: ScanModel) -> (ScanModel, ActionModel, Option<SdiNote>) {
    (
        ScanModel { phase: ScanPhase::Finished, out: Seq::empty(), ..m },
        ActionModel::Done(Some(close_array(m.out))),
        None,
    )
}

/// With `r` the record that follows (0 for none): the reading goes on with
/// it, after a comma, unless there is none or it is the supremum.
pub open spec fn spec_after_next(m: ScanModel, r: u32) -> (ScanModel, ActionModel, Option<SdiNote>) {
    let m1 = ScanModel { rec: r, ..m };
    if r == 0 {
        spec_finish(m1)
    } else if !(3 <= r && r - 3 < m.leaf.len()) {
        spec_fault(m1, SdiFault::OutOfPage)
    } else if rec_type_at(m.leaf, r as int) == REC_STATUS_SUPREMUM {
        spec_finish(m1)
    } else {
        (ScanModel { phase: ScanPhase::AtRecord, out: m.out.push(COMMA), ..m1 }, ActionModel::Continue, None)
    }
}

/// A state with a note added to its step.
pub open spec fn with_note(s: (ScanModel, ActionModel, Option<SdiNote>), n: SdiNote) -> (ScanModel, ActionModel, Option<SdiNote>) {
    (s.0, s.1, Some(n))
}

/// The current record, its data complete: on a length mismatch the array is
/// closed; otherwise its data is inflated onto the array and the reading
/// goes on with the next record.
pub open spec fn spec_finish_record(m: ScanModel) -> (ScanModel, ActionModel, Option<SdiNote>) {
    if m.hdr.data_length != m.hdr.comp_len as u64 {
        let note = SdiNote::LengthMismatch { sdi_id: m.hdr.sdi_id, expected: m.hdr.comp_len, got: m.hdr.data_length };
        if m.out.len() == 0 {
            (with_phase(m, ScanPhase::Finished), ActionModel::Done(None), Some(note))
        } else {
            with_note(spec_finish(m), note)
        }
    } else {
        match zlib_inflate(m.data, m.hdr.uncomp_len as nat) {
            None => spec_fault(m, SdiFault::DecompressionFailed),
            Some(v) => {
                let m1 = ScanModel { out: m.out + v, ..m };
                match spec_next_rec(m.leaf, m.rec) {
                    NextRec::At(r) => spec_after_next(m1, r),
                    NextRec::End => spec_after_next(m1, 0),
                    NextRec::InvalidOffset(x) => with_note(spec_after_next(m1, 0), SdiNote::InvalidNextOffset(x)),
                    NextRec::ReadPage(n) => (with_phase(m1, ScanPhase::AwaitNextPage), ActionModel::ReadPage(n), None),
                    _ => spec_fault(m1, SdiFault::OutOfPage),
                }
            },
        }
    }
}

/// What follows a step of the descent to the leftmost leaf, on `page`.
pub open spec fn spec_after_descent(m: ScanModel, page: Seq<u8>, d: DescentStep) -> (ScanModel, ActionModel, Option<SdiNote>) {
    match d {
        DescentStep::Failed(f) => (with_phase(m, ScanPhase::Finished), ActionModel::Done(None), Some(SdiNote::DescentFailed(f))),
        DescentStep::NoRecords => (with_phase(m, ScanPhase::Finished), ActionModel::Done(None), Some(SdiNote::NoRecords)),
        DescentStep::OutOfPage => spec_fault(m, SdiFault::OutOfPage),
        DescentStep::ReadChild { page_no, level } => (
            with_phase(m, ScanPhase::AwaitChild { parent_level: level }),
            ActionModel::ReadPage(page_no),
            None,
        ),
        DescentStep::ReachedLeaf { at_root } => (
            ScanModel {
                phase: ScanPhase::AtRecord,
                leaf: page,
                rec: (PAGE_NEW_INFIMUM + be_field(page, PAGE_NEW_INFIMUM - 2, 2)) as u32,
                ..m
            },
            ActionModel::Continue,
            if at_root { Some(SdiNote::ReachedLeafAtRoot) } else { None },
        ),
    }
}

/// The step on a page just read.
pub open spec fn spec_on_page(m: ScanModel, page: Seq<u8>) -> (ScanModel, ActionModel, Option<SdiNote>) {
    match m.phase {
        ScanPhase::AwaitRoot => spec_after_descent(m, page, spec_descent_from_root(page)),
        ScanPhase::AwaitChild { parent_level } => if parent_level == 0 {
            spec_fault(m, SdiFault::OutOfProtocol)
        } else {
            spec_after_descent(m, page, spec_descent_from_child(page, parent_level))
        },
        ScanPhase::AwaitBlobPage { calc } => if m.hdr.in_page_len > m.data.len() {
            spec_fault(m, SdiFault::OutOfProtocol)
        } else {
            match spec_blob_page(page, m.data, m.hdr.in_page_len as int, calc) {
                None => spec_fault(m, SdiFault::OutOfPage),
                Some((d, c, s)) => {
                    let m1 = ScanModel { data: d, ..m };
                    match s {
                        BlobPageStep::Next(n) => (
                            with_phase(m1, ScanPhase::AwaitBlobPage { calc: c }),
                            ActionModel::ReadPage(n),
                            None,
                        ),
                        BlobPageStep::Finished => (with_phase(m1, ScanPhase::BlobDone), ActionModel::Continue, None),
                        BlobPageStep::NotBlobPage => (
                            with_phase(m1, ScanPhase::BlobDone),
                            ActionModel::Continue,
                            Some(SdiNote::NotUncompressedBlobPage),
                        ),
                        BlobPageStep::UnexpectedNext => (
                            with_phase(m1, ScanPhase::BlobDone),
                            ActionModel::Continue,
                            Some(SdiNote::UnexpectedNextBlob),
                        ),
                    }
                },
            }
        },
        ScanPhase::AwaitNextPage => match spec_next_rec_on_page(page) {
            NextRec::At(r) => spec_after_next(m, r),
            _ => with_note(spec_after_next(m, 0), SdiNote::NextPageNotSdi),
        },
        _ => spec_fault(m, SdiFault::OutOfProtocol),
    }
}

/// The step on `resume`.
pub open spec fn spec_resume(m: ScanModel) -> (ScanModel, ActionModel, Option<SdiNote>) {
    match m.phase {
        ScanPhase::AtRecord => {
            let rec = m.rec;
            if rec == 0 {
                spec_finish(m)
            } else if !(3 <= rec && rec - 3 < m.leaf.len()) {
                spec_fault(m, SdiFault::OutOfPage)
            } else if rec_type_at(m.leaf, rec as int) == REC_STATUS_SUPREMUM {
                spec_finish(m)
            } else {
                match spec_sdi_record_header(m.leaf, rec as int) {
                    None => spec_fault(m, SdiFault::OutOfPage),
                    Some(h) => match spec_record_data(m.leaf, rec as int, h) {
                        None => spec_fault(m, SdiFault::OutOfPage),
                        Some((d, src)) => {
                            let m1 = ScanModel { hdr: h, data: d, ..m };
                            match src {
                                RecordSource::Page => spec_finish_record(m1),
                                RecordSource::UncompressedBlob { first_page } => if first_page == FIL_NULL {
                                    spec_finish_record(m1)
                                } else {
                                    (
                                        with_phase(m1, ScanPhase::AwaitBlobPage { calc: 0 }),
                                        ActionModel::ReadPage(first_page),
                                        None,
                                    )
                                },
                                RecordSource::CompressedBlob { first_page } => (
                                    with_phase(m1, ScanPhase::AwaitCompressedBlob),
                                    ActionModel::InflateBlob {
                                        first_page,
                                        len: (h.data_length - h.in_page_len) as u64,
                                    },
                                    None,
                                ),
                            }
                        },
                    },
                }
            }
        },
        ScanPhase::BlobDone => spec_finish_record(m),
        _ => spec_fault(m, SdiFault::OutOfProtocol),
    }
}

/// The step on the inflated bytes of a compressed blob: they take the place
/// of the external part of the record data.
pub open spec fn spec_on_blob(m: ScanModel, bytes: Seq<u8>) -> (ScanModel, ActionModel, Option<SdiNote>) {
    match m.phase {
        ScanPhase::AwaitCompressedBlob => if m.hdr.in_page_len + bytes.len() != m.data.len() {
            spec_fault(m, SdiFault::BlobLength)
        } else {
            spec_finish_record(ScanModel { data: m.data.subrange(0, m.hdr.in_page_len as int) + bytes, ..m })
        },
        _ => spec_fault(m, SdiFault::OutOfProtocol),
    }
}

/// The JSON array under construction has its opening bracket until the
/// reading is over, and the leaf page is a whole page once it is reached.
pub open spec fn scan_inv(m: ScanModel) -> bool {
    &&& m.phase != ScanPhase::Finished ==> m.out.len() >= 1 && m.out[0] == OPEN_BRACKET
    &&& reading_records(m.phase) ==> m.leaf.len() == PAGE_SIZE
}

/// The phases in which the records of the leaf are read.
pub open spec fn reading_records(p: ScanPhase) -> bool {
    match p {
        ScanPhase::AwaitRoot | ScanPhase::AwaitChild { .. } | ScanPhase::Finished => false,
        _ => true,
    }
}

/// A finished array opens and closes with brackets.
pub open spec fn bracketed(v: Seq<u8>) -> bool {
    v.len() >= 2 && v[0] == OPEN_BRACKET && v.last() == CLOSE_BRACKET
}

/// Closing an array that was opened gives a bracketed array.
pub proof fn law_close_array_bracketed(out: Seq<u8>)
    requires
        out.len() >= 1,
        out[0] == OPEN_BRACKET,
    ensures
        bracketed(close_array(out)),
{
}

/// Every step of the reading keeps the opening bracket, and an array that
/// the reading hands out is bracketed.
pub open spec fn step_ok(before: ScanModel, after: (ScanModel, ActionModel, Option<SdiNote>)) -> bool {
    &&& scan_inv(before) ==> scan_inv(after.0)
    &&& scan_inv(before) ==> (after.1 matches ActionModel::Done(Some(v)) ==> bracketed(v))
}

proof fn lemma_finish_ok(m: ScanModel)
    requires
        m.out.len() >= 1 && m.out[0] == OPEN_BRACKET,
    ensures
        step_ok(m, spec_finish(m)),
{
    law_close_array_bracketed(m.out);
}

proof fn lemma_after_next_ok(m: ScanModel, r: u32)
    requires
        scan_inv(m),
        reading_records(m.phase),
    ensures
        step_ok(m, spec_after_next(m, r)),
{
    law_close_array_bracketed(m.out);
}

proof fn lemma_finish_record_ok(m: ScanModel)
    requires
        scan_inv(m),
        reading_records(m.phase),
    ensures
        step_ok(m, spec_finish_record(m)),
{
    law_close_array_bracketed(m.out);
    if m.hdr.data_length == m.hdr.comp_len as u64 {
        if let Some(v) = zlib_inflate(m.data, m.hdr.uncomp_len as nat) {
            let m1 = ScanModel { out: m.out + v, ..m };
            assert(m1.out[0] == OPEN_BRACKET);
            lemma_after_next_ok(m1, 0);
            if let NextRec::At(r) = spec_next_rec(m.leaf, m.rec) {
                lemma_after_next_ok(m1, r);
            }
        }
    }
}

/// Whatever page is read, whatever the resumption, whatever bytes a
/// compressed blob inflates to: the reading keeps its JSON array opened, and
/// the array it hands out is closed.
pub proof fn law_scan_steps_keep_array(m: ScanModel, page: Seq<u8>, bytes: Seq<u8>)
    requires
        scan_inv(m),
        page.len() == PAGE_SIZE,
    ensures
        step_ok(m, spec_on_page(m, page)),
        step_ok(m, spec_resume(m)),
        step_ok(m, spec_on_blob(m, bytes)),
{
    if m.phase != ScanPhase::Finished {
        lemma_finish_ok(m);
    }
    if reading_records(m.phase) {
        lemma_after_next_ok(m, 0);
        lemma_finish_record_ok(m);
        if let NextRec::At(r) = spec_next_rec_on_page(page) {
            lemma_after_next_ok(m, r);
        }
        if m.phase == ScanPhase::AtRecord && m.rec != 0 {
            if let Some(h) = spec_sdi_record_header(m.leaf, m.rec as int) {
                if let Some((d, src)) = spec_record_data(m.leaf, m.rec as int, h) {
                    lemma_finish_record_ok(ScanModel { hdr: h, data: d, ..m });
                }
            }
        }
        if m.phase == ScanPhase::AwaitCompressedBlob && m.hdr.in_page_len + bytes.len() == m.data.len() {
            lemma_finish_record_ok(ScanModel { data: m.data.subrange(0, m.hdr.in_page_len as int) + bytes, ..m });
        }
    }
}


impl SdiScan {
    /// Starts the reading of the SDI whose root is page `root_page_no`: the
    /// array is opened and the root page is asked for.
    pub fn new(root_page_no: u32) -> (r: (SdiScan, SdiAction))
        ensures
            r.0@.phase == ScanPhase::AwaitRoot,
            r.0@.out == seq![OPEN_BRACKET],
            r.1@ == ActionModel::ReadPage(root_page_no),
            scan_inv(r.0@),
    {
        let mut out: Vec<u8> = Vec::new();
        out.push(OPEN_BRACKET);
        let scan = SdiScan {
            phase: ScanPhase::AwaitRoot,
            out,
            leaf: Vec::new(),
            rec: 0,
            hdr: SdiRecordHeader {
                sdi_type: 0,
                sdi_id: 0,
                uncomp_len: 0,
                comp_len: 0,
                in_page_len: 0,
                data_length: 0,
                external: false,
            },
            data: Vec::new(),
        };
        assert(scan@.out =~= seq![OPEN_BRACKET]);
        (scan, SdiAction::ReadPage(root_page_no))
    }

    fn fault(&mut self, f: SdiFault) -> (r: SdiStep)
        ensures
            (final(self)@, r.action@, r.note) == spec_fault(old(self)@, f),
    {
        self.phase = ScanPhase::Finished;
        SdiStep { action: SdiAction::Fault(f), note: None }
    }

    fn finish(&mut self) -> (r: SdiStep)
        ensures
            (final(self)@, r.action@, r.note) == spec_finish(old(self)@),
    {
        let ghost old_out = self.out@;
        let n = self.out.len();
        if n > 0 && self.out[n - 1] == COMMA {
            self.out.pop();
        }
        self.out.push(CLOSE_BRACKET);
        assert(self.out@ =~= close_array(old_out));
        let mut done: Vec<u8> = Vec::new();
        std::mem::swap(&mut done, &mut self.out);
        self.phase = ScanPhase::Finished;
        assert(self.out@ =~= Seq::<u8>::empty());
        SdiStep { action: SdiAction::Done(Some(done)), note: None }
    }

    fn after_next(&mut self, r: u32) -> (s: SdiStep)
        ensures
            (final(self)@, s.action@, s.note) == spec_after_next(old(self)@, r),
    {
        self.rec = r;
        if r == 0 {
            return self.finish();
        }
        if r < 3 || (r - 3) as usize >= self.leaf.len() {
            return self.fault(SdiFault::OutOfPage);
        }
        if get_rec_type(self.leaf.as_slice(), r) == REC_STATUS_SUPREMUM as u8 {
            return self.finish();
        }
        self.out.push(COMMA);
        self.phase = ScanPhase::AtRecord;
        SdiStep { action: SdiAction::Continue, note: None }
    }

    fn finish_record(&mut self) -> (s: SdiStep)
        requires
            old(self)@.leaf.len() == PAGE_SIZE,
        ensures
            (final(self)@, s.action@, s.note) == spec_finish_record(old(self)@),
    {
        let h = self.hdr;
        if h.data_length != h.comp_len as u64 {
            let note = SdiNote::LengthMismatch { sdi_id: h.sdi_id, expected: h.comp_len, got: h.data_length };
            if self.out.len() == 0 {
                self.phase = ScanPhase::Finished;
                return SdiStep { action: SdiAction::Done(None), note: Some(note) };
            }
            let s = self.finish();
            return SdiStep { action: s.action, note: Some(note) };
        }
        let inflated = inflate_sdi(self.data.as_slice(), h.uncomp_len);
        match inflated {
            None => {
                return self.fault(SdiFault::DecompressionFailed);
            },
            Some(v) => {
                let ghost old_out = self.out@;
                self.out.extend_from_slice(v.as_slice());
                assert(self.out@ =~= old_out + v@);
                let next = next_rec(self.leaf.as_slice(), self.rec);
                match next {
                    NextRec::At(r) => self.after_next(r),
                    NextRec::End => self.after_next(0),
                    NextRec::InvalidOffset(x) => {
                        let s = self.after_next(0);
                        SdiStep { action: s.action, note: Some(SdiNote::InvalidNextOffset(x)) }
                    },
                    NextRec::ReadPage(n) => {
                        self.phase = ScanPhase::AwaitNextPage;
                        SdiStep { action: SdiAction::ReadPage(n), note: None }
                    },
                    _ => self.fault(SdiFault::OutOfPage),
                }
            },
        }
    }

    fn after_descent(&mut self, page: &[u8], d: DescentStep) -> (s: SdiStep)
        requires
            page@.len() == PAGE_SIZE,
        ensures
            (final(self)@, s.action@, s.note) == spec_after_descent(old(self)@, page@, d),
    {
        match d {
            DescentStep::Failed(f) => {
                self.phase = ScanPhase::Finished;
                SdiStep { action: SdiAction::Done(None), note: Some(SdiNote::DescentFailed(f)) }
            },
            DescentStep::NoRecords => {
                self.phase = ScanPhase::Finished;
                SdiStep { action: SdiAction::Done(None), note: Some(SdiNote::NoRecords) }
            },
            DescentStep::OutOfPage => self.fault(SdiFault::OutOfPage),
            DescentStep::ReadChild { page_no, level } => {
                self.phase = ScanPhase::AwaitChild { parent_level: level };
                SdiStep { action: SdiAction::ReadPage(page_no), note: None }
            },
            DescentStep::ReachedLeaf { at_root } => {
                self.leaf = vstd::slice::slice_to_vec(page);
                self.rec = get_first_user_rec(page);
                self.phase = ScanPhase::AtRecord;
                let note = if at_root { Some(SdiNote::ReachedLeafAtRoot) } else { None };
                SdiStep { action: SdiAction::Continue, note }
            },
        }
    }

    /// Hands over the page that the last action asked for; see `spec_on_page`.
    pub fn on_page(&mut self, page: &[u8]) -> (s: SdiStep)
        requires
            page@.len() == PAGE_SIZE,
            scan_inv(old(self)@),
        ensures
            (final(self)@, s.action@, s.note) == spec_on_page(old(self)@, page@),
            scan_inv(final(self)@),
            s.action@ matches ActionModel::Done(Some(v)) ==> bracketed(v),
    {
        proof {
            law_scan_steps_keep_array(old(self)@, page@, Seq::empty());
        }
        match self.phase {
            ScanPhase::AwaitRoot => {
                let d = descent_from_root(page);
                self.after_descent(page, d)
            },
            ScanPhase::AwaitChild { parent_level } => {
                if parent_level == 0 {
                    return self.fault(SdiFault::OutOfProtocol);
                }
                let d = descent_from_child(page, parent_level);
                self.after_descent(page, d)
            },
            ScanPhase::AwaitBlobPage { calc } => {
                let base = self.hdr.in_page_len as usize;
                if base > self.data.len() {
                    return self.fault(SdiFault::OutOfProtocol);
                }
                match blob_page_step(page, &mut self.data, base, calc) {
                    None => self.fault(SdiFault::OutOfPage),
                    Some((c, step)) => match step {
                        BlobPageStep::Next(n) => {
                            self.phase = ScanPhase::AwaitBlobPage { calc: c };
                            SdiStep { action: SdiAction::ReadPage(n), note: None }
                        },
                        BlobPageStep::Finished => {
                            self.phase = ScanPhase::BlobDone;
                            SdiStep { action: SdiAction::Continue, note: None }
                        },
                        BlobPageStep::NotBlobPage => {
                            self.phase = ScanPhase::BlobDone;
                            SdiStep { action: SdiAction::Continue, note: Some(SdiNote::NotUncompressedBlobPage) }
                        },
                        BlobPageStep::UnexpectedNext => {
                            self.phase = ScanPhase::BlobDone;
                            SdiStep { action: SdiAction::Continue, note: Some(SdiNote::UnexpectedNextBlob) }
                        },
                    },
                }
            },
            ScanPhase::AwaitNextPage => match next_rec_on_page(page) {
                NextRec::At(r) => self.after_next(r),
                _ => {
                    let s = self.after_next(0);
                    SdiStep { action: s.action, note: Some(SdiNote::NextPageNotSdi) }
                },
            },
            _ => self.fault(SdiFault::OutOfProtocol),
        }
    }

    /// Goes on after a `Continue` action; see `spec_resume`.
    pub fn resume(&mut self) -> (s: SdiStep)
        requires
            scan_inv(old(self)@),
        ensures
            (final(self)@, s.action@, s.note) == spec_resume(old(self)@),
            scan_inv(final(self)@),
            s.action@ matches ActionModel::Done(Some(v)) ==> bracketed(v),
    {
        proof {
            law_scan_steps_keep_array(old(self)@, Seq::new(PAGE_SIZE as nat, |i: int| 0u8), Seq::empty());
        }
        match self.phase {
            ScanPhase::AtRecord => {
                let rec = self.rec;
                if rec == 0 {
                    return self.finish();
                }
                if rec < 3 || (rec - 3) as usize >= self.leaf.len() {
                    return self.fault(SdiFault::OutOfPage);
                }
                if get_rec_type(self.leaf.as_slice(), rec) == REC_STATUS_SUPREMUM as u8 {
                    return self.finish();
                }
                let h = match sdi_record_header(self.leaf.as_slice(), rec) {
                    None => {
                        return self.fault(SdiFault::OutOfPage);
                    },
                    Some(h) => h,
                };
                let (d, src) = match record_data(self.leaf.as_slice(), rec, h) {
                    None => {
                        return self.fault(SdiFault::OutOfPage);
                    },
                    Some(x) => x,
                };
                self.hdr = h;
                self.data = d;
                match src {
                    RecordSource::Page => self.finish_record(),
                    RecordSource::UncompressedBlob { first_page } => {
                        if first_page == FIL_NULL {
                            return self.finish_record();
                        }
                        self.phase = ScanPhase::AwaitBlobPage { calc: 0 };
                        SdiStep { action: SdiAction::ReadPage(first_page), note: None }
                    },
                    RecordSource::CompressedBlob { first_page } => {
                        self.phase = ScanPhase::AwaitCompressedBlob;
                        proof {
                            lemma_header_bounds(self.leaf@, rec as int);
                        }
                        SdiStep {
                            action: SdiAction::InflateBlob {
                                first_page,
                                len: h.data_length - h.in_page_len as u64,
                            },
                            note: None,
                        }
                    },
                }
            },
            ScanPhase::BlobDone => self.finish_record(),
            _ => self.fault(SdiFault::OutOfProtocol),
        }
    }

    /// Hands over the inflated bytes of the compressed blob that the last
    /// action asked for; see `spec_on_blob`.
    pub fn on_blob(&mut self, bytes: Vec<u8>) -> (s: SdiStep)
        requires
            scan_inv(old(self)@),
        ensures
            (final(self)@, s.action@, s.note) == spec_on_blob(old(self)@, bytes@),
            scan_inv(final(self)@),
            s.action@ matches ActionModel::Done(Some(v)) ==> bracketed(v),
    {
        proof {
            law_scan_steps_keep_array(old(self)@, Seq::new(PAGE_SIZE as nat, |i: int| 0u8), bytes@);
        }
        match self.phase {
            ScanPhase::AwaitCompressedBlob => {
                let ip = self.hdr.in_page_len as usize;
                if bytes.len() > self.data.len() || ip != self.data.len() - bytes.len() {
                    return self.fault(SdiFault::BlobLength);
                }
                let mut d: Vec<u8> = Vec::new();
                push_range(&mut d, self.data.as_slice(), 0, ip);
                push_range(&mut d, bytes.as_slice(), 0, bytes.len());
                assert(bytes@.subrange(0, bytes@.len() as int) =~= bytes@);
                self.data = d;
                self.finish_record()
            },
            _ => self.fault(SdiFault::OutOfProtocol),
        }
    }
}

/// An event handed to the reading.
pub enum ScanEvent {
    /// The page that a `ReadPage` action asked for.
    Page(Seq<u8>),
    /// A `resume` after a `Continue` action.
    Resume,
    /// The inflated bytes that an `InflateBlob` action asked for.
    Blob(Seq<u8>),
}

/// The step the reading takes on an event.
pub open spec fn spec_step(m: ScanModel, e: ScanEvent) -> (ScanModel, ActionModel, Option<SdiNote>) {
    match e {
        ScanEvent::Page(p) => spec_on_page(m, p),
        ScanEvent::Resume => spec_resume(m),
        ScanEvent::Blob(b) => spec_on_blob(m, b),
    }
}

/// The state of the reading after a run of events from `m`.
pub open spec fn spec_run_state(m: ScanModel, events: Seq<ScanEvent>) -> ScanModel
    decreases events.len(),
{
    if events.len() == 0 {
        m
    } else {
        spec_step(spec_run_state(m, events.drop_last()), events.last()).0
    }
}

/// Every page of a run is a whole page.
pub open spec fn whole_pages(events: Seq<ScanEvent>) -> bool {
    forall|i: int| 0 <= i < events.len() ==> (#[trigger] events[i] matches ScanEvent::Page(p) ==> p.len() == PAGE_SIZE)
}

/// The step of the descent that the reading takes on `page` in state `m`,
/// if it is descending.
pub open spec fn descent_outcome(m: ScanModel, page: Seq<u8>) -> Option<DescentStep> {
    match m.phase {
        ScanPhase::AwaitRoot => Some(spec_descent_from_root(page)),
        ScanPhase::AwaitChild { parent_level } => if parent_level == 0 {
            None
        } else {
            Some(spec_descent_from_child(page, parent_level))
        },
        _ => None,
    }
}

/// A descent step that leaves no array: the descent failed, or the root
/// holds no records.
pub open spec fn leaves_no_array(d: DescentStep) -> bool {
    d is Failed || d is NoRecords
}

/// The reading hands out no array (`Done(None)`) on a step exactly when
/// that step is a step of the descent that fails or finds the root empty;
/// in particular on a root page that is not an SDI page or that holds no
/// records.
pub proof fn law_no_array_only_from_descent(m: ScanModel, e: ScanEvent)
    requires
        scan_inv(m),
        e matches ScanEvent::Page(p) ==> p.len() == PAGE_SIZE,
    ensures
        (spec_step(m, e).1 matches ActionModel::Done(None)) <==> (e matches ScanEvent::Page(p)
            && descent_outcome(m, p) matches Some(d) && leaves_no_array(d)),
        m.phase == ScanPhase::AwaitRoot ==> (e matches ScanEvent::Page(p)
            && (be_field(p, FIL_PAGE_TYPE as int, 2) != FIL_PAGE_SDI || header_field(p, PAGE_N_RECS) == 0)
            ==> spec_step(m, e).1 matches ActionModel::Done(None)),
{
}

proof fn lemma_run_keeps_inv(m: ScanModel, events: Seq<ScanEvent>)
    requires
        scan_inv(m),
        whole_pages(events),
    ensures
        scan_inv(spec_run_state(m, events)),
    decreases events.len(),
{
    if events.len() > 0 {
        let init = events.drop_last();
        assert forall|i: int| 0 <= i < init.len() implies (#[trigger] init[i] matches ScanEvent::Page(p) ==> p.len()
            == PAGE_SIZE) by {
            assert(init[i] == events[i]);
        }
        lemma_run_keeps_inv(m, init);
        let before = spec_run_state(m, init);
        let some_page = Seq::new(PAGE_SIZE as nat, |i: int| 0u8);
        assert(events[events.len() - 1] == events.last());
        match events.last() {
            ScanEvent::Page(p) => law_scan_steps_keep_array(before, p, Seq::empty()),
            ScanEvent::Resume => law_scan_steps_keep_array(before, some_page, Seq::empty()),
            ScanEvent::Blob(b) => law_scan_steps_keep_array(before, some_page, b),
        }
    }
}

/// Over a whole run from the start of the reading, with whole pages: the
/// run's last step hands out no array exactly when it is a step of the
/// descent that fails or finds the root empty.
pub proof fn law_run_no_array_only_from_descent(root_page_no: u32, events: Seq<ScanEvent>)
    requires
        whole_pages(events),
        events.len() > 0,
    ensures
        ({
            let start = ScanModel {
                phase: ScanPhase::AwaitRoot,
                out: seq![OPEN_BRACKET],
                leaf: Seq::empty(),
                rec: 0,
                hdr: SdiRecordHeader {
                    sdi_type: 0,
                    sdi_id: 0,
                    uncomp_len: 0,
                    comp_len: 0,
                    in_page_len: 0,
                    data_length: 0,
                    external: false,
                },
                data: Seq::empty(),
            };
            let before = spec_run_state(start, events.drop_last());
            (spec_step(before, events.last()).1 matches ActionModel::Done(None)) <==> (events.last() matches ScanEvent::Page(p)
                && descent_outcome(before, p) matches Some(d) && leaves_no_array(d))
        }),
{
    let start = ScanModel {
        phase: ScanPhase::AwaitRoot,
        out: seq![OPEN_BRACKET],
        leaf: Seq::empty(),
        rec: 0,
        hdr: SdiRecordHeader {
            sdi_type: 0,
            sdi_id: 0,
            uncomp_len: 0,
            comp_len: 0,
            in_page_len: 0,
            data_length: 0,
            external: false,
        },
        data: Seq::empty(),
    };
    let init = events.drop_last();
    assert forall|i: int| 0 <= i < init.len() implies (#[trigger] init[i] matches ScanEvent::Page(p) ==> p.len()
        == PAGE_SIZE) by {
        assert(init[i] == events[i]);
    }
    lemma_run_keeps_inv(start, init);
    assert(events[events.len() - 1] == events.last());
    law_no_array_only_from_descent(spec_run_state(start, init), events.last());
}

/// The bits of the first length byte of an SDI record, as numbers.
proof fn lemma_length_byte_bits(p: u8)
    ensures
        (p & 0x80 != 0) <==> p >= 128,
        (p & 0x40 != 0) <==> p % 128 >= 64,
        ((p & 0x3f) as u32) << 8u32 == (p % 64) * 256,
{
    assert((p & 0x80u8 != 0) <==> p >= 128) by (bit_vector);
    assert((p & 0x40u8 != 0) <==> p % 128 >= 64) by (bit_vector);
    assert(((p & 0x3fu8) as u32) << 8u32 == (p % 64) * 256) by (bit_vector);
}

/// The fields of an SDI record header are the big-endian fields at their
/// offsets from the origin, and its data length is what its length bytes
/// encode: one byte `p` below 128 is the length itself; with bit 7 set and
/// bit 6 clear, `p` holds the high six bits and the byte before it the low
/// eight (a 14-bit length, all of it on the page); with bits 7 and 6 set,
/// the data is external, `(p % 64) * 256` bytes of it on the page, and its
/// total length is the 8-byte field that follows those bytes and the
/// 12 bytes of the external reference before it.
pub proof fn law_record_header_fields(page: Seq<u8>, rec: int)
    requires
        REC_MIN_HEADER_SIZE + 1 <= rec,
        rec + REC_OFF_DATA_VARCHAR <= page.len(),
    ensures
        ({
            let p = page[rec - 6];
            let h = spec_sdi_record_header(page, rec);
            &&& h matches Some(x) ==> {
                &&& x.sdi_type == field4(page, rec)
                &&& x.sdi_id == be_field(page, rec + 4, 8)
                &&& x.uncomp_len == field4(page, rec + 25)
                &&& x.comp_len == field4(page, rec + 29)
            }
            &&& p < 128 ==> (h matches Some(x) && x.data_length == p && x.in_page_len == 0 && !x.external)
            &&& p >= 128 && p % 128 < 64 && rec >= 7 ==> (h matches Some(x) && !x.external
                && x.in_page_len == (p % 64) * 256 && x.data_length == (p % 64) * 256 + page[rec - 7])
            &&& p >= 128 && p % 128 < 64 && rec < 7 ==> h is None
            &&& p >= 128 && p % 128 >= 64 ==> {
                let ip = (p % 64) * 256;
                let at = rec + 33 + ip + 12;
                &&& (h is Some <==> at + 8 <= page.len() && be_field(page, at, 8) + ip <= u64::MAX)
                &&& h matches Some(x) ==> x.external && x.in_page_len == ip && x.data_length == be_field(page, at, 8) + ip
            }
        }),
{
    lemma_length_byte_bits(page[rec - 6]);
    crate::ut::lemma_be_field_bounds(page, rec);
    crate::ut::lemma_be_field_bounds(page, rec + 4);
    crate::ut::lemma_be_field_bounds(page, rec + 25);
    crate::ut::lemma_be_field_bounds(page, rec + 29);
}

/// A page of an uncompressed blob chain: a page of another type stops the
/// copy and changes nothing. On an SDI blob page with nothing copied
/// before, the copy goes through exactly when the part fits in the space
/// left in `data` from `base` (equality included): the part's bytes, from
/// the page data on, replace `data[base .. base + part]`, the other bytes
/// stay, `part` bytes are then copied, and the next page number decides
/// what follows. After an earlier part, no part can be copied.
pub proof fn law_blob_page_copies_part(page: Seq<u8>, data: Seq<u8>, base: int, calc: u64)
    requires
        page.len() == PAGE_SIZE,
        0 <= base <= data.len(),
    ensures
        ({
            let part = field4(page, 38);
            let next = field4(page, 42);
            let r = spec_blob_page(page, data, base, calc);
            &&& be_field(page, 24, 2) != FIL_PAGE_SDI_BLOB ==> r == Some((data, calc, BlobPageStep::NotBlobPage))
            &&& be_field(page, 24, 2) == FIL_PAGE_SDI_BLOB && calc == 0 ==> {
                &&& (r is Some <==> base + part <= data.len() && 46 + part <= PAGE_SIZE)
                &&& r matches Some((d, c, s)) ==> {
                    &&& d.len() == data.len()
                    &&& c == part
                    &&& d.subrange(base, base + part) == page.subrange(46, 46 + part as int)
                    &&& d.subrange(0, base) == data.subrange(0, base)
                    &&& d.subrange(base + part, d.len() as int) == data.subrange(base + part, data.len() as int)
                    &&& (s == BlobPageStep::UnexpectedNext <==> next <= 4)
                    &&& (s == BlobPageStep::Finished <==> next == FIL_NULL)
                    &&& (4 < next < FIL_NULL ==> s == BlobPageStep::Next(next as u32))
                }
            }
            &&& be_field(page, 24, 2) == FIL_PAGE_SDI_BLOB && calc > 0 ==> r is None
        }),
{
    let part = field4(page, 38);
    crate::ut::lemma_be_field_bounds(page, 38);
    crate::ut::lemma_be_field_bounds(page, 42);
    if be_field(page, 24, 2) == FIL_PAGE_SDI_BLOB && calc == 0 {
        if let Some((d, c, s)) = spec_blob_page(page, data, base, calc) {
            assert(d.subrange(base, base + part) =~= page.subrange(46, 46 + part as int));
            assert(d.subrange(0, base) =~= data.subrange(0, base));
            assert(d.subrange(base + part, d.len() as int) =~= data.subrange(base + part, data.len() as int));
        }
    }
}

/// Finishing a record whose lengths agree and whose data inflates to `v`
/// appends `v` to the array, whatever the record's type: the array then
/// goes on after a comma with the next record, waits for the next page,
/// or is closed and handed out; a fault keeps what was appended.
pub proof fn law_finish_record_appends(m: ScanModel, v: Seq<u8>)
    requires
        m.hdr.data_length == m.hdr.comp_len as u64,
        zlib_inflate(m.data, m.hdr.uncomp_len as nat) == Some(v),
    ensures
        ({
            let (m2, a, _) = spec_finish_record(m);
            match a {
                ActionModel::Done(Some(x)) => x == close_array(m.out + v),
                ActionModel::Continue => m2.out == (m.out + v).push(COMMA) && m2.phase == ScanPhase::AtRecord,
                ActionModel::ReadPage(_) => m2.out == m.out + v && m2.phase == ScanPhase::AwaitNextPage,
                ActionModel::Fault(_) => m2.out == m.out + v,
                _ => false,
            }
        }),
{
}

/// The array handed out is the opening bracket, then the inflated data of
/// each record, then the closing bracket: closing an array after records
/// separated by commas drops nothing of the last record's data unless it
/// ends in a comma, and keeps everything before it.
pub proof fn law_close_array_keeps_records(out: Seq<u8>, v: Seq<u8>)
    requires
        v.len() > 0,
        v.last() != COMMA,
    ensures
        close_array(out + v) == out + v + seq![CLOSE_BRACKET],
        close_array((out + v).push(COMMA)) == out + v + seq![CLOSE_BRACKET],
{
    assert((out + v).push(COMMA).drop_last() =~= out + v);
    assert((out + v).push(CLOSE_BRACKET) =~= out + v + seq![CLOSE_BRACKET]);
}

} // verus!
