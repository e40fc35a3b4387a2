//! The file page header, the index page header and the tablespace header,
//! as this tool reads them from a page.
use vstd::prelude::*;
use crate::fil0fil::{FIL_PAGE_SDI, FIL_PAGE_TYPE_FSP_HDR};
use crate::page0types::{PAGE_HEADER, PAGE_N_DIR_SLOTS, PAGE_HEAP_TOP, PAGE_N_HEAP, PAGE_FREE, PAGE_GARBAGE, PAGE_LAST_INSERT, PAGE_DIRECTION, PAGE_N_DIRECTION, PAGE_N_RECS, PAGE_MAX_TRX_ID, PAGE_LEVEL, PAGE_INDEX_ID, PAGE_NEW_INFIMUM, PAGE_NEW_SUPREMUM, PAGE_NEW_SUPREMUM_END};
use crate::rem0rec::{rec_get_next_offs, spec_next_offs};
use crate::ut::{PAGE_SIZE, _mach_read_from_1, be_field, fil_page_get_type, mach_read_from_2, mach_read_from_4};

verus! {

/// Offset of the page number within the file page header.
pub const FIL_PAGE_OFFSET: u32 = 4;

/// Offset of the predecessor page number.
pub const FIL_PAGE_PREV: u32 = 8;

/// On page 0 of the tablespace, offset of the server version id.
pub const FIL_PAGE_SRV_VERSION: u32 = 8;

/// Offset of the successor page number.
pub const FIL_PAGE_NEXT: u32 = 12;

/// Offset of the page type.
pub const FIL_PAGE_TYPE: u32 = 24;

/// Offset of the space id.
pub const FIL_PAGE_ARCH_LOG_NO_OR_SPACE_ID: u32 = 34;

/// Start of the data on the page.
pub const FIL_PAGE_DATA: u32 = PAGE_HEADER;

/// Offset of the tablespace header on page 0.
pub const FSP_HEADER_OFFSET: u32 = FIL_PAGE_DATA;

/// Offset of the space id within the tablespace header.
pub const FSP_SPACE_ID: u32 = 0;

/// Offset of the tablespace size within the tablespace header.
pub const FSP_SIZE: u32 = 8;

/// Offset of the tablespace flags within the tablespace header.
pub const FSP_SPACE_FLAGS: u32 = 16;

/// Size of a file address: page number and byte offset.
pub const FIL_ADDR_SIZE: u32 = 6;

/// Size of a list base node.
pub const FLST_BASE_NODE_SIZE: u32 = 4 + 2 * FIL_ADDR_SIZE;

/// Size of the tablespace header.
pub const FSP_HEADER_SIZE: u32 = 32 + 5 * FLST_BASE_NODE_SIZE;

/// Size of a list node.
pub const FLST_NODE_SIZE: u32 = 2 * FIL_ADDR_SIZE;

/// Offset of the page state bitmap within an extent descriptor.
pub const XDES_BITMAP: u32 = FLST_NODE_SIZE + 12;

/// Offset of the extent descriptor array on a descriptor page.
pub const XDES_ARR_OFFSET: u32 = FSP_HEADER_OFFSET + FSP_HEADER_SIZE;

/// Number of bits per page in an extent descriptor.
pub const XDES_BITS_PER_PAGE: u32 = 2;

/// Number of pages in an extent.
pub const FSP_EXTENT_SIZE: u32 = 64;

/// Size of an extent descriptor: the bitmap of two bits per page, rounded
/// up to whole bytes, after the list node and the segment id.
pub const XDES_SIZE: u32 = XDES_BITMAP + (FSP_EXTENT_SIZE * XDES_BITS_PER_PAGE + 7) / 8;

/// Size of the encryption information: magic, master key id, key and iv,
/// server uuid and checksum.
pub const INFO_SIZE: u32 = 3 + 4 + 32 * 2 + 36 + 4;

/// Largest size of the encryption information over all its formats.
pub const INFO_MAX_SIZE: u32 = INFO_SIZE + 4;

/// Bits of the tablespace flags that hold the compressed page size.
pub const FSP_FLAGS_MASK_ZIP_SSIZE: u32 = 30;

/// Position of the compressed page size within the tablespace flags.
pub const FSP_FLAGS_POS_ZIP_SSIZE: u32 = 1;

/// The version of the SDI format this tool reads.
pub const SDI_VERSION: u32 = 1;

/// Number of bytes needed to hold `bits` bits.
pub fn ut_bits_in_bytes(bits: u32) -> (r: u32)
    requires
        bits <= u32::MAX - 7,
    ensures
        r == (bits + 7) / 8,
        r * 8 >= bits,
        r * 8 < bits + 8,
{
    (bits + 7) / 8
}

/// Number of extent descriptors on a descriptor page of `page_size` bytes.
pub fn xdes_arr_size(page_size: u32) -> (r: u32)
    ensures
        r == page_size / FSP_EXTENT_SIZE,
{
    page_size / FSP_EXTENT_SIZE
}

/// Offset on page 0 of the SDI version and root page number, after the
/// tablespace header, the extent descriptors and the encryption information.
pub fn fsp_header_get_sdi_offset(page_size: u32) -> (r: u32)
    ensures
        r == XDES_ARR_OFFSET + XDES_SIZE * (page_size / FSP_EXTENT_SIZE) + INFO_MAX_SIZE,
{
    let n = xdes_arr_size(page_size);
    assert(XDES_SIZE == 40);
    assert(n <= 67108863);
    XDES_ARR_OFFSET + XDES_SIZE * n + INFO_MAX_SIZE
}

/// The compressed page size field of the tablespace flags (0 for an
/// uncompressed tablespace).
pub fn fsp_flags_get_zip_ssize(flags: u32) -> (r: u32)
    ensures
        r == (flags & 30) >> 1,
        r < 16,
{
    proof {
        assert((flags & 30u32) >> 1u32 < 16) by (bit_vector);
    }
    (flags & FSP_FLAGS_MASK_ZIP_SSIZE) >> FSP_FLAGS_POS_ZIP_SSIZE
}

/// Reads the 2-byte big-endian field at `field` within `page_hdr`.
pub fn page_header_get_field(page_hdr: &[u8], field: u32) -> (r: u16)
    requires
        field + 2 <= page_hdr@.len(),
    ensures
        r == be_field(page_hdr@, field as int, 2),
{
    let at = vstd::slice::slice_subrange(page_hdr, field as usize, page_hdr.len());
    proof {
        assert(at@.subrange(0, 2) =~= page_hdr@.subrange(field as int, field + 2));
    }
    mach_read_from_2(at)
}

/// Whether the page is in the compact format: bit 15 of the number of heap
/// records in the index page header.
pub fn page_is_comp(page: &[u8]) -> (r: bool)
    requires
        page@.len() >= PAGE_HEADER + PAGE_N_HEAP + 2,
    ensures
        r == (be_field(page@, (PAGE_HEADER + PAGE_N_HEAP) as int, 2) >= 0x8000),
{
    let f = page_header_get_field(page, PAGE_HEADER + PAGE_N_HEAP);
    proof {
        assert((f & 0x8000u16 != 0) == (f >= 0x8000)) by (bit_vector);
    }
    (f & 0x8000) != 0
}

/// The fields of the index page header, as 2-byte values.
#[derive(Debug, Clone, Copy, PartialEq, Eq, Structural)]
pub struct PageHeaderFields {
    pub n_dir_slots: u16,
    pub heap_top: u16,
    /// Number of records in the heap, without the format flag.
    pub n_heap: u16,
    pub free: u16,
    pub garbage: u16,
    pub last_insert: u16,
    pub direction: u16,
    pub n_direction: u16,
    pub n_recs: u16,
    /// The first two bytes of the highest transaction id.
    pub max_trx_id: u16,
    pub level: u16,
    /// The first two bytes of the index id.
    pub index_id: u16,
    pub is_comp: bool,
}

/// The 2-byte field at `field` within the index page header of `page`.
pub open spec fn header_field(page: Seq<u8>, field: u32) -> nat {
    be_field(page, (PAGE_HEADER + field) as int, 2)
}

/// Reads the index page header of `page`.
pub fn page_header_fields(page: &[u8]) -> (r: PageHeaderFields)
    requires
        page@.len() >= PAGE_HEADER + PAGE_INDEX_ID + 2,
    ensures
        r.n_dir_slots == header_field(page@, PAGE_N_DIR_SLOTS),
        r.heap_top == header_field(page@, PAGE_HEAP_TOP),
        r.n_heap == header_field(page@, PAGE_N_HEAP) % 0x8000,
        r.free == header_field(page@, PAGE_FREE),
        r.garbage == header_field(page@, PAGE_GARBAGE),
        r.last_insert == header_field(page@, PAGE_LAST_INSERT),
        r.direction == header_field(page@, PAGE_DIRECTION),
        r.n_direction == header_field(page@, PAGE_N_DIRECTION),
        r.n_recs == header_field(page@, PAGE_N_RECS),
        r.max_trx_id == header_field(page@, PAGE_MAX_TRX_ID),
        r.level == header_field(page@, PAGE_LEVEL),
        r.index_id == header_field(page@, PAGE_INDEX_ID),
        r.is_comp == (header_field(page@, PAGE_N_HEAP) >= 0x8000),
{
    let h = vstd::slice::slice_subrange(page, PAGE_HEADER as usize, page.len());
    proof {
        assert forall|f: u32| f + 2 <= h@.len() implies #[trigger] h@.subrange(f as int, f + 2)
            =~= page@.subrange(PAGE_HEADER + f, PAGE_HEADER + f + 2) by {}
    }
    let n_heap_raw = page_header_get_field(h, PAGE_N_HEAP);
    proof {
        assert(n_heap_raw & 0x7fffu16 == n_heap_raw % 0x8000) by (bit_vector);
    }
    PageHeaderFields {
        n_dir_slots: page_header_get_field(h, PAGE_N_DIR_SLOTS),
        heap_top: page_header_get_field(h, PAGE_HEAP_TOP),
        n_heap: n_heap_raw & 0x7fff,
        free: page_header_get_field(h, PAGE_FREE),
        garbage: page_header_get_field(h, PAGE_GARBAGE),
        last_insert: page_header_get_field(h, PAGE_LAST_INSERT),
        direction: page_header_get_field(h, PAGE_DIRECTION),
        n_direction: page_header_get_field(h, PAGE_N_DIRECTION),
        n_recs: page_header_get_field(h, PAGE_N_RECS),
        max_trx_id: page_header_get_field(h, PAGE_MAX_TRX_ID),
        level: page_header_get_field(h, PAGE_LEVEL),
        index_id: page_header_get_field(h, PAGE_INDEX_ID),
        is_comp: page_is_comp(page),
    }
}


/// The first four bytes of `s`, starting at `off`, as a big-endian `u32`.
pub open spec fn field4(s: Seq<u8>, off: int) -> nat {
    be_field(s, off, 4)
}

/// Reads the 4-byte big-endian field at `off` within `buf`.
fn read_field_4(buf: &[u8], off: u32) -> (r: u32)
    requires
        off + 4 <= buf@.len(),
    ensures
        r == field4(buf@, off as int),
{
    let at = vstd::slice::slice_subrange(buf, off as usize, buf.len());
    proof {
        assert(at@.subrange(0, 4) =~= buf@.subrange(off as int, off + 4));
    }
    mach_read_from_4(at)
}

/// What page 0 of a tablespace holds in its tablespace header.
#[derive(Debug, Clone, Copy, PartialEq, Eq, Structural)]
pub struct FspHeaderInfo {
    pub server_version: u32,
    pub space_id: u32,
    pub space_size: u32,
}

/// The header fields of a page that the tool shows, in the order it shows
/// them.
#[derive(Debug)]
pub struct PageSummary {
    /// The space id in the file page header.
    pub fsp_id: u32,
    pub page_no: u32,
    pub page_type: u16,
    /// The tablespace header, read on a tablespace header page only.
    pub fsp: Option<FspHeaderInfo>,
    /// The predecessor page, not read on page 0.
    pub prev: Option<u32>,
    pub next: u32,
    pub header: PageHeaderFields,
    /// The 8 bytes of the infimum record.
    pub infimum: Vec<u8>,
    /// The 8 bytes of the supremum record.
    pub supremum: Vec<u8>,
}

/// Reads the page summary of a whole page.
pub fn page_summary(page: &[u8]) -> (r: PageSummary)
    requires
        page@.len() == PAGE_SIZE,
    ensures
        r.fsp_id == field4(page@, FIL_PAGE_ARCH_LOG_NO_OR_SPACE_ID as int),
        r.page_no == field4(page@, FIL_PAGE_OFFSET as int),
        r.page_type == be_field(page@, FIL_PAGE_TYPE as int, 2),
        r.fsp == (if r.page_type == FIL_PAGE_TYPE_FSP_HDR {
            Some(FspHeaderInfo {
                server_version: field4(page@, FIL_PAGE_SRV_VERSION as int) as u32,
                space_id: field4(page@, (FSP_HEADER_OFFSET + FSP_SPACE_ID) as int) as u32,
                space_size: field4(page@, (FSP_HEADER_OFFSET + FSP_SIZE) as int) as u32,
            })
        } else {
            None
        }),
        r.prev == (if r.page_no == 0 { None } else { Some(field4(page@, FIL_PAGE_PREV as int) as u32) }),
        r.next == field4(page@, FIL_PAGE_NEXT as int),
        r.header.n_dir_slots == header_field(page@, PAGE_N_DIR_SLOTS),
        r.header.heap_top == header_field(page@, PAGE_HEAP_TOP),
        r.header.n_heap == header_field(page@, PAGE_N_HEAP) % 0x8000,
        r.header.free == header_field(page@, PAGE_FREE),
        r.header.garbage == header_field(page@, PAGE_GARBAGE),
        r.header.last_insert == header_field(page@, PAGE_LAST_INSERT),
        r.header.direction == header_field(page@, PAGE_DIRECTION),
        r.header.n_direction == header_field(page@, PAGE_N_DIRECTION),
        r.header.n_recs == header_field(page@, PAGE_N_RECS),
        r.header.max_trx_id == header_field(page@, PAGE_MAX_TRX_ID),
        r.header.level == header_field(page@, PAGE_LEVEL),
        r.header.index_id == header_field(page@, PAGE_INDEX_ID),
        r.header.is_comp == (header_field(page@, PAGE_N_HEAP) >= 0x8000),
        r.infimum@ == page@.subrange(PAGE_NEW_INFIMUM as int, PAGE_NEW_INFIMUM + 8),
        r.supremum@ == page@.subrange(PAGE_NEW_SUPREMUM as int, PAGE_NEW_SUPREMUM_END as int),
{
    let fsp_id = read_field_4(page, FIL_PAGE_ARCH_LOG_NO_OR_SPACE_ID);
    let page_no = read_field_4(page, FIL_PAGE_OFFSET);
    let type_bytes = vstd::slice::slice_subrange(page, FIL_PAGE_TYPE as usize, (FIL_PAGE_TYPE + 4) as usize);
    proof {
        assert(type_bytes@.subrange(0, 2) =~= page@.subrange(FIL_PAGE_TYPE as int, FIL_PAGE_TYPE + 2));
    }
    let page_type = fil_page_get_type(type_bytes);
    let fsp = if page_type == FIL_PAGE_TYPE_FSP_HDR {
        let server_version = read_field_4(page, FIL_PAGE_SRV_VERSION);
        let space_id = read_field_4(page, FSP_HEADER_OFFSET + FSP_SPACE_ID);
        let space_size = read_field_4(page, FSP_HEADER_OFFSET + FSP_SIZE);
        Some(FspHeaderInfo { server_version, space_id, space_size })
    } else {
        None
    };
    let prev = if page_no == 0 {
        None
    } else {
        Some(read_field_4(page, FIL_PAGE_PREV))
    };
    let next = read_field_4(page, FIL_PAGE_NEXT);
    let header = page_header_fields(page);
    let infimum = vstd::slice::slice_to_vec(
        vstd::slice::slice_subrange(page, PAGE_NEW_INFIMUM as usize, (PAGE_NEW_INFIMUM + 8) as usize),
    );
    let supremum = vstd::slice::slice_to_vec(
        vstd::slice::slice_subrange(page, PAGE_NEW_SUPREMUM as usize, PAGE_NEW_SUPREMUM_END as usize),
    );
    PageSummary { fsp_id, page_no, page_type, fsp, prev, next, header, infimum, supremum }
}

/// How many records to show: the number asked for, or, when that is 0, the
/// number of user records in the index page header of `page`.
pub fn records_to_print(num_records: u32, page: &[u8]) -> (r: u32)
    requires
        page@.len() >= PAGE_HEADER + PAGE_N_RECS + 2,
    ensures
        r == (if num_records == 0 { header_field(page@, PAGE_N_RECS) } else { num_records as nat }),
{
    let mut rec_nr = num_records;
    if rec_nr == 0 {
        let h = vstd::slice::slice_subrange(page, PAGE_HEADER as usize, page.len());
        proof {
            assert(h@.subrange(PAGE_N_RECS as int, PAGE_N_RECS + 2) =~= page@.subrange(
                PAGE_HEADER + PAGE_N_RECS,
                PAGE_HEADER + PAGE_N_RECS + 2,
            ));
        }
        rec_nr = page_header_get_field(h, PAGE_N_RECS) as u32;
    }
    rec_nr
}

/// Why the SDI root page number could not be taken from page 0.
#[derive(Debug, Clone, Copy, PartialEq, Eq, Structural)]
pub enum SdiRootError {
    /// Page 0 records an SDI version other than the one this tool reads.
    UnsupportedVersion(u32),
}

/// Offset on page 0 of the SDI version, for pages of 16 KiB.
pub open spec fn sdi_offset() -> int {
    XDES_ARR_OFFSET + XDES_SIZE * (PAGE_SIZE as u32 / FSP_EXTENT_SIZE) + INFO_MAX_SIZE
}

/// The SDI root page number recorded on page 0 of a tablespace, after the
/// SDI version; an error when the version is not the one this tool reads.
pub fn sdi_root_page(page0: &[u8]) -> (r: Result<u32, SdiRootError>)
    requires
        page0@.len() == PAGE_SIZE,
    ensures
        field4(page0@, sdi_offset()) == SDI_VERSION ==> r == Ok::<u32, SdiRootError>(
            field4(page0@, sdi_offset() + 4) as u32,
        ),
        field4(page0@, sdi_offset()) != SDI_VERSION ==> r == Err::<u32, SdiRootError>(
            SdiRootError::UnsupportedVersion(field4(page0@, sdi_offset()) as u32),
        ),
{
    let sdi_off = fsp_header_get_sdi_offset(PAGE_SIZE as u32);
    assert(XDES_SIZE == 40);
    assert(16384u32 / 64 == 256);
    assert(sdi_off == 10505);
    let version = read_field_4(page0, sdi_off);
    if version != SDI_VERSION {
        return Err(SdiRootError::UnsupportedVersion(version));
    }
    Ok(read_field_4(page0, sdi_off + 4))
}

/// The level of an SDI page in its tree; `u64::MAX` when the page is not
/// an SDI page.
pub open spec fn spec_sdi_page_level(page: Seq<u8>) -> int {
    if be_field(page, FIL_PAGE_TYPE as int, 2) != FIL_PAGE_SDI {
        u64::MAX as int
    } else {
        header_field(page, PAGE_LEVEL) as int
    }
}

/// The level of an SDI page in its tree, `u64::MAX` for a page of another
/// type.
pub fn sdi_page_level(page: &[u8]) -> (r: u64)
    requires
        page@.len() >= PAGE_HEADER + PAGE_LEVEL + 2,
    ensures
        r == spec_sdi_page_level(page@),
        r != u64::MAX ==> r <= u16::MAX,
{
    let type_bytes = vstd::slice::slice_subrange(page, FIL_PAGE_TYPE as usize, (FIL_PAGE_TYPE + 4) as usize);
    proof {
        assert(type_bytes@.subrange(0, 2) =~= page@.subrange(FIL_PAGE_TYPE as int, FIL_PAGE_TYPE + 2));
    }
    let page_type = fil_page_get_type(type_bytes);
    if page_type != FIL_PAGE_SDI {
        return u64::MAX;
    }
    page_header_get_field(page, FIL_PAGE_DATA + PAGE_LEVEL) as u64
}

/// The type of the record whose origin is `rec`: the low three bits of the
/// byte 3 bytes before it.
pub fn get_rec_type(page: &[u8], rec: u32) -> (r: u8)
    requires
        3 <= rec,
        rec - 3 < page@.len(),
    ensures
        r == page@[rec - 3] & 7,
        r < 8,
{
    let at = vstd::slice::slice_subrange(page, (rec - 3) as usize, page.len());
    let b = _mach_read_from_1(at);
    proof {
        assert(b & 7u8 < 8) by (bit_vector);
    }
    b & 0x7
}

/// The origin of the first user record of a compact page: the infimum
/// origin plus the infimum's next-record field.
pub fn get_first_user_rec(page: &[u8]) -> (r: u32)
    requires
        page@.len() >= PAGE_NEW_INFIMUM,
    ensures
        r == PAGE_NEW_INFIMUM + be_field(page@, PAGE_NEW_INFIMUM - 2, 2),
{
    let at = vstd::slice::slice_subrange(page, (PAGE_NEW_INFIMUM - 2) as usize, page.len());
    proof {
        assert(at@.subrange(0, 2) =~= page@.subrange(PAGE_NEW_INFIMUM - 2, PAGE_NEW_INFIMUM as int));
    }
    let next_rec_offset = mach_read_from_2(at) as u32;
    PAGE_NEW_INFIMUM + next_rec_offset
}


/// Why the walk over the records of an index page stopped.
#[derive(Debug, Clone, Copy, PartialEq, Eq, Structural)]
pub enum WalkEnd {
    /// As many records as asked for were found.
    Complete,
    /// The offset to the start of the next record is beyond a page.
    StartPastPage,
    /// The offset to the end of a record (given) is beyond a page.
    EndPastPage(u32),
    /// A record offset fell outside the page buffer.
    OutOfBounds,
}

/// The value of the compact-format flag of `page` as a number: 1 for a
/// compact page, 0 otherwise.
pub open spec fn comp_flag(page: Seq<u8>) -> u32 {
    if header_field(page, PAGE_N_HEAP) >= 0x8000 { 1 } else { 0 }
}

/// The records found by walking `n` records from the record at `off`: for
/// each, the offset of its start and its length as the next-record field
/// gives it; and why the walk stopped.
pub open spec fn spec_record_walk(page: Seq<u8>, off: u32, comp: u32, n: nat) -> (Seq<(u32, u32)>, WalkEnd)
    decreases n,
{
    if n == 0 {
        (Seq::empty(), WalkEnd::Complete)
    } else if !(5 <= off <= page.len()) {
        (Seq::empty(), WalkEnd::OutOfBounds)
    } else {
        let start = spec_next_offs(page, off, comp);
        if start > PAGE_SIZE {
            (Seq::empty(), WalkEnd::StartPastPage)
        } else if off + start > u32::MAX || !(5 <= off + start <= page.len()) {
            (Seq::empty(), WalkEnd::OutOfBounds)
        } else {
            let at = (off + start) as u32;
            let end = spec_next_offs(page, at, comp);
            if end > PAGE_SIZE {
                (Seq::empty(), WalkEnd::EndPastPage(end as u32))
            } else if at + end > page.len() {
                (Seq::empty(), WalkEnd::OutOfBounds)
            } else {
                let rest = spec_record_walk(page, at, comp, (n - 1) as nat);
                (seq![(at, end as u32)] + rest.0, rest.1)
            }
        }
    }
}

/// Walks up to `rec_nr` records of an index page from the infimum, and
/// gives the span of each record found and why the walk stopped.
pub fn index_page_records(page: &[u8], rec_nr: u32) -> (r: (Vec<(u32, u32)>, WalkEnd))
    requires
        page@.len() == PAGE_SIZE,
    ensures
        (r.0@, r.1) == spec_record_walk(page@, PAGE_NEW_INFIMUM, comp_flag(page@), rec_nr as nat),
        forall|i: int| 0 <= i < r.0@.len() ==> r.0@[i].0 + r.0@[i].1 <= page@.len(),
{
    let comp = page_is_comp(page) as u32;
    assert(comp == comp_flag(page@));
    let ghost total = spec_record_walk(page@, PAGE_NEW_INFIMUM, comp, rec_nr as nat);
    let mut out: Vec<(u32, u32)> = Vec::new();
    let mut off: u32 = PAGE_NEW_INFIMUM;
    let mut n: u32 = rec_nr;
    while n > 0
        invariant
            page@.len() == PAGE_SIZE,
            comp == comp_flag(page@),
            total == spec_record_walk(page@, PAGE_NEW_INFIMUM, comp, rec_nr as nat),
            out@ + spec_record_walk(page@, off, comp, n as nat).0 == total.0,
            spec_record_walk(page@, off, comp, n as nat).1 == total.1,
            forall|i: int| 0 <= i < out@.len() ==> out@[i].0 + out@[i].1 <= page@.len(),
        decreases n,
    {
        if off < 5 || off as usize > page.len() {
            assert(out@ + Seq::<(u32, u32)>::empty() =~= out@);
            return (out, WalkEnd::OutOfBounds);
        }
        proof {
            crate::rem0rec::lemma_next_field_bound(page@, off as int);
        }
        let rec_start_off = rec_get_next_offs(page, off, comp);
        if rec_start_off > PAGE_SIZE as u32 {
            assert(out@ + Seq::<(u32, u32)>::empty() =~= out@);
            return (out, WalkEnd::StartPastPage);
        }
        if rec_start_off > u32::MAX - off || ((off + rec_start_off) as usize) > page.len() {
            assert(out@ + Seq::<(u32, u32)>::empty() =~= out@);
            return (out, WalkEnd::OutOfBounds);
        }
        off = off + rec_start_off;
        proof {
            crate::rem0rec::lemma_next_field_bound(page@, off as int);
        }
        let rec_end_off = rec_get_next_offs(page, off, comp);
        if rec_end_off > PAGE_SIZE as u32 {
            assert(out@ + Seq::<(u32, u32)>::empty() =~= out@);
            return (out, WalkEnd::EndPastPage(rec_end_off));
        }
        if off as usize + rec_end_off as usize > page.len() {
            assert(out@ + Seq::<(u32, u32)>::empty() =~= out@);
            return (out, WalkEnd::OutOfBounds);
        }
        let ghost old_out = out@;
        out.push((off, rec_end_off));
        n = n - 1;
        assert(old_out + (seq![(off, rec_end_off)] + spec_record_walk(page@, off, comp, n as nat).0)
            =~= out@ + spec_record_walk(page@, off, comp, n as nat).0);
    }
    assert(out@ + Seq::<(u32, u32)>::empty() =~= out@);
    (out, WalkEnd::Complete)
}

/// The walk over the records of an index page goes from record to record:
/// each record starts where the offset that `rec_get_next_offs` gives at
/// the previous start leads from that start (the first from `off`, the
/// infimum), and spans the offset that `rec_get_next_offs` gives at its own
/// start, inside the page. The walk finds at most `n` records, and exactly
/// `n` when it completes.
pub proof fn law_record_walk_chain(page: Seq<u8>, off: u32, comp: u32, n: nat)
    ensures
        ({
            let w = spec_record_walk(page, off, comp, n);
            &&& w.0.len() <= n
            &&& w.1 == WalkEnd::Complete ==> w.0.len() == n
            &&& forall|i: int| 0 <= i < w.0.len() ==> {
                let prev: u32 = if i == 0 { off } else { w.0[i - 1].0 };
                &&& (#[trigger] w.0[i]).0 == prev + spec_next_offs(page, prev, comp)
                &&& w.0[i].1 == spec_next_offs(page, w.0[i].0, comp)
                &&& w.0[i].0 + w.0[i].1 <= page.len()
            }
        }),
    decreases n,
{
    if n > 0 && 5 <= off <= page.len() {
        let start = spec_next_offs(page, off, comp);
        if start <= PAGE_SIZE && off + start <= u32::MAX && 5 <= off + start <= page.len() {
            let at = (off + start) as u32;
            let end = spec_next_offs(page, at, comp);
            if end <= PAGE_SIZE && at + end <= page.len() {
                law_record_walk_chain(page, at, comp, (n - 1) as nat);
                let rest = spec_record_walk(page, at, comp, (n - 1) as nat);
                let w = spec_record_walk(page, off, comp, n);
                assert(w.0 == seq![(at, end as u32)] + rest.0);
                assert forall|i: int| 0 <= i < w.0.len() implies {
                    let prev: u32 = if i == 0 { off } else { w.0[i - 1].0 };
                    &&& (#[trigger] w.0[i]).0 == prev + spec_next_offs(page, prev, comp)
                    &&& w.0[i].1 == spec_next_offs(page, w.0[i].0, comp)
                    &&& w.0[i].0 + w.0[i].1 <= page.len()
                } by {
                    if i > 0 {
                        assert(w.0[i] == rest.0[i - 1]);
                        assert(w.0[i - 1] == if i == 1 { (at, end as u32) } else { rest.0[i - 2] });
                    }
                }
            }
        }
    }
}

} // verus!
