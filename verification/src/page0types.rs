//! Layout of the index page header, which starts right after the file
//! page header.
use vstd::prelude::*;

verus! {

/// Offset of the index page header within a page.
pub const PAGE_HEADER: u32 = 38;

/// Length of a file segment header, in bytes.
pub const _FSEG_HEADER_SIZE: u32 = 10;

/// Number of slots in the page directory.
pub const PAGE_N_DIR_SLOTS: u32 = 0;

/// Pointer to the record heap top.
pub const PAGE_HEAP_TOP: u32 = 2;

/// Number of records in the heap; bit 15 flags the compact page format.
pub const PAGE_N_HEAP: u32 = 4;

/// Pointer to the start of the page free record list.
pub const PAGE_FREE: u32 = 6;

/// Number of bytes in deleted records.
pub const PAGE_GARBAGE: u32 = 8;

/// Pointer to the last inserted record.
pub const PAGE_LAST_INSERT: u32 = 10;

/// Last insert direction.
pub const PAGE_DIRECTION: u32 = 12;

/// Number of consecutive inserts to the same direction.
pub const PAGE_N_DIRECTION: u32 = 14;

/// Number of user records on the page.
pub const PAGE_N_RECS: u32 = 16;

/// Highest id of a transaction which may have modified a record on the page.
pub const PAGE_MAX_TRX_ID: u32 = 18;

/// End of the part of the page header that is set when the page is created.
pub const _PAGE_HEADER_PRIV_END: u32 = 26;

/// Level of the node in an index tree; the leaf level is level 0.
pub const PAGE_LEVEL: u32 = 26;

/// Index id where the page belongs.
pub const PAGE_INDEX_ID: u32 = 28;

/// File segment header for the leaf pages of a B-tree.
pub const _PAGE_BTR_SEG_LEAF: u32 = 36;

/// Free list base node of the root page of an insert buffer tree.
pub const _PAGE_BTR_IBUF_FREE_LIST: u32 = _PAGE_BTR_SEG_LEAF;

/// Free list node of a page in the insert buffer free list.
pub const _PAGE_BTR_IBUF_FREE_LIST_NODE: u32 = _PAGE_BTR_SEG_LEAF;

/// File segment header for the non-leaf pages of a B-tree.
pub const _PAGE_BTR_SEG_TOP: u32 = 36 + _FSEG_HEADER_SIZE;

/// Start of data on the page.
pub const _PAGE_DATA: u32 = PAGE_HEADER + 36 + 2 * _FSEG_HEADER_SIZE;

/// Offset of the origin of the infimum record on a compact page.
pub const PAGE_NEW_INFIMUM: u32 = _PAGE_DATA + 5;

/// Offset of the origin of the supremum record on a compact page.
pub const PAGE_NEW_SUPREMUM: u32 = _PAGE_DATA + 2 * 5 + 8;

/// Offset of the end of the supremum record on a compact page.
pub const PAGE_NEW_SUPREMUM_END: u32 = PAGE_NEW_SUPREMUM + 8;

} // verus!
