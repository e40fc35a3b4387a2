//! File page types: the values of the page type field and their names.
use vstd::prelude::*;

verus! {

/// B-tree node
pub const FIL_PAGE_INDEX: u16 = 17855;

/// R-tree node
pub const FIL_PAGE_RTREE: u16 = 17854;

/// Tablespace SDI Index page
pub const FIL_PAGE_SDI: u16 = 17853;

/// This page type is unused.
pub const FIL_PAGE_TYPE_UNUSED: u16 = 1;

/// Undo log page
pub const FIL_PAGE_UNDO_LOG: u16 = 2;

/// Index node
pub const FIL_PAGE_INODE: u16 = 3;

/// Insert buffer free list
pub const FIL_PAGE_IBUF_FREE_LIST: u16 = 4;

/// Freshly allocated page
pub const FIL_PAGE_TYPE_ALLOCATED: u16 = 0;

/// Insert buffer bitmap
pub const FIL_PAGE_IBUF_BITMAP: u16 = 5;

/// System page
pub const FIL_PAGE_TYPE_SYS: u16 = 6;

/// Transaction system data
pub const FIL_PAGE_TYPE_TRX_SYS: u16 = 7;

/// File space header
pub const FIL_PAGE_TYPE_FSP_HDR: u16 = 8;

/// Extent descriptor page
pub const FIL_PAGE_TYPE_XDES: u16 = 9;

/// Uncompressed BLOB page
pub const FIL_PAGE_TYPE_BLOB: u16 = 10;

/// First compressed BLOB page
pub const FIL_PAGE_TYPE_ZBLOB: u16 = 11;

/// Subsequent compressed BLOB page
pub const FIL_PAGE_TYPE_ZBLOB2: u16 = 12;

/// In old tablespaces, garbage in FIL_PAGE_TYPE is replaced with this value when flushing pages.
pub const FIL_PAGE_TYPE_UNKNOWN: u16 = 13;

/// Compressed page
pub const FIL_PAGE_COMPRESSED: u16 = 14;

/// Encrypted page
pub const FIL_PAGE_ENCRYPTED: u16 = 15;

/// Compressed and Encrypted page
pub const FIL_PAGE_COMPRESSED_AND_ENCRYPTED: u16 = 16;

/// Encrypted R-tree page
pub const FIL_PAGE_ENCRYPTED_RTREE: u16 = 17;

/// Uncompressed SDI BLOB page
pub const FIL_PAGE_SDI_BLOB: u16 = 18;

/// Compressed SDI BLOB page
pub const FIL_PAGE_SDI_ZBLOB: u16 = 19;

/// Legacy doublewrite buffer page.
pub const FIL_PAGE_TYPE_LEGACY_DBLWR: u16 = 20;

/// Rollback Segment Array page
pub const FIL_PAGE_TYPE_RSEG_ARRAY: u16 = 21;

/// Index pages of uncompressed LOB
pub const FIL_PAGE_TYPE_LOB_INDEX: u16 = 22;

/// Data pages of uncompressed LOB
pub const FIL_PAGE_TYPE_LOB_DATA: u16 = 23;

/// The first page of an uncompressed LOB
pub const FIL_PAGE_TYPE_LOB_FIRST: u16 = 24;

/// The first page of a compressed LOB
pub const FIL_PAGE_TYPE_ZLOB_FIRST: u16 = 25;

/// Data pages of compressed LOB
pub const FIL_PAGE_TYPE_ZLOB_DATA: u16 = 26;

/// Index pages of compressed LOB. This page contains an array of z_index_entry_t objects.
pub const FIL_PAGE_TYPE_ZLOB_INDEX: u16 = 27;

/// Fragment pages of compressed LOB.
pub const FIL_PAGE_TYPE_ZLOB_FRAG: u16 = 28;

/// Index pages of fragment pages (compressed LOB).
pub const FIL_PAGE_TYPE_ZLOB_FRAG_ENTRY: u16 = 29;

/// Note the highest valid non-index page_type_t.
pub const _FIL_PAGE_TYPE_LAST: u16 = 29;

/// Marks the absence of a page number (no predecessor, no successor).
pub const FIL_NULL: u32 = 0xFFFF_FFFF;

/// The name under which a page type is printed.
pub open spec fn page_type_name(page_type: u16) -> &'static str {
    if page_type == FIL_PAGE_INDEX {
        "FIL_PAGE_INDEX"
    }
    else if page_type == FIL_PAGE_RTREE {
        "FIL_PAGE_RTREE"
    }
    else if page_type == FIL_PAGE_SDI {
        "FIL_PAGE_SDI"
    }
    else if page_type == FIL_PAGE_TYPE_UNUSED {
        "FIL_PAGE_TYPE_UNUSED"
    }
    else if page_type == FIL_PAGE_UNDO_LOG {
        "FIL_PAGE_UNDO_LOG"
    }
    else if page_type == FIL_PAGE_INODE {
        "FIL_PAGE_INODE"
    }
    else if page_type == FIL_PAGE_IBUF_FREE_LIST {
        "FIL_PAGE_IBUF_FREE_LIST"
    }
    else if page_type == FIL_PAGE_TYPE_ALLOCATED {
        "FIL_PAGE_TYPE_ALLOCATED"
    }
    else if page_type == FIL_PAGE_IBUF_BITMAP {
        "FIL_PAGE_IBUF_BITMAP"
    }
    else if page_type == FIL_PAGE_TYPE_SYS {
        "FIL_PAGE_TYPE_SYS"
    }
    else if page_type == FIL_PAGE_TYPE_TRX_SYS {
        "FIL_PAGE_TYPE_TRX_SYS"
    }
    else if page_type == FIL_PAGE_TYPE_FSP_HDR {
        "FIL_PAGE_TYPE_FSP_HDR"
    }
    else if page_type == FIL_PAGE_TYPE_XDES {
        "FIL_PAGE_TYPE_XDES"
    }
    else if page_type == FIL_PAGE_TYPE_BLOB {
        "FIL_PAGE_TYPE_BLOB"
    }
    else if page_type == FIL_PAGE_TYPE_ZBLOB {
        "FIL_PAGE_TYPE_ZBLOB"
    }
    else if page_type == FIL_PAGE_TYPE_ZBLOB2 {
        "FIL_PAGE_TYPE_ZBLOB2"
    }
    else if page_type == FIL_PAGE_TYPE_UNKNOWN {
        "FIL_PAGE_TYPE_UNKNOWN"
    }
    else if page_type == FIL_PAGE_COMPRESSED {
        "FIL_PAGE_COMPRESSED"
    }
    else if page_type == FIL_PAGE_ENCRYPTED {
        "FIL_PAGE_ENCRYPTED"
    }
    else if page_type == FIL_PAGE_COMPRESSED_AND_ENCRYPTED {
        "FIL_PAGE_COMPRESSED_AND_ENCRYPTED"
    }
    else if page_type == FIL_PAGE_ENCRYPTED_RTREE {
        "FIL_PAGE_ENCRYPTED_RTREE"
    }
    else if page_type == FIL_PAGE_SDI_BLOB {
        "FIL_PAGE_SDI_BLOB"
    }
    else if page_type == FIL_PAGE_SDI_ZBLOB {
        "FIL_PAGE_SDI_ZBLOB"
    }
    else if page_type == FIL_PAGE_TYPE_LEGACY_DBLWR {
        "FIL_PAGE_TYPE_LEGACY_DBLWR"
    }
    else if page_type == FIL_PAGE_TYPE_RSEG_ARRAY {
        "FIL_PAGE_TYPE_RSEG_ARRAY"
    }
    else if page_type == FIL_PAGE_TYPE_LOB_INDEX {
        "FIL_PAGE_TYPE_LOB_INDEX"
    }
    else if page_type == FIL_PAGE_TYPE_LOB_DATA {
        "FIL_PAGE_TYPE_LOB_DATA"
    }
    else if page_type == FIL_PAGE_TYPE_LOB_FIRST {
        "FIL_PAGE_TYPE_LOB_FIRST"
    }
    else if page_type == FIL_PAGE_TYPE_ZLOB_FIRST {
        "FIL_PAGE_TYPE_ZLOB_FIRST"
    }
    else if page_type == FIL_PAGE_TYPE_ZLOB_DATA {
        "FIL_PAGE_TYPE_ZLOB_DATA"
    }
    else if page_type == FIL_PAGE_TYPE_ZLOB_INDEX {
        "FIL_PAGE_TYPE_ZLOB_INDEX"
    }
    else if page_type == FIL_PAGE_TYPE_ZLOB_FRAG {
        "FIL_PAGE_TYPE_ZLOB_FRAG"
    }
    else if page_type == FIL_PAGE_TYPE_ZLOB_FRAG_ENTRY {
        "FIL_PAGE_TYPE_ZLOB_FRAG_ENTRY"
    } else {
        "UNKNOWN_PAGE_TYPE"
    }
}

/// The name of a page type, `UNKNOWN_PAGE_TYPE` for a value that names none.
pub fn fil_print_page_type(page_type: u16) -> (r: &'static str)
    ensures
        r == page_type_name(page_type),
{
    match page_type {
        FIL_PAGE_INDEX => "FIL_PAGE_INDEX",
        FIL_PAGE_RTREE => "FIL_PAGE_RTREE",
        FIL_PAGE_SDI => "FIL_PAGE_SDI",
        FIL_PAGE_TYPE_UNUSED => "FIL_PAGE_TYPE_UNUSED",
        FIL_PAGE_UNDO_LOG => "FIL_PAGE_UNDO_LOG",
        FIL_PAGE_INODE => "FIL_PAGE_INODE",
        FIL_PAGE_IBUF_FREE_LIST => "FIL_PAGE_IBUF_FREE_LIST",
        FIL_PAGE_TYPE_ALLOCATED => "FIL_PAGE_TYPE_ALLOCATED",
        FIL_PAGE_IBUF_BITMAP => "FIL_PAGE_IBUF_BITMAP",
        FIL_PAGE_TYPE_SYS => "FIL_PAGE_TYPE_SYS",
        FIL_PAGE_TYPE_TRX_SYS => "FIL_PAGE_TYPE_TRX_SYS",
        FIL_PAGE_TYPE_FSP_HDR => "FIL_PAGE_TYPE_FSP_HDR",
        FIL_PAGE_TYPE_XDES => "FIL_PAGE_TYPE_XDES",
        FIL_PAGE_TYPE_BLOB => "FIL_PAGE_TYPE_BLOB",
        FIL_PAGE_TYPE_ZBLOB => "FIL_PAGE_TYPE_ZBLOB",
        FIL_PAGE_TYPE_ZBLOB2 => "FIL_PAGE_TYPE_ZBLOB2",
        FIL_PAGE_TYPE_UNKNOWN => "FIL_PAGE_TYPE_UNKNOWN",
        FIL_PAGE_COMPRESSED => "FIL_PAGE_COMPRESSED",
        FIL_PAGE_ENCRYPTED => "FIL_PAGE_ENCRYPTED",
        FIL_PAGE_COMPRESSED_AND_ENCRYPTED => "FIL_PAGE_COMPRESSED_AND_ENCRYPTED",
        FIL_PAGE_ENCRYPTED_RTREE => "FIL_PAGE_ENCRYPTED_RTREE",
        FIL_PAGE_SDI_BLOB => "FIL_PAGE_SDI_BLOB",
        FIL_PAGE_SDI_ZBLOB => "FIL_PAGE_SDI_ZBLOB",
        FIL_PAGE_TYPE_LEGACY_DBLWR => "FIL_PAGE_TYPE_LEGACY_DBLWR",
        FIL_PAGE_TYPE_RSEG_ARRAY => "FIL_PAGE_TYPE_RSEG_ARRAY",
        FIL_PAGE_TYPE_LOB_INDEX => "FIL_PAGE_TYPE_LOB_INDEX",
        FIL_PAGE_TYPE_LOB_DATA => "FIL_PAGE_TYPE_LOB_DATA",
        FIL_PAGE_TYPE_LOB_FIRST => "FIL_PAGE_TYPE_LOB_FIRST",
        FIL_PAGE_TYPE_ZLOB_FIRST => "FIL_PAGE_TYPE_ZLOB_FIRST",
        FIL_PAGE_TYPE_ZLOB_DATA => "FIL_PAGE_TYPE_ZLOB_DATA",
        FIL_PAGE_TYPE_ZLOB_INDEX => "FIL_PAGE_TYPE_ZLOB_INDEX",
        FIL_PAGE_TYPE_ZLOB_FRAG => "FIL_PAGE_TYPE_ZLOB_FRAG",
        FIL_PAGE_TYPE_ZLOB_FRAG_ENTRY => "FIL_PAGE_TYPE_ZLOB_FRAG_ENTRY",
        _ => "UNKNOWN_PAGE_TYPE",
    }
}

/// The page type values that have a name: 0 to 29, and 17853 to 17855.
pub open spec fn is_named_page_type(page_type: u16) -> bool {
    page_type <= 29 || 17853 <= page_type <= 17855
}

/// Each page type constant is printed under its own name, and every other
/// value as `UNKNOWN_PAGE_TYPE`.
pub proof fn law_page_type_names(page_type: u16)
    ensures
        page_type_name(FIL_PAGE_INDEX) == "FIL_PAGE_INDEX",
        page_type_name(FIL_PAGE_RTREE) == "FIL_PAGE_RTREE",
        page_type_name(FIL_PAGE_SDI) == "FIL_PAGE_SDI",
        page_type_name(FIL_PAGE_TYPE_UNUSED) == "FIL_PAGE_TYPE_UNUSED",
        page_type_name(FIL_PAGE_UNDO_LOG) == "FIL_PAGE_UNDO_LOG",
        page_type_name(FIL_PAGE_INODE) == "FIL_PAGE_INODE",
        page_type_name(FIL_PAGE_IBUF_FREE_LIST) == "FIL_PAGE_IBUF_FREE_LIST",
        page_type_name(FIL_PAGE_TYPE_ALLOCATED) == "FIL_PAGE_TYPE_ALLOCATED",
        page_type_name(FIL_PAGE_IBUF_BITMAP) == "FIL_PAGE_IBUF_BITMAP",
        page_type_name(FIL_PAGE_TYPE_SYS) == "FIL_PAGE_TYPE_SYS",
        page_type_name(FIL_PAGE_TYPE_TRX_SYS) == "FIL_PAGE_TYPE_TRX_SYS",
        page_type_name(FIL_PAGE_TYPE_FSP_HDR) == "FIL_PAGE_TYPE_FSP_HDR",
        page_type_name(FIL_PAGE_TYPE_XDES) == "FIL_PAGE_TYPE_XDES",
        page_type_name(FIL_PAGE_TYPE_BLOB) == "FIL_PAGE_TYPE_BLOB",
        page_type_name(FIL_PAGE_TYPE_ZBLOB) == "FIL_PAGE_TYPE_ZBLOB",
        page_type_name(FIL_PAGE_TYPE_ZBLOB2) == "FIL_PAGE_TYPE_ZBLOB2",
        page_type_name(FIL_PAGE_TYPE_UNKNOWN) == "FIL_PAGE_TYPE_UNKNOWN",
        page_type_name(FIL_PAGE_COMPRESSED) == "FIL_PAGE_COMPRESSED",
        page_type_name(FIL_PAGE_ENCRYPTED) == "FIL_PAGE_ENCRYPTED",
        page_type_name(FIL_PAGE_COMPRESSED_AND_ENCRYPTED) == "FIL_PAGE_COMPRESSED_AND_ENCRYPTED",
        page_type_name(FIL_PAGE_ENCRYPTED_RTREE) == "FIL_PAGE_ENCRYPTED_RTREE",
        page_type_name(FIL_PAGE_SDI_BLOB) == "FIL_PAGE_SDI_BLOB",
        page_type_name(FIL_PAGE_SDI_ZBLOB) == "FIL_PAGE_SDI_ZBLOB",
        page_type_name(FIL_PAGE_TYPE_LEGACY_DBLWR) == "FIL_PAGE_TYPE_LEGACY_DBLWR",
        page_type_name(FIL_PAGE_TYPE_RSEG_ARRAY) == "FIL_PAGE_TYPE_RSEG_ARRAY",
        page_type_name(FIL_PAGE_TYPE_LOB_INDEX) == "FIL_PAGE_TYPE_LOB_INDEX",
        page_type_name(FIL_PAGE_TYPE_LOB_DATA) == "FIL_PAGE_TYPE_LOB_DATA",
        page_type_name(FIL_PAGE_TYPE_LOB_FIRST) == "FIL_PAGE_TYPE_LOB_FIRST",
        page_type_name(FIL_PAGE_TYPE_ZLOB_FIRST) == "FIL_PAGE_TYPE_ZLOB_FIRST",
        page_type_name(FIL_PAGE_TYPE_ZLOB_DATA) == "FIL_PAGE_TYPE_ZLOB_DATA",
        page_type_name(FIL_PAGE_TYPE_ZLOB_INDEX) == "FIL_PAGE_TYPE_ZLOB_INDEX",
        page_type_name(FIL_PAGE_TYPE_ZLOB_FRAG) == "FIL_PAGE_TYPE_ZLOB_FRAG",
        page_type_name(FIL_PAGE_TYPE_ZLOB_FRAG_ENTRY) == "FIL_PAGE_TYPE_ZLOB_FRAG_ENTRY",
        !is_named_page_type(page_type) ==> page_type_name(page_type) == "UNKNOWN_PAGE_TYPE",
        is_named_page_type(page_type) ==> page_type_name(page_type) != "UNKNOWN_PAGE_TYPE",
{
}

/// Distinct named page types have distinct names.
pub proof fn law_page_type_names_distinct(a: u16, b: u16)
    requires
        is_named_page_type(a),
        is_named_page_type(b),
        a != b,
    ensures
        page_type_name(a) != page_type_name(b),
{
}

} // verus!
