//! Verified reading of MySQL InnoDB tablespace (`.ibd`) pages: big-endian
//! field access, page and record headers, and the decisions taken while
//! walking the serialized dictionary information (SDI) tree.

pub mod ut;
pub mod fil0fil;
pub mod page0types;
pub mod rem0rec;
pub mod ibd;
pub mod sdi;

pub use ibd::{get_first_user_rec, get_rec_type, page_header_get_field, page_is_comp};
