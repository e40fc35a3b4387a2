use mysql_ibdinspect::ibd::{
    fsp_flags_get_zip_ssize, fsp_header_get_sdi_offset, index_page_records, page_header_fields,
    page_summary, records_to_print, sdi_page_level, sdi_root_page, ut_bits_in_bytes,
    xdes_arr_size, FspHeaderInfo, SdiRootError, WalkEnd,
};
use mysql_ibdinspect::{get_first_user_rec, get_rec_type, page_is_comp};

fn put2(p: &mut [u8], at: usize, v: u16) {
    p[at..at + 2].copy_from_slice(&v.to_be_bytes());
}

fn put4(p: &mut [u8], at: usize, v: u32) {
    p[at..at + 4].copy_from_slice(&v.to_be_bytes());
}

#[test]
fn fsp_sizes() {
    assert_eq!(ut_bits_in_bytes(128), 16);
    assert_eq!(ut_bits_in_bytes(1), 1);
    assert_eq!(ut_bits_in_bytes(0), 0);
    assert_eq!(ut_bits_in_bytes(9), 2);
    assert_eq!(xdes_arr_size(16384), 256);
    assert_eq!(fsp_header_get_sdi_offset(16384), 10505);
    assert_eq!(fsp_header_get_sdi_offset(0), 150 + 115);
    assert_eq!(fsp_flags_get_zip_ssize(0), 0);
    assert_eq!(fsp_flags_get_zip_ssize(0b1010), 5);
    assert_eq!(fsp_flags_get_zip_ssize(0xffff_ffff), 15);
}

#[test]
fn compact_flag() {
    let mut p = vec![0u8; 64];
    assert!(!page_is_comp(&p));
    put2(&mut p, 42, 0x8005);
    assert!(page_is_comp(&p));
    put2(&mut p, 42, 0x7fff);
    assert!(!page_is_comp(&p));
}

#[test]
fn header_fields_of_page() {
    let mut p = vec![0u8; 16384];
    for (i, f) in (0..15).enumerate() {
        put2(&mut p, 38 + 2 * f, (i as u16 + 1) * 0x101);
    }
    put2(&mut p, 42, 0x804B);
    let h = page_header_fields(&p);
    assert_eq!(h.n_dir_slots, 0x101);
    assert_eq!(h.heap_top, 0x202);
    assert_eq!(h.n_heap, 0x4B);
    assert!(h.is_comp);
    assert_eq!(h.free, 0x404);
    assert_eq!(h.n_recs, 0x909);
    assert_eq!(h.max_trx_id, 0xA0A);
    assert_eq!(h.level, 0xE0E);
    assert_eq!(h.index_id, 0xF0F);
}

#[test]
fn summary_of_fsp_header_page() {
    let mut p = vec![0u8; 16384];
    put4(&mut p, 4, 0);
    put4(&mut p, 8, 90500);
    put4(&mut p, 12, 1);
    put2(&mut p, 24, 8);
    put4(&mut p, 34, 14);
    put4(&mut p, 38, 14);
    put4(&mut p, 46, 15872);
    p[99..107].copy_from_slice(b"infimum\0");
    p[112..120].copy_from_slice(b"supremum");
    let s = page_summary(&p);
    assert_eq!(s.fsp_id, 14);
    assert_eq!(s.page_no, 0);
    assert_eq!(s.page_type, 8);
    assert_eq!(
        s.fsp,
        Some(FspHeaderInfo { server_version: 90500, space_id: 14, space_size: 15872 })
    );
    assert_eq!(s.prev, None);
    assert_eq!(s.next, 1);
    assert_eq!(s.infimum, b"infimum\0".to_vec());
    assert_eq!(s.supremum, b"supremum".to_vec());
}

#[test]
fn summary_of_index_page() {
    let mut p = vec![0u8; 16384];
    put4(&mut p, 4, 8);
    put4(&mut p, 8, 7);
    put4(&mut p, 12, 9);
    put2(&mut p, 24, 17855);
    put4(&mut p, 8, 7);
    let s = page_summary(&p);
    assert_eq!(s.page_type, 17855);
    assert_eq!(s.fsp, None);
    assert_eq!(s.prev, Some(7));
    assert_eq!(s.next, 9);
}

#[test]
fn records_to_print_defaults_to_page_count() {
    let mut p = vec![0u8; 64];
    assert_eq!(records_to_print(5, &p), 5);
    assert_eq!(records_to_print(0, &p), 0);
    put2(&mut p, 54, 73);
    assert_eq!(records_to_print(0, &p), 73);
    assert_eq!(records_to_print(2, &p), 2);
}

#[test]
fn sdi_root_from_page_zero() {
    let mut p = vec![0u8; 16384];
    put4(&mut p, 10505, 1);
    put4(&mut p, 10509, 3);
    assert_eq!(sdi_root_page(&p), Ok(3));
    put4(&mut p, 10505, 2);
    assert_eq!(sdi_root_page(&p), Err(SdiRootError::UnsupportedVersion(2)));
}

#[test]
fn level_of_sdi_page() {
    let mut p = vec![0u8; 16384];
    put2(&mut p, 64, 2);
    assert_eq!(sdi_page_level(&p), u64::MAX);
    put2(&mut p, 24, 17853);
    assert_eq!(sdi_page_level(&p), 2);
}

#[test]
fn record_type_and_first_user_record() {
    let mut p = vec![0u8; 16384];
    p[96] = 0xF2;
    put2(&mut p, 97, 28);
    assert_eq!(get_rec_type(&p, 99), 2);
    assert_eq!(get_first_user_rec(&p), 127);
}

#[test]
fn walk_index_page_records() {
    // old-style page: next-record fields are absolute offsets, added to the
    // current offset by the walk
    let mut p = vec![0u8; 16384];
    put2(&mut p, 97, 28);
    put2(&mut p, 125, 33);
    put2(&mut p, 158, 10);
    let (recs, end) = index_page_records(&p, 1);
    assert_eq!(recs, vec![(127, 33)]);
    assert_eq!(end, WalkEnd::Complete);
    let (recs, _) = index_page_records(&p, 0);
    assert!(recs.is_empty());
    let (recs, end) = index_page_records(&p, 2);
    assert_eq!(recs, vec![(127, 33), (160, 10)]);
    assert_eq!(end, WalkEnd::Complete);
}

#[test]
fn walk_compact_page_adds_page_offsets() {
    let mut p = vec![0u8; 16384];
    put2(&mut p, 42, 0x8000);
    put2(&mut p, 97, 28);
    put2(&mut p, 224, 10);
    let (recs, end) = index_page_records(&p, 1);
    assert_eq!(recs, vec![(226, 236)]);
    assert_eq!(end, WalkEnd::Complete);
}

#[test]
fn walk_stops_on_old_style_offset_past_page() {
    let mut p = vec![0u8; 16384];
    put2(&mut p, 97, 20000);
    let (recs, end) = index_page_records(&p, 3);
    assert!(recs.is_empty());
    assert_eq!(end, WalkEnd::StartPastPage);
    put2(&mut p, 97, 128);
    put2(&mut p, 225, 30000);
    let (recs, end) = index_page_records(&p, 3);
    assert!(recs.is_empty());
    assert_eq!(end, WalkEnd::EndPastPage(30000));
}
