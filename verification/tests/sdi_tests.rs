use std::collections::HashMap;
use std::io::Write;

use mysql_ibdinspect::sdi::{
    blob_page_step, descent_from_child, descent_from_root, inflate_sdi, next_rec, next_rec_on_page,
    record_data, sdi_record_header, zblob_after_finish, zblob_after_inflate, zblob_page_next,
    BlobPageStep, DescentFailure, DescentStep, NextRec, RecordSource, SdiAction, SdiFault,
    SdiNote, SdiRecordHeader, SdiScan, ZblobStep, Z_BUF_ERROR, Z_OK, Z_STREAM_END,
};

const SDI: u16 = 17853;

fn put2(p: &mut [u8], at: usize, v: u16) {
    p[at..at + 2].copy_from_slice(&v.to_be_bytes());
}

fn put4(p: &mut [u8], at: usize, v: u32) {
    p[at..at + 4].copy_from_slice(&v.to_be_bytes());
}

fn put8(p: &mut [u8], at: usize, v: u64) {
    p[at..at + 8].copy_from_slice(&v.to_be_bytes());
}

fn zlib(data: &[u8]) -> Vec<u8> {
    let mut e = flate2::write::ZlibEncoder::new(Vec::new(), flate2::Compression::default());
    e.write_all(data).unwrap();
    e.finish().unwrap()
}

/// An SDI page of the given level, compact, with its infimum and supremum.
fn sdi_page(level: u16, n_recs: u16, next_page: u32) -> Vec<u8> {
    let mut p = vec![0u8; 16384];
    put4(&mut p, 12, next_page);
    put2(&mut p, 24, SDI);
    put2(&mut p, 42, 0x8000);
    put2(&mut p, 54, n_recs);
    put2(&mut p, 64, level);
    p[96] = 2;
    p[109] = 3;
    p
}

/// Sets the next-record field of the record at `from` as the infimum's is
/// read: relative to `from`.
fn link(p: &mut [u8], from: u32, to: u32) {
    let field = (to as i64 - from as i64).rem_euclid(65536) as u16;
    put2(p, from as usize - 2, field);
}

/// Sets the next-record field of the SDI record at `from` so that the
/// record after it is found at `to` (> `from`): the reading adds the
/// in-page offset of `from` plus the field to `from`.
fn link_sdi(p: &mut [u8], from: u32, to: u32) {
    let field = (to as i64 - 2 * from as i64).rem_euclid(65536) as u16;
    put2(p, from as usize - 2, field);
}

/// Marks `at` as a record of the supremum type.
fn end_mark(p: &mut [u8], at: u32) {
    p[at as usize - 3] = 3;
}

/// Places an SDI record with inline data at `rec`.
fn put_record(p: &mut [u8], rec: u32, id: u64, uncomp: u32, data: &[u8], comp_len: u32) {
    let r = rec as usize;
    let len = data.len();
    if len < 128 {
        p[r - 6] = len as u8;
    } else {
        p[r - 6] = 0x80 | (len >> 8) as u8;
        p[r - 7] = (len & 0xff) as u8;
    }
    p[r - 3] = 0;
    put4(p, r, 1);
    put8(p, r + 4, id);
    put4(p, r + 25, uncomp);
    put4(p, r + 29, comp_len);
    p[r + 33..r + 33 + len].copy_from_slice(data);
}

/// A leaf holding the given JSON documents, compressed, as records.
fn leaf_with(docs: &[&[u8]], next_page: u32) -> Vec<u8> {
    let mut p = sdi_page(0, docs.len() as u16, next_page);
    let mut prev = 99u32;
    let mut rec = 200u32;
    for (i, d) in docs.iter().enumerate() {
        let c = zlib(d);
        put_record(&mut p, rec, i as u64 + 1, d.len() as u32, &c, c.len() as u32);
        if prev == 99 {
            link(&mut p, prev, rec);
        } else {
            link_sdi(&mut p, prev, rec);
        }
        prev = rec;
        rec += 48 + c.len() as u32;
    }
    link_sdi(&mut p, prev, rec);
    end_mark(&mut p, rec);
    p
}

/// Where `leaf_with` puts its end mark.
fn end_of(docs: &[&[u8]]) -> u32 {
    200 + docs.iter().map(|d| 48 + zlib(d).len() as u32).sum::<u32>()
}

struct Run {
    out: Option<Vec<u8>>,
    fault: Option<SdiFault>,
    notes: Vec<SdiNote>,
    pages_read: Vec<u32>,
}

fn run(pages: &HashMap<u32, Vec<u8>>, root: u32) -> Run {
    let (mut scan, mut action) = SdiScan::new(root);
    let mut notes = Vec::new();
    let mut pages_read = Vec::new();
    loop {
        let step = match action {
            SdiAction::ReadPage(n) => {
                pages_read.push(n);
                scan.on_page(&pages[&n])
            }
            SdiAction::Continue => scan.resume(),
            SdiAction::InflateBlob { .. } => panic!("no compressed blob in these pages"),
            SdiAction::Done(out) => return Run { out, fault: None, notes, pages_read },
            SdiAction::Fault(f) => return Run { out: None, fault: Some(f), notes, pages_read },
        };
        if let Some(n) = step.note {
            notes.push(n);
        }
        action = step.action;
    }
}

#[test]
fn inflate_gives_the_original_bytes() {
    let doc = b"{\"dd_object_type\": \"Table\"}";
    let c = zlib(doc);
    assert_ne!(c, doc.to_vec());
    assert_eq!(inflate_sdi(&c, doc.len() as u32), Some(doc.to_vec()));
    let padded = inflate_sdi(&c, doc.len() as u32 + 3).unwrap();
    assert_eq!(&padded[..doc.len()], doc);
    assert_eq!(&padded[doc.len()..], &[0, 0, 0]);
    assert_eq!(inflate_sdi(&[1, 2, 3, 4], 10), None);
}

#[test]
fn records_on_a_root_leaf() {
    let mut pages = HashMap::new();
    pages.insert(3, leaf_with(&[b"{\"a\":1}", b"{\"b\":2}"], u32::MAX));
    let r = run(&pages, 3);
    assert_eq!(r.fault, None);
    assert_eq!(r.out, Some(b"[{\"a\":1},{\"b\":2}]".to_vec()));
    assert_eq!(r.notes, vec![SdiNote::ReachedLeafAtRoot]);
    assert_eq!(r.pages_read, vec![3]);
}

#[test]
fn descent_to_leftmost_leaf() {
    let mut root = sdi_page(1, 1, u32::MAX);
    link(&mut root, 99, 150);
    put4(&mut root, 150 + 12, 7);
    let mut pages = HashMap::new();
    pages.insert(3, root.clone());
    pages.insert(7, leaf_with(&[b"{\"x\":[1,2,3]}"], u32::MAX));
    assert_eq!(descent_from_root(&root), DescentStep::ReadChild { page_no: 7, level: 1 });
    assert_eq!(descent_from_child(&pages[&7], 1), DescentStep::ReachedLeaf { at_root: false });
    let r = run(&pages, 3);
    assert_eq!(r.out, Some(b"[{\"x\":[1,2,3]}]".to_vec()));
    assert!(r.notes.is_empty());
    assert_eq!(r.pages_read, vec![3, 7]);
}

#[test]
fn descent_failures() {
    let mut pages = HashMap::new();
    let mut not_sdi = vec![0u8; 16384];
    put2(&mut not_sdi, 24, 17855);
    assert_eq!(descent_from_root(&not_sdi), DescentStep::Failed(DescentFailure::RootNotSdi));
    pages.insert(3, not_sdi);
    let r = run(&pages, 3);
    assert_eq!(r.out, None);
    assert_eq!(r.notes, vec![SdiNote::DescentFailed(DescentFailure::RootNotSdi)]);

    let empty = sdi_page(0, 0, u32::MAX);
    assert_eq!(descent_from_root(&empty), DescentStep::NoRecords);
    pages.insert(3, empty);
    let r = run(&pages, 3);
    assert_eq!(r.out, None);
    assert_eq!(r.notes, vec![SdiNote::NoRecords]);

    let mut root = sdi_page(2, 1, u32::MAX);
    link(&mut root, 99, 150);
    put4(&mut root, 162, 2);
    assert_eq!(descent_from_root(&root), DescentStep::Failed(DescentFailure::InvalidChild(2)));
    root[96] = 0;
    assert_eq!(descent_from_root(&root), DescentStep::Failed(DescentFailure::InfimumNotFound));

    // a child that is neither one level down nor a leaf
    let child = sdi_page(5, 1, u32::MAX);
    assert_eq!(descent_from_child(&child, 3), DescentStep::Failed(DescentFailure::LeafNotFound));
    // a child one level down that is not a leaf goes on down
    let mut mid = sdi_page(1, 1, u32::MAX);
    link(&mut mid, 99, 140);
    put4(&mut mid, 152, 9);
    assert_eq!(descent_from_child(&mid, 2), DescentStep::ReadChild { page_no: 9, level: 1 });
}

#[test]
fn records_go_on_on_the_next_leaf() {
    let docs: [&[u8]; 1] = [b"{\"p\":1}"];
    let mut pages = HashMap::new();
    pages.insert(3, leaf_with(&docs, 8));
    // the first record of the next page is looked up in the first leaf,
    // where this one is the end mark
    let mut next = sdi_page(0, 1, u32::MAX);
    link(&mut next, 99, end_of(&docs));
    pages.insert(8, next);
    let r = run(&pages, 3);
    assert_eq!(r.pages_read, vec![3, 8]);
    assert_eq!(r.out, Some(b"[{\"p\":1}]".to_vec()));
}

#[test]
fn next_page_that_is_not_sdi_ends_the_array() {
    let mut pages = HashMap::new();
    pages.insert(3, leaf_with(&[b"{\"p\":1}"], 8));
    pages.insert(8, vec![0u8; 16384]);
    let r = run(&pages, 3);
    assert_eq!(r.out, Some(b"[{\"p\":1}]".to_vec()));
    assert_eq!(r.notes, vec![SdiNote::ReachedLeafAtRoot, SdiNote::NextPageNotSdi]);
}

#[test]
fn length_mismatch_closes_the_array() {
    let mut p = leaf_with(&[b"{\"a\":1}", b"{\"b\":2}"], u32::MAX);
    let first = 200u32;
    let second = first + 48 + zlib(b"{\"a\":1}").len() as u32;
    put4(&mut p, second as usize + 29, 999);
    let h = sdi_record_header(&p, second).unwrap();
    assert_eq!(h.comp_len, 999);
    let mut pages = HashMap::new();
    pages.insert(3, p);
    let r = run(&pages, 3);
    assert_eq!(r.out, Some(b"[{\"a\":1}]".to_vec()));
    assert_eq!(
        r.notes,
        vec![
            SdiNote::ReachedLeafAtRoot,
            SdiNote::LengthMismatch { sdi_id: 2, expected: 999, got: h.data_length }
        ]
    );
}

#[test]
fn corrupt_data_is_a_fault() {
    let mut p = leaf_with(&[b"{\"a\":1}"], u32::MAX);
    p[233] ^= 0xff;
    p[234] ^= 0xff;
    let mut pages = HashMap::new();
    pages.insert(3, p);
    let r = run(&pages, 3);
    assert_eq!(r.fault, Some(SdiFault::DecompressionFailed));
}

#[test]
fn record_headers() {
    let mut p = sdi_page(0, 1, u32::MAX);
    put_record(&mut p, 300, 42, 1000, &[7u8; 200], 200);
    let h = sdi_record_header(&p, 300).unwrap();
    assert_eq!(
        h,
        SdiRecordHeader {
            sdi_type: 1,
            sdi_id: 42,
            uncomp_len: 1000,
            comp_len: 200,
            in_page_len: 0,
            data_length: 200,
            external: false
        }
    );
    let (d, src) = record_data(&p, 300, h).unwrap();
    assert_eq!(d, vec![7u8; 200]);
    assert_eq!(src, RecordSource::Page);
    assert_eq!(sdi_record_header(&p, 5), None);
    assert_eq!(sdi_record_header(&p, 16384 - 10), None);
    // two length bytes with a length beyond 255
    p[294] = 0x81;
    p[293] = 0x10;
    assert_eq!(sdi_record_header(&p, 300).unwrap().data_length, 0x110);
    assert_eq!(sdi_record_header(&p, 300).unwrap().in_page_len, 0x100);
}

#[test]
fn external_record_through_uncompressed_blob() {
    let doc = b"{\"big\": \"document stored on a blob page\"}";
    let c = zlib(doc);
    let ext = 64u64.max(c.len() as u64);
    let mut leaf = sdi_page(0, 1, u32::MAX);
    let rec = 200u32;
    let r = rec as usize;
    leaf[r - 6] = 0x80 | 0x40;
    put4(&mut leaf, r, 1);
    put8(&mut leaf, r + 4, 5);
    put4(&mut leaf, r + 25, doc.len() as u32);
    put4(&mut leaf, r + 29, ext as u32);
    put4(&mut leaf, r + 33 + 4, 10);
    put8(&mut leaf, r + 33 + 12, ext);
    link(&mut leaf, 99, rec);
    link_sdi(&mut leaf, rec, 400);
    end_mark(&mut leaf, 400);
    let h = sdi_record_header(&leaf, rec).unwrap();
    assert!(h.external);
    assert_eq!(h.data_length, ext);
    let (d, src) = record_data(&leaf, rec, h).unwrap();
    assert_eq!(d, vec![0u8; ext as usize]);
    assert_eq!(src, RecordSource::UncompressedBlob { first_page: 10 });

    let mut blob = vec![0u8; 16384];
    put2(&mut blob, 24, 18);
    put4(&mut blob, 38, c.len() as u32);
    put4(&mut blob, 42, u32::MAX);
    blob[46..46 + c.len()].copy_from_slice(&c);
    let mut copy = d.clone();
    assert_eq!(blob_page_step(&blob, &mut copy, 0, 0), Some((c.len() as u64, BlobPageStep::Finished)));
    assert_eq!(&copy[..c.len()], &c[..]);
    // a second part cannot be copied after a first one
    assert_eq!(blob_page_step(&blob, &mut copy, 0, 1), None);

    let mut pages = HashMap::new();
    pages.insert(3, leaf);
    pages.insert(10, blob);
    let run = run(&pages, 3);
    assert_eq!(run.pages_read, vec![3, 10]);
    let mut expected = b"[".to_vec();
    expected.extend_from_slice(doc);
    expected.push(b']');
    assert_eq!(run.out, Some(expected));
}

#[test]
fn blob_page_of_another_type_stops_the_copy() {
    let page = vec![0u8; 16384];
    let mut d = vec![1u8; 10];
    assert_eq!(blob_page_step(&page, &mut d, 0, 0), Some((0, BlobPageStep::NotBlobPage)));
    assert_eq!(d, vec![1u8; 10]);
    let mut blob = vec![0u8; 16384];
    put2(&mut blob, 24, 18);
    put4(&mut blob, 38, 2);
    put4(&mut blob, 42, 3);
    blob[46] = 9;
    blob[47] = 8;
    assert_eq!(blob_page_step(&blob, &mut d, 4, 0), Some((2, BlobPageStep::UnexpectedNext)));
    assert_eq!(d, vec![1, 1, 1, 1, 9, 8, 1, 1, 1, 1]);
    put4(&mut blob, 42, 77);
    assert_eq!(blob_page_step(&blob, &mut d, 0, 0), Some((2, BlobPageStep::Next(77))));
}

#[test]
fn next_record_on_the_leaf() {
    let docs: [&[u8]; 2] = [b"{}", b"[]"];
    let p = leaf_with(&docs, 12);
    let second = 200 + 48 + zlib(b"{}").len() as u32;
    assert_eq!(next_rec(&p, 200), NextRec::At(second));
    assert_eq!(next_rec(&p, second), NextRec::ReadPage(12));
    assert_eq!(end_of(&docs), second + 48 + zlib(b"[]").len() as u32);
    let q = leaf_with(&[b"{}"], u32::MAX);
    assert_eq!(next_rec(&q, 200), NextRec::End);
    assert_eq!(next_rec(&q, 3), NextRec::OutOfBounds);
    let mut z = q.clone();
    put2(&mut z, 198, 0);
    assert_eq!(next_rec(&z, 200), NextRec::InvalidOffset(0));
    assert_eq!(next_rec_on_page(&p), NextRec::At(200));
    assert_eq!(next_rec_on_page(&vec![0u8; 16384]), NextRec::NotSdiPage);
}

#[test]
fn compressed_blob_decisions() {
    let mut page = vec![0u8; 16384];
    assert_eq!(zblob_page_next(&page), None);
    put2(&mut page, 24, 19);
    put4(&mut page, 12, 44);
    assert_eq!(zblob_page_next(&page), Some(44));

    assert_eq!(zblob_after_inflate(Z_OK, 0, 5, 44).step, ZblobStep::Stop);
    assert_eq!(zblob_after_inflate(Z_OK, 10, 5, 44).step, ZblobStep::Stop);
    assert_eq!(zblob_after_inflate(Z_BUF_ERROR, 10, 5, 44).step, ZblobStep::Stop);
    assert_eq!(zblob_after_inflate(Z_STREAM_END, 10, 5, u32::MAX).step, ZblobStep::Stop);
    let d = zblob_after_inflate(Z_STREAM_END, 10, 5, 44);
    assert_eq!(d.step, ZblobStep::Continue(44));
    assert_eq!(d.inflate_error, None);
    let d = zblob_after_inflate(-3, 10, 0, 2);
    assert_eq!(d.step, ZblobStep::Continue(2));
    assert_eq!(d.inflate_error, Some(-3));
    assert!(d.unexpected_end);
    let d = zblob_after_inflate(-3, 10, 7, u32::MAX);
    assert_eq!(d.step, ZblobStep::Finish);
    assert!(!d.unexpected_end);
    assert_eq!(zblob_after_finish(Z_STREAM_END, 9), (ZblobStep::Stop, None));
    assert_eq!(zblob_after_finish(Z_BUF_ERROR, 9), (ZblobStep::Stop, None));
    assert_eq!(zblob_after_finish(-2, 9), (ZblobStep::Continue(9), Some(-2)));
}

#[test]
fn zlib_codes_match_libz() {
    assert_eq!(Z_OK, libz_sys::Z_OK);
    assert_eq!(Z_STREAM_END, libz_sys::Z_STREAM_END);
    assert_eq!(Z_BUF_ERROR, libz_sys::Z_BUF_ERROR);
}

#[test]
fn events_out_of_order_are_faults() {
    let (mut scan, _) = SdiScan::new(3);
    let s = scan.resume();
    assert!(matches!(s.action, SdiAction::Fault(SdiFault::OutOfProtocol)));
    let (mut scan, _) = SdiScan::new(3);
    let s = scan.on_blob(vec![1, 2, 3]);
    assert!(matches!(s.action, SdiAction::Fault(SdiFault::OutOfProtocol)));
}
