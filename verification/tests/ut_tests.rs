use mysql_ibdinspect::fil0fil::fil_print_page_type;
use mysql_ibdinspect::page_header_get_field;
use mysql_ibdinspect::ut::{
    _mach_read_from_1, _mach_write_to_4, fil_page_get_type, mach_read_from_2, mach_read_from_4,
    mach_read_from_8, ut_align_offset, PAGE_SIZE,
};

#[test]
fn test_mach_read_from_2() {
    let buf = [0x12, 0x34];
    let result = mach_read_from_2(&buf);
    assert_eq!(result, 0x1234);
}

#[test]
fn test_mach_read_from_4() {
    let buf = [0x12, 0x34, 0x56, 0x78];
    let result = mach_read_from_4(&buf);
    assert_eq!(result, 0x12345678);
}

#[test]
fn test_fil_page_get_type() {
    let buf = [0x45, 0x67];
    let result = fil_page_get_type(&buf);
    assert_eq!(result, 0x4567);
}

#[test]
fn test_page_header_get_field() {
    let buf = [0x00, 0x01, 0x02, 0x03, 0x04, 0x05];
    let result = page_header_get_field(&buf, 2);
    assert_eq!(result, 0x0203);
}

#[test]
fn read_from_2_ignores_trailing_bytes_and_reads_high_values() {
    assert_eq!(mach_read_from_2(&[0xff, 0xfe, 0x01]), 0xfffe);
    assert_eq!(mach_read_from_2(&[0x00, 0x00]), 0);
}

#[test]
fn read_from_4_high_bit() {
    assert_eq!(mach_read_from_4(&[0xff, 0xff, 0xff, 0xff]), u32::MAX);
    assert_eq!(mach_read_from_4(&[0x80, 0x00, 0x00, 0x01, 0x99]), 0x8000_0001);
}

#[test]
fn read_from_8_is_high_then_low_half() {
    let buf = [0x01, 0x02, 0x03, 0x04, 0x05, 0x06, 0x07, 0x08];
    assert_eq!(mach_read_from_8(&buf), 0x0102030405060708);
    let hi = mach_read_from_4(&buf) as u64;
    let lo = mach_read_from_4(&buf[4..]) as u64;
    assert_eq!(mach_read_from_8(&buf), (hi << 32) | lo);
    assert_eq!(mach_read_from_8(&[0xff; 8]), u64::MAX);
}

#[test]
fn write_to_4_then_read_back() {
    let mut buf = [0xaa_u8; 6];
    _mach_write_to_4(&mut buf, 0xdead_beef);
    assert_eq!(buf, [0xde, 0xad, 0xbe, 0xef, 0xaa, 0xaa]);
    assert_eq!(mach_read_from_4(&buf), 0xdead_beef);
    for n in [0u32, 1, 0x100, 0xffff_ffff, 0x0102_0304] {
        let mut b = [0u8; 4];
        _mach_write_to_4(&mut b, n);
        assert_eq!(mach_read_from_4(&b), n);
    }
}

#[test]
fn read_from_1_first_byte() {
    assert_eq!(_mach_read_from_1(&[0x7f, 0x01]), 0x7f);
}

#[test]
fn align_offset_keeps_low_bits() {
    assert_eq!(ut_align_offset(16384 + 99, PAGE_SIZE as u32), 99);
    assert_eq!(ut_align_offset(0x1234_5678, 16), 8);
    assert_eq!(ut_align_offset(12345, 1), 0);
    assert_eq!(ut_align_offset(u32::MAX, 16384), 16383);
}

#[test]
fn page_type_names() {
    assert_eq!(fil_print_page_type(17855), "FIL_PAGE_INDEX");
    assert_eq!(fil_print_page_type(17854), "FIL_PAGE_RTREE");
    assert_eq!(fil_print_page_type(17853), "FIL_PAGE_SDI");
    assert_eq!(fil_print_page_type(0), "FIL_PAGE_TYPE_ALLOCATED");
    assert_eq!(fil_print_page_type(8), "FIL_PAGE_TYPE_FSP_HDR");
    assert_eq!(fil_print_page_type(18), "FIL_PAGE_SDI_BLOB");
    assert_eq!(fil_print_page_type(29), "FIL_PAGE_TYPE_ZLOB_FRAG_ENTRY");
    assert_eq!(fil_print_page_type(30), "UNKNOWN_PAGE_TYPE");
    assert_eq!(fil_print_page_type(0xffff), "UNKNOWN_PAGE_TYPE");
}
