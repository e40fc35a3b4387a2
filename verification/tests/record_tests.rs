use mysql_ibdinspect::rem0rec::{
    get_fixed_column_size, rec_get_bit_field_1, rec_get_info_bits, rec_get_next_offs,
    rec_get_status, rec_new_is_versioned, ColumnTypes,
};

#[test]
fn column_type_codes_round_trip() {
    for code in 1u32..=32 {
        let t = ColumnTypes::from(code);
        assert_eq!(t.to_code(), code);
    }
    assert_eq!(ColumnTypes::from(1), ColumnTypes::DECIMAL);
    assert_eq!(ColumnTypes::from(16), ColumnTypes::VARCHAR);
    assert_eq!(ColumnTypes::from(32), ColumnTypes::VECTOR);
}

#[test]
fn fixed_column_sizes() {
    assert_eq!(get_fixed_column_size(ColumnTypes::TINY), 1);
    assert_eq!(get_fixed_column_size(ColumnTypes::SHORT), 2);
    assert_eq!(get_fixed_column_size(ColumnTypes::LONG), 4);
    assert_eq!(get_fixed_column_size(ColumnTypes::INT24), 3);
    assert_eq!(get_fixed_column_size(ColumnTypes::LONGLONG), 8);
    assert_eq!(get_fixed_column_size(ColumnTypes::TypeNull), 0);
    assert_eq!(get_fixed_column_size(ColumnTypes::YEAR), 1);
    assert_eq!(get_fixed_column_size(ColumnTypes::VARCHAR), u32::MAX);
    assert_eq!(get_fixed_column_size(ColumnTypes::JSON), u32::MAX);
}

#[test]
fn record_status_and_info_bits() {
    // byte at rec-3 holds the status, byte at rec-5 the info bits.
    let page = [0xA0u8, 0x00, 0x00, 0xFB, 0x00, 0x00];
    let rec = 6;
    assert_eq!(rec_get_status(&page, rec), 3);
    assert_eq!(rec_get_info_bits(&page, 5, true), 0xA);
    assert_eq!(rec_get_info_bits(&page, 6, false), 0xA);
    assert_eq!(rec_get_bit_field_1(&page, 6, 3, 0xF8, 3), 0x1F);
    // info byte 0xA0: bit 0x40 clear
    assert!(!rec_new_is_versioned(&page, 5));
    let all = [0xFFu8; 8];
    assert!(rec_new_is_versioned(&all, 5));
    let flag_only = [0x40u8, 0, 0, 0, 0];
    assert!(rec_new_is_versioned(&flag_only, 5));
    let other_bits = [0xBFu8, 0, 0, 0, 0];
    assert!(!rec_new_is_versioned(&other_bits, 5));
}

#[test]
fn next_offset_compact_and_old() {
    let mut page = vec![0u8; 16384];
    // next-record field of the record at 99: 2 bytes at 97..99
    page[97] = 0x00;
    page[98] = 0x0D;
    assert_eq!(rec_get_next_offs(&page, 99, 1), 112);
    assert_eq!(rec_get_next_offs(&page, 99, 0), 13);
    // a negative relative offset wraps within the page
    page[97] = 0xFF;
    page[98] = 0xF0;
    assert_eq!(rec_get_next_offs(&page, 99, 1), (99 + 0xFFF0) % 16384);
    page[97] = 0;
    page[98] = 0;
    assert_eq!(rec_get_next_offs(&page, 99, 1), 0);
    assert_eq!(rec_get_next_offs(&page, 99, 0), 0);
}
