use page_store::page::RawPage;

#[test]
fn new_page_is_zero_filled() {
    let page = RawPage::new(3, 64);
    assert_eq!(page.page_id(), 3);
    assert_eq!(page.len(), 64);
    for i in 0..64 {
        assert_eq!(page.get_u8(i), 0);
    }
}

#[test]
fn u8_round_trip() {
    let mut page = RawPage::new(0, 32);
    page.seek(5);
    page.put_u8(0xab);
    assert_eq!(page.get_u8(5), 0xab);
}

#[test]
fn u16_round_trip() {
    let mut page = RawPage::new(0, 32);
    page.seek(3);
    page.put_u16(0x1234).unwrap();
    assert_eq!(page.get_u16(3), 0x1234);
}

#[test]
fn u32_round_trip() {
    let mut page = RawPage::new(0, 32);
    page.seek(7);
    page.put_u32(0xdead_beef).unwrap();
    assert_eq!(page.get_u32(7), 0xdead_beef);
}

#[test]
fn u64_round_trip() {
    let mut page = RawPage::new(0, 32);
    page.seek(11);
    page.put_u64(0x0123_4567_89ab_cdef).unwrap();
    assert_eq!(page.get_u64(11), 0x0123_4567_89ab_cdef);
}

#[test]
fn byte_order_is_big_endian_at_every_width() {
    let mut page = RawPage::new(0, 32);
    page.put_u32(0x0102_0304).unwrap();
    assert_eq!(page.get_u8(0), 1);
    assert_eq!(page.get_u8(1), 2);
    assert_eq!(page.get_u8(2), 3);
    assert_eq!(page.get_u8(3), 4);
    assert_eq!(page.get_u16(0), 0x0102);
    let mut page = RawPage::new(0, 32);
    page.put_u16(0x0a0b).unwrap();
    assert_eq!(page.get_u8(0), 0x0a);
    assert_eq!(page.get_u8(1), 0x0b);
    let mut page = RawPage::new(0, 32);
    page.put_u64(0x1112_1314_1516_1718).unwrap();
    assert_eq!(page.get_u8(0), 0x11);
    assert_eq!(page.get_u8(7), 0x18);
}

#[test]
fn put_fills_sequentially() {
    let mut page = RawPage::new(0, 16);
    page.put(&[1, 2, 3]).unwrap();
    page.put(&[4, 5]).unwrap();
    assert_eq!(page.get_u8(0), 1);
    assert_eq!(page.get_u8(2), 3);
    assert_eq!(page.get_u8(3), 4);
    assert_eq!(page.get_u8(4), 5);
    assert_eq!(page.get_u8(5), 0);
}

#[test]
fn put_beyond_capacity_changes_nothing() {
    let mut page = RawPage::new(0, 16);
    page.put(&[9; 10]).unwrap();
    // 10 bytes used: 7 more do not fit
    assert!(page.put(&[1, 2, 3, 4, 5, 6, 7]).is_err());
    // contents are byte-for-byte unchanged
    for i in 0..10 {
        assert_eq!(page.get_u8(i), 9);
    }
    for i in 10..16 {
        assert_eq!(page.get_u8(i), 0);
    }
    // the cursor did not move either: a fitting write lands at offset 10
    page.put(&[5, 6]).unwrap();
    assert_eq!(page.get_u8(10), 5);
    assert_eq!(page.get_u8(11), 6);
}

#[test]
fn put_str_writes_utf8_bytes() {
    let mut page = RawPage::new(0, 16);
    page.put_str("Ab!").unwrap();
    assert_eq!(page.get_u8(0), b'A');
    assert_eq!(page.get_u8(1), b'b');
    assert_eq!(page.get_u8(2), b'!');
}

#[test]
fn put_str_beyond_capacity_reports_space_not_enough() {
    let mut page = RawPage::new(0, 4);
    assert!(page.put_str("hello").is_err());
    for i in 0..4 {
        assert_eq!(page.get_u8(i), 0);
    }
}

#[test]
fn from_bytes_and_as_slice_mirror_contents() {
    let page = RawPage::from_bytes(9, vec![4, 5, 6]);
    assert_eq!(page.page_id(), 9);
    assert_eq!(page.as_slice(), &[4, 5, 6]);
    assert_eq!(page.len(), 3);
}

#[test]
fn space_not_enough_message() {
    let mut page = RawPage::new(0, 2);
    let err = page.put(&[1, 2, 3]).unwrap_err();
    assert_eq!(err.message(), "page space is not enough");
}
