use page_store::content_page::ContentPageType;
use page_store::content_page::ContentPageWrapper;
use page_store::page::RawPage;

#[test]
fn content_type_round_trip_all_four() {
    let types = [
        ContentPageType::Undefined,
        ContentPageType::FileHeader,
        ContentPageType::Collection,
        ContentPageType::BTreeNode,
    ];
    for ty in types {
        let mut frame = ContentPageWrapper::new(RawPage::new(1, 4096));
        frame.set_ty(ty);
        assert_eq!(frame.ty().unwrap(), ty);
    }
}

#[test]
fn content_type_codes() {
    assert_eq!(ContentPageType::Undefined.to_u8(), 0);
    assert_eq!(ContentPageType::FileHeader.to_u8(), 1);
    assert_eq!(ContentPageType::Collection.to_u8(), 2);
    assert_eq!(ContentPageType::BTreeNode.to_u8(), 3);
    assert_eq!(ContentPageType::from_u8(2).unwrap(), ContentPageType::Collection);
}

#[test]
fn unknown_content_type_byte_is_corrupt() {
    assert!(ContentPageType::from_u8(99).is_err());
    let mut page = RawPage::new(1, 4096);
    page.seek(16);
    page.put_u8(99);
    let frame = ContentPageWrapper::new(page);
    assert!(frame.ty().is_err());
}

#[test]
fn magic_key_round_trip() {
    let mut frame = ContentPageWrapper::new(RawPage::new(1, 4096));
    frame.set_magic_key(0xabcd);
    assert_eq!(frame.magic_key(), 0xabcd);
}

#[test]
fn next_page_id_round_trip() {
    let mut frame = ContentPageWrapper::new(RawPage::new(1, 4096));
    assert_eq!(frame.get_next_page_id(), 0);
    frame.set_next_page_id(42);
    assert_eq!(frame.get_next_page_id(), 42);
}

#[test]
fn zero_link_is_terminal() {
    let frame = ContentPageWrapper::new(RawPage::new(1, 4096));
    let pages = vec![RawPage::new(1, 4096), RawPage::new(2, 4096)];
    assert!(frame.next_page(&pages).is_none());
}

#[test]
fn chain_link_resolves_to_named_page() {
    let mut frame = ContentPageWrapper::new(RawPage::new(1, 4096));
    frame.set_next_page_id(2);
    let pages = vec![RawPage::new(1, 4096), RawPage::new(2, 4096), RawPage::new(3, 4096)];
    let next = frame.next_page(&pages).unwrap();
    assert_eq!(next.page_id(), 2);
}

#[test]
fn chain_link_to_absent_page_fails_cleanly() {
    let mut frame = ContentPageWrapper::new(RawPage::new(1, 4096));
    frame.set_next_page_id(9);
    let pages = vec![RawPage::new(1, 4096), RawPage::new(2, 4096)];
    assert!(frame.next_page(&pages).is_none());
}
