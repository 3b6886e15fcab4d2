use page_store::header_page_utils::FreeList;
use page_store::header_page_utils::get_free_list_content;
use page_store::header_page_utils::get_free_list_size;
use page_store::header_page_utils::get_page_size;
use page_store::header_page_utils::get_sector_size;
use page_store::header_page_utils::get_title;
use page_store::header_page_utils::get_version;
use page_store::header_page_utils::init;
use page_store::header_page_utils::set_free_list_size;
use page_store::header_page_utils::set_page_size;
use page_store::header_page_utils::set_sector_size;
use page_store::header_page_utils::set_title;
use page_store::header_page_utils::set_version;
use page_store::page::RawPage;

#[test]
fn parse_and_gen() {
    let mut raw_page = RawPage::new(0, 4096);

    let title = "test title";
    set_title(&mut raw_page, title);
    assert_eq!(get_title(&raw_page).unwrap(), title);

    let test_sector_size = 111;
    set_sector_size(&mut raw_page, test_sector_size);
    assert_eq!(get_sector_size(&raw_page), test_sector_size);

    let test_page_size = 222;
    set_page_size(&mut raw_page, test_page_size);
    assert_eq!(get_page_size(&raw_page), test_page_size);
}

#[test]
fn init_writes_canonical_header() {
    let mut page = RawPage::new(0, 4096);
    init(&mut page);
    assert_eq!(get_title(&page).unwrap(), "PipeappleDB Format v0.1");
    assert_eq!(get_sector_size(&page), 4096);
    assert_eq!(get_page_size(&page), 4096);
}

#[test]
fn end_to_end_fresh_header() {
    let mut page = RawPage::new(0, 4096);
    init(&mut page);
    assert_eq!(get_title(&page).unwrap(), "PipeappleDB Format v0.1");
    assert_eq!(get_version(&page), [0, 0, 0, 0]);
    assert_eq!(get_sector_size(&page), 4096);
    assert_eq!(get_page_size(&page), 4096);
    // the free-list region was never written: zero-filled bytes decode as 0
    assert_eq!(get_free_list_size(&page), 0);
}

#[test]
fn title_round_trip_plain() {
    let mut page = RawPage::new(0, 4096);
    set_title(&mut page, "hello");
    assert_eq!(get_title(&page).unwrap(), "hello");
}

#[test]
fn title_round_trip_non_ascii() {
    let mut page = RawPage::new(0, 4096);
    set_title(&mut page, "h\u{e9}llo \u{2603}");
    assert_eq!(get_title(&page).unwrap(), "h\u{e9}llo \u{2603}");
}

#[test]
fn title_round_trip_longest_fitting() {
    // 31 bytes: the longest title the 32-byte region can round-trip
    let title = "abcdefghijklmnopqrstuvwxyz01234";
    let mut page = RawPage::new(0, 4096);
    set_title(&mut page, title);
    assert_eq!(get_title(&page).unwrap(), title);
}

#[test]
fn title_without_terminator_is_corrupt() {
    let mut page = RawPage::new(0, 4096);
    set_title(&mut page, "abcdefghijklmnopqrstuvwxyz012345");
    assert!(get_title(&page).is_err());
}

#[test]
fn version_round_trip() {
    let mut page = RawPage::new(0, 4096);
    set_version(&mut page, &[1, 2, 3, 4]);
    assert_eq!(get_version(&page), [1, 2, 3, 4]);
}

#[test]
fn free_list_round_trip() {
    let mut page = RawPage::new(0, 4096);
    // size field at 2048; the cursor then sits at 2052, so the link and the
    // entries follow it sequentially, exactly as the region is laid out
    set_free_list_size(&mut page, 3);
    page.put_u32(77).unwrap();
    page.put_u32(10).unwrap();
    page.put_u32(20).unwrap();
    page.put_u32(30).unwrap();

    assert_eq!(get_free_list_size(&page), 3);
    assert_eq!(get_free_list_content(&page, 0), 10);
    assert_eq!(get_free_list_content(&page, 1), 20);
    assert_eq!(get_free_list_content(&page, 2), 30);

    let fl = FreeList::from_raw(&page).unwrap();
    assert_eq!(fl.free_list_page_id, 77);
    assert_eq!(fl.data, vec![10, 20, 30]);
}

#[test]
fn free_list_empty() {
    let page = RawPage::new(0, 4096);
    let fl = FreeList::from_raw(&page).unwrap();
    assert_eq!(fl.free_list_page_id, 0);
    assert!(fl.data.is_empty());
}

#[test]
fn free_list_new_is_empty() {
    let fl = FreeList::new();
    assert_eq!(fl.free_list_page_id, 0);
    assert!(fl.data.is_empty());
}

#[test]
fn free_list_size_past_capacity_is_corrupt() {
    let mut page = RawPage::new(0, 4096);
    // 600 entries would run past the 4096-byte capacity
    set_free_list_size(&mut page, 600);
    assert!(FreeList::from_raw(&page).is_err());
}

#[test]
fn free_list_on_too_small_page_is_corrupt() {
    let page = RawPage::new(0, 128);
    assert!(FreeList::from_raw(&page).is_err());
}
