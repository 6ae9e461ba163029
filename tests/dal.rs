use pagedb::dal::Dal;
use pagedb::error::DalError;
use pagedb::page::Page;

fn be(x: u64) -> Vec<u8> {
    x.to_be_bytes().to_vec()
}

/// Writes `data` at `offset` of a file held in memory, growing it with zeros.
fn file_write(file: &mut Vec<u8>, offset: u64, data: &[u8]) {
    let offset = offset as usize;
    if file.len() < offset + data.len() {
        file.resize(offset + data.len(), 0);
    }
    file[offset..offset + data.len()].copy_from_slice(data);
}

/// Reads up to `len` bytes at `offset` of a file held in memory.
fn file_read(file: &[u8], offset: u64, len: usize) -> Vec<u8> {
    let offset = offset as usize;
    if offset >= file.len() {
        return Vec::new();
    }
    let end = (offset + len).min(file.len());
    file[offset..end].to_vec()
}

fn store_page(dal: &Dal, file: &mut Vec<u8>, page: &Page) {
    let offset = dal.write_page(page).unwrap();
    file_write(file, offset, &page.data);
}

fn load_page(dal: &Dal, file: &[u8], num: usize) -> Result<Page, DalError> {
    let offset = dal.page_offset(num)?;
    dal.read_page(num, file_read(file, offset, dal.page_size()))
}

fn create(page_size: usize, file: &mut Vec<u8>) -> Dal {
    let dal = Dal::with_page_size(page_size);
    let meta = dal.write_metadata().unwrap();
    store_page(&dal, file, &meta);
    let fl = dal.write_free_list().unwrap();
    store_page(&dal, file, &fl);
    dal
}

fn open(page_size: usize, file: &[u8]) -> Dal {
    let mut dal = Dal::with_page_size(page_size);
    let meta = load_page(&dal, file, 0).unwrap();
    dal.read_metadata(&meta).unwrap();
    let fl = load_page(&dal, file, dal.free_list_page()).unwrap();
    dal.read_free_list(fl).unwrap();
    dal
}

#[test]
fn new_store_uses_machine_page_size() {
    let dal = Dal::new();
    assert_eq!(dal.page_size(), page_size::get());
    assert_eq!(dal.free_list_page(), 1);
}

#[test]
fn empty_page_has_no_number_and_no_bytes() {
    let dal = Dal::with_page_size(64);
    let page = dal.allocate_empty_page();
    assert_eq!(page.num, 0);
    assert!(page.data.is_empty());
}

#[test]
fn new_store_hands_out_pages_after_reserved_ones() {
    let mut dal = Dal::with_page_size(64);
    assert_eq!(dal.get_next_page(), 2);
    assert_eq!(dal.get_next_page(), 3);
    assert_eq!(dal.get_next_page(), 4);
}

#[test]
fn allocation_stops_at_largest_page_number() {
    let mut dal = Dal::with_page_size(64);
    assert!(dal.can_allocate());
    let mut data = be(u64::MAX);
    data.extend(be(0));
    dal.read_free_list(Page { num: 1, data }).unwrap();
    assert!(!dal.can_allocate());
    dal.release_page(9);
    assert!(dal.can_allocate());
    assert_eq!(dal.get_next_page(), 9);
}

#[test]
fn store_reuses_released_page_first() {
    let mut dal = Dal::with_page_size(64);
    let a = dal.get_next_page();
    let b = dal.get_next_page();
    dal.release_page(a);
    dal.release_page(b);
    assert_eq!(dal.get_next_page(), b);
    assert_eq!(dal.get_next_page(), a);
    assert_eq!(dal.get_next_page(), 4);
}

#[test]
fn page_offset_is_number_times_size() {
    let dal = Dal::with_page_size(4096);
    assert_eq!(dal.page_offset(3), Ok(12288));
    assert_eq!(dal.page_offset(0), Ok(0));
}

#[test]
fn page_offset_overflow_is_refused() {
    let dal = Dal::with_page_size(4096);
    assert_eq!(dal.page_offset(usize::MAX), Err(DalError::OffsetOverflow));
}

#[test]
fn write_page_refuses_wrong_length() {
    let dal = Dal::with_page_size(16);
    let mut file = vec![1u8; 48];
    for len in [0usize, 15, 17] {
        let page = Page { num: 1, data: vec![9u8; len] };
        assert_eq!(dal.write_page(&page), Err(DalError::InvalidPageSize));
    }
    assert_eq!(file, vec![1u8; 48]);
    let page = Page { num: 1, data: vec![9u8; 16] };
    store_page(&dal, &mut file, &page);
    assert_eq!(&file[16..32], &[9u8; 16][..]);
}

#[test]
fn written_page_reads_back() {
    let dal = Dal::with_page_size(32);
    let mut file = Vec::new();
    let data: Vec<u8> = (0..32u8).collect();
    let page = Page { num: 3, data: data.clone() };
    store_page(&dal, &mut file, &page);
    assert_eq!(file.len(), 128);
    let back = load_page(&dal, &file, 3).unwrap();
    assert_eq!(back.num, 3);
    assert_eq!(back.data, data);
}

#[test]
fn read_past_end_is_truncated() {
    let dal = Dal::with_page_size(32);
    let file = vec![0u8; 40];
    assert_eq!(load_page(&dal, &file, 1).unwrap_err(), DalError::TruncatedRead);
    assert_eq!(load_page(&dal, &file, 5).unwrap_err(), DalError::TruncatedRead);
}

#[test]
fn read_page_refuses_too_many_bytes() {
    let dal = Dal::with_page_size(8);
    assert_eq!(dal.read_page(0, vec![0u8; 9]).unwrap_err(), DalError::InvalidPageSize);
}

#[test]
fn metadata_page_layout() {
    let dal = Dal::with_page_size(16);
    let page = dal.write_metadata().unwrap();
    assert_eq!(page.num, 0);
    let mut expected = be(1);
    expected.extend(vec![0u8; 8]);
    assert_eq!(page.data, expected);
}

#[test]
fn metadata_needs_room_for_page_number() {
    let dal = Dal::with_page_size(7);
    assert_eq!(dal.write_metadata().unwrap_err(), DalError::InvalidPageSize);
}

#[test]
fn free_list_page_layout() {
    let mut dal = Dal::with_page_size(40);
    let p = dal.get_next_page();
    dal.release_page(p);
    let page = dal.write_free_list().unwrap();
    assert_eq!(page.num, 1);
    let mut expected = be(2);
    expected.extend(be(1));
    expected.extend(be(2));
    expected.extend(vec![0u8; 16]);
    assert_eq!(page.data, expected);
}

#[test]
fn free_list_must_fit_in_page() {
    let mut dal = Dal::with_page_size(23);
    assert!(dal.write_free_list().is_ok());
    dal.release_page(5);
    assert_eq!(dal.write_free_list().unwrap_err(), DalError::InvalidPageSize);
}

#[test]
fn corrupt_free_list_page_is_refused() {
    let mut dal = Dal::with_page_size(16);
    let mut data = be(3);
    data.extend(be(1));
    let page = Page { num: 1, data };
    assert_eq!(dal.read_free_list(page), Err(DalError::CorruptFreeList));
}

#[test]
fn reopened_store_keeps_pages_and_allocations() {
    let mut file = Vec::new();
    let d1: Vec<u8> = b"data".iter().copied().chain(std::iter::repeat(0).take(60)).collect();
    let first = {
        let mut dal = create(64, &mut file);
        let num = dal.get_next_page();
        let page = Page { num, data: d1.clone() };
        store_page(&dal, &mut file, &page);
        let fl = dal.write_free_list().unwrap();
        store_page(&dal, &mut file, &fl);
        num
    };
    let mut dal = open(64, &file);
    assert_eq!(load_page(&dal, &file, first).unwrap().data, d1);
    assert_eq!(dal.get_next_page(), first + 1);
}

#[test]
fn reopened_store_keeps_released_pages() {
    let mut file = Vec::new();
    {
        let mut dal = create(128, &mut file);
        let a = dal.get_next_page();
        let b = dal.get_next_page();
        dal.release_page(b);
        dal.release_page(a);
        let fl = dal.write_free_list().unwrap();
        store_page(&dal, &mut file, &fl);
    }
    let mut dal = open(128, &file);
    assert_eq!(dal.get_next_page(), 2);
    assert_eq!(dal.get_next_page(), 3);
    assert_eq!(dal.get_next_page(), 4);
}

#[test]
fn metadata_page_points_reopen_at_free_list() {
    let mut file = Vec::new();
    create(32, &mut file);
    assert_eq!(&file[0..8], &be(1)[..]);
    let dal = open(32, &file);
    assert_eq!(dal.free_list_page(), 1);
}
