use msdb::config::BLOCK_SIZE;
use msdb::page::{Page, PageError};

#[test]
fn test_io_bytes() {
    let mut page = Page::new();
    let bytes = [1, 2, 3, 4, 5, 6, 7, 8, 9, 10];
    page.set_bytes(0, &bytes).unwrap();
    assert_eq!(page.get_bytes(0, 10).unwrap(), bytes);
}

#[test]
fn test_io_int() {
    let mut page = Page::new();
    let val = 123456789;
    page.set_int(0, val).unwrap();
    assert_eq!(page.get_int(0).unwrap(), val);
}

#[test]
fn test_io_string() {
    let mut page = Page::new();
    let val = "Hello, World!";
    page.set_string(0, val).unwrap();
    assert_eq!(page.get_string(0).unwrap(), val);
}

#[test]
fn test_new_page_is_zeroed() {
    let page = Page::new();
    let all = page.get_bytes(0, BLOCK_SIZE).unwrap();
    assert_eq!(all.len(), BLOCK_SIZE);
    assert!(all.iter().all(|b| *b == 0));
    assert_eq!(page.get_int(17).unwrap(), 0);
}

#[test]
fn test_io_bytes_at_offset() {
    let mut page = Page::new();
    let bytes = [9, 8, 7];
    page.set_bytes(100, &bytes).unwrap();
    assert_eq!(page.get_bytes(100, 3).unwrap(), bytes);
    assert_eq!(page.get_bytes(99, 1).unwrap(), [0]);
    assert_eq!(page.get_bytes(103, 1).unwrap(), [0]);
}

#[test]
fn test_io_int_extremes() {
    let mut page = Page::new();
    page.set_int(40, -123456789).unwrap();
    assert_eq!(page.get_int(40).unwrap(), -123456789);
    page.set_int(0, i32::MIN).unwrap();
    assert_eq!(page.get_int(0).unwrap(), i32::MIN);
    page.set_int(BLOCK_SIZE - 4, i32::MAX).unwrap();
    assert_eq!(page.get_int(BLOCK_SIZE - 4).unwrap(), i32::MAX);
    page.set_int(8, 0).unwrap();
    assert_eq!(page.get_int(8).unwrap(), 0);
}

#[test]
fn test_int_wire_format_is_big_endian() {
    let mut page = Page::new();
    page.set_int(0, 0x01020304).unwrap();
    assert_eq!(page.get_bytes(0, 4).unwrap(), [1, 2, 3, 4]);
    page.set_int(4, -1).unwrap();
    assert_eq!(page.get_bytes(4, 4).unwrap(), [0xff, 0xff, 0xff, 0xff]);
}

#[test]
fn test_string_wire_format() {
    let mut page = Page::new();
    page.set_string(0, "AB").unwrap();
    assert_eq!(page.get_bytes(0, 6).unwrap(), [0, 0, 0, 2, 65, 66]);
}

#[test]
fn test_io_string_multibyte() {
    let mut page = Page::new();
    let val = "n\u{e4}\u{ef}ve \u{2713}";
    page.set_string(10, val).unwrap();
    assert_eq!(page.get_string(10).unwrap(), val);
}

#[test]
fn test_io_string_empty() {
    let mut page = Page::new();
    page.set_string(0, "").unwrap();
    assert_eq!(page.get_string(0).unwrap(), "");
}

#[test]
fn test_bytes_out_of_bounds() {
    let mut page = Page::new();
    assert_eq!(page.get_bytes(BLOCK_SIZE - 4, 8), Err(PageError::OutOfBounds));
    assert_eq!(page.get_bytes(BLOCK_SIZE + 1, 0), Err(PageError::OutOfBounds));
    let bytes = [1, 2, 3, 4, 5];
    assert_eq!(page.set_bytes(BLOCK_SIZE - 2, &bytes), Err(PageError::OutOfBounds));
    assert_eq!(page.get_bytes(0, BLOCK_SIZE + 1), Err(PageError::OutOfBounds));
}

#[test]
fn test_int_out_of_bounds() {
    let mut page = Page::new();
    assert_eq!(page.get_int(BLOCK_SIZE - 3), Err(PageError::OutOfBounds));
    assert_eq!(page.set_int(BLOCK_SIZE - 1, 7), Err(PageError::OutOfBounds));
}

#[test]
fn test_string_too_long_for_offset() {
    let mut page = Page::new();
    assert_eq!(page.set_string(BLOCK_SIZE - 4, "hi"), Err(PageError::OutOfBounds));
    assert_eq!(page.set_string(BLOCK_SIZE - 9, "sixsix"), Err(PageError::OutOfBounds));
    page.set_string(BLOCK_SIZE - 10, "sixsix").unwrap();
    assert_eq!(page.get_string(BLOCK_SIZE - 10).unwrap(), "sixsix");
}

#[test]
fn test_get_string_negative_length() {
    let mut page = Page::new();
    page.set_int(0, -1).unwrap();
    assert_eq!(page.get_string(0), Err(PageError::OutOfBounds));
}

#[test]
fn test_get_string_length_past_end() {
    let mut page = Page::new();
    page.set_int(0, BLOCK_SIZE as i32).unwrap();
    assert_eq!(page.get_string(0), Err(PageError::OutOfBounds));
}

#[test]
fn test_get_string_invalid_utf8() {
    let mut page = Page::new();
    page.set_int(0, 2).unwrap();
    page.set_bytes(4, &[0xff, 0xfe]).unwrap();
    assert_eq!(page.get_string(0), Err(PageError::InvalidEncoding));
}

#[test]
fn test_from_bytes_and_as_slice() {
    let mut bytes = vec![0u8; BLOCK_SIZE];
    bytes[0] = 42;
    bytes[BLOCK_SIZE - 1] = 7;
    let page = Page::from_bytes(bytes.clone()).unwrap();
    assert_eq!(page.as_slice(), bytes.as_slice());
    assert!(Page::from_bytes(vec![0u8; BLOCK_SIZE - 1]).is_err());
    assert!(Page::from_bytes(vec![0u8; BLOCK_SIZE + 1]).is_err());
}
