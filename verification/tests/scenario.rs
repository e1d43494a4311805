use msdb::block::BlockId;
use msdb::layout::append_plan;
use msdb::page::Page;

// The in-memory portion of the storage flow: allocate the first block of a
// fresh (empty) file, write an integer through a page buffer, move the whole
// buffer as block I/O would, and read the integer back.
#[test]
fn test_example_scenario() {
    let plan = append_plan(0).unwrap();
    let blk = BlockId::new(plan.block_number, "data.tbl");
    assert_eq!(blk, BlockId::new(0, "data.tbl"));
    assert_eq!(blk.get_number(), 0);
    assert_eq!(blk.get_file_name(), "data.tbl");

    let mut page = Page::new();
    page.set_int(0, 123).unwrap();

    let stored = page.as_slice().to_vec();
    let page2 = Page::from_bytes(stored).unwrap();
    assert_eq!(page2.get_int(0).unwrap(), 123);
}
