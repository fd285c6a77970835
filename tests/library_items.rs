use avsync::renamer::BulkRenamer;
use avsync::workbook::{ExcelSheet, ExcelWorkbook};
use std::path::PathBuf;

#[test]
fn workbook_starts_empty_and_keeps_sheet_order() {
    let mut wb = ExcelWorkbook::new(PathBuf::from("example.xlsx"));
    assert!(wb.sheets.is_empty());
    assert_eq!(wb.path, PathBuf::from("example.xlsx"));
    let rows = vec![
        vec!["Header1".to_string(), "Header2".to_string()],
        vec!["Data1".to_string(), "Data2".to_string()],
    ];
    wb.add_sheet(ExcelSheet::new("Sheet1".to_string(), rows));
    wb.add_sheet(ExcelSheet::new("Sheet2".to_string(), vec![]));
    assert_eq!(wb.sheets.len(), 2);
    assert_eq!(wb.sheets[0].name, "Sheet1");
    assert_eq!(wb.sheets[0].rows[1][0], "Data1");
    assert_eq!(wb.sheets[1].name, "Sheet2");
}

#[test]
fn renamer_keeps_its_settings() {
    let r = BulkRenamer::new("./", "txt", 1);
    assert_eq!(r.base_path, "./");
    assert_eq!(r.extension, "txt");
    assert_eq!(r.start_index, 1);
}

#[test]
fn renamer_appends_index_and_extension() {
    let r = BulkRenamer::new("./", "txt", 1);
    assert_eq!(r.new_name("notes.md", 0), "notes.md_0.txt");
    assert_eq!(r.new_name("a", 1207), "a_1207.txt");
    let names = vec!["a".to_string(), "b".to_string(), "c".to_string()];
    assert_eq!(r.new_names(&names), vec!["a_1.txt", "b_2.txt", "c_3.txt"]);
}

#[test]
fn renamer_largest_index() {
    let r = BulkRenamer::new("/tmp", "log", usize::MAX);
    assert_eq!(r.new_name("x", usize::MAX), format!("x_{}.log", usize::MAX));
    assert_eq!(r.new_names(&vec![]), Vec::<String>::new());
}
