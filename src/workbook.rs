//! An in-memory spreadsheet workbook: a target path and its named sheets.
use std::path::PathBuf;
use vstd::prelude::*;

verus! {

/// std's `PathBuf`, held opaquely: a workbook only stores where it goes.
#[verifier::external_type_specification]
#[verifier::external_body]
pub struct ExPathBuf(PathBuf);

/// One worksheet: its name and its rows of cell text.
pub struct ExcelSheet {
    pub name: String,
    pub rows: Vec<Vec<String>>,
}

impl ExcelSheet {
    pub fn new(name: String, rows: Vec<Vec<String>>) -> (r: ExcelSheet)
        ensures
            r.name == name,
            r.rows == rows,
    {
        ExcelSheet { name, rows }
    }
}

/// A workbook: where it is saved and its sheets in order.
pub struct ExcelWorkbook {
    pub path: PathBuf,
    pub sheets: Vec<ExcelSheet>,
}

impl ExcelWorkbook {
    /// A workbook with no sheets that will be saved at `path`.
    pub fn new(path: PathBuf) -> (r: ExcelWorkbook)
        ensures
            r.path == path,
            r.sheets@ == Seq::<ExcelSheet>::empty(),
    {
        ExcelWorkbook { path, sheets: Vec::new() }
    }

    /// Appends `sheet` after the existing sheets.
    pub fn add_sheet(&mut self, sheet: ExcelSheet)
        ensures
            final(self).path == old(self).path,
            final(self).sheets@ == old(self).sheets@.push(sheet),
    {
        self.sheets.push(sheet);
    }
}

} // verus!
