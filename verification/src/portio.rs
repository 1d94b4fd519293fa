//! The byte-level encodings of list import/export, done by outside
//! crates behind trusted items: CSV parsing and writing, and spreadsheet
//! reading and writing. The grid logic itself lives in `port` and is
//! verified; only the encoding calls are trusted.

use vstd::prelude::*;

use crate::errors::AppError;
use crate::errors::ErrorKind;
use crate::port::spec_export_grid;
use crate::port::spec_import;
use crate::port::export_grid;
use crate::port::import_rows_from_cells;
use crate::port::import_rows_from_records;
use crate::port::MusicRow;
use crate::strutil::str_eq;
use calamine::Reader;

verus! {

#[verifier::external_type_specification]
#[verifier::external_body]
#[verifier::reject_recursive_types(T)]
pub struct ExCursor<T>(std::io::Cursor<T>);

#[verifier::external_type_specification]
#[verifier::external_body]
#[verifier::reject_recursive_types(R)]
pub struct ExCsvReader<R>(csv::Reader<R>);

/// Holds the CSV encoder; its contents are visible only through
/// `written_rows`.
#[verifier::external_body]
pub struct CsvSink {
    inner: csv::Writer<Vec<u8>>,
}

#[verifier::external_type_specification]
#[verifier::external_body]
pub struct ExData(calamine::Data);

#[verifier::external_type_specification]
#[verifier::external_body]
#[verifier::reject_recursive_types(T)]
pub struct ExRange<T>(calamine::Range<T>);

#[verifier::external_type_specification]
#[verifier::external_body]
pub struct ExWorkbook(rust_xlsxwriter::Workbook);

/// The records of a CSV byte stream (headerless, flexible record
/// lengths), up to its end or its first unreadable record; a function of
/// the bytes alone.
pub uninterp spec fn csv_rows_of(d: Seq<u8>) -> Seq<Seq<Seq<char>>>;

/// The records a CSV reader has yet to yield, in order, up to its end or
/// its first unreadable record.
pub uninterp spec fn remaining_rows(r: csv::Reader<std::io::Cursor<Vec<u8>>>) -> Seq<Seq<Seq<char>>>;

/// Relies on `csv::ReaderBuilder::from_reader` with headers off and
/// flexible record lengths: the reader will yield exactly the records of
/// the bytes.
#[verifier::external_body]
fn make_csv_reader(data: &[u8]) -> (r: csv::Reader<std::io::Cursor<Vec<u8>>>)
    ensures
        remaining_rows(r) == csv_rows_of(data@),
{
    csv::ReaderBuilder::new().has_headers(false).flexible(true).from_reader(
        std::io::Cursor::new(data.to_vec()),
    )
}

/// Relies on `csv::Reader::read_record`: yields the next record as its
/// fields, the end of the stream, or the record's read error.
#[verifier::external_body]
fn next_csv_record(r: &mut csv::Reader<std::io::Cursor<Vec<u8>>>) -> (out: Result<
    Option<Vec<String>>,
    String,
>)
    ensures
        match out {
            Ok(Some(rec)) => remaining_rows(*old(r)).len() > 0 && rec.deep_view()
                == remaining_rows(*old(r))[0] && remaining_rows(*final(r)) == remaining_rows(
                *old(r),
            ).drop_first(),
            Ok(None) => remaining_rows(*old(r)).len() == 0 && remaining_rows(*final(r))
                == remaining_rows(*old(r)),
            Err(_) => true,
        },
{
    let mut rec = csv::StringRecord::new();
    match r.read_record(&mut rec) {
        Ok(true) => Ok(Some(rec.iter().map(|f| f.to_string()).collect())),
        Ok(false) => Ok(None),
        Err(e) => Err(e.to_string()),
    }
}

/// Parses CSV bytes into all their records; an unreadable record aborts
/// the import with that record's error.
pub fn csv_records_from_bytes(data: &[u8]) -> (r: Result<Vec<Vec<String>>, String>)
    ensures
        r is Ok ==> (r->Ok_0).deep_view() == csv_rows_of(data@),
{
    let mut reader = make_csv_reader(data);
    let ghost all = csv_rows_of(data@);
    let mut grid: Vec<Vec<String>> = Vec::new();
    proof {
        assert(grid.deep_view() =~= Seq::<Seq<Seq<char>>>::empty());
        assert(grid.deep_view() + remaining_rows(reader) =~= all);
    }
    loop
        invariant
            all == csv_rows_of(data@),
            grid.deep_view() + remaining_rows(reader) == all,
        decreases remaining_rows(reader).len(),
    {
        let step = next_csv_record(&mut reader);
        match step {
            Ok(Some(rec)) => {
                grid.push(rec);
                proof {
                    assert(grid.deep_view() + remaining_rows(reader) =~= all);
                }
            },
            Ok(None) => {
                proof {
                    assert(remaining_rows(reader) =~= Seq::<Seq<Seq<char>>>::empty());
                    assert(grid.deep_view() + remaining_rows(reader) =~= grid.deep_view());
                    assert(grid.deep_view() == all);
                }
                let out: Result<Vec<Vec<String>>, String> = Ok(grid);
                return out;
            },
            Err(e) => {
                return Err(e);
            },
        }
    }
}

/// What the CSV encoder produces for a grid of records; a function of
/// the records alone.
pub uninterp spec fn csv_encoding_of(rows: Seq<Seq<Seq<char>>>) -> Seq<u8>;

/// The records a CSV writer has been handed so far, in order. Meaningful
/// only while the sink is clean (`sink_ok`): a failed write leaves the
/// encoder mid-record.
pub uninterp spec fn written_rows(w: CsvSink) -> Seq<Seq<Seq<char>>>;

/// The sink sits at a record boundary with no failed write behind it.
pub uninterp spec fn sink_ok(w: CsvSink) -> bool;

/// Every record has at least one field, and all have the same number.
pub open spec fn uniform_records(rows: Seq<Seq<Seq<char>>>) -> bool {
    forall|k: int| 0 <= k < rows.len() ==> (#[trigger] rows[k]).len() == rows[0].len() && rows[k].len() > 0
}

/// Relies on `csv::Writer::from_writer`: a fresh writer holds nothing.
#[verifier::external_body]
fn make_csv_writer() -> (r: CsvSink)
    ensures
        written_rows(r) == Seq::<Seq<Seq<char>>>::empty(),
        sink_ok(r),
{
    CsvSink { inner: csv::WriterBuilder::new().from_writer(Vec::new()) }
}

/// Relies on `csv::Writer::write_record` into an in-memory sink, whose
/// writes are infallible: the only failure is a record whose field count
/// differs from the first record's, and a write from a clean sink with a
/// matching field count always succeeds. A zero-field record is left out
/// by `requires`: the encoder would write it as one empty field while
/// counting it as zero fields.
#[verifier::external_body]
fn write_csv_record(w: &mut CsvSink, row: &Vec<String>) -> (out: Result<(), String>)
    requires
        row@.len() > 0,
    ensures
        match out {
            Ok(()) => sink_ok(*final(w)) == sink_ok(*old(w)) && written_rows(*final(w))
                == written_rows(*old(w)).push(row.deep_view()),
            Err(_) => !sink_ok(*final(w)),
        },
        ({
            let prior = written_rows(*old(w));
            sink_ok(*old(w)) && (prior.len() == 0 || row@.len() == prior[0].len()) ==> out is Ok
        }),
{
    w.inner.write_record(row).map_err(|e| e.to_string())
}

/// Relies on `csv::Writer::into_inner` (which flushes) into an in-memory
/// sink, whose writes are infallible: it always succeeds, and from a
/// clean sink the bytes are the encoding of exactly the records written.
#[verifier::external_body]
fn finish_csv_writer(w: CsvSink) -> (out: Result<Vec<u8>, String>)
    ensures
        out is Ok,
        match out {
            Ok(bytes) => sink_ok(w) ==> bytes@ == csv_encoding_of(written_rows(w)),
            Err(_) => true,
        },
{
    w.inner.into_inner().map_err(|e| e.to_string())
}

/// Encodes a grid of records as CSV bytes. A grid whose records all
/// share one positive field count — every grid the export lays out —
/// always encodes; a record without fields, or with a field count that
/// differs from the first record's, is rejected as the encoder rejects
/// it.
pub fn csv_bytes_from_grid(grid: &Vec<Vec<String>>) -> (r: Result<Vec<u8>, String>)
    ensures
        r matches Ok(bytes) ==> bytes@ == csv_encoding_of(grid.deep_view()),
        uniform_records(grid.deep_view()) ==> r is Ok,
{
    let mut writer = make_csv_writer();
    let n = grid.len();
    let mut i: usize = 0;
    while i < n
        invariant
            n == grid@.len(),
            0 <= i <= n,
            sink_ok(writer),
            written_rows(writer) == grid.deep_view().take(i as int),
        decreases n - i,
    {
        proof {
            assert(grid.deep_view()[i as int] == grid@[i as int].deep_view());
            assert(grid.deep_view().take(i + 1) =~= grid.deep_view().take(i as int).push(
                grid.deep_view()[i as int],
            ));
            if uniform_records(grid.deep_view()) {
                assert(grid.deep_view()[i as int].len() > 0);
                if i > 0 {
                    assert(grid.deep_view().take(i as int)[0] == grid.deep_view()[0]);
                    assert(grid.deep_view()[i as int].len() == grid.deep_view()[0].len());
                }
            }
        }
        if grid[i].len() == 0 {
            return Err("a record without fields cannot be encoded".to_owned());
        }
        let step = write_csv_record(&mut writer, &grid[i]);
        if let Err(e) = step {
            return Err(e);
        }
        i = i + 1;
    }
    proof {
        assert(grid.deep_view().take(n as int) =~= grid.deep_view());
    }
    finish_csv_writer(writer)
}

/// The first sheet of a spreadsheet file, as the text of each cell; a
/// function of the bytes alone. The grid is rectangular: every row spans
/// the sheet's width, absent cells reading as empty text.
pub uninterp spec fn xlsx_text_of(d: Seq<u8>) -> Seq<Seq<Seq<char>>>;

/// The text grid a loaded sheet range holds.
pub uninterp spec fn grid_text(g: calamine::Range<calamine::Data>) -> Seq<Seq<Seq<char>>>;

/// Relies on `calamine::open_workbook_auto_from_rs`, `sheet_names` and
/// `worksheet_range`: the first sheet's cells of a readable workbook.
#[verifier::external_body]
fn open_xlsx_grid(data: &[u8]) -> (r: Result<calamine::Range<calamine::Data>, String>)
    ensures
        r matches Ok(g) ==> grid_text(g) == xlsx_text_of(data@),
{
    let cursor = std::io::Cursor::new(data.to_vec());
    let mut workbook = calamine::open_workbook_auto_from_rs(cursor).map_err(|e| e.to_string())?;
    let sheet = match workbook.sheet_names().get(0) {
        Some(name) => name.clone(),
        None => return Err("xlsx contains no sheets".to_string()),
    };
    workbook.worksheet_range(&sheet).map_err(|e| e.to_string())
}

/// Relies on `calamine::Range::height`.
#[verifier::external_body]
fn grid_height(g: &calamine::Range<calamine::Data>) -> (r: usize)
    ensures
        r == grid_text(*g).len(),
{
    g.height()
}

/// Relies on `calamine::Range::width`: ranges are rectangular.
#[verifier::external_body]
fn grid_width(g: &calamine::Range<calamine::Data>) -> (r: usize)
    ensures
        forall|i: int| 0 <= i < grid_text(*g).len() ==> (#[trigger] grid_text(*g)[i]).len() == r,
{
    g.width()
}

/// Relies on `calamine::Range::get` and the `Data` variants: the text of
/// one cell, each variant rendered as its display text, empty cells and
/// out-of-range positions as empty text.
#[verifier::external_body]
fn grid_cell(g: &calamine::Range<calamine::Data>, row: usize, col: usize) -> (r: String)
    requires
        row < grid_text(*g).len(),
        col < grid_text(*g)[row as int].len(),
    ensures
        r@ == grid_text(*g)[row as int][col as int],
{
    match g.get((row, col)) {
        Some(calamine::Data::String(v)) => v.clone(),
        Some(calamine::Data::Float(v)) => v.to_string(),
        Some(calamine::Data::Int(v)) => v.to_string(),
        Some(calamine::Data::Bool(v)) => v.to_string(),
        Some(calamine::Data::DateTime(v)) => v.to_string(),
        Some(calamine::Data::DateTimeIso(v)) => v.clone(),
        Some(calamine::Data::DurationIso(v)) => v.clone(),
        Some(calamine::Data::Error(v)) => format!("{v:?}"),
        _ => String::new(),
    }
}

/// Reads the first sheet of a spreadsheet file as a grid of cell texts.
pub fn xlsx_grid_from_bytes(data: &[u8]) -> (r: Result<Vec<Vec<String>>, String>)
    ensures
        r matches Ok(grid) ==> grid.deep_view() == xlsx_text_of(data@),
{
    let range = match open_xlsx_grid(data) {
        Ok(g) => g,
        Err(e) => {
            return Err(e);
        },
    };
    let height = grid_height(&range);
    let width = grid_width(&range);
    let ghost target = grid_text(range);
    let mut grid: Vec<Vec<String>> = Vec::new();
    let mut row: usize = 0;
    while row < height
        invariant
            height == target.len(),
            target == grid_text(range),
            forall|i: int| 0 <= i < target.len() ==> (#[trigger] target[i]).len() == width,
            0 <= row <= height,
            grid@.len() == row,
            forall|i: int| 0 <= i < row ==> (#[trigger] grid@[i]).deep_view() == target[i],
        decreases height - row,
    {
        let mut line: Vec<String> = Vec::new();
        let mut col: usize = 0;
        while col < width
            invariant
                height == target.len(),
                target == grid_text(range),
                forall|i: int| 0 <= i < target.len() ==> (#[trigger] target[i]).len() == width,
                0 <= row < height,
                0 <= col <= width,
                line@.len() == col,
                forall|j: int| 0 <= j < col ==> (#[trigger] line@[j])@ == target[row as int][j],
            decreases width - col,
        {
            let cell = grid_cell(&range, row, col);
            line.push(cell);
            proof {
                assert(line@[col as int] == cell);
            }
            col = col + 1;
        }
        proof {
            assert(line.deep_view() =~= target[row as int]);
        }
        grid.push(line);
        proof {
            assert(grid@[row as int].deep_view() =~= target[row as int]);
        }
        row = row + 1;
    }
    proof {
        assert(grid.deep_view() =~= target);
    }
    Ok(grid)
}

/// The cells written to a workbook's first sheet so far.
pub uninterp spec fn sheet_cells(wb: rust_xlsxwriter::Workbook) -> Map<(int, int), Seq<char>>;

/// The cell map of a sheet with nothing written yet.
pub open spec fn no_cells() -> Map<(int, int), Seq<char>> {
    Map::empty()
}

/// Relies on `rust_xlsxwriter::Workbook::new` and `add_worksheet`: a
/// fresh workbook with one empty sheet.
#[verifier::external_body]
fn make_workbook() -> (r: rust_xlsxwriter::Workbook)
    ensures
        sheet_cells(r) == no_cells(),
{
    let mut wb = rust_xlsxwriter::Workbook::new();
    wb.add_worksheet();
    wb
}

/// Relies on `Workbook::worksheet_from_index` and
/// `Worksheet::write_string`: writes one cell's text, failing beyond the
/// sheet's row/column or string-length limits. The encoder silently
/// drops an unformatted empty string — the sheet is unchanged then, as
/// spreadsheet readers treat absent and empty cells alike.
#[verifier::external_body]
fn set_cell(wb: &mut rust_xlsxwriter::Workbook, row: u32, col: u16, text: &str) -> (out: Result<
    (),
    String,
>)
    ensures
        match out {
            Ok(()) => if text@.len() > 0 {
                sheet_cells(*final(wb)) == sheet_cells(*old(wb)).insert(
                    (row as int, col as int),
                    text@,
                )
            } else {
                sheet_cells(*final(wb)) == sheet_cells(*old(wb))
            },
            Err(_) => true,
        },
{
    let sheet = wb.worksheet_from_index(0).map_err(|e| e.to_string())?;
    sheet.write_string(row, col, text).map_err(|e| e.to_string())?;
    Ok(())
}

/// Relies on `Workbook::save_to_buffer`: a written workbook serializes
/// to a non-empty spreadsheet file.
#[verifier::external_body]
fn workbook_bytes(wb: &mut rust_xlsxwriter::Workbook) -> (out: Result<Vec<u8>, String>)
    ensures
        out matches Ok(bytes) ==> bytes@.len() > 0,
{
    wb.save_to_buffer().map(|b| b.to_vec()).map_err(|e| e.to_string())
}

/// The cell map a grid fills: row-major, each non-empty cell under its
/// position. Empty cells are absent, as the encoder leaves them unwritten.
pub open spec fn grid_cell_map(grid: Seq<Seq<Seq<char>>>) -> Map<(int, int), Seq<char>> {
    Map::new(
        |p: (int, int)|
            0 <= p.0 < grid.len() && 0 <= p.1 < grid[p.0].len() && grid[p.0][p.1].len() > 0,
        |p: (int, int)| grid[p.0][p.1],
    )
}

/// The cell map of a grid written row by row, up to (exclusive) column
/// `j` of row `i`: every cell of an earlier row, and of row `i` before
/// column `j`.
pub open spec fn grid_cell_map_upto(grid: Seq<Seq<Seq<char>>>, i: int, j: int) -> Map<
    (int, int),
    Seq<char>,
> {
    Map::new(
        |p: (int, int)|
            0 <= p.0 < grid.len() && 0 <= p.1 < grid[p.0].len() && grid[p.0][p.1].len() > 0 && (
            p.0 < i || (p.0 == i && p.1 < j)),
        |p: (int, int)| grid[p.0][p.1],
    )
}

/// Writes a grid into a fresh workbook, cell by cell: on success the
/// first sheet holds exactly the grid's non-empty cells, each under its
/// position. Rows or columns beyond the sheet's limits fail, as the
/// encoder reports.
pub fn fill_workbook(grid: &Vec<Vec<String>>) -> (r: Result<rust_xlsxwriter::Workbook, String>)
    ensures
        r matches Ok(wb) ==> sheet_cells(wb) == grid_cell_map(grid.deep_view()),
{
    let ghost g = grid.deep_view();
    let mut wb = make_workbook();
    proof {
        assert(sheet_cells(wb) =~= grid_cell_map_upto(g, 0, 0));
    }
    let n = grid.len();
    let mut i: usize = 0;
    while i < n
        invariant
            n == grid@.len(),
            g == grid.deep_view(),
            0 <= i <= n,
            sheet_cells(wb) == grid_cell_map_upto(g, i as int, 0),
        decreases n - i,
    {
        if i >= 0xFFFFFFFFusize {
            return Err("too many rows for a spreadsheet".to_owned());
        }
        let row = &grid[i];
        let m = row.len();
        proof {
            assert(g[i as int] == grid@[i as int].deep_view());
        }
        let mut j: usize = 0;
        while j < m
            invariant
                n == grid@.len(),
                g == grid.deep_view(),
                0 <= i < n,
                i < 0xFFFFFFFFusize,
                m == row@.len(),
                row == grid@[i as int],
                g[i as int] == grid@[i as int].deep_view(),
                0 <= j <= m,
                sheet_cells(wb) == grid_cell_map_upto(g, i as int, j as int),
            decreases m - j,
        {
            if j >= 0xFFFFusize {
                return Err("too many columns for a spreadsheet".to_owned());
            }
            let step = set_cell(&mut wb, i as u32, j as u16, row[j].as_str());
            if let Err(e) = step {
                return Err(e);
            }
            proof {
                assert(g[i as int][j as int] == row@[j as int]@);
                assert(sheet_cells(wb) =~= grid_cell_map_upto(g, i as int, j + 1));
            }
            j = j + 1;
        }
        proof {
            assert(grid_cell_map_upto(g, i as int, m as int) =~= grid_cell_map_upto(g, i + 1, 0));
        }
        i = i + 1;
    }
    proof {
        assert(grid_cell_map_upto(g, n as int, 0) =~= grid_cell_map(g));
    }
    Ok(wb)
}

/// Writes a grid into a fresh workbook — the sheet then holds exactly
/// the grid's cells — and serializes it.
pub fn xlsx_bytes_from_grid(grid: &Vec<Vec<String>>) -> (r: Result<Vec<u8>, String>)
    ensures
        r matches Ok(bytes) ==> bytes@.len() > 0,
{
    let mut wb = match fill_workbook(grid) {
        Ok(wb) => wb,
        Err(e) => {
            return Err(e);
        },
    };
    workbook_bytes(&mut wb)
}

/// Imports a list from an uploaded file's bytes, dispatching on its
/// extension; only `csv` and `xlsx` are understood.
pub fn import_music_list(ext: &str, data: &[u8]) -> (r: Result<Vec<MusicRow>, AppError>)
    ensures
        ext@ == "csv"@ ==> (r matches Ok(rows) ==> rows@.map_values(|row: MusicRow| row@)
            == spec_import(csv_rows_of(data@), false)),
        ext@ == "xlsx"@ ==> (r matches Ok(rows) ==> rows@.map_values(|row: MusicRow| row@)
            == spec_import(xlsx_text_of(data@), true)),
        !(ext@ == "csv"@ || ext@ == "xlsx"@) ==> (r matches Err(e) && e.kind
            == ErrorKind::BadRequest && e.message@ == "unsupported import format: "@ + ext@),
{
    proof {
        reveal_strlit("csv");
        reveal_strlit("xlsx");
        assert("csv"@.len() == 3);
        assert("xlsx"@.len() == 4);
    }
    if str_eq(ext, "csv") {
        match csv_records_from_bytes(data) {
            Ok(grid) => Ok(import_rows_from_records(&grid)),
            Err(e) => Err(AppError::bad_request(e)),
        }
    } else if str_eq(ext, "xlsx") {
        match xlsx_grid_from_bytes(data) {
            Ok(grid) => Ok(import_rows_from_cells(&grid)),
            Err(e) => Err(AppError::bad_request(e)),
        }
    } else {
        Err(AppError::bad_request("unsupported import format: ".to_owned().concat(ext)))
    }
}

/// Exports a list as file bytes in the requested format; only `csv` and
/// `xlsx` are understood. A CSV export always succeeds, with the
/// encoding of exactly the export grid; the spreadsheet bytes carry the
/// same grid in a container whose encoding is not pinned here (a round
/// trip through the import checks it, and `fill_workbook` states the
/// cells), and the spreadsheet encoder's own failures surface as
/// internal errors, so for a valid format the error side stays open.
pub fn export_music_list(format: &str, rows: &Vec<MusicRow>) -> (r: Result<Vec<u8>, AppError>)
    ensures
        format@ == "csv"@ ==> (r matches Ok(bytes) && bytes@ == csv_encoding_of(
            spec_export_grid(rows@.map_values(|row: MusicRow| row@)),
        )),
        format@ == "xlsx"@ ==> (r matches Ok(bytes) ==> bytes@.len() > 0),
        !(format@ == "csv"@ || format@ == "xlsx"@) ==> (r matches Err(e) && e.kind
            == ErrorKind::BadRequest && e.message@ == "unsupported export format: "@ + format@),
{
    proof {
        reveal_strlit("csv");
        reveal_strlit("xlsx");
        assert("csv"@.len() == 3);
        assert("xlsx"@.len() == 4);
    }
    if str_eq(format, "csv") {
        let grid = export_grid(rows);
        let ghost eg = spec_export_grid(rows@.map_values(|row: MusicRow| row@));
        proof {
            let mapped = rows@.map_values(|row: MusicRow| row@).map_values(
                |r: crate::port::RowView|
                    seq![
                        match r.title {
                            Some(t) => t,
                            None => Seq::<char>::empty(),
                        },
                        match r.artist {
                            Some(a) => a,
                            None => Seq::<char>::empty(),
                        },
                        r.youtube_url,
                    ],
            );
            assert forall|k: int| 0 <= k < eg.len() implies (#[trigger] eg[k]).len() == eg[0].len()
                && eg[k].len() > 0 by {
                assert(eg[0] == seq!["Title"@, "Artist"@, "YouTube URL"@]);
                if k > 0 {
                    assert(eg[k] == mapped[k - 1]);
                }
            }
            assert(uniform_records(eg));
        }
        match csv_bytes_from_grid(&grid) {
            Ok(bytes) => Ok(bytes),
            Err(e) => Err(AppError::internal(e)),
        }
    } else if str_eq(format, "xlsx") {
        let grid = export_grid(rows);
        match xlsx_bytes_from_grid(&grid) {
            Ok(bytes) => Ok(bytes),
            Err(e) => Err(AppError::internal(e)),
        }
    } else {
        Err(AppError::bad_request("unsupported export format: ".to_owned().concat(format)))
    }
}

/// The file name an export is served under.
pub fn export_file_name(format: &str) -> (r: String)
    ensures
        r@ == "AudioDownloader_export."@ + format@,
{
    "AudioDownloader_export.".to_owned().concat(format)
}

} // verus!
