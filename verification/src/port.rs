//! Import and export of queue entries as spreadsheet/CSV rows: header
//! detection, column mapping, and row extraction, plus the grid an
//! export writes. The byte-level encodings are done by outside crates
//! behind the trusted items in `portio`.

use vstd::prelude::*;

use crate::item::QueueItem;
use crate::strutil::ci_contains;
use crate::strutil::str_contains_ci;
use crate::strutil::trim;
use crate::strutil::trimmed;

verus! {

/// One imported or exported list entry.
#[derive(Clone, Debug)]
pub struct MusicRow {
    pub title: Option<String>,
    pub artist: Option<String>,
    pub youtube_url: String,
}

/// The mathematical model of a list entry.
pub ghost struct RowView {
    pub title: Option<Seq<char>>,
    pub artist: Option<Seq<char>>,
    pub youtube_url: Seq<char>,
}

impl View for MusicRow {
    type V = RowView;

    open spec fn view(&self) -> RowView {
        RowView {
            title: self.title.deep_view(),
            artist: self.artist.deep_view(),
            youtube_url: self.youtube_url@,
        }
    }
}

/// A cell that names one of the three known columns.
pub open spec fn is_header_cell(v: Seq<char>) -> bool {
    ci_contains(v, "url"@) || ci_contains(v, "title"@) || ci_contains(v, "artist"@)
}

/// A row looks like a header when any of its cells names a column.
pub open spec fn spec_looks_like_header(values: Seq<Seq<char>>) -> bool {
    exists|i: int| 0 <= i < values.len() && is_header_cell(#[trigger] values[i])
}

/// Decides whether a first row is a header row.
pub fn looks_like_header_strings(values: &Vec<String>) -> (r: bool)
    ensures
        r == spec_looks_like_header(values.deep_view()),
{
    let n = values.len();
    let mut i: usize = 0;
    while i < n
        invariant
            n == values@.len(),
            0 <= i <= n,
            forall|j: int| 0 <= j < i ==> !is_header_cell(#[trigger] values.deep_view()[j]),
        decreases n - i,
    {
        proof {
            assert(values.deep_view()[i as int] == values@[i as int]@);
        }
        let cell = &values[i];
        if str_contains_ci(cell.as_str(), "url") || str_contains_ci(cell.as_str(), "title")
            || str_contains_ci(cell.as_str(), "artist") {
            return true;
        }
        i = i + 1;
    }
    false
}

/// The column assignment a header row produces: scanning left to right,
/// a cell naming "title" sets the title column, otherwise one naming
/// "artist" sets the artist column, otherwise one naming "url" sets the
/// url column; later matches win. Without matches the columns default to
/// title, artist, url in that order.
pub open spec fn header_assign(values: Seq<Seq<char>>) -> (int, int, int)
    decreases values.len(),
{
    if values.len() == 0 {
        (0int, 1int, 2int)
    } else {
        let prev = header_assign(values.drop_last());
        let idx = values.len() - 1;
        let v = values.last();
        if ci_contains(v, "title"@) {
            (idx as int, prev.1, prev.2)
        } else if ci_contains(v, "artist"@) {
            (prev.0, idx as int, prev.2)
        } else if ci_contains(v, "url"@) {
            (prev.0, prev.1, idx as int)
        } else {
            prev
        }
    }
}

/// Which columns hold the title, the artist and the URL, and whether the
/// first row was a header.
#[derive(Clone, Copy)]
pub struct HeaderMap {
    pub title: usize,
    pub artist: usize,
    pub url: usize,
    pub has_header: bool,
}

impl HeaderMap {
    /// The default mapping when no header row is present: the first
    /// three columns in order.
    pub fn default() -> (r: HeaderMap)
        ensures
            r.title == 0,
            r.artist == 1,
            r.url == 2,
            !r.has_header,
    {
        HeaderMap { title: 0, artist: 1, url: 2, has_header: false }
    }

    /// The mapping a header row produces.
    pub fn from_strings(values: &Vec<String>) -> (r: HeaderMap)
        ensures
            r.has_header,
            (r.title as int, r.artist as int, r.url as int) == header_assign(values.deep_view()),
    {
        let ghost all = values.deep_view();
        let n = values.len();
        let mut title: usize = 0;
        let mut artist: usize = 1;
        let mut url: usize = 2;
        let mut i: usize = 0;
        while i < n
            invariant
                n == values@.len(),
                all == values.deep_view(),
                0 <= i <= n,
                (title as int, artist as int, url as int) == header_assign(all.take(i as int)),
        decreases n - i,
        {
            proof {
                assert(all[i as int] == values@[i as int]@);
                assert(all.take(i + 1).drop_last() =~= all.take(i as int));
                assert(all.take(i + 1).last() == all[i as int]);
            }
            let cell = &values[i];
            if str_contains_ci(cell.as_str(), "title") {
                title = i;
            } else if str_contains_ci(cell.as_str(), "artist") {
                artist = i;
            } else if str_contains_ci(cell.as_str(), "url") {
                url = i;
            }
            i = i + 1;
        }
        proof {
            assert(all.take(n as int) =~= all);
        }
        HeaderMap { title, artist, url, has_header: true }
    }
}

/// The entry a data row yields under CSV semantics: the URL cell is
/// trimmed and must be non-empty; title and artist are trimmed and kept
/// only when non-empty.
pub open spec fn spec_row_from_record(rec: Seq<Seq<char>>, m: (int, int, int)) -> Option<RowView> {
    if 0 <= m.2 < rec.len() && trimmed(rec[m.2]).len() > 0 {
        Some(
            RowView {
                title: if 0 <= m.0 < rec.len() && trimmed(rec[m.0]).len() > 0 {
                    Some(trimmed(rec[m.0]))
                } else {
                    None
                },
                artist: if 0 <= m.1 < rec.len() && trimmed(rec[m.1]).len() > 0 {
                    Some(trimmed(rec[m.1]))
                } else {
                    None
                },
                youtube_url: trimmed(rec[m.2]),
            },
        )
    } else {
        None
    }
}

/// Extracts one entry from a CSV record.
pub fn row_from_record(record: &Vec<String>, map: &HeaderMap) -> (r: Option<MusicRow>)
    ensures
        match r {
            Some(row) => spec_row_from_record(
                record.deep_view(),
                (map.title as int, map.artist as int, map.url as int),
            ) == Some(row@),
            None => spec_row_from_record(
                record.deep_view(),
                (map.title as int, map.artist as int, map.url as int),
            ) is None,
        },
{
    let ghost rec = record.deep_view();
    if map.url >= record.len() {
        return None;
    }
    proof {
        assert(rec[map.url as int] == record@[map.url as int]@);
    }
    let url = trim(record[map.url].as_str());
    if url.unicode_len() == 0 {
        return None;
    }
    let title: Option<String> = if map.title < record.len() {
        proof {
            assert(rec[map.title as int] == record@[map.title as int]@);
        }
        let t = trim(record[map.title].as_str());
        if t.unicode_len() > 0 {
            Some(t.to_owned())
        } else {
            None
        }
    } else {
        None
    };
    let artist: Option<String> = if map.artist < record.len() {
        proof {
            assert(rec[map.artist as int] == record@[map.artist as int]@);
        }
        let a = trim(record[map.artist].as_str());
        if a.unicode_len() > 0 {
            Some(a.to_owned())
        } else {
            None
        }
    } else {
        None
    };
    Some(MusicRow { title, artist, youtube_url: url.to_owned() })
}

/// The entry a data row yields under spreadsheet semantics: the URL cell
/// is trimmed and must be non-empty; title and artist keep their raw
/// text but are dropped when that text is all whitespace.
pub open spec fn spec_row_from_cells(rec: Seq<Seq<char>>, m: (int, int, int)) -> Option<RowView> {
    if 0 <= m.2 < rec.len() && trimmed(rec[m.2]).len() > 0 {
        Some(
            RowView {
                title: if 0 <= m.0 < rec.len() && trimmed(rec[m.0]).len() > 0 {
                    Some(rec[m.0])
                } else {
                    None
                },
                artist: if 0 <= m.1 < rec.len() && trimmed(rec[m.1]).len() > 0 {
                    Some(rec[m.1])
                } else {
                    None
                },
                youtube_url: trimmed(rec[m.2]),
            },
        )
    } else {
        None
    }
}

/// Extracts one entry from a row of spreadsheet cells.
pub fn row_from_cells(cells: &Vec<String>, map: &HeaderMap) -> (r: Option<MusicRow>)
    ensures
        match r {
            Some(row) => spec_row_from_cells(
                cells.deep_view(),
                (map.title as int, map.artist as int, map.url as int),
            ) == Some(row@),
            None => spec_row_from_cells(
                cells.deep_view(),
                (map.title as int, map.artist as int, map.url as int),
            ) is None,
        },
{
    let ghost rec = cells.deep_view();
    if map.url >= cells.len() {
        return None;
    }
    proof {
        assert(rec[map.url as int] == cells@[map.url as int]@);
    }
    let url = trim(cells[map.url].as_str());
    if url.unicode_len() == 0 {
        return None;
    }
    let title: Option<String> = if map.title < cells.len() {
        proof {
            assert(rec[map.title as int] == cells@[map.title as int]@);
        }
        if trim(cells[map.title].as_str()).unicode_len() > 0 {
            Some(cells[map.title].clone())
        } else {
            None
        }
    } else {
        None
    };
    let artist: Option<String> = if map.artist < cells.len() {
        proof {
            assert(rec[map.artist as int] == cells@[map.artist as int]@);
        }
        if trim(cells[map.artist].as_str()).unicode_len() > 0 {
            Some(cells[map.artist].clone())
        } else {
            None
        }
    } else {
        None
    };
    Some(MusicRow { title, artist, youtube_url: url.to_owned() })
}

/// The entries a whole grid yields: a detected header row fixes the
/// columns and is skipped, otherwise defaults apply and the first row is
/// data too; rows without a usable URL are dropped. `cells_mode` selects
/// spreadsheet semantics over CSV semantics for the fields.
pub open spec fn collect_rows(
    data: Seq<Seq<Seq<char>>>,
    m: (int, int, int),
    cells_mode: bool,
) -> Seq<RowView>
    decreases data.len(),
{
    if data.len() == 0 {
        Seq::empty()
    } else {
        let prev = collect_rows(data.drop_last(), m, cells_mode);
        let row = if cells_mode {
            spec_row_from_cells(data.last(), m)
        } else {
            spec_row_from_record(data.last(), m)
        };
        match row {
            Some(r) => prev.push(r),
            None => prev,
        }
    }
}

/// The import of a whole grid.
pub open spec fn spec_import(grid: Seq<Seq<Seq<char>>>, cells_mode: bool) -> Seq<RowView> {
    if grid.len() == 0 {
        Seq::empty()
    } else if spec_looks_like_header(grid[0]) {
        collect_rows(grid.drop_first(), header_assign(grid[0]), cells_mode)
    } else {
        collect_rows(grid, (0int, 1int, 2int), cells_mode)
    }
}

/// Extracts the entries of a grid of text cells, CSV semantics.
pub fn import_rows_from_records(grid: &Vec<Vec<String>>) -> (r: Vec<MusicRow>)
    ensures
        r@.map_values(|row: MusicRow| row@) == spec_import(grid.deep_view(), false),
{
    import_rows(grid, false)
}

/// Extracts the entries of a grid of text cells, spreadsheet semantics.
pub fn import_rows_from_cells(grid: &Vec<Vec<String>>) -> (r: Vec<MusicRow>)
    ensures
        r@.map_values(|row: MusicRow| row@) == spec_import(grid.deep_view(), true),
{
    import_rows(grid, true)
}

fn import_rows(grid: &Vec<Vec<String>>, cells_mode: bool) -> (r: Vec<MusicRow>)
    ensures
        r@.map_values(|row: MusicRow| row@) == spec_import(grid.deep_view(), cells_mode),
{
    let ghost all = grid.deep_view();
    let mut out: Vec<MusicRow> = Vec::new();
    let n = grid.len();
    if n == 0 {
        proof {
            assert(out@.map_values(|row: MusicRow| row@) =~= spec_import(all, cells_mode));
        }
        return out;
    }
    proof {
        assert(all[0] == grid@[0].deep_view());
    }
    let header = looks_like_header_strings(&grid[0]);
    let map = if header {
        HeaderMap::from_strings(&grid[0])
    } else {
        HeaderMap::default()
    };
    let ghost m = (map.title as int, map.artist as int, map.url as int);
    let ghost data = if header {
        all.drop_first()
    } else {
        all
    };
    let start: usize = if header {
        1
    } else {
        0
    };
    let mut i: usize = start;
    while i < n
        invariant
            n == grid@.len(),
            all == grid.deep_view(),
            start <= i <= n,
            start == if header {
                1int
            } else {
                0int
            },
            data == if header {
                all.drop_first()
            } else {
                all
            },
            data.len() == n - start,
            forall|k: int| 0 <= k < data.len() ==> data[k] == all[k + start],
            m == (map.title as int, map.artist as int, map.url as int),
            out@.map_values(|row: MusicRow| row@) =~= collect_rows(
                data.take(i - start),
                m,
                cells_mode,
            ),
        decreases n - i,
    {
        proof {
            assert(all[i as int] == grid@[i as int].deep_view());
            assert(data.take(i - start + 1).drop_last() =~= data.take(i - start));
            assert(data.take(i - start + 1).last() == data[i - start]);
            assert(data[i - start] == all[i as int]);
        }
        let row = if cells_mode {
            row_from_cells(&grid[i], &map)
        } else {
            row_from_record(&grid[i], &map)
        };
        if let Some(r) = row {
            out.push(r);
        }
        proof {
            assert(out@.map_values(|row: MusicRow| row@) =~= collect_rows(
                data.take(i - start + 1),
                m,
                cells_mode,
            ));
        }
        i = i + 1;
    }
    proof {
        assert(data.take(n - start) =~= data);
        if header {
            assert(spec_looks_like_header(all[0]));
        } else {
            assert(!spec_looks_like_header(all[0]));
        }
    }
    out
}

/// The grid an export writes: a fixed header row, then one row per
/// entry, with absent titles and artists written as empty cells.
pub open spec fn spec_export_grid(rows: Seq<RowView>) -> Seq<Seq<Seq<char>>> {
    seq![seq!["Title"@, "Artist"@, "YouTube URL"@]] + rows.map_values(
        |r: RowView|
            seq![
                match r.title {
                    Some(t) => t,
                    None => Seq::<char>::empty(),
                },
                match r.artist {
                    Some(a) => a,
                    None => Seq::<char>::empty(),
                },
                r.youtube_url,
            ],
    )
}

/// Lays out the grid an export writes.
pub fn export_grid(rows: &Vec<MusicRow>) -> (r: Vec<Vec<String>>)
    ensures
        r.deep_view() == spec_export_grid(rows@.map_values(|row: MusicRow| row@)),
{
    let ghost target = spec_export_grid(rows@.map_values(|row: MusicRow| row@));
    let mut out: Vec<Vec<String>> = Vec::new();
    let mut head: Vec<String> = Vec::new();
    head.push("Title".to_owned());
    head.push("Artist".to_owned());
    head.push("YouTube URL".to_owned());
    proof {
        assert(head.deep_view() =~= seq!["Title"@, "Artist"@, "YouTube URL"@]);
    }
    out.push(head);
    let n = rows.len();
    let mut i: usize = 0;
    while i < n
        invariant
            n == rows@.len(),
            target == spec_export_grid(rows@.map_values(|row: MusicRow| row@)),
            0 <= i <= n,
            out.deep_view().len() == i + 1,
            target.len() == n + 1,
            forall|k: int| 0 <= k <= i ==> out.deep_view()[k] == target[k],
        decreases n - i,
    {
        let mut line: Vec<String> = Vec::new();
        line.push(
            match &rows[i].title {
                Some(t) => t.clone(),
                None => String::new(),
            },
        );
        line.push(
            match &rows[i].artist {
                Some(a) => a.clone(),
                None => String::new(),
            },
        );
        line.push(rows[i].youtube_url.clone());
        proof {
            assert(line.deep_view() =~= target[i + 1]);
        }
        out.push(line);
        proof {
            assert(forall|k: int|
                0 <= k <= i ==> #[trigger] out.deep_view()[k] == target[k]);
            assert(out.deep_view()[i + 1] == line.deep_view());
        }
        i = i + 1;
    }
    proof {
        assert(out.deep_view() =~= target);
    }
    out
}

/// Turns queue items into exportable entries, in order: every item's
/// title and artist are written, with its source locator.
pub fn queue_to_rows(items: &Vec<QueueItem>) -> (r: Vec<MusicRow>)
    ensures
        r@.len() == items@.len(),
        forall|k: int|
            0 <= k < items@.len() ==> (#[trigger] r@[k])@ == (RowView {
                title: Some(items@[k]@.title),
                artist: Some(items@[k]@.artist),
                youtube_url: items@[k]@.youtube_url,
            }),
{
    let n = items.len();
    let mut out: Vec<MusicRow> = Vec::new();
    let mut i: usize = 0;
    while i < n
        invariant
            n == items@.len(),
            0 <= i <= n,
            out@.len() == i,
            forall|k: int|
                0 <= k < i ==> (#[trigger] out@[k])@ == (RowView {
                    title: Some(items@[k]@.title),
                    artist: Some(items@[k]@.artist),
                    youtube_url: items@[k]@.youtube_url,
                }),
        decreases n - i,
    {
        out.push(
            MusicRow {
                title: Some(items[i].title.clone()),
                artist: Some(items[i].artist.clone()),
                youtube_url: items[i].youtube_url.clone(),
            },
        );
        i = i + 1;
    }
    out
}

/// The single example entry of the sample spreadsheet.
pub fn sample_rows() -> (r: Vec<MusicRow>)
    ensures
        r@.len() == 1,
        r@[0]@.title == Some("Example Title"@),
        r@[0]@.artist == Some("Example Artist"@),
        r@[0]@.youtube_url == "https://www.youtube.com/watch?v=dQw4w9WgXcQ"@,
{
    let mut out: Vec<MusicRow> = Vec::new();
    out.push(
        MusicRow {
            title: Some("Example Title".to_owned()),
            artist: Some("Example Artist".to_owned()),
            youtube_url: "https://www.youtube.com/watch?v=dQw4w9WgXcQ".to_owned(),
        },
    );
    out
}

} // verus!
