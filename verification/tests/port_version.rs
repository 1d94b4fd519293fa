use audioqueue::errors::ErrorKind;
use audioqueue::port::{
    export_grid, import_rows_from_cells, import_rows_from_records, looks_like_header_strings,
    queue_to_rows, row_from_record, sample_rows, HeaderMap, MusicRow,
};
use audioqueue::portio::{csv_bytes_from_grid, export_file_name, export_music_list, import_music_list};
use audioqueue::queue::Queue;
use audioqueue::version::{
    build_consistency_message, normalize_version, read_cargo_version_from_str,
    read_package_version_from_str, split_into_lines, version_label, version_report,
};

fn s(v: &str) -> String {
    v.to_string()
}

#[test]
fn header_rows_are_recognized() {
    assert!(looks_like_header_strings(&vec![s("Title"), s("Artist"), s("YouTube URL")]));
    assert!(looks_like_header_strings(&vec![s("the url column")]));
    assert!(!looks_like_header_strings(&vec![s("My Song"), s("Someone"), s("https://x")]));
}

#[test]
fn header_mapping_follows_names() {
    let map = HeaderMap::from_strings(&vec![s("URL"), s("Artist Name"), s("Track Title")]);
    assert!(map.has_header);
    assert_eq!(map.url, 0);
    assert_eq!(map.artist, 1);
    assert_eq!(map.title, 2);
    let d = HeaderMap::default();
    assert!(!d.has_header);
    assert_eq!((d.title, d.artist, d.url), (0, 1, 2));
}

#[test]
fn rows_need_a_url_and_drop_blank_fields() {
    let map = HeaderMap::default();
    let row = row_from_record(&vec![s(" My Song "), s("  "), s(" https://x ")], &map).unwrap();
    assert_eq!(row.title.as_deref(), Some("My Song"));
    assert_eq!(row.artist, None);
    assert_eq!(row.youtube_url, "https://x");
    assert!(row_from_record(&vec![s("t"), s("a"), s("   ")], &map).is_none());
    assert!(row_from_record(&vec![s("t")], &map).is_none());
}

#[test]
fn grids_import_with_and_without_headers() {
    let with_header = vec![
        vec![s("Title"), s("Artist"), s("YouTube URL")],
        vec![s("A"), s("B"), s("https://a")],
        vec![s(""), s(""), s("https://b")],
        vec![s("skip"), s("me"), s("")],
    ];
    let rows = import_rows_from_records(&with_header);
    assert_eq!(rows.len(), 2);
    assert_eq!(rows[0].title.as_deref(), Some("A"));
    assert_eq!(rows[1].title, None);
    assert_eq!(rows[1].youtube_url, "https://b");

    let without_header = vec![vec![s("A"), s("B"), s("https://a")]];
    let rows = import_rows_from_cells(&without_header);
    assert_eq!(rows.len(), 1);
    assert_eq!(rows[0].artist.as_deref(), Some("B"));
}

#[test]
fn csv_round_trip_through_the_encoder() {
    let rows = vec![
        MusicRow { title: Some(s("A")), artist: Some(s("B")), youtube_url: s("https://a") },
        MusicRow { title: None, artist: None, youtube_url: s("https://b") },
    ];
    let bytes = export_music_list("csv", &rows).unwrap();
    let text = String::from_utf8(bytes.clone()).unwrap();
    assert_eq!(text, "Title,Artist,YouTube URL\nA,B,https://a\n,,https://b\n");
    let back = import_music_list("csv", &bytes).unwrap();
    assert_eq!(back.len(), 2);
    assert_eq!(back[0].title.as_deref(), Some("A"));
    assert_eq!(back[1].title, None);
    assert_eq!(back[1].youtube_url, "https://b");
}

#[test]
fn xlsx_round_trip_through_the_encoder() {
    let rows = vec![MusicRow {
        title: Some(s("Example Title")),
        artist: Some(s("Example Artist")),
        youtube_url: s("https://www.youtube.com/watch?v=dQw4w9WgXcQ"),
    }];
    let bytes = export_music_list("xlsx", &rows).unwrap();
    assert!(!bytes.is_empty());
    let back = import_music_list("xlsx", &bytes).unwrap();
    assert_eq!(back.len(), 1);
    assert_eq!(back[0].title.as_deref(), Some("Example Title"));
    assert_eq!(back[0].artist.as_deref(), Some("Example Artist"));
    assert_eq!(back[0].youtube_url, "https://www.youtube.com/watch?v=dQw4w9WgXcQ");
}

#[test]
fn xlsx_round_trip_keeps_absent_fields_absent() {
    // Absent title and artist are written as empty cells, which the
    // spreadsheet encoder drops; the import reads them back as absent.
    let rows = vec![
        MusicRow { title: None, artist: None, youtube_url: s("https://only-url") },
        MusicRow { title: Some(s("T")), artist: None, youtube_url: s("https://t") },
    ];
    let bytes = export_music_list("xlsx", &rows).unwrap();
    let back = import_music_list("xlsx", &bytes).unwrap();
    assert_eq!(back.len(), 2);
    assert_eq!(back[0].title, None);
    assert_eq!(back[0].artist, None);
    assert_eq!(back[0].youtube_url, "https://only-url");
    assert_eq!(back[1].title.as_deref(), Some("T"));
    assert_eq!(back[1].artist, None);
}

#[test]
fn csv_encoding_rejects_malformed_grids() {
    // A record without fields cannot be encoded faithfully.
    let empty_row: Vec<Vec<String>> = vec![vec![]];
    assert!(csv_bytes_from_grid(&empty_row).is_err());
    // The encoder rejects records whose field counts differ.
    let ragged = vec![vec![s("a")], vec![s("b"), s("c")]];
    assert!(csv_bytes_from_grid(&ragged).is_err());
    // A uniform grid always encodes.
    let uniform = vec![vec![s("a"), s("b")], vec![s("c"), s("d")]];
    let bytes = csv_bytes_from_grid(&uniform).unwrap();
    assert_eq!(String::from_utf8(bytes).unwrap(), "a,b
c,d
");
}

#[test]
fn unknown_formats_are_rejected_naming_the_extension() {
    let err = import_music_list("txt", b"x").unwrap_err();
    assert_eq!(err.kind, ErrorKind::BadRequest);
    assert_eq!(err.message, "unsupported import format: txt");
    let err = export_music_list("pdf", &Vec::new()).unwrap_err();
    assert_eq!(err.kind, ErrorKind::BadRequest);
    assert_eq!(err.message, "unsupported export format: pdf");
}

#[test]
fn export_grid_and_names() {
    let mut q = Queue::new();
    q.insert(audioqueue::item::QueueItem::fresh(
        s("a"),
        s("https://a"),
        s("T"),
        s("A"),
        None,
        None,
    ))
    .unwrap();
    let rows = queue_to_rows(&q.list());
    assert_eq!(rows.len(), 1);
    assert_eq!(rows[0].title.as_deref(), Some("T"));
    let grid = export_grid(&rows);
    assert_eq!(grid[0], vec![s("Title"), s("Artist"), s("YouTube URL")]);
    assert_eq!(grid[1], vec![s("T"), s("A"), s("https://a")]);
    assert_eq!(export_file_name("xlsx"), "AudioDownloader_export.xlsx");
    let sample = sample_rows();
    assert_eq!(sample[0].title.as_deref(), Some("Example Title"));
}

#[test]
fn versions_normalize_and_label() {
    assert_eq!(normalize_version("  v1.2.3 "), "1.2.3");
    assert_eq!(normalize_version("vv2.0"), "2.0");
    assert_eq!(normalize_version("1.0"), "1.0");
    assert_eq!(version_label(&Some(s("1.2.3"))), "v1.2.3");
    assert_eq!(version_label(&None), "missing");
}

#[test]
fn lines_split_like_a_text_file() {
    assert_eq!(split_into_lines("a\nb\r\nc"), vec![s("a"), s("b"), s("c")]);
    assert_eq!(split_into_lines("one\n"), vec![s("one")]);
    assert_eq!(split_into_lines(""), Vec::<String>::new());
}

#[test]
fn cargo_version_is_read_from_the_package_section() {
    let toml = "\n[workspace]\nversion = \"9.9.9\"\n\n[package]\nname = \"x\"\nversion = \"1.4.2\"\n";
    assert_eq!(read_cargo_version_from_str(toml).as_deref(), Some("1.4.2"));
    let no_package = "[workspace]\nversion = \"9.9.9\"\n";
    assert_eq!(read_cargo_version_from_str(no_package), None);
    let unquoted = "[package]\nversion = 1.4.2\n";
    assert_eq!(read_cargo_version_from_str(unquoted), None);
}

#[test]
fn package_version_is_read_from_metadata_json() {
    assert_eq!(
        read_package_version_from_str("{\"name\":\"x\",\"version\":\"2.1.0\"}").as_deref(),
        Some("2.1.0")
    );
    assert_eq!(read_package_version_from_str("{\"version\":7}"), None);
    assert_eq!(read_package_version_from_str("not json"), None);
}

#[test]
fn consistency_messages_name_each_component() {
    let msg = build_consistency_message(
        &Some(s("1.0")),
        &Some(s("1.1")),
        &None,
        &None,
        &None,
        &None,
        false,
    )
    .unwrap();
    assert_eq!(msg, "Local mismatch: backend v1.0, root v1.1, frontend missing");

    let msg = build_consistency_message(
        &Some(s("1.0")),
        &Some(s("1.0")),
        &Some(s("1.0")),
        &Some(s("2.0")),
        &Some(s("2.0")),
        &Some(s("2.0")),
        true,
    )
    .unwrap();
    assert_eq!(msg, "Local v1.0 differs from remote v2.0");

    let none = build_consistency_message(
        &Some(s("1.0")),
        &Some(s("1.0")),
        &Some(s("1.0")),
        &None,
        &None,
        &None,
        false,
    );
    assert_eq!(none, None);
}

#[test]
fn report_combines_local_and_remote_versions() {
    let report = version_report(
        Some(s("v1.0.0")),
        Some(s("1.0.0")),
        Some(s(" 1.0.0 ")),
        Some(s("1.2.0")),
        Some(s("1.2.0")),
        Some(s("1.2.0")),
        true,
    );
    assert_eq!(report.current, "v1.0.0");
    assert_eq!(report.is_latest, Some(true));
    assert_eq!(report.latest.as_deref(), Some("v1.2.0"));
    assert_eq!(
        report.consistency.as_deref(),
        Some("Local v1.0.0 differs from remote v1.2.0")
    );
    assert_eq!(report.release_url, None);

    let report = version_report(None, None, None, None, None, None, false);
    assert_eq!(report.current, "v0.0.0");
    assert_eq!(report.is_latest, Some(false));
    assert_eq!(report.latest.as_deref(), Some("v0.0.0"));
    assert!(report.consistency.is_some());
}
