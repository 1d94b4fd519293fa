use audioqueue::errors::ErrorKind;
use audioqueue::formats::{normalize_export_format, normalize_format};
use audioqueue::item::DownloadState;
use audioqueue::media::{
    detect_mime, item_from_row, prepare_added_item, probe_verdict, tag_kind_for_extension,
    video_info_from_probe, ImageKind, TagKind,
};
use audioqueue::orchestrate::start_plan;
use audioqueue::pool::PermitPool;
use audioqueue::port::MusicRow;
use audioqueue::queue::Queue;
use audioqueue::sanitize::sanitize_text;
use audioqueue::types::{VideoInfo, YtDlpThumb};
use audioqueue::worker::{build_download_args, download_verdict, locate_download, plan_output};

#[test]
fn formats_are_validated_case_insensitively() {
    assert_eq!(normalize_format("FLAC").unwrap(), "flac");
    assert_eq!(normalize_format("mp3").unwrap(), "mp3");
    assert_eq!(normalize_format("M4a").unwrap(), "m4a");
    assert_eq!(normalize_format("wav").unwrap(), "wav");
    let err = normalize_format("ogg").unwrap_err();
    assert_eq!(err.kind, ErrorKind::BadRequest);
    assert_eq!(err.message, "unsupported format");

    assert_eq!(normalize_export_format("XLSX").unwrap(), "xlsx");
    assert_eq!(normalize_export_format("csv").unwrap(), "csv");
    let err = normalize_export_format("pdf").unwrap_err();
    assert_eq!(err.kind, ErrorKind::BadRequest);
    assert_eq!(err.message, "unsupported export format");
}

#[test]
fn sanitize_strips_reserved_characters() {
    assert_eq!(sanitize_text("My/Song: The \"Best\"?"), "MySong The Best");
    assert_eq!(sanitize_text("a\\b/c:d*e?f\"g<h>i|j"), "abcdefghij");
    assert_eq!(sanitize_text(""), "");
}

#[test]
fn plan_output_uses_one_sanitized_title_everywhere() {
    let (clean, template, expected) = plan_output("My/Song", "mp3");
    assert_eq!(clean, "MySong");
    assert_eq!(template, "MySong.%(ext)s");
    assert_eq!(expected, "MySong.mp3");
}

#[test]
fn download_args_are_exact() {
    let args = build_download_args("https://example.invalid/v", "flac", "T.%(ext)s");
    assert_eq!(
        args,
        vec![
            "-x",
            "--audio-format",
            "flac",
            "--audio-quality",
            "0",
            "--no-playlist",
            "--progress",
            "--newline",
            "-o",
            "T.%(ext)s",
            "https://example.invalid/v",
        ]
    );
}

#[test]
fn locate_prefers_exact_name_then_prefix() {
    let entries = vec![
        "other.txt".to_string(),
        "Song.opus".to_string(),
        "Song.mp3".to_string(),
    ];
    assert_eq!(
        locate_download(&entries, "Song", "mp3").as_deref(),
        Some("Song.mp3")
    );
    // Without the exact name, the first prefixed entry wins.
    let entries = vec!["other.txt".to_string(), "Song.opus".to_string()];
    assert_eq!(
        locate_download(&entries, "Song", "mp3").as_deref(),
        Some("Song.opus")
    );
    let entries = vec!["other.txt".to_string()];
    assert_eq!(locate_download(&entries, "Song", "mp3"), None);
}

#[test]
fn verdict_messages_match_each_failure() {
    assert_eq!(
        download_verdict(false, false, None).unwrap_err(),
        "yt-dlp execution failed"
    );
    assert_eq!(
        download_verdict(true, false, None).unwrap_err(),
        "yt-dlp download failed"
    );
    assert_eq!(
        download_verdict(true, true, None).unwrap_err(),
        "downloaded file not found"
    );
    assert_eq!(
        download_verdict(true, true, Some("Song.mp3".to_string())).unwrap(),
        "Song.mp3"
    );
}

#[test]
fn pool_never_exceeds_capacity() {
    let mut pool = PermitPool::new(2);
    let mut high_water: u64 = 0;
    let mut granted = 0;
    for _ in 0..5 {
        if pool.try_acquire() {
            granted += 1;
        }
        high_water = high_water.max(pool.held());
    }
    assert_eq!(granted, 2);
    assert_eq!(high_water, 2);
    pool.release();
    assert!(pool.try_acquire());
    assert_eq!(pool.held(), 2);
}

#[test]
fn closed_pool_grants_nothing_more() {
    let mut pool = PermitPool::new(3);
    assert!(pool.try_acquire());
    pool.close();
    assert!(!pool.try_acquire());
    // The permit already granted is still held.
    assert_eq!(pool.held(), 1);
    assert_eq!(pool.limit(), 3);
}

#[test]
fn start_plan_selects_all_non_working() {
    let mut q = Queue::new();
    for id in ["a", "b", "c"] {
        q.insert(audioqueue::item::QueueItem::fresh(
            id.to_string(),
            format!("https://example.invalid/{id}"),
            id.to_string(),
            "A".to_string(),
            None,
            None,
        ))
        .unwrap();
    }
    q.transition("b", DownloadState::Working, None);
    q.transition("c", DownloadState::Failed, Some("x".to_string()));
    let (fmt, ids) = start_plan(&q, "MP3").unwrap();
    assert_eq!(fmt, "mp3");
    assert_eq!(ids, vec!["a".to_string(), "c".to_string()]);
    assert_eq!(
        start_plan(&q, "ogg").unwrap_err().kind,
        ErrorKind::BadRequest
    );
}

#[test]
fn probe_verdict_classifies_each_failure() {
    let e = probe_verdict(false, false, false, "no such file").unwrap_err();
    assert_eq!(e.kind, ErrorKind::BadRequest);
    assert_eq!(e.message, "yt-dlp not available: no such file");
    let e = probe_verdict(true, false, false, "HTTP 403").unwrap_err();
    assert_eq!(e.kind, ErrorKind::BadRequest);
    assert_eq!(e.message, "yt-dlp failed: HTTP 403");
    let e = probe_verdict(true, true, false, "expected value").unwrap_err();
    assert_eq!(e.kind, ErrorKind::Internal);
    assert_eq!(e.message, "expected value");
    assert!(probe_verdict(true, true, true, "").is_ok());
}

#[test]
fn probe_fallbacks_pick_unknowns_and_last_thumbnail() {
    let info = video_info_from_probe(
        "id1".to_string(),
        None,
        None,
        Some("Channel".to_string()),
        None,
        vec![
            YtDlpThumb { url: Some("first".to_string()) },
            YtDlpThumb { url: Some("last".to_string()) },
        ],
        Some(95),
    );
    assert_eq!(info.title, "Unknown");
    assert_eq!(info.artist, "Channel");
    assert_eq!(info.thumbnail_url.as_deref(), Some("last"));
    assert_eq!(info.duration, Some(95));
}

#[test]
fn added_item_replaces_empty_sanitized_titles() {
    let info = VideoInfo {
        id: "id1".to_string(),
        title: "???".to_string(),
        artist: "Good Artist".to_string(),
        thumbnail_url: None,
        duration: None,
    };
    let item = prepare_added_item(info, "https://example.invalid/x".to_string());
    assert_eq!(item.title, "Unknown");
    assert_eq!(item.artist, "Good Artist");
    assert!(matches!(item.state, DownloadState::Waiting));
    assert_eq!(item.progress, None);
    assert_eq!(item.error, None);
}

#[test]
fn row_item_prefers_row_fields() {
    let info = VideoInfo {
        id: "id1".to_string(),
        title: "Probed".to_string(),
        artist: "Probed Artist".to_string(),
        thumbnail_url: None,
        duration: None,
    };
    let row = MusicRow {
        title: Some("Row/Title".to_string()),
        artist: None,
        youtube_url: "https://example.invalid/x".to_string(),
    };
    let item = item_from_row(&row, info);
    assert_eq!(item.title, "RowTitle");
    assert_eq!(item.artist, "Probed Artist");
}

#[test]
fn mime_sniffing_and_tag_kinds() {
    assert_eq!(detect_mime(&[0x89, 0x50, 0x4e, 0x47, 1, 2]), ImageKind::Png);
    assert_eq!(detect_mime(&[0xff, 0xd8, 0xff, 0xe0]), ImageKind::Jpeg);
    assert_eq!(detect_mime(&[]), ImageKind::Jpeg);
    assert_eq!(tag_kind_for_extension("mp3"), TagKind::Id3v2);
    assert_eq!(tag_kind_for_extension("wav"), TagKind::Id3v2);
    assert_eq!(tag_kind_for_extension("m4a"), TagKind::Mp4Ilst);
    assert_eq!(tag_kind_for_extension("mp4"), TagKind::Mp4Ilst);
    assert_eq!(tag_kind_for_extension("flac"), TagKind::VorbisComments);
    assert_eq!(tag_kind_for_extension("opus"), TagKind::Id3v2);
}
