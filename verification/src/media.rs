//! Decisions around the external extraction tool's metadata and the
//! tagging hand-off: distilling a metadata probe, building fresh queue
//! items, sniffing cover-art image types, and choosing a tag container.

use vstd::prelude::*;

use crate::errors::AppError;
use crate::errors::ErrorKind;
use crate::item::DownloadState;
use crate::item::ItemView;
use crate::item::QueueItem;
use crate::item::item_wf;
use crate::port::MusicRow;
use crate::sanitize::sanitize_spec;
use crate::sanitize::sanitize_text;
use crate::strutil::str_eq;
use crate::types::VideoInfo;
use crate::types::YtDlpThumb;

verus! {

/// Distills a metadata probe into the values the library keeps: missing
/// title or artist fall back to "Unknown" (uploader before channel), the
/// thumbnail falls back to the last entry of the thumbnail list, and the
/// duration arrives already rounded to whole seconds.
pub fn video_info_from_probe(
    id: String,
    title: Option<String>,
    uploader: Option<String>,
    channel: Option<String>,
    thumbnail: Option<String>,
    thumbnails: Vec<YtDlpThumb>,
    duration: Option<u64>,
) -> (r: VideoInfo)
    ensures
        r.id == id,
        title is Some ==> r.title == title->Some_0,
        title is None ==> r.title@ == "Unknown"@,
        uploader is Some ==> r.artist == uploader->Some_0,
        uploader is None && channel is Some ==> r.artist == channel->Some_0,
        uploader is None && channel is None ==> r.artist@ == "Unknown"@,
        thumbnail is Some ==> r.thumbnail_url == thumbnail,
        thumbnail is None && thumbnails@.len() > 0 ==> r.thumbnail_url == thumbnails@.last().url,
        thumbnail is None && thumbnails@.len() == 0 ==> r.thumbnail_url is None,
        r.duration == duration,
{
    let mut thumbs = thumbnails;
    let picked_title = match title {
        Some(t) => t,
        None => "Unknown".to_owned(),
    };
    let picked_artist = match uploader {
        Some(u) => u,
        None => match channel {
            Some(c) => c,
            None => "Unknown".to_owned(),
        },
    };
    let picked_thumb = match thumbnail {
        Some(t) => Some(t),
        None => match thumbs.pop() {
            Some(last) => last.url,
            None => None,
        },
    };
    VideoInfo {
        id,
        title: picked_title,
        artist: picked_artist,
        thumbnail_url: picked_thumb,
        duration,
    }
}

/// Builds the queue item an "add by URL" request inserts: sanitized
/// title and artist, with "Unknown" replacing anything sanitization
/// leaves empty; waiting, no progress, no error.
pub fn prepare_added_item(info: VideoInfo, url: String) -> (r: QueueItem)
    ensures
        item_wf(r@),
        r@ == (ItemView {
            id: info.id@,
            youtube_url: url@,
            title: if sanitize_spec(info.title@).len() == 0 {
                "Unknown"@
            } else {
                sanitize_spec(info.title@)
            },
            artist: if sanitize_spec(info.artist@).len() == 0 {
                "Unknown"@
            } else {
                sanitize_spec(info.artist@)
            },
            thumbnail_url: info.thumbnail_url.deep_view(),
            duration: info.duration,
            state: DownloadState::Waiting,
            progress: None,
            error: None,
        }),
{
    let title = sanitize_text(info.title.as_str());
    let artist = sanitize_text(info.artist.as_str());
    QueueItem::fresh(
        info.id,
        url,
        if title.unicode_len() == 0 {
            "Unknown".to_owned()
        } else {
            title
        },
        if artist.unicode_len() == 0 {
            "Unknown".to_owned()
        } else {
            artist
        },
        info.thumbnail_url,
        info.duration,
    )
}

/// Builds the queue item an import row inserts: the row's own title and
/// artist win over the probed metadata, and both are sanitized.
pub fn item_from_row(row: &MusicRow, info: VideoInfo) -> (r: QueueItem)
    ensures
        item_wf(r@),
        r@ == (ItemView {
            id: info.id@,
            youtube_url: row.youtube_url@,
            title: sanitize_spec(
                match row.title {
                    Some(t) => t@,
                    None => info.title@,
                },
            ),
            artist: sanitize_spec(
                match row.artist {
                    Some(a) => a@,
                    None => info.artist@,
                },
            ),
            thumbnail_url: info.thumbnail_url.deep_view(),
            duration: info.duration,
            state: DownloadState::Waiting,
            progress: None,
            error: None,
        }),
{
    let chosen_title = match &row.title {
        Some(t) => t.clone(),
        None => info.title,
    };
    let chosen_artist = match &row.artist {
        Some(a) => a.clone(),
        None => info.artist,
    };
    QueueItem::fresh(
        info.id,
        row.youtube_url.clone(),
        sanitize_text(chosen_title.as_str()),
        sanitize_text(chosen_artist.as_str()),
        info.thumbnail_url,
        info.duration,
    )
}

/// Classifies the end of a metadata probe: a tool that cannot launch or
/// exits non-zero is a user-facing error carrying the launch error or
/// the tool's own words; tool output that does not decode is an internal
/// error; otherwise the probe stands.
pub fn probe_verdict(launch_ok: bool, exit_ok: bool, decode_ok: bool, detail: &str) -> (r: Result<
    (),
    AppError,
>)
    ensures
        !launch_ok ==> (r matches Err(e) && e.kind == ErrorKind::BadRequest && e.message@
            == "yt-dlp not available: "@ + detail@),
        launch_ok && !exit_ok ==> (r matches Err(e) && e.kind == ErrorKind::BadRequest
            && e.message@ == "yt-dlp failed: "@ + detail@),
        launch_ok && exit_ok && !decode_ok ==> (r matches Err(e) && e.kind == ErrorKind::Internal
            && e.message@ == detail@),
        launch_ok && exit_ok && decode_ok ==> r is Ok,
{
    if !launch_ok {
        Err(AppError::bad_request("yt-dlp not available: ".to_owned().concat(detail)))
    } else if !exit_ok {
        Err(AppError::bad_request("yt-dlp failed: ".to_owned().concat(detail)))
    } else if !decode_ok {
        Err(AppError::internal(detail.to_owned()))
    } else {
        Ok(())
    }
}

/// The image kinds the tagger distinguishes when embedding cover art.
#[derive(Clone, Copy, PartialEq, Eq, Structural, Debug)]
pub enum ImageKind {
    Png,
    Jpeg,
}

/// The PNG file signature opens the byte stream.
pub open spec fn has_png_magic(b: Seq<u8>) -> bool {
    b.len() >= 4 && b[0] == 0x89u8 && b[1] == 0x50u8 && b[2] == 0x4eu8 && b[3] == 0x47u8
}

/// Sniffs cover-art bytes: a PNG signature means PNG; anything else is
/// treated as JPEG.
pub fn detect_mime(bytes: &[u8]) -> (r: ImageKind)
    ensures
        r == ImageKind::Png <==> has_png_magic(bytes@),
{
    if bytes.len() >= 4 && bytes[0] == 0x89 && bytes[1] == 0x50 && bytes[2] == 0x4e && bytes[3]
        == 0x47 {
        ImageKind::Png
    } else {
        ImageKind::Jpeg
    }
}

/// The tag containers the tagging collaborator writes.
#[derive(Clone, Copy, PartialEq, Eq, Structural, Debug)]
pub enum TagKind {
    Id3v2,
    Mp4Ilst,
    VorbisComments,
}

/// The tag container for a file extension: MP4 containers get ilst,
/// FLAC gets Vorbis comments, and everything else — mp3 and wav
/// included — gets ID3v2.
pub open spec fn tag_kind_spec(ext: Seq<char>) -> TagKind {
    if ext == "m4a"@ || ext == "mp4"@ {
        TagKind::Mp4Ilst
    } else if ext == "flac"@ {
        TagKind::VorbisComments
    } else {
        TagKind::Id3v2
    }
}

/// Picks the tag container for a produced file by its extension.
pub fn tag_kind_for_extension(ext: &str) -> (r: TagKind)
    ensures
        r == tag_kind_spec(ext@),
{
    if str_eq(ext, "m4a") || str_eq(ext, "mp4") {
        TagKind::Mp4Ilst
    } else if str_eq(ext, "flac") {
        TagKind::VorbisComments
    } else {
        TagKind::Id3v2
    }
}

} // verus!
