//! Plain request and response shapes of the external interface. The
//! shell owns the serialized copies; these carry the values the library
//! works on.

use vstd::prelude::*;

verus! {

/// Body of an "add by URL" request.
pub struct AddRequest {
    pub url: String,
}

/// Body of an "update title/artist by id" request.
pub struct UpdateRequest {
    pub id: String,
    pub title: Option<String>,
    pub artist: Option<String>,
}

/// Body of a "clear by mode" request.
pub struct ClearRequest {
    pub mode: String,
}

/// Body of a "start downloads" request.
pub struct DownloadRequest {
    pub format: String,
}

/// Body of an "export list" request.
pub struct ExportRequest {
    pub format: String,
}

/// Reply to "start downloads": how many items were accepted; their
/// outcomes are observable only through later list calls.
pub struct DownloadResponse {
    pub started: usize,
}

/// Reply carrying the default download directory.
pub struct DefaultDirResponse {
    pub path: String,
}

/// Reply carrying the URL under which a preview is served.
pub struct PreviewResponse {
    pub url: String,
}

/// Reply to a version/consistency probe.
pub struct VersionResponse {
    pub current: String,
    pub latest: Option<String>,
    pub is_latest: Option<bool>,
    pub consistency: Option<String>,
    pub release_url: Option<String>,
}

/// One thumbnail entry of the external tool's metadata probe.
pub struct YtDlpThumb {
    pub url: Option<String>,
}

/// The distilled metadata of one source, as the library consumes it.
#[derive(Clone)]
pub struct VideoInfo {
    pub id: String,
    pub title: String,
    pub artist: String,
    pub thumbnail_url: Option<String>,
    pub duration: Option<u64>,
}

} // verus!
