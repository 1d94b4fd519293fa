//! The queue item: one user-requested download and its lifecycle state.

use vstd::prelude::*;

verus! {

/// Progress is tracked in thousandths of a percent; a finished download
/// is at exactly 100%.
pub const FULL_MILLI: u64 = 100000;

/// Lifecycle states of a queue item.
#[derive(Clone, Copy, PartialEq, Eq, Structural, Debug)]
pub enum DownloadState {
    /// Queued, never started since it was added (or re-queued).
    Waiting,
    /// A worker currently owns the item and is downloading it.
    Working,
    /// The download finished and the file was located.
    Complete,
    /// The download failed; `error` carries the reason.
    Failed,
}

/// One user-requested download.
#[derive(Clone, Debug)]
pub struct QueueItem {
    /// Stable identifier derived from the source; unique within the queue.
    pub id: String,
    /// The original user-supplied locator.
    pub youtube_url: String,
    /// Display/tagging title, mutable before download.
    pub title: String,
    /// Display/tagging artist, mutable before download.
    pub artist: String,
    /// Cosmetic tagging input; never state-relevant.
    pub thumbnail_url: Option<String>,
    /// Informational length in whole seconds.
    pub duration: Option<u64>,
    /// Lifecycle state.
    pub state: DownloadState,
    /// Thousandths of a percent in `0 ..= FULL_MILLI`; present only while
    /// `Working` or at `Complete` (then exactly `FULL_MILLI`).
    pub progress: Option<u64>,
    /// Failure reason; present only when `Failed`.
    pub error: Option<String>,
}

/// The mathematical model of a queue item.
pub ghost struct ItemView {
    pub id: Seq<char>,
    pub youtube_url: Seq<char>,
    pub title: Seq<char>,
    pub artist: Seq<char>,
    pub thumbnail_url: Option<Seq<char>>,
    pub duration: Option<u64>,
    pub state: DownloadState,
    pub progress: Option<u64>,
    pub error: Option<Seq<char>>,
}

impl View for QueueItem {
    type V = ItemView;

    open spec fn view(&self) -> ItemView {
        ItemView {
            id: self.id@,
            youtube_url: self.youtube_url@,
            title: self.title@,
            artist: self.artist@,
            thumbnail_url: self.thumbnail_url.deep_view(),
            duration: self.duration,
            state: self.state,
            progress: self.progress,
            error: self.error.deep_view(),
        }
    }
}

/// The per-item invariant: progress is absent unless the item is working
/// or complete (then exactly 100%), never exceeds 100%, and a failure
/// reason is recorded only on failed items.
pub open spec fn item_wf(v: ItemView) -> bool {
    &&& match v.state {
        DownloadState::Waiting => v.progress is None && v.error is None,
        DownloadState::Working => v.progress is Some && v.error is None,
        DownloadState::Complete => v.progress == Some(FULL_MILLI) && v.error is None,
        DownloadState::Failed => v.progress is None,
    }
    &&& (v.progress is Some ==> v.progress.unwrap() <= FULL_MILLI)
}

impl QueueItem {
    /// An equal, independently owned copy of the item.
    pub fn duplicate(&self) -> (r: QueueItem)
        ensures
            r@ == self@,
    {
        QueueItem {
            id: self.id.clone(),
            youtube_url: self.youtube_url.clone(),
            title: self.title.clone(),
            artist: self.artist.clone(),
            thumbnail_url: match &self.thumbnail_url {
                Some(s) => Some(s.clone()),
                None => None,
            },
            duration: self.duration,
            state: self.state,
            progress: self.progress,
            error: match &self.error {
                Some(s) => Some(s.clone()),
                None => None,
            },
        }
    }

    /// A fresh item as the "add" operation creates it: waiting, no
    /// progress, no error.
    pub fn fresh(
        id: String,
        youtube_url: String,
        title: String,
        artist: String,
        thumbnail_url: Option<String>,
        duration: Option<u64>,
    ) -> (r: QueueItem)
        ensures
            r@ == (ItemView {
                id: id@,
                youtube_url: youtube_url@,
                title: title@,
                artist: artist@,
                thumbnail_url: thumbnail_url.deep_view(),
                duration,
                state: DownloadState::Waiting,
                progress: None,
                error: None,
            }),
            item_wf(r@),
    {
        QueueItem {
            id,
            youtube_url,
            title,
            artist,
            thumbnail_url,
            duration,
            state: DownloadState::Waiting,
            progress: None,
            error: None,
        }
    }
}

} // verus!
