//! The download worker's decisions: the names and arguments handed to
//! the external extraction tool, the location of the produced file, the
//! verdict on the attempt, the store touchpoints of one item's
//! lifecycle, and the lifecycle laws.

use vstd::prelude::*;

use crate::errors::AppError;
use crate::item::DownloadState;
use crate::item::ItemView;
use crate::item::FULL_MILLI;
use crate::queue::has_id;
use crate::queue::queue_wf;
use crate::queue::spec_set_progress;
use crate::queue::spec_transition;
use crate::queue::Queue;
use crate::sanitize::sanitize_spec;
use crate::sanitize::sanitize_text;
use crate::strutil::starts_with_str;
use crate::strutil::str_eq;

verus! {

/// `p` is a prefix of `s`.
pub open spec fn is_prefix(p: Seq<char>, s: Seq<char>) -> bool {
    s.len() >= p.len() && s.subrange(0, p.len() as int) == p
}

/// Some entry equals this name exactly.
pub open spec fn contains_name(entries: Seq<Seq<char>>, name: Seq<char>) -> bool {
    exists|i: int| 0 <= i < entries.len() && entries[i] == name
}

/// The worker's file names for one item: the sanitized title, the output
/// template handed to the external tool, and the exact file name the
/// worker expects the tool to produce. All three use the same sanitized
/// title, which keeps the expected-file lookup consistent with what was
/// requested.
pub fn plan_output(title: &str, format: &str) -> (r: (String, String, String))
    ensures
        r.0@ == sanitize_spec(title@),
        r.1@ == sanitize_spec(title@) + ".%(ext)s"@,
        r.2@ == sanitize_spec(title@) + "."@ + format@,
{
    let clean = sanitize_text(title);
    let template = clean.clone().concat(".%(ext)s");
    let expected = clean.clone().concat(".").concat(format);
    (clean, template, expected)
}

/// The argument list for one download invocation of the external tool:
/// strip to audio, requested format, best quality, single-item mode,
/// line-buffered progress, and the output template.
pub fn build_download_args(url: &str, format: &str, template: &str) -> (r: Vec<String>)
    ensures
        r@.len() == 11,
        r@[0]@ == "-x"@,
        r@[1]@ == "--audio-format"@,
        r@[2]@ == format@,
        r@[3]@ == "--audio-quality"@,
        r@[4]@ == "0"@,
        r@[5]@ == "--no-playlist"@,
        r@[6]@ == "--progress"@,
        r@[7]@ == "--newline"@,
        r@[8]@ == "-o"@,
        r@[9]@ == template@,
        r@[10]@ == url@,
{
    let mut args: Vec<String> = Vec::new();
    args.push("-x".to_owned());
    args.push("--audio-format".to_owned());
    args.push(format.to_owned());
    args.push("--audio-quality".to_owned());
    args.push("0".to_owned());
    args.push("--no-playlist".to_owned());
    args.push("--progress".to_owned());
    args.push("--newline".to_owned());
    args.push("-o".to_owned());
    args.push(template.to_owned());
    args.push(url.to_owned());
    args
}

/// Picks the produced file out of a directory listing: the exact
/// expected name when present, otherwise the first entry whose name
/// starts with the sanitized title and a dot, otherwise nothing.
pub fn locate_download(entries: &Vec<String>, clean_title: &str, format: &str) -> (r: Option<
    String,
>)
    ensures
        ({
            let names = entries.deep_view();
            let expected = clean_title@ + "."@ + format@;
            let stem = clean_title@ + "."@;
            match r {
                Some(name) => (name@ == expected && contains_name(names, expected)) || (
                !contains_name(names, expected) && is_prefix(stem, name@) && exists|i: int|
                    0 <= i < names.len() && names[i] == name@ && (forall|l: int|
                        0 <= l < i ==> !is_prefix(stem, #[trigger] names[l]))),
                None => !contains_name(names, expected) && forall|l: int|
                    0 <= l < names.len() ==> !is_prefix(stem, #[trigger] names[l]),
            }
        }),
{
    let ghost names = entries.deep_view();
    let expected = clean_title.to_owned().concat(".").concat(format);
    let stem = clean_title.to_owned().concat(".");
    let n = entries.len();
    let mut i: usize = 0;
    while i < n
        invariant
            n == entries@.len(),
            names == entries.deep_view(),
            0 <= i <= n,
            expected@ == clean_title@ + "."@ + format@,
            forall|l: int| 0 <= l < i ==> #[trigger] names[l] != expected@,
        decreases n - i,
    {
        proof {
            assert(names[i as int] == entries@[i as int]@);
        }
        if str_eq(entries[i].as_str(), expected.as_str()) {
            return Some(expected);
        }
        i = i + 1;
    }
    proof {
        assert(!contains_name(names, expected@));
    }
    let mut l: usize = 0;
    while l < n
        invariant
            n == entries@.len(),
            names == entries.deep_view(),
            0 <= l <= n,
            stem@ == clean_title@ + "."@,
            !contains_name(names, clean_title@ + "."@ + format@),
            forall|m: int| 0 <= m < l ==> !is_prefix(stem@, #[trigger] names[m]),
        decreases n - l,
    {
        proof {
            assert(names[l as int] == entries@[l as int]@);
        }
        if starts_with_str(entries[l].as_str(), stem.as_str()) {
            let found = entries[l].clone();
            return Some(found);
        }
        l = l + 1;
    }
    None
}

/// Interprets the end of one download attempt: a launch failure or a
/// non-zero exit fails the item; after a claimed success the produced
/// file must still be found, else the item fails despite the tool's
/// claim — a deliberate consistency check against tool misbehaviour.
pub fn download_verdict(launch_ok: bool, exit_ok: bool, located: Option<String>) -> (r: Result<
    String,
    String,
>)
    ensures
        !launch_ok ==> (r matches Err(m) && m@ == "yt-dlp execution failed"@),
        launch_ok && !exit_ok ==> (r matches Err(m) && m@ == "yt-dlp download failed"@),
        launch_ok && exit_ok && located is None ==> (r matches Err(m) && m@
            == "downloaded file not found"@),
        launch_ok && exit_ok && located is Some ==> (r matches Ok(path) && path@
            == located->Some_0@),
{
    if !launch_ok {
        Err("yt-dlp execution failed".to_owned())
    } else if !exit_ok {
        Err("yt-dlp download failed".to_owned())
    } else {
        match located {
            Some(path) => Ok(path),
            None => Err("downloaded file not found".to_owned()),
        }
    }
}

/// The queue after a worker starts on an item: working, any stale
/// failure reason cleared, progress at exactly zero.
pub open spec fn spec_begin_work(q: Seq<ItemView>, id: Seq<char>) -> Seq<ItemView> {
    spec_set_progress(spec_transition(q, id, DownloadState::Working, None), id, 0)
}

/// Marks an item working at the start of its lifecycle: the failure
/// reason is cleared and progress is set to zero, also on an item that
/// was already complete and is being re-downloaded. A no-op on a
/// deleted id.
pub fn begin_work(queue: &mut Queue, id: &str)
    requires
        queue_wf(old(queue)@),
    ensures
        queue_wf(final(queue)@),
        final(queue)@ == spec_begin_work(old(queue)@, id@),
        ({
            let after = final(queue)@;
            forall|m: int|
                0 <= m < old(queue)@.len() && (#[trigger] old(queue)@[m]).id == id@ ==> after[m].state
                    == DownloadState::Working && after[m].progress == Some(0u64) && after[m].error
                    is None
        }),
        !has_id(old(queue)@, id@) ==> final(queue)@ == old(queue)@,
{
    queue.transition(id, DownloadState::Working, None);
    queue.set_progress(id, 0);
}

/// Records the terminal outcome of one worker: no failure reason means
/// the item completed (progress pinned to 100%), a reason means it
/// failed (progress cleared, reason recorded). A no-op on a deleted id.
pub fn record_outcome(queue: &mut Queue, id: &str, failure: Option<String>)
    requires
        queue_wf(old(queue)@),
    ensures
        queue_wf(final(queue)@),
        failure is None ==> final(queue)@ == spec_transition(
            old(queue)@,
            id@,
            DownloadState::Complete,
            None,
        ),
        failure matches Some(reason) ==> final(queue)@ == spec_transition(
            old(queue)@,
            id@,
            DownloadState::Failed,
            Some(reason@),
        ),
        !has_id(old(queue)@, id@) ==> final(queue)@ == old(queue)@,
{
    match failure {
        None => queue.transition(id, DownloadState::Complete, None),
        Some(reason) => queue.transition(id, DownloadState::Failed, Some(reason)),
    }
}

/// Progress updates applied in order to one item, as a worker's two
/// stream readers hand lines to the decoder.
pub open spec fn apply_progress_updates(q: Seq<ItemView>, id: Seq<char>, ups: Seq<u64>) -> Seq<
    ItemView,
>
    decreases ups.len(),
{
    if ups.len() == 0 {
        q
    } else {
        apply_progress_updates(spec_set_progress(q, id, ups[0]), id, ups.drop_first())
    }
}

/// Progress updates keep the queue's length and every item's identity,
/// and never touch an item with a different id.
proof fn lemma_updates_preserve(q: Seq<ItemView>, id: Seq<char>, ups: Seq<u64>)
    ensures
        apply_progress_updates(q, id, ups).len() == q.len(),
        forall|m: int|
            0 <= m < q.len() ==> (#[trigger] apply_progress_updates(q, id, ups)[m]).id == q[m].id,
        forall|m: int|
            0 <= m < q.len() && q[m].id != id ==> apply_progress_updates(q, id, ups)[m] == q[m],
    decreases ups.len(),
{
    if ups.len() > 0 {
        let q1 = spec_set_progress(q, id, ups[0]);
        assert(q1.len() == q.len());
        assert(forall|m: int| 0 <= m < q.len() ==> (#[trigger] q1[m]).id == q[m].id);
        lemma_updates_preserve(q1, id, ups.drop_first());
    }
}

/// Law: after a successful full lifecycle — start work, any number of
/// progress updates, record success — the item shows exactly state
/// Complete, progress 100%, and no error; every other item is untouched.
pub proof fn lemma_lifecycle_complete(q: Seq<ItemView>, id: Seq<char>, ups: Seq<u64>)
    ensures
        ({
            let started = spec_begin_work(q, id);
            let streamed = apply_progress_updates(started, id, ups);
            let done = spec_transition(streamed, id, DownloadState::Complete, None);
            &&& done.len() == q.len()
            &&& forall|m: int|
                0 <= m < q.len() && (#[trigger] q[m]).id == id ==> done[m].state
                    == DownloadState::Complete && done[m].progress == Some(FULL_MILLI)
                    && done[m].error is None
            &&& forall|m: int| 0 <= m < q.len() && (#[trigger] q[m]).id != id ==> done[m] == q[m]
        }),
{
    lemma_begin_preserves(q, id);
    lemma_updates_preserve(spec_begin_work(q, id), id, ups);
}

/// Law: after a failed lifecycle — start work, any number of progress
/// updates, record the failure reason — the item shows exactly state
/// Failed, no progress, and that reason; every other item is untouched.
pub proof fn lemma_lifecycle_failed(q: Seq<ItemView>, id: Seq<char>, ups: Seq<u64>, reason: Seq<
    char,
>)
    ensures
        ({
            let started = spec_begin_work(q, id);
            let streamed = apply_progress_updates(started, id, ups);
            let done = spec_transition(streamed, id, DownloadState::Failed, Some(reason));
            &&& done.len() == q.len()
            &&& forall|m: int|
                0 <= m < q.len() && (#[trigger] q[m]).id == id ==> done[m].state
                    == DownloadState::Failed && done[m].progress is None && done[m].error == Some(
                    reason,
                )
            &&& forall|m: int| 0 <= m < q.len() && (#[trigger] q[m]).id != id ==> done[m] == q[m]
        }),
{
    lemma_begin_preserves(q, id);
    lemma_updates_preserve(spec_begin_work(q, id), id, ups);
}

/// Starting work keeps the queue's length and every item's identity, and
/// never touches an item with a different id.
proof fn lemma_begin_preserves(q: Seq<ItemView>, id: Seq<char>)
    ensures
        spec_begin_work(q, id).len() == q.len(),
        forall|m: int| 0 <= m < q.len() ==> (#[trigger] spec_begin_work(q, id)[m]).id == q[m].id,
        forall|m: int| 0 <= m < q.len() && q[m].id != id ==> spec_begin_work(q, id)[m] == q[m],
{
    let t = spec_transition(q, id, DownloadState::Working, None);
    assert(t.len() == q.len());
    assert(forall|m: int| 0 <= m < q.len() ==> (#[trigger] t[m]).id == q[m].id);
}

} // verus!
