//! The queue store: single owner of the ordered collection of queue items.
//! All reads and writes go through the operations here; the shell wraps a
//! store value in its mutual-exclusion primitive and never holds a lock
//! across any suspension point.

use vstd::prelude::*;

use crate::errors::AppError;
use crate::errors::ErrorKind;
use crate::item::DownloadState;
use crate::item::ItemView;
use crate::item::QueueItem;
use crate::item::item_wf;
use crate::item::FULL_MILLI;
use crate::sanitize::sanitize_spec;
use crate::sanitize::sanitize_text;
use crate::strutil::lemma_filter_push;
use crate::strutil::str_eq;

verus! {

/// Some item in the sequence carries this id.
pub open spec fn has_id(q: Seq<ItemView>, id: Seq<char>) -> bool {
    exists|i: int| 0 <= i < q.len() && (#[trigger] q[i]).id == id
}

/// Every item is well formed and ids are pairwise distinct.
pub open spec fn queue_wf(q: Seq<ItemView>) -> bool {
    &&& forall|i: int| 0 <= i < q.len() ==> item_wf(#[trigger] q[i])
    &&& forall|i: int, j: int|
        0 <= i < j < q.len() ==> (#[trigger] q[i]).id != (#[trigger] q[j]).id
}

/// The progress an item shows right after entering `new_state`:
/// complete pins it to 100%, working keeps what was there (or starts at
/// zero), every other state clears it.
pub open spec fn next_progress(new_state: DownloadState, prev: Option<u64>) -> Option<u64> {
    match new_state {
        DownloadState::Complete => Some(FULL_MILLI),
        DownloadState::Working => if prev is Some {
            prev
        } else {
            Some(0u64)
        },
        _ => None,
    }
}

/// An item after a state transition.
pub open spec fn transitioned(
    v: ItemView,
    new_state: DownloadState,
    error: Option<Seq<char>>,
) -> ItemView {
    ItemView { state: new_state, progress: next_progress(new_state, v.progress), error, ..v }
}

/// The whole queue after `transition(id, new_state, error)`.
pub open spec fn spec_transition(
    q: Seq<ItemView>,
    id: Seq<char>,
    new_state: DownloadState,
    error: Option<Seq<char>>,
) -> Seq<ItemView> {
    q.map_values(
        |v: ItemView|
            if v.id == id {
                transitioned(v, new_state, error)
            } else {
                v
            },
    )
}

/// Progress values are clamped to the 0..=100% range.
pub open spec fn clamped_milli(m: u64) -> u64 {
    if m > FULL_MILLI {
        FULL_MILLI
    } else {
        m
    }
}

/// The whole queue after `set_progress(id, milli)`: only a working item
/// with that id is touched.
pub open spec fn spec_set_progress(q: Seq<ItemView>, id: Seq<char>, milli: u64) -> Seq<ItemView> {
    q.map_values(
        |v: ItemView|
            if v.id == id && v.state == DownloadState::Working {
                ItemView { progress: Some(clamped_milli(milli)), ..v }
            } else {
                v
            },
    )
}

/// A title/artist patch: a field applies only when it is given and its
/// sanitized form is non-empty.
pub open spec fn patched(
    v: ItemView,
    title: Option<Seq<char>>,
    artist: Option<Seq<char>>,
) -> ItemView {
    let t = match title {
        Some(raw) => if sanitize_spec(raw).len() > 0 {
            sanitize_spec(raw)
        } else {
            v.title
        },
        None => v.title,
    };
    let a = match artist {
        Some(raw) => if sanitize_spec(raw).len() > 0 {
            sanitize_spec(raw)
        } else {
            v.artist
        },
        None => v.artist,
    };
    ItemView { title: t, artist: a, ..v }
}

/// The whole queue after `update_fields(id, title, artist)`.
pub open spec fn spec_update_fields(
    q: Seq<ItemView>,
    id: Seq<char>,
    title: Option<Seq<char>>,
    artist: Option<Seq<char>>,
) -> Seq<ItemView> {
    q.map_values(
        |v: ItemView|
            if v.id == id {
                patched(v, title, artist)
            } else {
                v
            },
    )
}

/// Which items a clear mode keeps: `complete` and `failed` remove that
/// one terminal state; `all` and `non_working` both retain only working
/// items — the two modes are deliberately identical.
pub open spec fn clear_keeps(mode: Seq<char>, v: ItemView) -> bool {
    if mode == "complete"@ {
        v.state != DownloadState::Complete
    } else if mode == "failed"@ {
        v.state != DownloadState::Failed
    } else {
        v.state == DownloadState::Working
    }
}

/// The queue after `clear(mode)` with a valid mode.
pub open spec fn spec_clear(q: Seq<ItemView>, mode: Seq<char>) -> Seq<ItemView> {
    q.filter(|v: ItemView| clear_keeps(mode, v))
}

/// The four accepted clear modes.
pub open spec fn valid_clear_mode(mode: Seq<char>) -> bool {
    ||| mode == "complete"@
    ||| mode == "failed"@
    ||| mode == "all"@
    ||| mode == "non_working"@
}

/// Eligible for a download sweep: any item that is not currently being
/// worked on — waiting, complete and failed items are all re-selected.
pub open spec fn eligible_state(s: DownloadState) -> bool {
    s == DownloadState::Waiting || s == DownloadState::Complete || s == DownloadState::Failed
}

/// The ids the orchestrator selects, in queue order.
pub open spec fn spec_eligible_ids(q: Seq<ItemView>) -> Seq<Seq<char>> {
    q.filter(|v: ItemView| eligible_state(v.state)).map_values(|v: ItemView| v.id)
}

/// Mapping over a sequence extended by one element appends the mapped
/// element.
proof fn lemma_map_push<A, B>(pre: Seq<A>, x: A, f: spec_fn(A) -> B)
    ensures
        pre.push(x).map_values(f) == pre.map_values(f).push(f(x)),
{
    let lhs = pre.push(x).map_values(f);
    let rhs = pre.map_values(f).push(f(x));
    assert(lhs.len() == rhs.len());
    assert forall|k: int| 0 <= k < lhs.len() implies lhs[k] == rhs[k] by {
        if k < pre.len() {
            assert(pre.push(x)[k] == pre[k]);
        } else {
            assert(pre.push(x)[k] == x);
        }
    }
    assert(lhs =~= rhs);
}

/// A sequence whose elements all satisfy the predicate filters to itself.
proof fn lemma_filter_all<A>(s: Seq<A>, p: spec_fn(A) -> bool)
    requires
        forall|i: int| 0 <= i < s.len() ==> p(#[trigger] s[i]),
    ensures
        s.filter(p) == s,
    decreases s.len(),
{
    reveal(Seq::filter);
    if s.len() > 0 {
        assert(forall|i: int| 0 <= i < s.drop_last().len() ==> p(#[trigger] s.drop_last()[i]));
        lemma_filter_all(s.drop_last(), p);
        assert(s.filter(p) =~= s);
    } else {
        assert(s.filter(p) =~= s);
    }
}

/// Every element of a filtered sequence occurs in the unfiltered one.
proof fn lemma_filter_sub<A>(s: Seq<A>, p: spec_fn(A) -> bool)
    ensures
        forall|k: int| 0 <= k < s.filter(p).len() ==> s.contains(#[trigger] s.filter(p)[k]),
    decreases s.len(),
{
    reveal(Seq::filter);
    if s.len() > 0 {
        let rest = s.drop_last();
        lemma_filter_sub(rest, p);
        assert forall|k: int| 0 <= k < s.filter(p).len() implies s.contains(
            #[trigger] s.filter(p)[k],
        ) by {
            if p(s.last()) && k == s.filter(p).len() - 1 {
                assert(s.filter(p)[k] == s.last());
                assert(s[s.len() - 1] == s.last());
            } else {
                assert(s.filter(p)[k] == rest.filter(p)[k]);
                assert(rest.contains(rest.filter(p)[k]));
                let j = choose|j: int| 0 <= j < rest.len() && rest[j] == rest.filter(p)[k];
                assert(s[j] == rest[j]);
            }
        }
    }
}

/// Filtering a well-formed queue leaves a well-formed queue.
proof fn lemma_queue_wf_filter(q: Seq<ItemView>, p: spec_fn(ItemView) -> bool)
    requires
        queue_wf(q),
    ensures
        queue_wf(q.filter(p)),
    decreases q.len(),
{
    reveal(Seq::filter);
    if q.len() > 0 {
        let rest = q.drop_last();
        assert(queue_wf(rest));
        lemma_queue_wf_filter(rest, p);
        if p(q.last()) {
            lemma_filter_sub(rest, p);
            assert forall|i: int, j: int|
                0 <= i < j < q.filter(p).len() implies (#[trigger] q.filter(p)[i]).id != (
            #[trigger] q.filter(p)[j]).id by {
                if j == q.filter(p).len() - 1 {
                    assert(q.filter(p)[j] == q.last());
                    assert(q.filter(p)[i] == rest.filter(p)[i]);
                    assert(rest.contains(rest.filter(p)[i]));
                    let m = choose|m: int| 0 <= m < rest.len() && rest[m] == rest.filter(p)[i];
                    assert(q[m] == rest[m]);
                    assert(q[m].id != q[q.len() - 1].id);
                } else {
                    assert(q.filter(p)[i] == rest.filter(p)[i]);
                    assert(q.filter(p)[j] == rest.filter(p)[j]);
                }
            }
        }
    }
}

/// The queue store. The backing vector is reachable only through the
/// operations below.
pub struct Queue {
    items: Vec<QueueItem>,
}

impl View for Queue {
    type V = Seq<ItemView>;

    closed spec fn view(&self) -> Seq<ItemView> {
        self.items@.map_values(|it: QueueItem| it@)
    }
}

impl Queue {
    /// An empty queue.
    pub fn new() -> (r: Queue)
        ensures
            r@ == Seq::<ItemView>::empty(),
            queue_wf(r@),
    {
        let q = Queue { items: Vec::new() };
        proof {
            assert(q@ =~= Seq::<ItemView>::empty());
        }
        q
    }

    /// Number of items in the queue.
    pub fn len(&self) -> (r: usize)
        ensures
            r == self@.len(),
    {
        self.items.len()
    }

    /// A snapshot copy of the whole queue, in order; no side effects.
    pub fn list(&self) -> (r: Vec<QueueItem>)
        ensures
            r@.map_values(|it: QueueItem| it@) == self@,
    {
        let n = self.items.len();
        let mut out: Vec<QueueItem> = Vec::new();
        let mut i: usize = 0;
        while i < n
            invariant
                n == self.items@.len(),
                0 <= i <= n,
                out@.map_values(|it: QueueItem| it@) =~= self@.take(i as int),
            decreases n - i,
        {
            let item = self.items[i].duplicate();
            proof {
                assert(self@[i as int] == self.items@[i as int]@);
                assert(item@ == self@[i as int]);
            }
            out.push(item);
            proof {
                assert(out@.map_values(|it: QueueItem| it@).len() == out@.len());
                assert(self@.take(i as int).len() == i);
                assert(out@.map_values(|it: QueueItem| it@) =~= self@.take(i + 1));
            }
            i = i + 1;
        }
        proof {
            assert(self@.take(n as int) =~= self@);
        }
        out
    }

    /// The index of the item with this id, if any.
    fn find_index(&self, id: &str) -> (r: Option<usize>)
        ensures
            match r {
                Some(i) => i < self@.len() && self@[i as int].id == id@,
                None => !has_id(self@, id@),
            },
    {
        let n = self.items.len();
        let mut i: usize = 0;
        while i < n
            invariant
                n == self.items@.len(),
                0 <= i <= n,
                forall|j: int| 0 <= j < i ==> (#[trigger] self@[j]).id != id@,
            decreases n - i,
        {
            if str_eq(self.items[i].id.as_str(), id) {
                return Some(i);
            }
            i = i + 1;
        }
        None
    }

    /// Appends a new item, unless its id is already present; a duplicate
    /// id is rejected with `Conflict` and leaves the queue unchanged.
    pub fn insert(&mut self, item: QueueItem) -> (r: Result<QueueItem, AppError>)
        requires
            queue_wf(old(self)@),
            item_wf(item@),
        ensures
            queue_wf(final(self)@),
            has_id(old(self)@, item@.id) ==> (r matches Err(e) && e.kind == ErrorKind::Conflict
                && final(self)@ == old(self)@),
            !has_id(old(self)@, item@.id) ==> final(self)@ == old(self)@.push(item@) && (r matches
                Ok(stored) && stored@ == item@),
    {
        match self.find_index(item.id.as_str()) {
            Some(_) => Err(AppError::conflict("queue already contains this video".to_owned())),
            None => {
                let copy = item.duplicate();
                self.items.push(copy);
                proof {
                    assert(self@ =~= old(self)@.push(item@));
                }
                Ok(item)
            },
        }
    }

    /// Applies non-empty sanitized title/artist patches to the item with
    /// this id; an unknown id fails with `NotFound`.
    pub fn update_fields(&mut self, id: &str, title: Option<String>, artist: Option<String>) -> (r:
        Result<QueueItem, AppError>)
        requires
            queue_wf(old(self)@),
        ensures
            queue_wf(final(self)@),
            final(self)@ == spec_update_fields(
                old(self)@,
                id@,
                title.deep_view(),
                artist.deep_view(),
            ),
            !has_id(old(self)@, id@) ==> (r matches Err(e) && e.kind == ErrorKind::NotFound
                && final(self)@ == old(self)@),
            has_id(old(self)@, id@) ==> (r matches Ok(it) && forall|i: int|
                0 <= i < old(self)@.len() && (#[trigger] old(self)@[i]).id == id@ ==> it@
                    == patched(old(self)@[i], title.deep_view(), artist.deep_view())),
    {
        let ghost orig = self@;
        match self.find_index(id) {
            None => {
                proof {
                    assert(self@ =~= spec_update_fields(
                        orig,
                        id@,
                        title.deep_view(),
                        artist.deep_view(),
                    ));
                }
                Err(AppError::not_found("queue item not found".to_owned()))
            },
            Some(i) => {
                let item = &mut self.items[i];
                if let Some(raw) = title {
                    let clean = sanitize_text(raw.as_str());
                    if clean.unicode_len() > 0 {
                        item.title = clean;
                    }
                }
                if let Some(raw) = artist {
                    let clean = sanitize_text(raw.as_str());
                    if clean.unicode_len() > 0 {
                        item.artist = clean;
                    }
                }
                let stored = self.items[i].duplicate();
                proof {
                    let ghost k = choose|k: int| 0 <= k < orig.len() && orig[k].id == id@;
                    assert(orig[i as int].id == id@);
                    assert(k == i as int);
                    assert(self@ =~= spec_update_fields(
                        orig,
                        id@,
                        title.deep_view(),
                        artist.deep_view(),
                    ));
                }
                Ok(stored)
            },
        }
    }

    /// Removes the item with this id; an unknown id fails with `NotFound`.
    pub fn remove(&mut self, id: &str) -> (r: Result<(), AppError>)
        requires
            queue_wf(old(self)@),
        ensures
            queue_wf(final(self)@),
            final(self)@ == old(self)@.filter(|v: ItemView| v.id != id@),
            r is Ok <==> has_id(old(self)@, id@),
            r matches Err(e) ==> (e.kind == ErrorKind::NotFound && final(self)@ == old(self)@),
    {
        let ghost orig = self@;
        let ghost pred = |v: ItemView| v.id != id@;
        let found = match self.find_index(id) {
            Some(_) => true,
            None => false,
        };
        if !found {
            proof {
                lemma_filter_all(orig, pred);
            }
            return Err(AppError::not_found("queue item not found".to_owned()));
        }
        let n = self.items.len();
        let mut kept: Vec<QueueItem> = Vec::new();
        let mut i: usize = 0;
        while i < n
            invariant
                n == self.items@.len(),
                orig == self@,
                0 <= i <= n,
                kept@.map_values(|it: QueueItem| it@) =~= orig.take(i as int).filter(pred),
                pred == (|v: ItemView| v.id != id@),
            decreases n - i,
        {
            proof {
                assert(orig.take(i + 1) =~= orig.take(i as int).push(orig[i as int]));
                lemma_filter_push(orig.take(i as int), orig[i as int], pred);
            }
            if !str_eq(self.items[i].id.as_str(), id) {
                kept.push(self.items[i].duplicate());
            }
            proof {
                assert(kept@.map_values(|it: QueueItem| it@) =~= orig.take(i + 1).filter(pred));
            }
            i = i + 1;
        }
        self.items = kept;
        proof {
            assert(orig.take(n as int) =~= orig);
            lemma_queue_wf_filter(orig, pred);
        }
        Ok(())
    }

    /// Removes the items selected by `mode` and returns a snapshot of
    /// what remains; an unknown mode fails with `BadRequest` and changes
    /// nothing.
    pub fn clear(&mut self, mode: &str) -> (r: Result<Vec<QueueItem>, AppError>)
        requires
            queue_wf(old(self)@),
        ensures
            queue_wf(final(self)@),
            valid_clear_mode(mode@) ==> final(self)@ == spec_clear(old(self)@, mode@) && (
            r matches Ok(items) && items@.map_values(|it: QueueItem| it@) == final(self)@),
            !valid_clear_mode(mode@) ==> (r matches Err(e) && e.kind == ErrorKind::BadRequest
                && e.message@ == "unknown clear mode"@ && final(self)@ == old(self)@),
    {
        let is_complete = str_eq(mode, "complete");
        let is_failed = str_eq(mode, "failed");
        let is_all = str_eq(mode, "all");
        let is_non_working = str_eq(mode, "non_working");
        if !is_complete && !is_failed && !is_all && !is_non_working {
            return Err(AppError::bad_request("unknown clear mode".to_owned()));
        }
        let ghost orig = self@;
        let ghost pred = |v: ItemView| clear_keeps(mode@, v);
        let n = self.items.len();
        let mut kept: Vec<QueueItem> = Vec::new();
        let mut i: usize = 0;
        while i < n
            invariant
                n == self.items@.len(),
                orig == self@,
                0 <= i <= n,
                kept@.map_values(|it: QueueItem| it@) =~= orig.take(i as int).filter(pred),
                pred == (|v: ItemView| clear_keeps(mode@, v)),
                is_complete == (mode@ == "complete"@),
                is_failed == (mode@ == "failed"@),
            decreases n - i,
        {
            proof {
                assert(orig.take(i + 1) =~= orig.take(i as int).push(orig[i as int]));
                lemma_filter_push(orig.take(i as int), orig[i as int], pred);
            }
            let keep = if is_complete {
                self.items[i].state != DownloadState::Complete
            } else if is_failed {
                self.items[i].state != DownloadState::Failed
            } else {
                self.items[i].state == DownloadState::Working
            };
            if keep {
                kept.push(self.items[i].duplicate());
            }
            proof {
                assert(kept@.map_values(|it: QueueItem| it@) =~= orig.take(i + 1).filter(pred));
            }
            i = i + 1;
        }
        self.items = kept;
        proof {
            assert(orig.take(n as int) =~= orig);
            lemma_queue_wf_filter(orig, pred);
        }
        let snapshot = self.list();
        Ok(snapshot)
    }

    /// Sets the state of the item with this id, records or clears its
    /// failure reason, and recomputes its progress. Doing this on an
    /// absent id is a no-op, never an error: a worker racing with a
    /// delete must not resurrect the item.
    pub fn transition(&mut self, id: &str, new_state: DownloadState, error: Option<String>)
        requires
            queue_wf(old(self)@),
            error is Some ==> new_state == DownloadState::Failed,
        ensures
            queue_wf(final(self)@),
            final(self)@ == spec_transition(old(self)@, id@, new_state, error.deep_view()),
            !has_id(old(self)@, id@) ==> final(self)@ == old(self)@,
    {
        let ghost orig = self@;
        match self.find_index(id) {
            None => {
                proof {
                    assert(self@ =~= spec_transition(orig, id@, new_state, error.deep_view()));
                }
            },
            Some(i) => {
                let item = &mut self.items[i];
                item.state = new_state;
                let next = match new_state {
                    DownloadState::Complete => Some(FULL_MILLI),
                    DownloadState::Working => match item.progress {
                        Some(p) => Some(p),
                        None => Some(0u64),
                    },
                    _ => None,
                };
                item.progress = next;
                item.error = error;
                proof {
                    assert forall|j: int| 0 <= j < orig.len() && j != i implies orig[j].id != id@
                    by {
                        assert(orig[i as int].id == id@);
                    }
                    assert(self@ =~= spec_transition(orig, id@, new_state, error.deep_view()));
                }
            },
        }
    }

    /// Updates the progress of the item with this id, clamped to the
    /// 0..=100% range; meaningful only while the item is working, a
    /// no-op (never an error) on an absent or non-working item.
    pub fn set_progress(&mut self, id: &str, milli: u64)
        requires
            queue_wf(old(self)@),
        ensures
            queue_wf(final(self)@),
            final(self)@ == spec_set_progress(old(self)@, id@, milli),
            !has_id(old(self)@, id@) ==> final(self)@ == old(self)@,
    {
        let ghost orig = self@;
        match self.find_index(id) {
            None => {
                proof {
                    assert(self@ =~= spec_set_progress(orig, id@, milli));
                }
            },
            Some(i) => {
                let item = &mut self.items[i];
                if item.state == DownloadState::Working {
                    let clamped = if milli > FULL_MILLI {
                        FULL_MILLI
                    } else {
                        milli
                    };
                    item.progress = Some(clamped);
                }
                proof {
                    assert forall|j: int| 0 <= j < orig.len() && j != i implies orig[j].id != id@
                    by {
                        assert(orig[i as int].id == id@);
                    }
                    assert(self@ =~= spec_set_progress(orig, id@, milli));
                }
            },
        }
    }

    /// The ids the orchestrator selects for a sweep, in queue order:
    /// every item that is not currently working.
    pub fn eligible_ids(&self) -> (r: Vec<String>)
        ensures
            r@.map_values(|s: String| s@) == spec_eligible_ids(self@),
    {
        let ghost pred = |v: ItemView| eligible_state(v.state);
        let n = self.items.len();
        let mut out: Vec<String> = Vec::new();
        let mut i: usize = 0;
        while i < n
            invariant
                n == self.items@.len(),
                0 <= i <= n,
                out@.map_values(|s: String| s@) =~= self@.take(i as int).filter(pred).map_values(
                    |v: ItemView| v.id,
                ),
                pred == (|v: ItemView| eligible_state(v.state)),
            decreases n - i,
        {
            let ghost base = self@.take(i as int).filter(pred);
            let ghost v_i = self@[i as int];
            let ghost pre = out@;
            proof {
                assert(self@.take(i + 1) =~= self@.take(i as int).push(v_i));
                lemma_filter_push(self@.take(i as int), v_i, pred);
                assert(self@[i as int] == self.items@[i as int]@);
            }
            let state = self.items[i].state;
            if state == DownloadState::Waiting || state == DownloadState::Complete || state
                == DownloadState::Failed {
                let id = self.items[i].id.clone();
                let ghost idval = id;
                proof {
                    assert(eligible_state(v_i.state));
                }
                out.push(id);
                proof {
                    lemma_map_push(pre, idval, |s: String| s@);
                    lemma_map_push(base, v_i, |v: ItemView| v.id);
                    assert(self@.take(i + 1).filter(pred) == base.push(v_i));
                    assert(out@.map_values(|s: String| s@) =~= self@.take(i + 1).filter(
                        pred,
                    ).map_values(|v: ItemView| v.id));
                }
            } else {
                proof {
                    assert(!eligible_state(v_i.state));
                    assert(self@.take(i + 1).filter(pred) == base);
                    assert(out@.map_values(|s: String| s@) =~= self@.take(i + 1).filter(
                        pred,
                    ).map_values(|v: ItemView| v.id));
                }
            }
            i = i + 1;
        }
        proof {
            assert(self@.take(n as int) =~= self@);
        }
        out
    }
}

/// Law: clearing failed items removes every failed item and leaves every
/// other item — working ones included — untouched and in order.
pub proof fn lemma_clear_failed_exact(q: Seq<ItemView>)
    ensures
        forall|k: int|
            0 <= k < spec_clear(q, "failed"@).len() ==> (#[trigger] spec_clear(
                q,
                "failed"@,
            )[k]).state != DownloadState::Failed,
        forall|j: int|
            0 <= j < q.len() && (#[trigger] q[j]).state != DownloadState::Failed ==> spec_clear(
                q,
                "failed"@,
            ).contains(q[j]),
{
    reveal_strlit("failed");
    reveal_strlit("complete");
    assert("failed"@.len() == 6);
    assert("complete"@.len() == 8);
    assert("failed"@ != "complete"@);
    broadcast use vstd::seq_lib::group_filter_ensures;

    let p = |v: ItemView| clear_keeps("failed"@, v);
    assert forall|j: int|
        0 <= j < q.len() && (#[trigger] q[j]).state != DownloadState::Failed implies spec_clear(
        q,
        "failed"@,
    ).contains(q[j]) by {
        assert(p(q[j]));
    }
}

/// Law: clearing complete items removes every complete item only.
pub proof fn lemma_clear_complete_exact(q: Seq<ItemView>)
    ensures
        forall|k: int|
            0 <= k < spec_clear(q, "complete"@).len() ==> (#[trigger] spec_clear(
                q,
                "complete"@,
            )[k]).state != DownloadState::Complete,
        forall|j: int|
            0 <= j < q.len() && (#[trigger] q[j]).state != DownloadState::Complete ==> spec_clear(
                q,
                "complete"@,
            ).contains(q[j]),
{
    reveal_strlit("failed");
    reveal_strlit("complete");
    broadcast use vstd::seq_lib::group_filter_ensures;

    let p = |v: ItemView| clear_keeps("complete"@, v);
    assert forall|j: int|
        0 <= j < q.len() && (#[trigger] q[j]).state != DownloadState::Complete implies spec_clear(
        q,
        "complete"@,
    ).contains(q[j]) by {
        assert(p(q[j]));
    }
}

/// Law: a fresh sweep re-selects every non-working item — in particular,
/// after one item failed and another completed, both are picked up again.
pub proof fn lemma_eligible_retry_all(q: Seq<ItemView>, i: int)
    requires
        0 <= i < q.len(),
        eligible_state(q[i].state),
    ensures
        spec_eligible_ids(q).contains(q[i].id),
{
    broadcast use vstd::seq_lib::group_filter_ensures;

    let p = |v: ItemView| eligible_state(v.state);
    assert(p(q[i]));
    assert(q.filter(p).contains(q[i]));
    let k = choose|k: int| 0 <= k < q.filter(p).len() && q.filter(p)[k] == q[i];
    assert(spec_eligible_ids(q)[k] == q[i].id);
}

/// Law: transitioning or updating progress under an id no longer in the
/// queue changes nothing at all — a worker racing with a delete never
/// errors and never resurrects the item.
pub proof fn lemma_absent_id_is_noop(
    q: Seq<ItemView>,
    id: Seq<char>,
    new_state: DownloadState,
    error: Option<Seq<char>>,
    milli: u64,
)
    requires
        !has_id(q, id),
    ensures
        spec_transition(q, id, new_state, error) == q,
        spec_set_progress(q, id, milli) == q,
{
    assert(spec_transition(q, id, new_state, error) =~= q);
    assert(spec_set_progress(q, id, milli) =~= q);
}

} // verus!
