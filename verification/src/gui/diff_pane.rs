//! The diff pane: what it shows, what it waits for, and what it keeps for later.

use crate::gui::diff_cache;
use crate::gui::diff_cache::{CachedDiffPreview, DiffPreviewCache};
use crate::pager;
use crate::pager::DiffViewState;
use crate::text;
use vstd::prelude::*;

verus! {

/// How many diffs below the selection are loaded ahead.
pub const DIFF_PREFETCH_AHEAD: usize = 3;

/// How many diffs above the selection are loaded ahead.
pub const DIFF_PREFETCH_BEHIND: usize = 1;

/// How many diffs are loaded ahead at once.
pub const DIFF_PREFETCH_INFLIGHT_MAX: usize = 2;

/// The state of the diff pane.
#[derive(Debug)]
pub struct DiffPane {
    pub view: DiffViewState,
    pub cache: DiffPreviewCache,
    /// What was last asked for.
    pub last_key: String,
    /// What the view shows; it stays while something newer is loaded.
    pub displayed_key: String,
    pub loading: bool,
    /// When the loading began, in milliseconds of a clock.
    pub loading_since: Option<u64>,
    pub needs_refresh: bool,
    /// Counts the requests; the result of an older one is dropped.
    pub generation: u64,
    /// What is being loaded ahead; nothing occurs twice.
    pub inflight: Vec<String>,
}

/// A diff that was loaded.
#[derive(Debug)]
pub enum DiffPayload {
    Loaded(DiffViewState),
    Empty,
}

/// A finished load.
#[derive(Debug)]
pub struct DiffResult {
    pub generation: u64,
    pub diff_key: String,
    pub payload: DiffPayload,
    /// Whether it was loaded ahead.
    pub is_prefetch: bool,
}

/// Whether a key is among those being loaded ahead.
pub open spec fn in_flight(v: Seq<String>, key: Seq<char>) -> bool {
    exists|i: int| 0 <= i < v.len() && (#[trigger] v[i])@ == key
}

/// Whether no key occurs twice.
pub open spec fn distinct(v: Seq<String>) -> bool {
    forall|i: int, j: int| 0 <= i < j < v.len() ==> (#[trigger] v[i])@ != (#[trigger] v[j])@
}

impl DiffPane {
    /// The cache holds its limits, no key is loaded ahead twice, and no more are
    /// than may be.
    pub open spec fn wf(self) -> bool {
        &&& self.cache.wf()
        &&& distinct(self.inflight@)
        &&& self.inflight@.len() <= DIFF_PREFETCH_INFLIGHT_MAX
    }

    /// A pane that shows nothing and has a diff to load.
    pub fn new(wrap: bool, view_layout: pager::DiffViewLayout) -> (r: Self)
        ensures
            r.wf(),
            r.view.is_fresh(wrap, view_layout),
            r.cache.entries@.len() == 0,
            r.last_key@.len() == 0,
            r.displayed_key@.len() == 0,
            !r.loading,
            r.loading_since is None,
            r.needs_refresh,
            r.generation == 0,
            r.inflight@.len() == 0,
    {
        DiffPane {
            view: DiffViewState::fresh(wrap, view_layout),
            cache: DiffPreviewCache::default(),
            last_key: String::new(),
            displayed_key: String::new(),
            loading: false,
            loading_since: None,
            needs_refresh: true,
            generation: 0,
            inflight: Vec::new(),
        }
    }

    /// Whether the pane shows something that can be found again by a key.
    pub open spec fn shows_something(self) -> bool {
        !self.view.blank() && self.displayed_key@.len() > 0
    }

    /// The cache after the view on show was put into it.
    pub open spec fn cache_with_view(self) -> Seq<CachedDiffPreview> {
        diff_cache::stored(self.cache.entries@, self.displayed_key, self.view)
    }

    /// Whether `after` is the pane with its view put aside: the view moved into the
    /// cache and an empty one is on show, or where nothing was shown, only the key is
    /// forgotten. The rest is as it was.
    pub open spec fn put_aside(self, after: DiffPane) -> bool {
        &&& after.displayed_key@.len() == 0
        &&& if self.shows_something() {
            after.cache.entries@ == self.cache_with_view() && after.view.is_fresh(
                self.view.wrap,
                self.view.view_layout,
            )
        } else {
            after.cache == self.cache && after.view == self.view
        }
        &&& after == (DiffPane {
            view: after.view,
            cache: after.cache,
            displayed_key: after.displayed_key,
            ..self
        })
    }

    /// Puts the view on show aside for an instant revisit.
    pub fn stash_displayed_diff(&mut self)
        requires
            old(self).wf(),
        ensures
            final(self).wf(),
            old(self).put_aside(*final(self)),
    {
        if self.view.is_empty() || text::is_empty_str(self.displayed_key.as_str()) {
            self.displayed_key = String::new();
            return;
        }
        let mut replacement = DiffViewState::fresh(self.view.wrap, self.view.view_layout);
        core::mem::swap(&mut self.view, &mut replacement);
        let mut key = String::new();
        core::mem::swap(&mut self.displayed_key, &mut key);
        self.cache.insert(key, replacement);
    }

    /// Blanks the pane; what it showed is put aside.
    pub fn clear_diff_view(&mut self)
        requires
            old(self).wf(),
        ensures
            final(self).wf(),
            final(self).view.is_fresh(old(self).view.wrap, old(self).view.view_layout),
            final(self).displayed_key@.len() == 0,
            final(self).cache.entries@ == if old(self).shows_something() {
                old(self).cache_with_view()
            } else {
                old(self).cache.entries@
            },
            *final(self) == (DiffPane {
                view: final(self).view,
                cache: final(self).cache,
                displayed_key: final(self).displayed_key,
                ..*old(self)
            }),
    {
        self.stash_displayed_diff();
        let wrap = self.view.wrap;
        let view_layout = self.view.view_layout;
        self.view = DiffViewState::fresh(wrap, view_layout);
    }

    /// Whether a loaded diff is on show in the place of `before`, with the
    /// preferences that were set.
    pub open spec fn takes_over(before: DiffViewState, after: DiffViewState, loaded: DiffViewState) -> bool {
        after == (DiffViewState {
            wrap: before.wrap,
            view_layout: before.view_layout,
            ..loaded
        })
    }

    /// Puts a finished load on show. What was shown before is put aside, unless it
    /// was an older state of the same thing.
    pub fn apply_diff_payload(&mut self, diff_key: String, payload: DiffPayload)
        requires
            old(self).wf(),
        ensures
            final(self).wf(),
            !final(self).loading,
            final(self).loading_since is None,
            final(self).cache.entries@ == if old(self).displayed_key@ != diff_key@
                && old(self).shows_something() {
                old(self).cache_with_view()
            } else {
                old(self).cache.entries@
            },
            match payload {
                DiffPayload::Loaded(v) => DiffPane::takes_over(old(self).view, final(self).view, v)
                    && final(self).displayed_key@ == diff_key@,
                DiffPayload::Empty => final(self).view.is_fresh(
                    old(self).view.wrap,
                    old(self).view.view_layout,
                ) && final(self).displayed_key@.len() == 0,
            },
            final(self).last_key == old(self).last_key,
            final(self).needs_refresh == old(self).needs_refresh,
            final(self).generation == old(self).generation,
            final(self).inflight == old(self).inflight,
    {
        self.loading = false;
        self.loading_since = None;
        if !text::same_str(self.displayed_key.as_str(), diff_key.as_str()) {
            self.stash_displayed_diff();
        }
        let wrap = self.view.wrap;
        let view_layout = self.view.view_layout;
        match payload {
            DiffPayload::Loaded(loaded) => {
                let mut loaded = loaded;
                loaded.wrap = wrap;
                loaded.view_layout = view_layout;
                self.view = loaded;
                self.displayed_key = diff_key;
            },
            DiffPayload::Empty => {
                self.view = DiffViewState::fresh(wrap, view_layout);
                self.displayed_key = String::new();
            },
        }
    }

    fn position(&self, key: &str) -> (r: Option<usize>)
        ensures
            match r {
                Some(i) => i < self.inflight@.len() && self.inflight@[i as int]@ == key@,
                None => !in_flight(self.inflight@, key@),
            },
    {
        let mut i: usize = 0;
        while i < self.inflight.len()
            invariant
                i <= self.inflight@.len(),
                forall|j: int| 0 <= j < i ==> (#[trigger] self.inflight@[j])@ != key@,
            decreases self.inflight@.len() - i,
        {
            if text::same_str(self.inflight[i].as_str(), key) {
                return Some(i);
            }
            i = i + 1;
        }
        None
    }

    /// Whether `after` is what is in flight once `key` is not any more.
    pub open spec fn landed(before: Seq<String>, after: Seq<String>, key: Seq<char>) -> bool {
        if in_flight(before, key) {
            exists|i: int|
                0 <= i < before.len() && (#[trigger] before[i])@ == key && after == before.remove(i)
        } else {
            after == before
        }
    }

    /// What is done with a finished load. One that was loaded ahead is put on show if
    /// it is waited for, and otherwise kept if it is neither what was asked for last
    /// nor on show. Any other load is put on show only if nothing was asked for since.
    pub fn receive_diff_result(&mut self, result: DiffResult)
        requires
            old(self).wf(),
        ensures
            final(self).wf(),
            final(self).last_key == old(self).last_key,
            final(self).needs_refresh == old(self).needs_refresh,
            final(self).generation == old(self).generation,
            result.is_prefetch ==> DiffPane::landed(
                old(self).inflight@,
                final(self).inflight@,
                result.diff_key@,
            ),
            !result.is_prefetch ==> final(self).inflight == old(self).inflight,
            if shown_now(*old(self), result) {
                &&& !final(self).loading
                &&& final(self).loading_since is None
                &&& final(self).cache.entries@ == if old(self).displayed_key@ != result.diff_key@
                    && old(self).shows_something() {
                    old(self).cache_with_view()
                } else {
                    old(self).cache.entries@
                }
                &&& match result.payload {
                    DiffPayload::Loaded(v) => DiffPane::takes_over(
                        old(self).view,
                        final(self).view,
                        v,
                    ) && final(self).displayed_key@ == result.diff_key@,
                    DiffPayload::Empty => final(self).view.is_fresh(
                        old(self).view.wrap,
                        old(self).view.view_layout,
                    ) && final(self).displayed_key@.len() == 0,
                }
            } else {
                &&& final(self).view == old(self).view
                &&& final(self).displayed_key == old(self).displayed_key
                &&& final(self).loading == old(self).loading
                &&& final(self).loading_since == old(self).loading_since
                &&& kept_for_later(*old(self), result) ==> (result.payload matches DiffPayload::Loaded(
                    v,
                ) ==> final(self).cache.entries@ == kept(*old(self), result.diff_key, v))
                &&& !kept_for_later(*old(self), result) || result.payload is Empty
                    ==> final(self).cache == old(self).cache
            },
    {
        if result.is_prefetch {
            match self.position(result.diff_key.as_str()) {
                Some(i) => {
                    let ghost before = self.inflight@;
                    let _ = self.inflight.remove(i);
                    proof {
                        assert(before[i as int]@ == result.diff_key@);
                        assert(self.inflight@ == before.remove(i as int));
                        assert(DiffPane::landed(before, self.inflight@, result.diff_key@));
                    }
                },
                None => {},
            }
            let asked = text::same_str(result.diff_key.as_str(), self.last_key.as_str());
            let on_show = text::same_str(result.diff_key.as_str(), self.displayed_key.as_str());
            if asked && self.loading {
                self.apply_diff_payload(result.diff_key, result.payload);
            } else if !asked && !on_show {
                match result.payload {
                    DiffPayload::Loaded(loaded) => {
                        let mut loaded = loaded;
                        loaded.wrap = self.view.wrap;
                        loaded.view_layout = self.view.view_layout;
                        self.cache.insert(result.diff_key, loaded);
                    },
                    DiffPayload::Empty => {},
                }
            }
            return;
        }
        if result.generation != self.generation || !text::same_str(
            result.diff_key.as_str(),
            self.last_key.as_str(),
        ) {
            return;
        }
        self.apply_diff_payload(result.diff_key, result.payload);
    }

    /// Whether a request for the diff of a key leaves the pane as `after` and comes
    /// back with the number `r` of a load that has to be started.
    pub open spec fn begun(self, key: Seq<char>, now: u64, after: DiffPane, r: Option<u64>) -> bool {
        &&& after.inflight == self.inflight
        &&& match request_course(self, key) {
            RequestCourse::Unchanged => r is None && after == self,
            RequestCourse::StillGood => r is None && after == (DiffPane {
                needs_refresh: false,
                ..self
            }),
            RequestCourse::Revisit(i) => {
                &&& r is None
                &&& after.generation == next_number(self.generation)
                &&& after.last_key@ == key
                &&& after.displayed_key@ == key
                &&& DiffPane::takes_over(
                    self.view,
                    after.view,
                    self.cache.entries@[i].view,
                )
                &&& !after.loading
                &&& after.loading_since is None
                &&& !after.needs_refresh
                &&& after.cache.entries@ == {
                    let rest = diff_cache::without(self.cache.entries@, key);
                    if self.shows_something() {
                        diff_cache::stored(rest, self.displayed_key, self.view)
                    } else {
                        rest
                    }
                }
            },
            RequestCourse::AwaitPrefetch => {
                &&& r is None
                &&& after.last_key@ == key
                &&& after == (DiffPane {
                    last_key: after.last_key,
                    needs_refresh: false,
                    generation: next_number(self.generation),
                    loading: true,
                    loading_since: Some(now),
                    ..self
                })
            },
            RequestCourse::Load => {
                &&& r == Some(next_number(self.generation))
                &&& after.last_key@ == key
                &&& after == (DiffPane {
                    last_key: after.last_key,
                    needs_refresh: false,
                    generation: next_number(self.generation),
                    loading: false,
                    loading_since: None,
                    ..self
                })
            },
        }
    }

    /// Begins a request for a diff. Nothing is asked for that is on show or on its
    /// way; what was kept is put on show at once. Otherwise the number of the request
    /// comes back, and a load has to be started.
    pub fn begin_diff_request(&mut self, diff_key: String, now: u64) -> (r: Option<u64>)
        requires
            old(self).wf(),
        ensures
            final(self).wf(),
            old(self).begun(diff_key@, now, *final(self), r),
    {
        let same = text::same_str(diff_key.as_str(), self.last_key.as_str());
        if same && !self.needs_refresh {
            return None;
        }
        if same && diff_cache::diff_key_is_immutable(diff_key.as_str()) && (self.loading || (
        text::same_str(self.displayed_key.as_str(), diff_key.as_str()) && !self.view.is_empty())) {
            self.needs_refresh = false;
            return None;
        }
        let ghost before = *self;
        self.last_key = diff_key.clone();
        self.needs_refresh = false;
        let generation: u64 = self.generation.wrapping_add(1);
        self.generation = generation;
        if !same {
            match self.cache.take(diff_key.as_str()) {
                Some(cached) => {
                    let mut cached = cached;
                    cached.wrap = self.view.wrap;
                    cached.view_layout = self.view.view_layout;
                    self.stash_displayed_diff();
                    self.view = cached;
                    self.displayed_key = diff_key;
                    self.loading = false;
                    self.loading_since = None;
                    return None;
                },
                None => {},
            }
            assert(self.cache.entries@ == before.cache.entries@);
            if self.position(diff_key.as_str()).is_some() {
                self.loading = true;
                self.loading_since = Some(now);
                return None;
            }
        }
        self.loading = false;
        self.loading_since = None;
        Some(generation)
    }

    /// Decides whether the diff of a key is loaded ahead, and notes that it is.
    pub fn maybe_prefetch_one(&mut self, diff_key: &str) -> (r: bool)
        requires
            old(self).wf(),
        ensures
            final(self).wf(),
            r == worth_prefetching(*old(self), diff_key@),
            !r ==> *final(self) == *old(self),
            r ==> *final(self) == (DiffPane { inflight: final(self).inflight, ..*old(self) })
                && final(self).inflight@.len() == old(self).inflight@.len() + 1
                && final(self).inflight@.drop_last() == old(self).inflight@
                && final(self).inflight@.last()@ == diff_key@,
    {
        if self.inflight.len() >= DIFF_PREFETCH_INFLIGHT_MAX {
            return false;
        }
        if text::same_str(diff_key, self.last_key.as_str()) || text::same_str(
            diff_key,
            self.displayed_key.as_str(),
        ) || self.position(diff_key).is_some() || self.cache.contains(diff_key) {
            return false;
        }
        let ghost before = self.inflight@;
        self.inflight.push(diff_key.to_string());
        assert(self.inflight@.drop_last() =~= before);
        true
    }
}

/// The number after a number, from the greatest on to zero.
pub open spec fn next_number(n: u64) -> u64 {
    if n == u64::MAX {
        0
    } else {
        (n + 1) as u64
    }
}

/// Whether a finished load is put on show.
pub open spec fn shown_now(p: DiffPane, r: DiffResult) -> bool {
    if r.is_prefetch {
        r.diff_key@ == p.last_key@ && p.loading
    } else {
        r.generation == p.generation && r.diff_key@ == p.last_key@
    }
}

/// Whether a finished load is kept for later.
pub open spec fn kept_for_later(p: DiffPane, r: DiffResult) -> bool {
    r.is_prefetch && r.diff_key@ != p.last_key@ && r.diff_key@ != p.displayed_key@
}

/// The cache with a loaded diff in it, which has the preferences that are set.
pub open spec fn kept(p: DiffPane, key: String, v: DiffViewState) -> Seq<CachedDiffPreview> {
    diff_cache::stored(
        p.cache.entries@,
        key,
        DiffViewState { wrap: p.view.wrap, view_layout: p.view.view_layout, ..v },
    )
}

/// The course that a request for a diff takes.
pub enum RequestCourse {
    /// It was asked for before, and nothing has to be loaded anew.
    Unchanged,
    /// It cannot have changed, and is on show or on its way.
    StillGood,
    /// It was kept: the entry of the cache with this index.
    Revisit(int),
    /// It is being loaded ahead.
    AwaitPrefetch,
    /// It has to be loaded.
    Load,
}

/// The course that a request for a diff takes.
pub open spec fn request_course(p: DiffPane, key: Seq<char>) -> RequestCourse {
    let same = key == p.last_key@;
    if same && !p.needs_refresh {
        RequestCourse::Unchanged
    } else if same && diff_cache::immutable_key(key) && (p.loading || (p.displayed_key@ == key
        && !p.view.blank())) {
        RequestCourse::StillGood
    } else if !same && diff_cache::find_key(p.cache.entries@, key, 0) is Some {
        RequestCourse::Revisit(diff_cache::find_key(p.cache.entries@, key, 0)->0)
    } else if !same && in_flight(p.inflight@, key) {
        RequestCourse::AwaitPrefetch
    } else {
        RequestCourse::Load
    }
}

/// Whether a diff is worth loading ahead: there is room, and it is not at hand, not
/// asked for and not on its way.
pub open spec fn worth_prefetching(p: DiffPane, key: Seq<char>) -> bool {
    &&& p.inflight@.len() < DIFF_PREFETCH_INFLIGHT_MAX
    &&& key != p.last_key@
    &&& key != p.displayed_key@
    &&& !in_flight(p.inflight@, key)
    &&& diff_cache::find_key(p.cache.entries@, key, 0) is None
}

// ---------------------------------------------------------------------------
// Laws
// ---------------------------------------------------------------------------

/// The result of an older request is never shown: once another diff was asked for,
/// or the same one anew, what was started before is dropped.
pub proof fn stale_results_are_dropped(p: DiffPane, r: DiffResult)
    requires
        !r.is_prefetch,
        r.generation != p.generation,
    ensures
        !shown_now(p, r),
        !kept_for_later(p, r),
{
}

/// A load that was started is shown when it ends, if nothing was asked for since.
pub proof fn a_started_load_is_shown(p: DiffPane, key: Seq<char>, after: DiffPane, r: DiffResult)
    requires
        request_course(p, key) is Load,
        after.generation == next_number(p.generation),
        after.last_key@ == key,
        !r.is_prefetch,
        r.generation == after.generation,
        r.diff_key@ == key,
    ensures
        shown_now(after, r),
{
}

/// Who waits for a diff that is loaded ahead is shown it when it comes.
pub proof fn an_awaited_prefetch_is_shown(p: DiffPane, key: Seq<char>, after: DiffPane, r: DiffResult)
    requires
        request_course(p, key) is AwaitPrefetch,
        after.last_key@ == key,
        after.loading,
        r.is_prefetch,
        r.diff_key@ == key,
    ensures
        shown_now(after, r),
{
}

/// Requests are numbered one after the other, and after the greatest number comes zero.
pub proof fn requests_are_numbered_in_order(n: u64)
    ensures
        n < u64::MAX ==> next_number(n) == n + 1,
        n == u64::MAX ==> next_number(n) == 0,
        next_number(n) != n,
{
}

/// A diff is loaded only where it is not at hand: one that was asked for last is loaded anew
/// only where it has to be, and another one only where it was neither kept nor is on its
/// way. What was kept is shown at once.
pub proof fn what_is_at_hand_is_not_loaded(p: DiffPane, key: Seq<char>)
    ensures
        key == p.last_key@ && !p.needs_refresh ==> request_course(p, key) is Unchanged,
        request_course(p, key) is Unchanged ==> key == p.last_key@ && !p.needs_refresh,
        key != p.last_key@ && (exists|i: int|
            0 <= i < p.cache.entries@.len() && (#[trigger] p.cache.entries@[i]).key@ == key)
            ==> request_course(p, key) is Revisit,
        request_course(p, key) matches RequestCourse::Revisit(i) ==> 0 <= i < p.cache.entries@.len()
            && p.cache.entries@[i].key@ == key && key != p.last_key@,
        request_course(p, key) is AwaitPrefetch ==> key != p.last_key@ && in_flight(
            p.inflight@,
            key,
        ),
        request_course(p, key) is Load && key != p.last_key@ ==> !in_flight(p.inflight@, key)
            && forall|i: int|
            0 <= i < p.cache.entries@.len() ==> (#[trigger] p.cache.entries@[i]).key@ != key,
        request_course(p, key) is StillGood ==> key == p.last_key@ && p.needs_refresh && (p.loading
            || p.displayed_key@ == key),
        key == p.last_key@ && p.needs_refresh && !p.loading && p.displayed_key@ != key
            ==> request_course(p, key) is Load,
{
    diff_cache::the_view_of_a_key_is_found(p.cache.entries@, key);
}

/// A diff is loaded ahead only where there is room for it and it is not at hand already, and
/// always there.
pub proof fn only_what_is_missing_is_loaded_ahead(p: DiffPane, key: Seq<char>)
    ensures
        worth_prefetching(p, key) <==> {
            &&& p.inflight@.len() < 2
            &&& key != p.last_key@ && key != p.displayed_key@
            &&& forall|i: int| 0 <= i < p.inflight@.len() ==> (#[trigger] p.inflight@[i])@ != key
            &&& forall|i: int|
                0 <= i < p.cache.entries@.len() ==> (#[trigger] p.cache.entries@[i]).key@ != key
        },
{
    diff_cache::the_view_of_a_key_is_found(p.cache.entries@, key);
}

/// A finished load is shown where it is what was asked for last; one that was loaded ahead
/// is shown only to who waits for it, and otherwise kept, unless it is on show.
pub proof fn a_finished_load_goes_where_it_belongs(p: DiffPane, r: DiffResult)
    ensures
        shown_now(p, r) ==> r.diff_key@ == p.last_key@,
        r.is_prefetch && r.diff_key@ == p.last_key@ ==> (shown_now(p, r) <==> p.loading),
        !r.is_prefetch && r.diff_key@ == p.last_key@ ==> (shown_now(p, r) <==> r.generation
            == p.generation),
        !(shown_now(p, r) && kept_for_later(p, r)),
        r.is_prefetch && r.diff_key@ != p.last_key@ && r.diff_key@ != p.displayed_key@
            ==> kept_for_later(p, r),
        kept_for_later(p, r) ==> r.is_prefetch && r.diff_key@ != p.displayed_key@,
{
}

/// A request that has to load comes back with a new number, and no other does. Whatever is
/// asked for is what was asked for last; what is on show and what was kept stays until the
/// load ends, and what was kept of it is put on show at once.
pub proof fn a_request_is_numbered_and_remembered(
    p: DiffPane,
    key: Seq<char>,
    now: u64,
    after: DiffPane,
    r: Option<u64>,
)
    requires
        p.begun(key, now, after, r),
    ensures
        after.last_key@ == key,
        r is Some <==> request_course(p, key) is Load,
        r matches Some(n) ==> n == after.generation && n == next_number(p.generation),
        key == p.last_key@ && !p.needs_refresh ==> after == p,
        key != p.last_key@ ==> after.generation == next_number(p.generation)
            && !after.needs_refresh,
        request_course(p, key) is Revisit ==> after.displayed_key@ == key && !after.loading,
        request_course(p, key) is Load ==> after.view == p.view && after.cache == p.cache
            && after.displayed_key == p.displayed_key && !after.loading,
        request_course(p, key) is AwaitPrefetch ==> after.view == p.view && after.cache == p.cache
            && after.displayed_key == p.displayed_key && after.loading && after.loading_since
            == Some(now),
        after.inflight == p.inflight,
{
}

/// A view that is put aside is no longer on show and was kept; where none was on show,
/// nothing but its key changes.
pub proof fn a_view_is_put_aside_into_the_cache(p: DiffPane, after: DiffPane)
    requires
        p.put_aside(after),
    ensures
        after.displayed_key@.len() == 0,
        p.shows_something() ==> after.view.blank() && after.cache.entries@ == p.cache_with_view(),
        !p.shows_something() ==> after.view == p.view && after.cache == p.cache,
        after.last_key == p.last_key,
        after.generation == p.generation,
        after.inflight == p.inflight,
        after.loading == p.loading,
{
}

} // verus!
