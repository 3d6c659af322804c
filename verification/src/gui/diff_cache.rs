//! Views of diffs that were shown a moment ago, kept for an instant revisit.

use crate::pager;
use crate::pager::DiffViewState;
use crate::text;
use std::collections::VecDeque;
use vstd::prelude::*;

verus! {

/// How many views are kept at most.
pub const DIFF_PREVIEW_CACHE_ENTRIES: usize = 24;

/// How many bytes the views may take together.
pub const DIFF_PREVIEW_CACHE_BYTES: usize = 33554432;

/// How many bytes a view may take to be kept.
pub const MAX_CACHED_DIFF_BYTES: usize = 8388608;

/// A view with the key of what it shows and its reckoned size.
#[derive(Debug)]
pub struct CachedDiffPreview {
    pub key: String,
    pub view: DiffViewState,
    pub estimated_bytes: usize,
}

/// The kept views, the oldest first.
#[derive(Debug)]
pub struct DiffPreviewCache {
    pub entries: VecDeque<CachedDiffPreview>,
    pub estimated_bytes: usize,
}

/// Whether what a key stands for can never change: it is named by the hash of a
/// commit or a stash.
pub open spec fn immutable_key(key: Seq<char>) -> bool {
    "Commits:"@.is_prefix_of(key) || "Reflog:"@.is_prefix_of(key) || "BranchCommits:"@.is_prefix_of(
        key,
    ) || "Stash:"@.is_prefix_of(key)
}

/// Whether what a key stands for can never change.
pub fn diff_key_is_immutable(key: &str) -> (r: bool)
    ensures
        r == immutable_key(key@),
{
    let chars = text::chars_of(key);
    text::starts_with(chars.as_slice(), "Commits:") || text::starts_with(
        chars.as_slice(),
        "Reflog:",
    ) || text::starts_with(chars.as_slice(), "BranchCommits:") || text::starts_with(
        chars.as_slice(),
        "Stash:",
    )
}

/// The reckoned bytes of the first `n` views.
pub open spec fn bytes_of(e: Seq<CachedDiffPreview>, n: int) -> nat
    decreases n,
{
    if n <= 0 {
        0
    } else {
        bytes_of(e, n - 1) + e[n - 1].estimated_bytes as nat
    }
}

/// The reckoned bytes of all views.
pub open spec fn total(e: Seq<CachedDiffPreview>) -> nat {
    bytes_of(e, e.len() as int)
}

/// The index of the view of a key, counted from `i` on.
pub open spec fn find_key(e: Seq<CachedDiffPreview>, key: Seq<char>, i: int) -> Option<int>
    decreases e.len() - i,
{
    if i < 0 || i >= e.len() {
        None
    } else if e[i].key@ == key {
        Some(i)
    } else {
        find_key(e, key, i + 1)
    }
}

/// The views without the one of a key.
pub open spec fn without(e: Seq<CachedDiffPreview>, key: Seq<char>) -> Seq<CachedDiffPreview> {
    match find_key(e, key, 0) {
        Some(i) => e.remove(i),
        None => e,
    }
}

/// The views after the oldest ones made room for another one.
pub open spec fn evicted(e: Seq<CachedDiffPreview>, bytes: nat) -> Seq<CachedDiffPreview>
    decreases e.len(),
{
    if e.len() > 0 && (e.len() >= DIFF_PREVIEW_CACHE_ENTRIES || total(e) + bytes
        > DIFF_PREVIEW_CACHE_BYTES) {
        evicted(e.skip(1), bytes)
    } else {
        e
    }
}

/// The views with another one, in place of an older one of the same key; one that is
/// too large is not kept.
pub open spec fn stored(e: Seq<CachedDiffPreview>, key: String, view: DiffViewState) -> Seq<
    CachedDiffPreview,
> {
    if pager::estimate(view) > MAX_CACHED_DIFF_BYTES {
        without(e, key@)
    } else {
        evicted(without(e, key@), pager::estimate(view)).push(
            CachedDiffPreview { key, view, estimated_bytes: pager::estimate(view) as usize },
        )
    }
}

/// The views whose keys stand for what can never change, among the first `n`.
pub open spec fn immutable_only(e: Seq<CachedDiffPreview>, n: int) -> Seq<CachedDiffPreview>
    decreases n,
{
    if n <= 0 {
        seq![]
    } else if immutable_key(e[n - 1].key@) {
        immutable_only(e, n - 1).push(e[n - 1])
    } else {
        immutable_only(e, n - 1)
    }
}

proof fn lemma_bytes_push(e: Seq<CachedDiffPreview>, x: CachedDiffPreview, n: int)
    requires
        0 <= n <= e.len(),
    ensures
        bytes_of(e.push(x), n) == bytes_of(e, n),
    decreases n,
{
    if n > 0 {
        lemma_bytes_push(e, x, n - 1);
    }
}

proof fn lemma_total_push(e: Seq<CachedDiffPreview>, x: CachedDiffPreview)
    ensures
        total(e.push(x)) == total(e) + x.estimated_bytes,
{
    lemma_bytes_push(e, x, e.len() as int);
}

proof fn lemma_bytes_remove(e: Seq<CachedDiffPreview>, i: int, n: int)
    requires
        0 <= i < e.len(),
        0 <= n < e.len(),
    ensures
        n <= i ==> bytes_of(e.remove(i), n) == bytes_of(e, n),
        n >= i ==> bytes_of(e.remove(i), n) + e[i].estimated_bytes == bytes_of(e, n + 1),
    decreases n,
{
    reveal_with_fuel(bytes_of, 2);
    if n > 0 {
        lemma_bytes_remove(e, i, n - 1);
        if n - 1 >= i {
            assert(e.remove(i)[n - 1] == e[n]);
        } else {
            assert(e.remove(i)[n - 1] == e[n - 1]);
        }
    }
}

proof fn lemma_total_remove(e: Seq<CachedDiffPreview>, i: int)
    requires
        0 <= i < e.len(),
    ensures
        total(e.remove(i)) + e[i].estimated_bytes == total(e),
{
    lemma_bytes_remove(e, i, e.len() - 1);
}

proof fn lemma_find_key(e: Seq<CachedDiffPreview>, key: Seq<char>, i: int)
    requires
        0 <= i <= e.len(),
    ensures
        match find_key(e, key, i) {
            Some(j) => i <= j < e.len() && e[j].key@ == key,
            None => forall|j: int| i <= j < e.len() ==> (#[trigger] e[j]).key@ != key,
        },
    decreases e.len() - i,
{
    if i < e.len() && e[i].key@ != key {
        lemma_find_key(e, key, i + 1);
    }
}

impl DiffPreviewCache {
    /// No key occurs twice, every size is the one reckoned for its view, the sum of
    /// the sizes is the one kept, and the limits hold.
    pub open spec fn wf(self) -> bool {
        let e = self.entries@;
        &&& e.len() <= DIFF_PREVIEW_CACHE_ENTRIES
        &&& self.estimated_bytes == total(e)
        &&& total(e) <= DIFF_PREVIEW_CACHE_BYTES
        &&& forall|i: int, j: int|
            0 <= i < j < e.len() ==> (#[trigger] e[i]).key@ != (#[trigger] e[j]).key@
        &&& forall|i: int|
            0 <= i < e.len() ==> (#[trigger] e[i]).estimated_bytes == pager::estimate(e[i].view)
                && e[i].estimated_bytes <= MAX_CACHED_DIFF_BYTES
    }
}

impl Default for DiffPreviewCache {
    fn default() -> (r: Self)
        ensures
            r.wf(),
            r.entries@.len() == 0,
    {
        DiffPreviewCache { entries: VecDeque::new(), estimated_bytes: 0 }
    }
}

impl DiffPreviewCache {
    fn position(&self, key: &str) -> (r: Option<usize>)
        ensures
            match r {
                Some(i) => find_key(self.entries@, key@, 0) == Some(i as int) && i
                    < self.entries@.len() && self.entries@[i as int].key@ == key@,
                None => find_key(self.entries@, key@, 0) is None,
            },
    {
        let mut i: usize = 0;
        while i < self.entries.len()
            invariant
                i <= self.entries@.len(),
                find_key(self.entries@, key@, 0) == find_key(self.entries@, key@, i as int),
            decreases self.entries@.len() - i,
        {
            if text::same_str(self.entries[i].key.as_str(), key) {
                return Some(i);
            }
            i = i + 1;
        }
        None
    }

    /// Takes the view of a key out of the cache.
    pub fn take(&mut self, key: &str) -> (r: Option<DiffViewState>)
        requires
            old(self).wf(),
        ensures
            final(self).wf(),
            final(self).entries@ == without(old(self).entries@, key@),
            r == match find_key(old(self).entries@, key@, 0) {
                Some(i) => Some(old(self).entries@[i].view),
                None => None,
            },
            r is None ==> *final(self) == *old(self),
    {
        let ghost before = self.entries@;
        match self.position(key) {
            Some(i) => {
                proof {
                    lemma_total_remove(before, i as int);
                }
                match self.entries.remove(i) {
                    Some(entry) => {
                        self.estimated_bytes = self.estimated_bytes.saturating_sub(
                            entry.estimated_bytes,
                        );
                        assert(self.entries@ == before.remove(i as int));
                        Some(entry.view)
                    },
                    None => None,
                }
            },
            None => None,
        }
    }

    /// Removes the view of a key.
    pub fn remove(&mut self, key: &str)
        requires
            old(self).wf(),
        ensures
            final(self).wf(),
            final(self).entries@ == without(old(self).entries@, key@),
    {
        let _ = self.take(key);
    }

    /// Whether a view of a key is kept.
    pub fn contains(&self, key: &str) -> (r: bool)
        ensures
            r == (find_key(self.entries@, key@, 0) is Some),
    {
        self.position(key).is_some()
    }

    /// Keeps a view, in place of an older one of the same key. The oldest views make
    /// room; a view that is too large is not kept.
    pub fn insert(&mut self, key: String, view: DiffViewState)
        requires
            old(self).wf(),
        ensures
            final(self).wf(),
            final(self).entries@ == stored(old(self).entries@, key, view),
    {
        let ghost all = self.entries@;
        self.remove(key.as_str());
        let estimated_bytes: usize = pager::estimate_diff_view_bytes(&view);
        if estimated_bytes > MAX_CACHED_DIFF_BYTES {
            return;
        }
        let ghost rest = self.entries@;
        proof {
            lemma_find_key(all, key@, 0);
            assert forall|i: int| 0 <= i < rest.len() implies (#[trigger] rest[i]).key@ != key@ by {
                if find_key(all, key@, 0) is Some {
                    let k = find_key(all, key@, 0)->0;
                    if i < k {
                        assert(rest[i] == all[i]);
                    } else {
                        assert(rest[i] == all[i + 1]);
                    }
                }
            }
        }
        while self.entries.len() > 0 && (self.entries.len() >= DIFF_PREVIEW_CACHE_ENTRIES
            || self.estimated_bytes.saturating_add(estimated_bytes) > DIFF_PREVIEW_CACHE_BYTES)
            invariant
                self.wf(),
                evicted(rest, estimated_bytes as nat) == evicted(
                    self.entries@,
                    estimated_bytes as nat,
                ),
                forall|i: int| 0 <= i < self.entries@.len() ==> (#[trigger] self.entries@[i]).key@ != key@,
                estimated_bytes <= MAX_CACHED_DIFF_BYTES,
            decreases self.entries@.len(),
        {
            let ghost before = self.entries@;
            proof {
                lemma_total_remove(before, 0);
                assert(before.remove(0) =~= before.skip(1));
            }
            match self.entries.pop_front() {
                Some(oldest) => {
                    self.estimated_bytes = self.estimated_bytes.saturating_sub(
                        oldest.estimated_bytes,
                    );
                    assert(self.entries@ =~= before.skip(1));
                },
                None => {},
            }
        }
        self.estimated_bytes = self.estimated_bytes.saturating_add(estimated_bytes);
        let ghost kept = self.entries@;
        self.entries.push_back(CachedDiffPreview { key, view, estimated_bytes });
        proof {
            lemma_total_push(kept, self.entries@.last());
            assert(self.entries@ =~= kept.push(self.entries@.last()));
        }
    }

    /// Drops the views that can go stale when the repository is read anew.
    pub fn retain_immutable(&mut self)
        requires
            old(self).wf(),
        ensures
            final(self).wf(),
            final(self).entries@ == immutable_only(
                old(self).entries@,
                old(self).entries@.len() as int,
            ),
    {
        let ghost all = self.entries@;
        let n: usize = self.entries.len();
        let mut kept: VecDeque<CachedDiffPreview> = VecDeque::new();
        let mut bytes: usize = 0;
        let mut i: usize = 0;
        assert(all.skip(0) =~= all);
        while i < n
            invariant
                i <= n,
                n == all.len(),
                self.entries@ == all.skip(i as int),
                kept@ == immutable_only(all, i as int),
                bytes == total(kept@),
                bytes <= bytes_of(all, i as int) <= DIFF_PREVIEW_CACHE_BYTES,
                total(all) <= DIFF_PREVIEW_CACHE_BYTES,
            decreases n - i,
        {
            proof {
                lemma_bytes_grow(all, i as int + 1, n as int);
            }
            match self.entries.pop_front() {
                Some(entry) => {
                    assert(entry == all[i as int]);
                    assert(all.skip(i as int).skip(1) =~= all.skip(i as int + 1));
                    assert(self.entries@ =~= all.skip(i as int + 1));
                    if diff_key_is_immutable(entry.key.as_str()) {
                        let ghost before = kept@;
                        bytes = bytes + entry.estimated_bytes;
                        kept.push_back(entry);
                        proof {
                            lemma_total_push(before, entry);
                        }
                    }
                },
                None => {
                    assert(false);
                },
            }
            i = i + 1;
        }
        self.entries = kept;
        self.estimated_bytes = bytes;
        proof {
            lemma_immutable_only(all, n as int);
        }
    }

    /// Drops all views.
    pub fn clear(&mut self)
        ensures
            final(self).wf(),
            final(self).entries@.len() == 0,
    {
        self.entries = VecDeque::new();
        self.estimated_bytes = 0;
    }
}

proof fn lemma_bytes_grow(e: Seq<CachedDiffPreview>, m: int, n: int)
    requires
        0 <= m <= n,
    ensures
        bytes_of(e, m) <= bytes_of(e, n),
    decreases n - m,
{
    if m < n {
        lemma_bytes_grow(e, m, n - 1);
    }
}

/// Where entry `i` of the kept views stood before.
spec fn source(e: Seq<CachedDiffPreview>, n: int, i: int) -> int
    decreases n,
{
    if n <= 0 {
        0
    } else if immutable_key(e[n - 1].key@) && i == immutable_only(e, n - 1).len() {
        n - 1
    } else {
        source(e, n - 1, i)
    }
}

proof fn lemma_source(e: Seq<CachedDiffPreview>, n: int, i: int)
    requires
        0 <= n <= e.len(),
        0 <= i < immutable_only(e, n).len(),
    ensures
        0 <= source(e, n, i) < n,
        immutable_only(e, n)[i] == e[source(e, n, i)],
        immutable_key(e[source(e, n, i)].key@),
        forall|j: int| 0 <= j < i ==> #[trigger] source(e, n, j) < source(e, n, i),
    decreases n,
{
    if n > 0 {
        if immutable_key(e[n - 1].key@) && i == immutable_only(e, n - 1).len() {
            assert forall|j: int| 0 <= j < i implies #[trigger] source(e, n, j) < source(
                e,
                n,
                i,
            ) by {
                lemma_source(e, n - 1, j);
            }
        } else {
            lemma_source(e, n - 1, i);
            assert forall|j: int| 0 <= j < i implies #[trigger] source(e, n, j) < source(
                e,
                n,
                i,
            ) by {
                assert(source(e, n, j) == source(e, n - 1, j));
            }
        }
    }
}

proof fn lemma_immutable_only(e: Seq<CachedDiffPreview>, n: int)
    requires
        0 <= n <= e.len(),
    ensures
        immutable_only(e, n).len() <= n,
        forall|i: int|
            0 <= i < immutable_only(e, n).len() ==> exists|k: int|
                0 <= k < n && #[trigger] immutable_only(e, n)[i] == e[k],
        (forall|i: int, j: int|
            0 <= i < j < e.len() ==> (#[trigger] e[i]).key@ != (#[trigger] e[j]).key@) ==> (forall|
            i: int,
            j: int,
        |
            0 <= i < j < immutable_only(e, n).len() ==> (#[trigger] immutable_only(e, n)[i]).key@
                != (#[trigger] immutable_only(e, n)[j]).key@),
    decreases n,
{
    let m = immutable_only(e, n);
    lemma_immutable_len(e, n);
    assert forall|i: int| 0 <= i < m.len() implies exists|k: int|
        0 <= k < n && #[trigger] m[i] == e[k] by {
        lemma_source(e, n, i);
        assert(m[i] == e[source(e, n, i)]);
    }
    if forall|i: int, j: int|
        0 <= i < j < e.len() ==> (#[trigger] e[i]).key@ != (#[trigger] e[j]).key@ {
        assert forall|i: int, j: int| 0 <= i < j < m.len() implies (#[trigger] m[i]).key@ != (
        #[trigger] m[j]).key@ by {
            lemma_source(e, n, i);
            lemma_source(e, n, j);
            assert(source(e, n, i) < source(e, n, j));
        }
    }
}

proof fn lemma_immutable_len(e: Seq<CachedDiffPreview>, n: int)
    requires
        0 <= n,
    ensures
        immutable_only(e, n).len() <= n,
    decreases n,
{
    if n > 0 {
        lemma_immutable_len(e, n - 1);
    }
}

// ---------------------------------------------------------------------------
// Laws
// ---------------------------------------------------------------------------

/// A view that was kept is found again under its key.
pub proof fn kept_view_is_found(cache: DiffPreviewCache, key: Seq<char>, entry: CachedDiffPreview)
    requires
        cache.wf(),
        entry.key@ == key,
    ensures
        ({
            let after = evicted(without(cache.entries@, key), entry.estimated_bytes as nat).push(
                entry,
            );
            &&& find_key(after, key, 0) == Some(after.len() - 1)
            &&& after[after.len() - 1] == entry
        }),
{
    let e = cache.entries@;
    lemma_find_key(e, key, 0);
    let rest = without(e, key);
    assert forall|i: int| 0 <= i < rest.len() implies (#[trigger] rest[i]).key@ != key by {
        if find_key(e, key, 0) is Some {
            let k = find_key(e, key, 0)->0;
            if i < k {
                assert(rest[i] == e[i]);
            } else {
                assert(rest[i] == e[i + 1]);
                assert(e[k].key@ != e[i + 1].key@);
            }
        }
    }
    lemma_evicted_keys(rest, entry.estimated_bytes as nat, key);
    let kept = evicted(rest, entry.estimated_bytes as nat);
    let after = kept.push(entry);
    lemma_find_last(after, key, 0);
}

proof fn lemma_evicted_keys(e: Seq<CachedDiffPreview>, bytes: nat, key: Seq<char>)
    requires
        forall|i: int| 0 <= i < e.len() ==> (#[trigger] e[i]).key@ != key,
    ensures
        forall|i: int|
            0 <= i < evicted(e, bytes).len() ==> (#[trigger] evicted(e, bytes)[i]).key@ != key,
    decreases e.len(),
{
    if e.len() > 0 && (e.len() >= DIFF_PREVIEW_CACHE_ENTRIES || total(e) + bytes
        > DIFF_PREVIEW_CACHE_BYTES) {
        assert forall|i: int| 0 <= i < e.skip(1).len() implies (#[trigger] e.skip(1)[i]).key@
            != key by {
            assert(e.skip(1)[i] == e[i + 1]);
        }
        lemma_evicted_keys(e.skip(1), bytes, key);
    }
}

proof fn lemma_find_last(e: Seq<CachedDiffPreview>, key: Seq<char>, i: int)
    requires
        0 <= i < e.len(),
        e.last().key@ == key,
        forall|j: int| 0 <= j < e.len() - 1 ==> (#[trigger] e[j]).key@ != key,
    ensures
        find_key(e, key, i) == Some(e.len() - 1),
    decreases e.len() - i,
{
    if i < e.len() - 1 {
        lemma_find_last(e, key, i + 1);
    }
}

/// What is kept over a refresh are views of what can never change, each of which
/// was there before.
pub proof fn only_immutable_views_survive(e: Seq<CachedDiffPreview>, i: int)
    requires
        0 <= i < immutable_only(e, e.len() as int).len(),
    ensures
        immutable_key(immutable_only(e, e.len() as int)[i].key@),
        e.contains(immutable_only(e, e.len() as int)[i]),
{
    lemma_source(e, e.len() as int, i);
}

/// The view of a key is found wherever it is kept, and none is found that is not.
pub proof fn the_view_of_a_key_is_found(e: Seq<CachedDiffPreview>, key: Seq<char>)
    ensures
        match find_key(e, key, 0) {
            Some(i) => 0 <= i < e.len() && e[i].key@ == key && forall|j: int|
                0 <= j < i ==> (#[trigger] e[j]).key@ != key,
            None => forall|j: int| 0 <= j < e.len() ==> (#[trigger] e[j]).key@ != key,
        },
{
    lemma_key_found(e, key, 0);
}

proof fn lemma_key_found(e: Seq<CachedDiffPreview>, key: Seq<char>, i: int)
    requires
        0 <= i <= e.len(),
    ensures
        match find_key(e, key, i) {
            Some(k) => i <= k < e.len() && e[k].key@ == key && forall|j: int|
                i <= j < k ==> (#[trigger] e[j]).key@ != key,
            None => forall|j: int| i <= j < e.len() ==> (#[trigger] e[j]).key@ != key,
        },
    decreases e.len() - i,
{
    if i < e.len() && e[i].key@ != key {
        lemma_key_found(e, key, i + 1);
    }
}

/// Commits, entries of the reflog and of the stash never change; files, branches and all
/// else can.
pub proof fn what_can_never_change(rest: Seq<char>)
    ensures
        immutable_key("Commits:"@ + rest),
        immutable_key("Reflog:"@ + rest),
        immutable_key("BranchCommits:"@ + rest),
        immutable_key("Stash:"@ + rest),
        !immutable_key("Files:"@ + rest),
        !immutable_key("Branches:"@ + rest),
        !immutable_key("CommitFiles:"@ + rest),
{
    reveal_strlit("Commits:");
    reveal_strlit("Reflog:");
    reveal_strlit("BranchCommits:");
    reveal_strlit("Stash:");
    reveal_strlit("Files:");
    reveal_strlit("Branches:");
    reveal_strlit("CommitFiles:");
    let a = "Commits:"@ + rest;
    let b = "Reflog:"@ + rest;
    let c = "BranchCommits:"@ + rest;
    let d = "Stash:"@ + rest;
    assert("Commits:"@.is_prefix_of(a));
    assert("Reflog:"@.is_prefix_of(b));
    assert("BranchCommits:"@.is_prefix_of(c));
    assert("Stash:"@.is_prefix_of(d));
    let x = "Files:"@ + rest;
    let y = "Branches:"@ + rest;
    let z = "CommitFiles:"@ + rest;
    assert(x[0] == 'F' && y[0] == 'B' && y[6] == 'e' && z[0] == 'C' && z[6] == 'F');
    assert("Commits:"@[0] == 'C' && "Commits:"@[6] == 's' && "Reflog:"@[0] == 'R');
    assert("BranchCommits:"@[0] == 'B' && "BranchCommits:"@[6] == 'C' && "Stash:"@[0] == 'S');
}

/// Only the oldest views make room for a new one, as few as will do, and the others stay in
/// order.
pub proof fn the_oldest_views_make_room(e: Seq<CachedDiffPreview>, bytes: nat) -> (k: int)
    ensures
        0 <= k <= e.len(),
        evicted(e, bytes) == e.skip(k),
        forall|j: int|
            0 <= j < k ==> (#[trigger] e.skip(j)).len() >= DIFF_PREVIEW_CACHE_ENTRIES || total(
                e.skip(j),
            ) + bytes > DIFF_PREVIEW_CACHE_BYTES,
        k < e.len() ==> e.skip(k).len() < DIFF_PREVIEW_CACHE_ENTRIES && total(e.skip(k)) + bytes
            <= DIFF_PREVIEW_CACHE_BYTES,
    decreases e.len(),
{
    assert(e.skip(0) =~= e);
    if e.len() > 0 && (e.len() >= DIFF_PREVIEW_CACHE_ENTRIES || total(e) + bytes
        > DIFF_PREVIEW_CACHE_BYTES) {
        let r = e.skip(1);
        let k = the_oldest_views_make_room(r, bytes);
        assert(r.skip(k) =~= e.skip(k + 1));
        assert forall|j: int| 0 <= j < k + 1 implies (#[trigger] e.skip(j)).len()
            >= DIFF_PREVIEW_CACHE_ENTRIES || total(e.skip(j)) + bytes > DIFF_PREVIEW_CACHE_BYTES by {
            if j > 0 {
                assert(r.skip(j - 1) =~= e.skip(j));
            }
        }
        k + 1
    } else {
        0
    }
}

/// A view that is not too large is kept as the newest, in place of an older one of its key.
pub proof fn a_stored_view_is_the_newest(
    e: Seq<CachedDiffPreview>,
    key: String,
    view: DiffViewState,
)
    ensures
        pager::estimate(view) <= MAX_CACHED_DIFF_BYTES ==> stored(e, key, view).last().key == key
            && stored(e, key, view).last().view == view,
        pager::estimate(view) > MAX_CACHED_DIFF_BYTES ==> stored(e, key, view) == without(e, key@),
        find_key(e, key@, 0) matches Some(i) ==> without(e, key@) == e.take(i) + e.skip(i + 1),
        find_key(e, key@, 0) is None ==> without(e, key@) == e,
{
    the_view_of_a_key_is_found(e, key@);
    match find_key(e, key@, 0) {
        Some(i) => {
            assert(e.remove(i) =~= e.take(i) + e.skip(i + 1));
        },
        None => {},
    }
}

/// A refresh keeps every view of what can never change, in order, and no other.
pub proof fn all_immutable_views_survive(e: Seq<CachedDiffPreview>)
    ensures
        immutable_only(e, e.len() as int) == e.filter(
            |x: CachedDiffPreview| immutable_key(x.key@),
        ),
    decreases e.len(),
{
    reveal(Seq::filter);
    if e.len() > 0 {
        let d = e.drop_last();
        all_immutable_views_survive(d);
        lemma_immutable_same(e, d, d.len() as int);
    }
}

proof fn lemma_immutable_same(a: Seq<CachedDiffPreview>, b: Seq<CachedDiffPreview>, n: int)
    requires
        0 <= n <= b.len() <= a.len(),
        forall|i: int| 0 <= i < b.len() ==> a[i] == #[trigger] b[i],
    ensures
        immutable_only(a, n) == immutable_only(b, n),
    decreases n,
{
    if n > 0 {
        lemma_immutable_same(a, b, n - 1);
        assert(a[n - 1] == b[n - 1]);
    }
}

/// The cache holds 24 views of 32 MiB in all, each of at most eight.
pub proof fn the_limits_of_the_cache(cache: DiffPreviewCache)
    requires
        cache.wf(),
    ensures
        cache.entries@.len() <= 24,
        total(cache.entries@) <= 32 * 1024 * 1024,
        forall|i: int|
            0 <= i < cache.entries@.len() ==> (#[trigger] cache.entries@[i]).estimated_bytes <= 8
                * 1024 * 1024,
{
}

} // verus!
