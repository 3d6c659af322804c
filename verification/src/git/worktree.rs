//! The working trees of a repository.

use super::GitCommands;
use crate::model;
use crate::model::{Worktree, WorktreeEntry};
use crate::text;
use vstd::prelude::*;

verus! {

/// Where the reading of the listing stands: the entries that are complete, and
/// what is known of the next one.
pub struct WorktreeScan {
    pub done: Seq<WorktreeEntry>,
    pub path: Seq<char>,
    pub branch: Seq<char>,
    pub hash: Seq<char>,
    pub is_bare: bool,
}

/// The scan with the entry that was being read completed. An entry without a path
/// and a bare repository are left out; the first entry is the main one.
pub open spec fn completed(s: WorktreeScan) -> Seq<WorktreeEntry> {
    if s.path.len() > 0 && !s.is_bare {
        s.done.push(
            WorktreeEntry {
                path: s.path,
                branch: s.branch,
                hash: s.hash,
                is_current: false,
                is_main: s.done.len() == 0,
            },
        )
    } else {
        s.done
    }
}

/// The branch name that a full reference stands for.
pub open spec fn short_branch(b: Seq<char>) -> Seq<char> {
    match text::strip_prefix(b, "refs/heads/"@) {
        Some(short) => short,
        None => b,
    }
}

/// What a line of the listing adds.
pub open spec fn scan_line(s: WorktreeScan, l: Seq<char>) -> WorktreeScan {
    if text::strip_prefix(l, "worktree "@) is Some {
        WorktreeScan {
            done: completed(s),
            path: text::strip_prefix(l, "worktree "@)->0,
            branch: seq![],
            hash: seq![],
            is_bare: false,
        }
    } else if text::strip_prefix(l, "HEAD "@) is Some {
        WorktreeScan { hash: text::strip_prefix(l, "HEAD "@)->0, ..s }
    } else if text::strip_prefix(l, "branch "@) is Some {
        WorktreeScan { branch: short_branch(text::strip_prefix(l, "branch "@)->0), ..s }
    } else if l == "bare"@ {
        WorktreeScan { is_bare: true, ..s }
    } else if l == "detached"@ {
        WorktreeScan { branch: "(detached)"@, ..s }
    } else {
        s
    }
}

/// The reading of the first `n` lines.
pub open spec fn scan_lines(l: Seq<Seq<char>>, n: int) -> WorktreeScan
    decreases n,
{
    if n <= 0 {
        WorktreeScan {
            done: seq![],
            path: seq![],
            branch: seq![],
            hash: seq![],
            is_bare: false,
        }
    } else {
        scan_line(scan_lines(l, n - 1), l[n - 1])
    }
}

/// The entries with the working tree at `here` marked as the current one.
pub open spec fn mark_current(e: Seq<WorktreeEntry>, here: Seq<char>) -> Seq<WorktreeEntry> {
    Seq::new(
        e.len(),
        |i: int| WorktreeEntry { is_current: e[i].is_current || e[i].path == here, ..e[i] },
    )
}

/// The working trees that a listing names.
pub open spec fn listed_worktrees(listing: Seq<char>, here: Seq<char>) -> Seq<WorktreeEntry> {
    let l = text::lines(listing);
    mark_current(completed(scan_lines(l, l.len() as int)), here)
}

/// What is known of the working tree that is being read.
struct Reading {
    path: String,
    branch: String,
    hash: String,
    is_bare: bool,
}

fn complete(done: &mut Vec<Worktree>, r: &Reading)
    ensures
        model::worktree_entries(final(done)@) == completed(
            WorktreeScan {
                done: model::worktree_entries(old(done)@),
                path: r.path@,
                branch: r.branch@,
                hash: r.hash@,
                is_bare: r.is_bare,
            },
        ),
{
    if !text::is_empty_str(r.path.as_str()) && !r.is_bare {
        let is_main = done.len() == 0;
        let ghost before = done@;
        done.push(
            Worktree {
                path: r.path.clone(),
                branch: r.branch.clone(),
                hash: r.hash.clone(),
                is_current: false,
                is_main,
            },
        );
        assert(model::worktree_entries(done@) =~= model::worktree_entries(before).push(
            done@.last()@,
        ));
    }
}

impl GitCommands {
    /// The arguments of the listing of working trees.
    pub fn worktree_list_args(&self) -> (r: Vec<String>)
        ensures
            text::texts(r@) == seq!["worktree"@, "list"@, "--porcelain"@],
    {
        let r = vec!["worktree".to_string(), "list".to_string(), "--porcelain".to_string()];
        assert(text::texts(r@) =~= seq!["worktree"@, "list"@, "--porcelain"@]);
        r
    }

    /// Reads the listing of working trees; without an answer there are none.
    pub fn load_worktrees(&self, listing: Option<&str>) -> (r: Vec<Worktree>)
        ensures
            model::worktree_entries(r@) == match listing {
                Some(s) => listed_worktrees(s@, self.repo_path@),
                None => seq![],
            },
    {
        let listing = match listing {
            Some(s) => s,
            None => {
                let none: Vec<Worktree> = Vec::new();
                assert(model::worktree_entries(none@) =~= seq![]);
                return none;
            },
        };
        let chars = text::chars_of(listing);
        let lines = text::lines_of(chars.as_slice());
        let ghost l = text::pieces(lines@);
        let mut worktrees: Vec<Worktree> = Vec::new();
        let mut r = Reading {
            path: String::new(),
            branch: String::new(),
            hash: String::new(),
            is_bare: false,
        };
        assert(model::worktree_entries(worktrees@) =~= seq![]);
        let mut i: usize = 0;
        while i < lines.len()
            invariant
                i <= lines@.len(),
                l == text::pieces(lines@),
                scan_lines(l, i as int) == (WorktreeScan {
                    done: model::worktree_entries(worktrees@),
                    path: r.path@,
                    branch: r.branch@,
                    hash: r.hash@,
                    is_bare: r.is_bare,
                }),
            decreases lines@.len() - i,
        {
            assert(l[i as int] == lines@[i as int]@);
            let line = lines[i].as_slice();
            if let Some(p) = text::strip_prefix_of(line, "worktree ") {
                complete(&mut worktrees, &r);
                r = Reading {
                    path: text::string_of(p.as_slice()),
                    branch: String::new(),
                    hash: String::new(),
                    is_bare: false,
                };
            } else if let Some(h) = text::strip_prefix_of(line, "HEAD ") {
                r.hash = text::string_of(h.as_slice());
            } else if let Some(b) = text::strip_prefix_of(line, "branch ") {
                r.branch = match text::strip_prefix_of(b.as_slice(), "refs/heads/") {
                    Some(short) => text::string_of(short.as_slice()),
                    None => text::string_of(b.as_slice()),
                };
            } else if text::is_text(line, "bare") {
                r.is_bare = true;
            } else if text::is_text(line, "detached") {
                r.branch = "(detached)".to_string();
            }
            i = i + 1;
        }
        complete(&mut worktrees, &r);
        let ghost unmarked = worktrees@;
        let mut j: usize = 0;
        while j < worktrees.len()
            invariant
                j <= worktrees@.len(),
                worktrees@.len() == unmarked.len(),
                forall|k: int|
                    0 <= k < j ==> (#[trigger] worktrees@[k])@ == mark_current(
                        model::worktree_entries(unmarked),
                        self.repo_path@,
                    )[k],
                forall|k: int| j <= k < worktrees@.len() ==> #[trigger] worktrees@[k] == unmarked[k],
            decreases worktrees@.len() - j,
        {
            if text::same_str(worktrees[j].path.as_str(), self.repo_path.as_str()) {
                worktrees[j].is_current = true;
            }
            assert(worktrees@[j as int]@ =~= mark_current(
                model::worktree_entries(unmarked),
                self.repo_path@,
            )[j as int]);
            j = j + 1;
        }
        assert(model::worktree_entries(worktrees@) =~= mark_current(
            model::worktree_entries(unmarked),
            self.repo_path@,
        ));
        worktrees
    }

    /// The arguments that make a working tree with a new branch, from a base if
    /// one is named.
    pub fn create_worktree_new_branch(
        &self,
        path: &str,
        new_branch: &str,
        base_ref: Option<&str>,
    ) -> (r: Vec<String>)
        ensures
            text::texts(r@) == seq!["worktree"@, "add"@, "-b"@, new_branch@, path@] + match base_ref {
                Some(b) => if text::trim(b@).len() > 0 {
                    seq![text::trim(b@)]
                } else {
                    seq![]
                },
                None => seq![],
            },
    {
        let mut r = vec![
            "worktree".to_string(),
            "add".to_string(),
            "-b".to_string(),
            new_branch.to_string(),
            path.to_string(),
        ];
        let ghost start = seq!["worktree"@, "add"@, "-b"@, new_branch@, path@];
        assert(text::texts(r@) =~= start);
        match base_ref {
            Some(b) => {
                let trimmed = text::trim_str(b);
                if !text::is_empty_str(trimmed.as_str()) {
                    r.push(trimmed);
                    assert(text::texts(r@) =~= start + seq![text::trim(b@)]);
                } else {
                    assert(text::texts(r@) =~= start + Seq::<Seq<char>>::empty());
                }
            },
            None => {
                assert(text::texts(r@) =~= start + Seq::<Seq<char>>::empty());
            },
        }
        r
    }

    /// The arguments that make a working tree of an existing branch.
    pub fn create_worktree_existing_branch(&self, path: &str, branch: &str) -> (r: Vec<String>)
        ensures
            text::texts(r@) == seq!["worktree"@, "add"@, path@, branch@],
    {
        let r = vec![
            "worktree".to_string(),
            "add".to_string(),
            path.to_string(),
            branch.to_string(),
        ];
        assert(text::texts(r@) =~= seq!["worktree"@, "add"@, path@, branch@]);
        r
    }

    /// The arguments that remove a working tree, if need be with its changes.
    pub fn remove_worktree(&self, path: &str, force: bool) -> (r: Vec<String>)
        ensures
            text::texts(r@) == if force {
                seq!["worktree"@, "remove"@, path@, "--force"@]
            } else {
                seq!["worktree"@, "remove"@, path@]
            },
    {
        let mut r = vec!["worktree".to_string(), "remove".to_string(), path.to_string()];
        if force {
            r.push("--force".to_string());
            assert(text::texts(r@) =~= seq!["worktree"@, "remove"@, path@, "--force"@]);
        } else {
            assert(text::texts(r@) =~= seq!["worktree"@, "remove"@, path@]);
        }
        r
    }
}

// ---------------------------------------------------------------------------
// Laws
// ---------------------------------------------------------------------------

/// Exactly the first listed working tree is the main one, and exactly those at
/// the repository's own path are current.
pub proof fn first_worktree_is_main(listing: Seq<char>, here: Seq<char>)
    ensures
        forall|i: int|
            #![trigger listed_worktrees(listing, here)[i]]
            0 <= i < listed_worktrees(listing, here).len() ==> {
                let w = listed_worktrees(listing, here)[i];
                &&& w.is_main == (i == 0)
                &&& w.is_current == (w.path == here)
                &&& w.path.len() > 0
            },
{
    let l = text::lines(listing);
    lemma_scan_main(l, l.len() as int);
}

proof fn lemma_scan_main(l: Seq<Seq<char>>, n: int)
    ensures
        forall|i: int|
            #![trigger scan_lines(l, n).done[i]]
            0 <= i < scan_lines(l, n).done.len() ==> {
                let w = scan_lines(l, n).done[i];
                &&& w.is_main == (i == 0)
                &&& !w.is_current
                &&& w.path.len() > 0
            },
    decreases n,
{
    if n > 0 {
        lemma_scan_main(l, n - 1);
        let p = scan_lines(l, n - 1);
        let d = scan_lines(l, n).done;
        assert(d == p.done || d == completed(p));
        assert forall|i: int| #![trigger d[i]] 0 <= i < d.len() implies {
            &&& d[i].is_main == (i == 0)
            &&& !d[i].is_current
            &&& d[i].path.len() > 0
        } by {
            if i < p.done.len() {
                assert(d[i] == p.done[i]);
            }
        }
    }
}

/// A listing is read entry by entry: behind what was listed before, a path, a commit and a
/// branch make one more working tree, at the end; it is the main one where nothing was
/// listed before.
pub proof fn a_listed_worktree_comes_last(
    listing: Seq<char>,
    before: Seq<char>,
    here: Seq<char>,
    path: Seq<char>,
    hash: Seq<char>,
    branch: Seq<char>,
)
    requires
        path.len() > 0,
        text::lines(listing) == text::lines(before) + seq![
            "worktree "@ + path,
            "HEAD "@ + hash,
            "branch refs/heads/"@ + branch,
        ],
    ensures
        listed_worktrees(listing, here) == listed_worktrees(before, here).push(
            WorktreeEntry {
                path,
                branch,
                hash,
                is_current: path == here,
                is_main: listed_worktrees(before, here).len() == 0,
            },
        ),
{
    reveal_strlit("branch refs/heads/");
    reveal_strlit("branch ");
    reveal_strlit("refs/heads/");
    let full = "refs/heads/"@ + branch;
    let third = "branch refs/heads/"@ + branch;
    assert(third =~= "branch "@ + full);
    assert(full.skip(11) =~= branch);
    assert("refs/heads/"@.is_prefix_of(full));
    lemma_three_lines(listing, before, here, path, hash, third);
    lemma_branch_line(full);
    assert(listed_worktrees(listing, here) =~= listed_worktrees(before, here).push(
        WorktreeEntry {
            path,
            branch,
            hash,
            is_current: path == here,
            is_main: listed_worktrees(before, here).len() == 0,
        },
    ));
}

/// A working tree without a branch is listed as detached, and a bare repository is not
/// listed at all.
pub proof fn detached_and_bare_worktrees(
    listing: Seq<char>,
    before: Seq<char>,
    here: Seq<char>,
    path: Seq<char>,
    hash: Seq<char>,
)
    requires
        path.len() > 0,
    ensures
        text::lines(listing) == text::lines(before) + seq![
            "worktree "@ + path,
            "HEAD "@ + hash,
            "detached"@,
        ] ==> listed_worktrees(listing, here) == listed_worktrees(before, here).push(
            WorktreeEntry {
                path,
                branch: "(detached)"@,
                hash,
                is_current: path == here,
                is_main: listed_worktrees(before, here).len() == 0,
            },
        ),
        text::lines(listing) == text::lines(before) + seq![
            "worktree "@ + path,
            "HEAD "@ + hash,
            "bare"@,
        ] ==> listed_worktrees(listing, here) == listed_worktrees(before, here),
{
    reveal_strlit("worktree ");
    reveal_strlit("HEAD ");
    reveal_strlit("branch ");
    reveal_strlit("detached");
    reveal_strlit("bare");
    let d = "detached"@;
    let b = "bare"@;
    assert(d.len() == 8 && b.len() == 4);
    assert(!"worktree "@.is_prefix_of(d) && !"worktree "@.is_prefix_of(b));
    assert(!"HEAD "@.is_prefix_of(d)) by {
        assert("HEAD "@[0] != d[0]);
    }
    assert(!"branch "@.is_prefix_of(d)) by {
        assert("branch "@[0] != d[0]);
    }
    if text::lines(listing) == text::lines(before) + seq!["worktree "@ + path, "HEAD "@ + hash, d] {
        lemma_three_lines(listing, before, here, path, hash, d);
        assert(listed_worktrees(listing, here) =~= listed_worktrees(before, here).push(
            WorktreeEntry {
                path,
                branch: "(detached)"@,
                hash,
                is_current: path == here,
                is_main: listed_worktrees(before, here).len() == 0,
            },
        ));
    }
    if text::lines(listing) == text::lines(before) + seq!["worktree "@ + path, "HEAD "@ + hash, b] {
        lemma_three_lines(listing, before, here, path, hash, b);
        assert(listed_worktrees(listing, here) =~= listed_worktrees(before, here));
    }
}

/// Lines that say nothing of a working tree, such as empty ones, change nothing.
pub proof fn other_lines_change_nothing(
    listing: Seq<char>,
    before: Seq<char>,
    here: Seq<char>,
    line: Seq<char>,
)
    requires
        !"worktree "@.is_prefix_of(line),
        !"HEAD "@.is_prefix_of(line),
        !"branch "@.is_prefix_of(line),
        line != "bare"@,
        line != "detached"@,
        text::lines(listing) == text::lines(before) + seq![line],
    ensures
        listed_worktrees(listing, here) == listed_worktrees(before, here),
{
    let l = text::lines(listing);
    let m = text::lines(before);
    lemma_scan_same(l, m, m.len() as int);
    assert(l[m.len() as int] == line);
}

proof fn lemma_branch_line(full: Seq<char>)
    ensures
        text::strip_prefix("branch "@ + full, "worktree "@) is None,
        text::strip_prefix("branch "@ + full, "HEAD "@) is None,
        text::strip_prefix("branch "@ + full, "branch "@) == Some(full),
{
    reveal_strlit("branch ");
    reveal_strlit("worktree ");
    reveal_strlit("HEAD ");
    let l = "branch "@ + full;
    assert(l[0] == 'b');
    assert("worktree "@[0] == 'w' && "HEAD "@[0] == 'H');
    assert("branch "@.is_prefix_of(l));
    assert(l.skip(7) =~= full);
}

proof fn lemma_three_lines(
    listing: Seq<char>,
    before: Seq<char>,
    here: Seq<char>,
    path: Seq<char>,
    hash: Seq<char>,
    third: Seq<char>,
)
    requires
        text::lines(listing) == text::lines(before) + seq![
            "worktree "@ + path,
            "HEAD "@ + hash,
            third,
        ],
    ensures
        listed_worktrees(listing, here) == mark_current(
            completed(
                scan_line(
                    WorktreeScan {
                        done: completed(
                            scan_lines(text::lines(before), text::lines(before).len() as int),
                        ),
                        path,
                        branch: seq![],
                        hash,
                        is_bare: false,
                    },
                    third,
                ),
            ),
            here,
        ),
{
    reveal_strlit("worktree ");
    reveal_strlit("HEAD ");
    let l = text::lines(listing);
    let m = text::lines(before);
    let n = m.len() as int;
    let a = "worktree "@ + path;
    let b = "HEAD "@ + hash;
    lemma_scan_same(l, m, n);
    assert(l[n] == a && l[n + 1] == b && l[n + 2] == third);
    assert(a.skip(9) =~= path);
    assert(b.skip(5) =~= hash);
    assert("worktree "@.is_prefix_of(a));
    assert("HEAD "@.is_prefix_of(b));
    assert(b[0] == 'H' && "worktree "@[0] == 'w');
    assert(!"worktree "@.is_prefix_of(b));
    assert(scan_lines(l, n + 1) == scan_line(scan_lines(l, n), a));
    assert(scan_lines(l, n + 2) == scan_line(scan_lines(l, n + 1), b));
    assert(scan_lines(l, n + 3) == scan_line(scan_lines(l, n + 2), third));
}

proof fn lemma_scan_same(l: Seq<Seq<char>>, m: Seq<Seq<char>>, n: int)
    requires
        n <= m.len() <= l.len(),
        forall|k: int| 0 <= k < m.len() ==> l[k] == #[trigger] m[k],
    ensures
        scan_lines(l, n) == scan_lines(m, n),
    decreases n,
{
    if n > 0 {
        lemma_scan_same(l, m, n - 1);
        assert(l[n - 1] == m[n - 1]);
    }
}

} // verus!
