//! What a load hands to the pager once git has answered.

use crate::git::merge_conflict;
use crate::git::merge_conflict::ConflictStageContent;
use crate::gui::diff_jobs;
use crate::text;
use vstd::prelude::*;

verus! {

/// How wide a tab is shown.
pub const DIFF_TAB_WIDTH: usize = 4;

/// What the pager has to show.
#[derive(Debug)]
pub enum DiffRender {
    /// A unified diff under a name.
    Diff { name: String, diff: String, exists: bool },
    /// The old and the new contents of a file.
    Content { path: String, old_content: String, new_content: String, exists: bool },
    /// The two sides of a conflict.
    Conflict {
        name: String,
        base: Option<String>,
        ours: String,
        theirs: String,
        exists: bool,
        ours_deleted: bool,
        theirs_deleted: bool,
    },
    Empty,
}

/// What the pager has to show, as plain values.
pub enum Shown {
    Diff(Seq<char>, Seq<char>, bool),
    Content(Seq<char>, Seq<char>, Seq<char>, bool),
    Conflict(Seq<char>, Option<Seq<char>>, Seq<char>, Seq<char>, bool, bool, bool),
    Empty,
}

impl View for DiffRender {
    type V = Shown;

    open spec fn view(&self) -> Shown {
        match *self {
            DiffRender::Diff { name, diff, exists } => Shown::Diff(name@, diff@, exists),
            DiffRender::Content { path, old_content, new_content, exists } => Shown::Content(
                path@,
                old_content@,
                new_content@,
                exists,
            ),
            DiffRender::Conflict {
                name,
                base,
                ours,
                theirs,
                exists,
                ours_deleted,
                theirs_deleted,
            } => Shown::Conflict(
                name@,
                text::opt_text(base),
                ours@,
                theirs@,
                exists,
                ours_deleted,
                theirs_deleted,
            ),
            DiffRender::Empty => Shown::Empty,
        }
    }
}

// ---------------------------------------------------------------------------
// Commits and stashes
// ---------------------------------------------------------------------------

/// The name under which the diff of a commit is shown.
pub open spec fn commit_label(from_reflog: bool, hash: Seq<char>) -> Seq<char> {
    (if from_reflog {
        "reflog"@
    } else {
        "commit"@
    }) + ":"@ + text::short_hash(hash)
}

/// What is shown of a commit: its diff, if git has one.
pub open spec fn commit_shown(diff: Option<Seq<char>>, hash: Seq<char>, from_reflog: bool) -> Shown {
    match diff {
        Some(d) => Shown::Diff(commit_label(from_reflog, hash), d, false),
        None => Shown::Empty,
    }
}

/// What is shown of a commit. `diff` is what git has printed, if it succeeded.
pub fn commit_diff_payload(diff: Option<String>, hash: &str, from_reflog: bool) -> (r: DiffRender)
    requires
        text::can_shorten(hash@),
    ensures
        r@ == commit_shown(text::opt_text(diff), hash@, from_reflog),
{
    match diff {
        Some(diff) => {
            let mut name = if from_reflog {
                "reflog".to_string()
            } else {
                "commit".to_string()
            };
            name.append(":");
            name.append(text::short_hash_of(hash).as_str());
            DiffRender::Diff { name, diff, exists: false }
        },
        None => DiffRender::Empty,
    }
}

/// The name of a stash.
pub open spec fn stash_label(index: nat) -> Seq<char> {
    "stash@{"@ + text::decimal(index) + "}"@
}

/// The name of a stash.
pub fn stash_name(index: usize) -> (r: String)
    ensures
        r@ == stash_label(index as nat),
{
    let mut name = "stash@{".to_string();
    name.append(text::decimal_of(index).as_str());
    name.append("}");
    name
}

/// What is shown of a stash: its diff, if it has one. `exists` tells whether there
/// is a file with the stash's name.
pub fn stash_diff_payload(diff: Option<String>, index: usize, exists: bool) -> (r: DiffRender)
    ensures
        r@ == match text::opt_text(diff) {
            Some(d) if d.len() > 0 => Shown::Diff(stash_label(index as nat), d, exists),
            _ => Shown::Empty,
        },
{
    match diff {
        Some(diff) => {
            if text::is_empty_str(diff.as_str()) {
                DiffRender::Empty
            } else {
                DiffRender::Diff { name: stash_name(index), diff, exists }
            }
        },
        None => DiffRender::Empty,
    }
}

// ---------------------------------------------------------------------------
// Files
// ---------------------------------------------------------------------------

/// Where the diff of a file comes from.
#[derive(Debug, Clone, Copy, PartialEq, Eq, Structural)]
pub enum FileDiffSource {
    /// The two sides of its conflict.
    Conflict,
    /// What is not staged.
    Unstaged,
    /// What is staged.
    Staged,
    /// It has no changes.
    Nothing,
}

/// Where the diff of a file comes from: a conflict has no diff against the working
/// tree, and what is not staged goes first.
pub fn file_diff_source(has_conflicts: bool, has_unstaged: bool, has_staged: bool) -> (r:
    FileDiffSource)
    ensures
        r == if has_conflicts {
            FileDiffSource::Conflict
        } else if has_unstaged {
            FileDiffSource::Unstaged
        } else if has_staged {
            FileDiffSource::Staged
        } else {
            FileDiffSource::Nothing
        },
{
    if has_conflicts {
        FileDiffSource::Conflict
    } else if has_unstaged {
        FileDiffSource::Unstaged
    } else if has_staged {
        FileDiffSource::Staged
    } else {
        FileDiffSource::Nothing
    }
}

/// The text of one side, if it is a text; a side that is missing is empty.
pub open spec fn side_text(side: Option<Vec<u8>>) -> Option<Seq<char>> {
    match side {
        Some(bytes) => if vstd::utf8::valid_utf8(bytes@) {
            Some(vstd::utf8::decode_utf8(bytes@))
        } else {
            None
        },
        None => Some(seq![]),
    }
}

fn side_of(side: Option<Vec<u8>>) -> (r: Option<String>)
    ensures
        text::opt_text(r) == side_text(side),
{
    match side {
        Some(bytes) => match merge_conflict::utf8_text(bytes) {
            Ok(s) => Some(s),
            Err(_) => None,
        },
        None => {
            let s = String::new();
            assert(s@ =~= seq![]);
            Some(s)
        },
    }
}

/// What is shown of a file in conflict: its two sides, if both are texts. A base
/// that is none is left out.
pub fn conflict_preview(name: &str, stages: Option<ConflictStageContent>, exists: bool) -> (r:
    DiffRender)
    ensures
        r@ == match stages {
            Some(st) => match (side_text(st.ours), side_text(st.theirs)) {
                (Some(ours), Some(theirs)) => Shown::Conflict(
                    name@,
                    if st.base is Some {
                        side_text(st.base)
                    } else {
                        None
                    },
                    ours,
                    theirs,
                    exists,
                    st.ours is None,
                    st.theirs is None,
                ),
                _ => Shown::Empty,
            },
            None => Shown::Empty,
        },
{
    match stages {
        Some(st) => {
            let base = match st.base {
                Some(bytes) => match merge_conflict::utf8_text(bytes) {
                    Ok(s) => Some(s),
                    Err(_) => None,
                },
                None => None,
            };
            let ours_deleted = st.ours.is_none();
            let theirs_deleted = st.theirs.is_none();
            match (side_of(st.ours), side_of(st.theirs)) {
                (Some(ours), Some(theirs)) => DiffRender::Conflict {
                    name: name.to_string(),
                    base,
                    ours,
                    theirs,
                    exists,
                    ours_deleted,
                    theirs_deleted,
                },
                _ => DiffRender::Empty,
            }
        },
        None => DiffRender::Empty,
    }
}

/// What to do with the diff of a file once git has printed it.
#[derive(Debug, Clone, Copy, PartialEq, Eq, Structural)]
pub enum FileDiffStep {
    /// There is nothing to show.
    Empty,
    /// git does not know the file: its contents are shown.
    ShowUntracked,
    /// The file was renamed and nothing else: its contents are shown, the staged
    /// ones first or those of the working tree.
    ShowRenamed { staged_first: bool },
    /// The diff is shown.
    ShowDiff,
}

/// Decides what is shown of a file from what git has printed, if it succeeded.
/// `rename_only` tells whether that is nothing but a rename.
pub fn file_diff_step(
    diff: &Option<String>,
    is_tracked: bool,
    rename_only: bool,
    has_staged: bool,
    has_unstaged: bool,
) -> (r: FileDiffStep)
    ensures
        r == match text::opt_text(*diff) {
            Some(d) => if d.len() == 0 {
                if is_tracked {
                    FileDiffStep::Empty
                } else {
                    FileDiffStep::ShowUntracked
                }
            } else if rename_only {
                FileDiffStep::ShowRenamed { staged_first: has_staged && !has_unstaged }
            } else {
                FileDiffStep::ShowDiff
            },
            None => FileDiffStep::Empty,
        },
{
    match diff {
        Some(d) => if text::is_empty_str(d.as_str()) {
            if is_tracked {
                FileDiffStep::Empty
            } else {
                FileDiffStep::ShowUntracked
            }
        } else if rename_only {
            FileDiffStep::ShowRenamed { staged_first: has_staged && !has_unstaged }
        } else {
            FileDiffStep::ShowDiff
        },
        None => FileDiffStep::Empty,
    }
}

/// What is shown of a file that git does not know: all of it as added, or a note
/// where it is no text. `content` is what it holds, if it could be read.
pub fn untracked_payload(path: &str, binary: bool, content: Option<String>, exists: bool) -> (r:
    DiffRender)
    ensures
        r@ == if binary {
            Shown::Diff(path@, diff_jobs::binary_file_diff(path@), exists)
        } else {
            match text::opt_text(content) {
                Some(c) if c.len() > 0 => Shown::Content(path@, seq![], c, exists),
                _ => Shown::Empty,
            }
        },
{
    if binary {
        return DiffRender::Diff {
            name: path.to_string(),
            diff: diff_jobs::synthesize_binary_file_diff(path),
            exists,
        };
    }
    match content {
        Some(c) => {
            if text::is_empty_str(c.as_str()) {
                DiffRender::Empty
            } else {
                let old_content = String::new();
                assert(old_content@ =~= seq![]);
                DiffRender::Content {
                    path: path.to_string(),
                    old_content,
                    new_content: c,
                    exists,
                }
            }
        },
        None => DiffRender::Empty,
    }
}

/// What is shown of a file whose diff is nothing but a rename: its contents, from
/// the first place that could be read, or the diff where they are empty or missing.
pub open spec fn renamed_shown(
    name: Seq<char>,
    path: Seq<char>,
    diff: Seq<char>,
    first: Option<Seq<char>>,
    second: Option<Seq<char>>,
    exists: bool,
) -> Shown {
    let content = if first is Some {
        first
    } else {
        second
    };
    match content {
        Some(c) if c.len() > 0 => Shown::Content(path, c, c, exists),
        _ => Shown::Diff(name, diff, exists),
    }
}

/// What is shown of a file with a diff. `rename_only` tells whether that is nothing
/// but a rename; only then are the contents looked at: `first` is what the place
/// holds that goes first, `second` what the other one does.
pub fn parse_file_diff_payload(
    name: &str,
    current_path: &str,
    diff: String,
    rename_only: bool,
    first: Option<String>,
    second: Option<String>,
    exists: bool,
) -> (r: DiffRender)
    ensures
        r@ == if rename_only {
            renamed_shown(
                name@,
                current_path@,
                diff@,
                text::opt_text(first),
                text::opt_text(second),
                exists,
            )
        } else {
            Shown::Diff(name@, diff@, exists)
        },
{
    if rename_only {
        let content = match first {
            Some(c) => Some(c),
            None => second,
        };
        match content {
            Some(c) => {
                if !text::is_empty_str(c.as_str()) {
                    return DiffRender::Content {
                        path: current_path.to_string(),
                        old_content: c.clone(),
                        new_content: c,
                        exists,
                    };
                }
            },
            None => {},
        }
    }
    DiffRender::Diff { name: name.to_string(), diff, exists }
}

/// What is shown of a file of a commit. `diff` is what git has printed, if it
/// succeeded, and `content` what the file holds in the commit, if it could be read.
pub fn parse_commit_file_diff_payload(
    name: &str,
    current_path: &str,
    diff: Option<String>,
    rename_only: bool,
    content: Option<String>,
) -> (r: DiffRender)
    ensures
        r@ == match text::opt_text(diff) {
            Some(d) if d.len() > 0 => if rename_only {
                renamed_shown(name@, current_path@, d, text::opt_text(content), None, false)
            } else {
                Shown::Diff(name@, d, false)
            },
            _ => Shown::Empty,
        },
{
    match diff {
        Some(d) => {
            if text::is_empty_str(d.as_str()) {
                DiffRender::Empty
            } else {
                parse_file_diff_payload(name, current_path, d, rename_only, content, None, false)
            }
        },
        None => DiffRender::Empty,
    }
}

// ---------------------------------------------------------------------------
// Directories
// ---------------------------------------------------------------------------

/// A file below a directory that git does not know.
#[derive(Debug)]
pub struct UntrackedFile {
    pub path: String,
    pub binary: bool,
    /// What it holds, if it could be read.
    pub content: Option<String>,
}

/// The diff that stands for a file that git does not know; none where it is empty.
pub open spec fn synthesized(f: UntrackedFile) -> Option<Seq<char>> {
    if f.binary {
        Some(diff_jobs::binary_file_diff(f.path@))
    } else {
        match text::opt_text(f.content) {
            Some(c) if c.len() > 0 => Some(diff_jobs::new_file_diff(f.path@, c)),
            _ => None,
        }
    }
}

/// The diff of what git knows, followed by those that stand for the first `n` of
/// the files it does not know.
pub open spec fn combined(known: Seq<char>, files: Seq<UntrackedFile>, n: int) -> Seq<char>
    decreases n,
{
    if n <= 0 {
        known
    } else {
        let sofar = combined(known, files, n - 1);
        match synthesized(files[n - 1]) {
            Some(d) => if sofar.len() == 0 {
                d
            } else {
                sofar + seq!['\n'] + d
            },
            None => sofar,
        }
    }
}

/// What is shown of a directory: the changes of all that is below it. `known` is
/// what git has printed, if it succeeded.
pub fn directory_payload(dir_name: &str, known: Option<String>, untracked: &Vec<UntrackedFile>) -> (r:
    DiffRender)
    ensures
        r@ == {
            let start = match text::opt_text(known) {
                Some(k) => k,
                None => seq![],
            };
            let all = combined(start, untracked@, untracked@.len() as int);
            if all.len() == 0 {
                Shown::Empty
            } else {
                Shown::Diff(dir_name@, all, true)
            }
        },
{
    let mut all = match known {
        Some(k) => k,
        None => {
            let s = String::new();
            assert(s@ =~= seq![]);
            s
        },
    };
    let ghost start = all@;
    let mut i: usize = 0;
    while i < untracked.len()
        invariant
            i <= untracked@.len(),
            all@ == combined(start, untracked@, i as int),
        decreases untracked@.len() - i,
    {
        let f = &untracked[i];
        let synth = if f.binary {
            Some(diff_jobs::synthesize_binary_file_diff(f.path.as_str()))
        } else {
            match &f.content {
                Some(c) => if text::is_empty_str(c.as_str()) {
                    None
                } else {
                    Some(diff_jobs::synthesize_new_file_diff(f.path.as_str(), c.as_str()))
                },
                None => None,
            }
        };
        match synth {
            Some(d) => {
                assert(synthesized(*f) == Some(d@));
                if !text::is_empty_str(all.as_str()) {
                    all.push('\n');
                    all.append(d.as_str());
                    assert(all@ =~= combined(start, untracked@, i as int + 1));
                } else {
                    all = d;
                }
            },
            None => {
                assert(synthesized(*f) is None);
            },
        }
        i = i + 1;
    }
    if text::is_empty_str(all.as_str()) {
        DiffRender::Empty
    } else {
        DiffRender::Diff { name: dir_name.to_string(), diff: all, exists: true }
    }
}

// ---------------------------------------------------------------------------
// Laws
// ---------------------------------------------------------------------------

/// A directory shows something exactly when git printed something or there is a
/// file below it that git does not know and that is not empty.
pub proof fn directory_is_empty_only_without_changes(known: Seq<char>, files: Seq<UntrackedFile>, n: int)
    requires
        0 <= n <= files.len(),
    ensures
        combined(known, files, n).len() == 0 <==> known.len() == 0 && forall|i: int|
            0 <= i < n ==> synthesized(#[trigger] files[i]) is None,
    decreases n,
{
    if n > 0 {
        directory_is_empty_only_without_changes(known, files, n - 1);
        let f = files[n - 1];
        if synthesized(f) is Some {
            reveal_strlit("diff --git a/");
            assert(synthesized(f)->0.len() > 0);
        }
    }
}

/// The diff of a commit is shown under the start of its hash, that of an entry of the reflog
/// as such; without a diff nothing is shown.
pub proof fn a_commit_is_shown_under_its_hash(d: Seq<char>, hash: Seq<char>)
    ensures
        commit_shown(Some(d), hash, false) == Shown::Diff(
            "commit:"@ + text::short_hash(hash),
            d,
            false,
        ),
        commit_shown(Some(d), hash, true) == Shown::Diff(
            "reflog:"@ + text::short_hash(hash),
            d,
            false,
        ),
        commit_shown(None, hash, true) is Empty,
        commit_shown(None, hash, false) is Empty,
{
    reveal_strlit("commit");
    reveal_strlit("reflog");
    reveal_strlit(":");
    reveal_strlit("commit:");
    reveal_strlit("reflog:");
    assert("commit"@ + ":"@ =~= "commit:"@);
    assert("reflog"@ + ":"@ =~= "reflog:"@);
}

/// A side that is missing is an empty text, and one that is there is the text of its bytes,
/// where they are one.
pub proof fn a_side_is_the_text_of_its_bytes(side: Option<Vec<u8>>, s: Seq<char>)
    ensures
        side is None ==> side_text(side) == Some(Seq::<char>::empty()),
        side matches Some(b) ==> b@ == vstd::utf8::encode_utf8(s) ==> side_text(side) == Some(s),
        side matches Some(b) ==> !vstd::utf8::valid_utf8(b@) ==> side_text(side) is None,
{
    broadcast use vstd::utf8::encode_utf8_decode_utf8, vstd::utf8::encode_utf8_valid_utf8;

}

/// A file that was renamed and not changed is shown with its contents on both sides, from the
/// first place where they can be read; the diff is shown only where they are empty or cannot.
pub proof fn a_renamed_file_shows_its_contents(
    name: Seq<char>,
    path: Seq<char>,
    diff: Seq<char>,
    c: Seq<char>,
    other: Option<Seq<char>>,
    exists: bool,
)
    ensures
        c.len() > 0 ==> renamed_shown(name, path, diff, Some(c), other, exists) == Shown::Content(
            path,
            c,
            c,
            exists,
        ),
        c.len() > 0 ==> renamed_shown(name, path, diff, None, Some(c), exists) == Shown::Content(
            path,
            c,
            c,
            exists,
        ),
        renamed_shown(name, path, diff, None, None, exists) == Shown::Diff(name, diff, exists),
        c.len() == 0 ==> renamed_shown(name, path, diff, Some(c), other, exists) == Shown::Diff(
            name,
            diff,
            exists,
        ),
{
}

/// The diff of a directory begins with what git printed, and the diff of each file that git
/// does not know stands behind the others, on lines of its own; empty files add nothing.
pub proof fn a_directory_goes_file_by_file(
    known: Seq<char>,
    files: Seq<UntrackedFile>,
    f: UntrackedFile,
)
    ensures
        ({
            let n = files.len() as int;
            let sofar = combined(known, files, n);
            let all = combined(known, files.push(f), n + 1);
            &&& known.is_prefix_of(all)
            &&& match synthesized(f) {
                Some(d) => all == if sofar.len() == 0 {
                    d
                } else {
                    sofar + "\n"@ + d
                },
                None => all == sofar,
            }
        }),
{
    reveal_strlit("\n");
    assert("\n"@ =~= seq!['\n']);
    let n = files.len() as int;
    lemma_combined_same(known, files.push(f), files, n);
    assert(files.push(f)[n] == f);
    lemma_known_first(known, files.push(f), n + 1);
}

proof fn lemma_combined_same(
    known: Seq<char>,
    a: Seq<UntrackedFile>,
    b: Seq<UntrackedFile>,
    n: int,
)
    requires
        0 <= n <= b.len() <= a.len(),
        forall|k: int| 0 <= k < b.len() ==> a[k] == #[trigger] b[k],
    ensures
        combined(known, a, n) == combined(known, b, n),
    decreases n,
{
    if n > 0 {
        lemma_combined_same(known, a, b, n - 1);
        assert(a[n - 1] == b[n - 1]);
    }
}

proof fn lemma_known_first(known: Seq<char>, files: Seq<UntrackedFile>, n: int)
    requires
        0 <= n <= files.len(),
    ensures
        known.is_prefix_of(combined(known, files, n)),
    decreases n,
{
    if n > 0 {
        lemma_known_first(known, files, n - 1);
        let sofar = combined(known, files, n - 1);
        let all = combined(known, files, n);
        if sofar.len() == 0 {
            assert(known.len() == 0);
        }
        assert(known =~= all.subrange(0, known.len() as int));
    }
}

/// A file that git does not know is shown as added: all its lines where it is a text, a note
/// where it is not, and nothing where it is empty or cannot be read.
pub proof fn an_unknown_file_is_added(f: UntrackedFile)
    ensures
        f.binary ==> synthesized(f) == Some(diff_jobs::binary_file_diff(f.path@)),
        !f.binary ==> (f.content matches Some(c) ==> c@.len() > 0 ==> synthesized(f) == Some(
            diff_jobs::new_file_diff(f.path@, c@),
        )),
        !f.binary && f.content is None ==> synthesized(f) is None,
        !f.binary ==> (f.content matches Some(c) ==> c@.len() == 0 ==> synthesized(f) is None),
{
}

/// A stash is named by its number.
pub proof fn a_stash_is_named_by_its_number(n: nat)
    ensures
        stash_label(n) == "stash@{"@ + text::decimal(n) + "}"@,
        stash_label(0) == "stash@{0}"@,
{
    reveal_strlit("stash@{");
    reveal_strlit("}");
    reveal_strlit("stash@{0}");
    assert(stash_label(0) =~= "stash@{0}"@);
}

} // verus!
