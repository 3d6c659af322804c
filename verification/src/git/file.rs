//! The changed files of the working tree: reading git's listings, staging and
//! discarding.

use super::merge_conflict;
use super::GitCommands;
use crate::model;
use crate::model::{File, FileEntry, FileStatus};
use crate::pathmap::PathMap;
use crate::text;
use vstd::prelude::*;

verus! {

// ---------------------------------------------------------------------------
// Quoted paths
// ---------------------------------------------------------------------------

/// The byte that an escape of one letter stands for.
pub open spec fn letter_escape(b: u8) -> Option<u8> {
    if b == 97 {
        Some(0x07)
    } else if b == 98 {
        Some(0x08)
    } else if b == 116 {
        Some(0x09)
    } else if b == 110 {
        Some(0x0a)
    } else if b == 118 {
        Some(0x0b)
    } else if b == 102 {
        Some(0x0c)
    } else if b == 114 {
        Some(0x0d)
    } else if b == 34 {
        Some(34)
    } else if b == 92 {
        Some(92)
    } else {
        None
    }
}

/// Whether a byte is an octal digit.
pub open spec fn is_octal(b: u8) -> bool {
    48 <= b <= 55
}

/// Whether three octal digits stand at position `i`.
pub open spec fn octal_at(s: Seq<u8>, i: int) -> bool {
    i + 2 < s.len() && is_octal(s[i]) && is_octal(s[i + 1]) && is_octal(s[i + 2])
}

/// The byte that three octal digits write, of which the lowest eight bits count.
pub open spec fn octal_value(s: Seq<u8>, i: int) -> u8 {
    (((s[i] - 48) * 64 + (s[i + 1] - 48) * 8 + (s[i + 2] - 48)) % 256) as u8
}

/// The bytes from position `i` on with their C-style escapes undone; a backslash
/// that starts no escape stands for itself.
pub open spec fn unescape_from(s: Seq<u8>, i: int) -> Seq<u8>
    decreases s.len() - i,
{
    if i < 0 || i >= s.len() {
        seq![]
    } else if s[i] == 92 && i + 1 < s.len() && letter_escape(s[i + 1]) is Some {
        seq![letter_escape(s[i + 1])->0] + unescape_from(s, i + 2)
    } else if s[i] == 92 && octal_at(s, i + 1) {
        seq![octal_value(s, i + 1)] + unescape_from(s, i + 4)
    } else {
        seq![s[i]] + unescape_from(s, i + 1)
    }
}

/// The path that git wrote: a path in double quotes has its escapes undone, any
/// other path, and one whose bytes are then no text, stays as it is.
pub open spec fn unquoted(raw: Seq<char>) -> Seq<char> {
    let b = vstd::utf8::encode_utf8(raw);
    if b.len() >= 2 && b[0] == 34 && b.last() == 34 {
        let inner = unescape_from(b.subrange(1, b.len() - 1), 0);
        if vstd::utf8::valid_utf8(inner) {
            vstd::utf8::decode_utf8(inner)
        } else {
            raw
        }
    } else {
        raw
    }
}

fn letter_escape_of(b: u8) -> (r: Option<u8>)
    ensures
        r == letter_escape(b),
{
    match b {
        97 => Some(0x07),
        98 => Some(0x08),
        116 => Some(0x09),
        110 => Some(0x0a),
        118 => Some(0x0b),
        102 => Some(0x0c),
        114 => Some(0x0d),
        34 => Some(34),
        92 => Some(92),
        _ => None,
    }
}

fn is_octal_byte(b: u8) -> (r: bool)
    ensures
        r == is_octal(b),
{
    48 <= b && b <= 55
}

/// Decodes a path as `git status --porcelain` writes it: git wraps a path with
/// special characters in double quotes and escapes them as C does.
pub fn unquote_porcelain_path(raw: &str) -> (r: String)
    ensures
        r@ == unquoted(raw@),
{
    let bytes = raw.as_bytes();
    if bytes.len() < 2 || bytes[0] != 34 || bytes[bytes.len() - 1] != 34 {
        return raw.to_string();
    }
    let inner = vstd::slice::slice_subrange(bytes, 1, bytes.len() - 1);
    let mut out: Vec<u8> = Vec::new();
    let mut i: usize = 0;
    assert(out@ + unescape_from(inner@, 0) =~= unescape_from(inner@, 0));
    while i < inner.len()
        invariant
            i <= inner@.len(),
            out@ + unescape_from(inner@, i as int) == unescape_from(inner@, 0),
        decreases inner@.len() - i,
    {
        let ghost before = out@;
        let c: u8 = inner[i];
        let escape = if c == 92 && inner.len() - i > 1 {
            letter_escape_of(inner[i + 1])
        } else {
            None
        };
        if let Some(b) = escape {
            out.push(b);
            assert(before + unescape_from(inner@, i as int) =~= out@ + unescape_from(
                inner@,
                i as int + 2,
            ));
            i = i + 2;
        } else if c == 92 && inner.len() - i > 3 && is_octal_byte(inner[i + 1]) && is_octal_byte(
            inner[i + 2],
        ) && is_octal_byte(inner[i + 3]) {
            let high: u16 = (inner[i + 1] - 48) as u16;
            let middle: u16 = (inner[i + 2] - 48) as u16;
            let low: u16 = (inner[i + 3] - 48) as u16;
            out.push(((high * 64 + middle * 8 + low) % 256) as u8);
            assert(before + unescape_from(inner@, i as int) =~= out@ + unescape_from(
                inner@,
                i as int + 4,
            ));
            i = i + 4;
        } else {
            out.push(c);
            assert(before + unescape_from(inner@, i as int) =~= out@ + unescape_from(
                inner@,
                i as int + 1,
            ));
            i = i + 1;
        }
    }
    assert(out@ + unescape_from(inner@, i as int) =~= out@);
    match merge_conflict::utf8_text(out) {
        Ok(s) => s,
        Err(_) => raw.to_string(),
    }
}

// ---------------------------------------------------------------------------
// Status listing
// ---------------------------------------------------------------------------

/// What the two status letters say: whether anything is staged, whether anything
/// is not, whether the file is tracked, and what happened to it.
pub open spec fn status_codes(x: char, y: char) -> (bool, bool, bool, FileStatus) {
    if x == '?' && y == '?' {
        (false, true, false, FileStatus::Untracked)
    } else if is_unmerged_pair(x, y) {
        (false, true, true, FileStatus::Unmerged)
    } else if x == 'A' && (y == ' ' || y == 'M') {
        (true, y == 'M', true, FileStatus::Added)
    } else if x == 'D' && y == ' ' {
        (true, false, true, FileStatus::Deleted)
    } else if x == ' ' && y == 'D' {
        (false, true, true, FileStatus::Deleted)
    } else if x == 'R' && (y == ' ' || y == 'M') {
        (true, y == 'M', true, FileStatus::Renamed)
    } else if x == 'C' && (y == ' ' || y == 'M') {
        (true, y == 'M', true, FileStatus::Copied)
    } else {
        (x != ' ', y != ' ', true, FileStatus::Modified)
    }
}

/// The pairs of letters of an unmerged path.
pub open spec fn is_unmerged_pair(x: char, y: char) -> bool {
    ||| (x == 'U' && (y == 'U' || y == 'A' || y == 'D'))
    ||| (x == 'A' && (y == 'A' || y == 'U'))
    ||| (x == 'D' && (y == 'D' || y == 'U'))
}

/// Reads the two status letters of a file.
pub fn parse_status_codes(x: char, y: char) -> (r: (bool, bool, bool, FileStatus))
    ensures
        r == status_codes(x, y),
{
    match (x, y) {
        ('?', '?') => (false, true, false, FileStatus::Untracked),
        ('A', ' ') => (true, false, true, FileStatus::Added),
        ('A', 'M') => (true, true, true, FileStatus::Added),
        ('M', ' ') => (true, false, true, FileStatus::Modified),
        (' ', 'M') => (false, true, true, FileStatus::Modified),
        ('M', 'M') => (true, true, true, FileStatus::Modified),
        ('D', ' ') => (true, false, true, FileStatus::Deleted),
        (' ', 'D') => (false, true, true, FileStatus::Deleted),
        ('R', ' ') => (true, false, true, FileStatus::Renamed),
        ('R', 'M') => (true, true, true, FileStatus::Renamed),
        ('C', ' ') => (true, false, true, FileStatus::Copied),
        ('C', 'M') => (true, true, true, FileStatus::Copied),
        ('U', 'U') | ('A', 'A') | ('D', 'D') | ('U', 'A') | ('A', 'U') | ('U', 'D') | (
            'D',
            'U',
        ) => (false, true, true, FileStatus::Unmerged),
        _ => (x != ' ', y != ' ', true, FileStatus::Modified),
    }
}

/// The character at a position, or a space behind the end.
pub open spec fn char_or_space(l: Seq<char>, i: int) -> char {
    if i < l.len() {
        l[i]
    } else {
        ' '
    }
}

/// The name of a listed path: both sides of a rename are unquoted on their own.
pub open spec fn listed_name(raw: Seq<char>) -> Seq<char> {
    match text::find_text(raw, " -> "@) {
        Some(i) => unquoted(raw.take(i)) + " -> "@ + unquoted(raw.skip(i + 4)),
        None => unquoted(raw),
    }
}

/// Whether a line of the listing is long enough to name a file: two letters, a
/// space and a path, at least four bytes.
pub open spec fn names_a_file(l: Seq<char>) -> bool {
    text::byte_len(l) >= 4
}

/// The file that a line of the listing names. Its first three bytes are the
/// letters and the space, the rest is the path.
pub open spec fn listed_file(l: Seq<char>) -> FileEntry {
    let x = char_or_space(l, 0);
    let y = char_or_space(l, 1);
    let raw = l.skip(text::chars_in_bytes(l, 3)->0);
    let codes = status_codes(x, y);
    FileEntry {
        name: listed_name(raw),
        display_name: listed_name(raw),
        status: codes.3,
        has_staged_changes: codes.0,
        has_unstaged_changes: codes.1,
        is_tracked: codes.2,
        added: x == 'A' || y == 'A' || !codes.2,
        deleted: x == 'D' || y == 'D',
        has_merge_conflicts: x == 'U' || y == 'U' || (x == 'A' && y == 'A') || (x == 'D' && y
            == 'D'),
        short_status: seq![x, y],
        hunk_count: 0,
        additions: 0,
        deletions: 0,
    }
}

/// The files that the first `n` lines of a listing name.
pub open spec fn listed_files(l: Seq<Seq<char>>, n: int) -> Seq<FileEntry>
    decreases n,
{
    if n <= 0 {
        seq![]
    } else if names_a_file(l[n - 1]) {
        listed_files(l, n - 1).push(listed_file(l[n - 1]))
    } else {
        listed_files(l, n - 1)
    }
}

/// Whether every line that names a file has its path start at a character: true
/// of what git writes, whose first three bytes are ASCII.
pub open spec fn is_status_listing(s: Seq<char>) -> bool {
    forall|i: int|
        0 <= i < text::lines(s).len() && names_a_file(#[trigger] text::lines(s)[i])
            ==> text::chars_in_bytes(text::lines(s)[i], 3) is Some
}

fn name_of(raw: &[char]) -> (r: String)
    ensures
        r@ == listed_name(raw@),
{
    let arrow = text::chars_of(" -> ");
    proof {
        reveal_strlit(" -> ");
        assert(arrow@.len() == 4);
    }
    let n: usize = raw.len();
    match text::find_text_of(raw, arrow.as_slice()) {
        Some(i) => {
            let from = text::string_of(vstd::slice::slice_subrange(raw, 0, i));
            let to = text::string_of(vstd::slice::slice_subrange(raw, i + 4, n));
            let mut name = unquote_porcelain_path(from.as_str());
            name.append(" -> ");
            name.append(unquote_porcelain_path(to.as_str()).as_str());
            name
        },
        None => unquote_porcelain_path(text::string_of(raw).as_str()),
    }
}

fn file_of_line(l: &Vec<char>) -> (r: File)
    requires
        names_a_file(l@),
        text::chars_in_bytes(l@, 3) is Some,
    ensures
        r@ == listed_file(l@),
{
    let x: char = if l.len() > 0 {
        l[0]
    } else {
        ' '
    };
    let y: char = if l.len() > 1 {
        l[1]
    } else {
        ' '
    };
    let k: usize = match text::chars_in_bytes_of(l.as_slice(), 3) {
        Some(k) => k,
        None => 0,
    };
    let raw = vstd::slice::slice_subrange(l.as_slice(), k, l.len());
    let (has_staged, has_unstaged, is_tracked, status) = parse_status_codes(x, y);
    let name = name_of(raw);
    let display_name = name.clone();
    let mut short_status = String::new();
    short_status.push(x);
    short_status.push(y);
    assert(short_status@ =~= seq![x, y]);
    File {
        name,
        display_name,
        status,
        has_staged_changes: has_staged,
        has_unstaged_changes: has_unstaged,
        is_tracked,
        added: x == 'A' || y == 'A' || !is_tracked,
        deleted: x == 'D' || y == 'D',
        has_merge_conflicts: x == 'U' || y == 'U' || (x == 'A' && y == 'A') || (x == 'D' && y
            == 'D'),
        short_status,
        hunk_count: 0,
        additions: 0,
        deletions: 0,
    }
}

// ---------------------------------------------------------------------------
// Line statistics
// ---------------------------------------------------------------------------

/// The two counts and the path of a `--numstat` field; a binary file has dashes
/// in place of counts and gives none.
pub open spec fn stat_field(f: Seq<char>) -> Option<(nat, nat, Seq<char>)> {
    match text::split_once(f, '\t') {
        None => None,
        Some((additions, rest)) => match text::split_once(rest, '\t') {
            None => None,
            Some((deletions, path)) => match (
                text::parse_unsigned(additions, usize::MAX as nat),
                text::parse_unsigned(deletions, usize::MAX as nat),
            ) {
                (Some(a), Some(d)) => Some((a, d, path)),
                _ => None,
            },
        },
    }
}

/// The counts of the fields from index `i` on, added to those known. A rename has
/// an empty path, and its old and its new path follow as fields of their own: the
/// counts belong to the new path.
pub open spec fn numstat_from(
    f: Seq<Seq<char>>,
    i: int,
    known: Map<Seq<char>, (usize, usize)>,
) -> Map<Seq<char>, (usize, usize)>
    decreases f.len() - i,
{
    if i < 0 || i >= f.len() {
        known
    } else {
        match stat_field(f[i]) {
            None => numstat_from(f, i + 1, known),
            Some((a, d, path)) => if path.len() > 0 {
                numstat_from(f, i + 1, known.insert(path, (a as usize, d as usize)))
            } else if i + 2 >= f.len() {
                known
            } else if f[i + 2].len() > 0 {
                numstat_from(f, i + 3, known.insert(f[i + 2], (a as usize, d as usize)))
            } else {
                numstat_from(f, i + 3, known)
            },
        }
    }
}

/// The counts of `git diff --numstat -z`, by path.
pub open spec fn numstat(s: Seq<char>) -> Map<Seq<char>, (usize, usize)> {
    numstat_from(text::split(s, '\0'), 0, Map::empty())
}

fn stat_field_of(f: &Vec<char>) -> (r: Option<(usize, usize, Vec<char>)>)
    ensures
        match r {
            Some(v) => stat_field(f@) == Some((v.0 as nat, v.1 as nat, v.2@)),
            None => stat_field(f@) is None,
        },
{
    match text::split_once_of(f.as_slice(), '\t') {
        None => None,
        Some((additions, rest)) => match text::split_once_of(rest.as_slice(), '\t') {
            None => None,
            Some((deletions, path)) => match (
                text::parse_unsigned_of(additions.as_slice(), usize::MAX),
                text::parse_unsigned_of(deletions.as_slice(), usize::MAX),
            ) {
                (Some(a), Some(d)) => Some((a, d, path)),
                _ => None,
            },
        },
    }
}

/// Reads the output of `git diff --numstat -z`.
pub fn parse_numstat_z(output: &str) -> (r: PathMap<(usize, usize)>)
    ensures
        r.wf(),
        r@ == numstat(output@),
{
    let chars = text::chars_of(output);
    let fields = text::split_at_char(chars.as_slice(), '\0');
    let ghost f = text::pieces(fields@);
    let mut stats: PathMap<(usize, usize)> = PathMap::new();
    let mut index: usize = 0;
    while index < fields.len()
        invariant
            index <= fields@.len(),
            f == text::pieces(fields@),
            stats.wf(),
            numstat(output@) == numstat_from(f, index as int, stats@),
        decreases fields@.len() - index,
    {
        assert(f[index as int] == fields@[index as int]@);
        match stat_field_of(&fields[index]) {
            None => {
                index = index + 1;
            },
            Some((additions, deletions, path)) => {
                if path.len() > 0 {
                    stats.insert(text::string_of(path.as_slice()), (additions, deletions));
                    index = index + 1;
                } else {
                    let left: usize = fields.len() - index;
                    if left > 2 {
                        assert(f[index + 2] == fields@[index + 2]@);
                        if fields[index + 2].len() > 0 {
                            stats.insert(
                                text::string_of(fields[index + 2].as_slice()),
                                (additions, deletions),
                            );
                        }
                        index = index + 3;
                    } else {
                        index = fields.len();
                    }
                }
            },
        }
    }
    stats
}

/// Where the reading of a patch stands: the hunks counted so far, the path of the
/// file that hunks belong to, and the old path of the last file header.
pub struct HunkScan {
    pub counts: Map<Seq<char>, usize>,
    pub current: Option<Seq<char>>,
    pub old_path: Option<Seq<char>>,
}

/// One more hunk for a path.
pub open spec fn one_more(counts: Map<Seq<char>, usize>, path: Seq<char>) -> Map<
    Seq<char>,
    usize,
> {
    counts.insert(
        path,
        if counts.dom().contains(path) {
            (counts[path] + 1) as usize
        } else {
            1
        },
    )
}

/// What a line of a patch adds. A deleted file has no new path: its hunks belong
/// to the old one.
pub open spec fn scan_line(s: HunkScan, l: Seq<char>) -> HunkScan {
    match text::strip_prefix(l, "--- "@) {
        Some(path) => HunkScan {
            old_path: if path == "/dev/null"@ {
                None
            } else {
                Some(unquoted(path))
            },
            ..s
        },
        None => match text::strip_prefix(l, "+++ "@) {
            Some(path) => if path == "/dev/null"@ {
                HunkScan { current: s.old_path, old_path: None, ..s }
            } else {
                HunkScan { current: Some(unquoted(path)), ..s }
            },
            None => if "@@"@.is_prefix_of(l) && s.current is Some {
                HunkScan { counts: one_more(s.counts, s.current->0), ..s }
            } else {
                s
            },
        },
    }
}

/// The reading of the first `n` lines of a patch.
pub open spec fn scan_lines(l: Seq<Seq<char>>, n: int) -> HunkScan
    decreases n,
{
    if n <= 0 {
        HunkScan { counts: Map::empty(), current: None, old_path: None }
    } else {
        scan_line(scan_lines(l, n - 1), l[n - 1])
    }
}

/// How many hunks a patch has for each path.
pub open spec fn hunk_counts(s: Seq<char>) -> Map<Seq<char>, usize> {
    scan_lines(text::lines(s), text::lines(s).len() as int).counts
}

fn count_hunk(counts: &mut PathMap<usize>, path: &str, Ghost(n): Ghost<int>)
    requires
        old(counts).wf(),
        0 <= n < usize::MAX,
        forall|k: Seq<char>| old(counts)@.dom().contains(k) ==> #[trigger] old(counts)@[k] <= n,
    ensures
        final(counts).wf(),
        final(counts)@ == one_more(old(counts)@, path@),
        forall|k: Seq<char>|
            final(counts)@.dom().contains(k) ==> #[trigger] final(counts)@[k] <= n + 1,
{
    let more: usize = match counts.get(path) {
        Some(c) => {
            assert(counts@[path@] <= n);
            *c + 1
        },
        None => 1,
    };
    counts.insert(path.to_string(), more);
}

/// Counts the hunks of a patch by path.
pub fn parse_hunk_counts(output: &str) -> (r: PathMap<usize>)
    ensures
        r.wf(),
        r@ == hunk_counts(output@),
{
    let chars = text::chars_of(output);
    let lines = text::lines_of(chars.as_slice());
    let ghost l = text::pieces(lines@);
    let mut counts: PathMap<usize> = PathMap::new();
    let mut current: Option<String> = None;
    let mut old_path: Option<String> = None;
    let mut i: usize = 0;
    while i < lines.len()
        invariant
            i <= lines@.len(),
            l == text::pieces(lines@),
            counts.wf(),
            forall|k: Seq<char>| counts@.dom().contains(k) ==> #[trigger] counts@[k] <= i,
            scan_lines(l, i as int) == (HunkScan {
                counts: counts@,
                current: text::opt_text(current),
                old_path: text::opt_text(old_path),
            }),
        decreases lines@.len() - i,
    {
        assert(l[i as int] == lines@[i as int]@);
        let line = lines[i].as_slice();
        if let Some(path) = text::strip_prefix_of(line, "--- ") {
            old_path = if text::is_text(path.as_slice(), "/dev/null") {
                None
            } else {
                Some(unquote_porcelain_path(text::string_of(path.as_slice()).as_str()))
            };
        } else if let Some(path) = text::strip_prefix_of(line, "+++ ") {
            if text::is_text(path.as_slice(), "/dev/null") {
                current = old_path;
                old_path = None;
            } else {
                current = Some(unquote_porcelain_path(text::string_of(path.as_slice()).as_str()));
            }
        } else if text::starts_with(line, "@@") {
            match &current {
                Some(path) => {
                    count_hunk(&mut counts, path.as_str(), Ghost(i as int));
                },
                None => {},
            }
        }
        i = i + 1;
    }
    counts
}

// ---------------------------------------------------------------------------
// Loading
// ---------------------------------------------------------------------------

/// A file entry with its counts filled in: a tracked file has those that git
/// counted for its path, a new file counts the lines of its contents as added,
/// in one hunk. What is not known stays as it was.
pub open spec fn with_stats(
    e: FileEntry,
    lines: Map<Seq<char>, (usize, usize)>,
    hunks: Map<Seq<char>, usize>,
    contents: Map<Seq<char>, String>,
) -> FileEntry {
    let path = model::path_now(e.name);
    if e.is_tracked {
        FileEntry {
            additions: if lines.dom().contains(path) {
                lines[path].0 as nat
            } else {
                e.additions
            },
            deletions: if lines.dom().contains(path) {
                lines[path].1 as nat
            } else {
                e.deletions
            },
            hunk_count: if hunks.dom().contains(path) {
                hunks[path] as nat
            } else {
                0
            },
            ..e
        }
    } else if contents.dom().contains(path) {
        let n = text::lines(contents[path]@).len();
        FileEntry {
            additions: n,
            hunk_count: if n > 0 {
                1
            } else {
                0
            },
            ..e
        }
    } else {
        e
    }
}

/// Fills in the counts of one file.
fn fill_stats(
    file: &mut File,
    line_stats: &PathMap<(usize, usize)>,
    hunk_counts: &PathMap<usize>,
    contents: &PathMap<String>,
)
    requires
        line_stats.wf(),
        hunk_counts.wf(),
        contents.wf(),
    ensures
        final(file)@ == with_stats(old(file)@, line_stats@, hunk_counts@, contents@),
{
    let path = file.current_path();
    if file.is_tracked {
        match line_stats.get(path.as_str()) {
            Some(counts) => {
                file.additions = counts.0;
                file.deletions = counts.1;
            },
            None => {},
        }
        file.hunk_count = match hunk_counts.get(path.as_str()) {
            Some(n) => *n,
            None => 0,
        };
    } else {
        match contents.get(path.as_str()) {
            Some(content) => {
                let chars = text::chars_of(content.as_str());
                let lines = text::lines_of(chars.as_slice());
                assert(text::pieces(lines@).len() == lines@.len());
                file.additions = lines.len();
                file.hunk_count = if file.additions > 0 {
                    1
                } else {
                    0
                };
            },
            None => {},
        }
    }
}

/// The file entries with their counts filled in, in order.
pub open spec fn all_with_stats(
    e: Seq<FileEntry>,
    lines: Map<Seq<char>, (usize, usize)>,
    hunks: Map<Seq<char>, usize>,
    contents: Map<Seq<char>, String>,
) -> Seq<FileEntry> {
    Seq::new(e.len(), |i: int| with_stats(e[i], lines, hunks, contents))
}

/// The counts of an answer, none where git gave no answer.
pub open spec fn numstat_answer(a: Option<&str>) -> Map<Seq<char>, (usize, usize)> {
    match a {
        Some(s) => numstat(s@),
        None => Map::empty(),
    }
}

/// The hunk counts of an answer, none where git gave no answer.
pub open spec fn hunk_answer(a: Option<&str>) -> Map<Seq<char>, usize> {
    match a {
        Some(s) => hunk_counts(s@),
        None => Map::empty(),
    }
}

/// What is done to discard a file, in this order: git is asked to unstage it
/// (failure does not matter), then the file is deleted or restored.
#[derive(Debug)]
pub struct DiscardPlan {
    pub unstage: Vec<String>,
    pub step: DiscardStep,
}

/// How the changes of a file go away.
#[derive(Debug)]
pub enum DiscardStep {
    /// Delete the new file or directory.
    Delete { path: String },
    /// Restore the file from the index.
    Checkout { args: Vec<String> },
}

/// The contents of an ignore file with one more pattern on a line of its own.
pub open spec fn with_pattern(contents: Seq<char>, path: Seq<char>) -> Seq<char> {
    let start = if contents.len() > 0 && contents.last() != '\n' {
        contents.push('\n')
    } else {
        contents
    };
    (start + path).push('\n')
}

impl GitCommands {
    /// The arguments of the status listing.
    pub fn status_args(&self) -> (r: Vec<String>)
        ensures
            text::texts(r@) == seq!["status"@, "--porcelain"@, "-uall"@],
    {
        let r = vec!["status".to_string(), "--porcelain".to_string(), "-uall".to_string()];
        assert(text::texts(r@) =~= seq!["status"@, "--porcelain"@, "-uall"@]);
        r
    }

    /// Reads the status listing, without counts.
    pub fn load_files_status_only(&self, status: &str) -> (r: Vec<File>)
        requires
            is_status_listing(status@),
        ensures
            model::file_entries(r@) == listed_files(
                text::lines(status@),
                text::lines(status@).len() as int,
            ),
    {
        let chars = text::chars_of(status);
        let lines = text::lines_of(chars.as_slice());
        let ghost l = text::pieces(lines@);
        let mut files: Vec<File> = Vec::new();
        let mut i: usize = 0;
        assert(model::file_entries(files@) =~= seq![]);
        while i < lines.len()
            invariant
                i <= lines@.len(),
                l == text::pieces(lines@),
                l == text::lines(status@),
                is_status_listing(status@),
                model::file_entries(files@) == listed_files(l, i as int),
            decreases lines@.len() - i,
        {
            assert(l[i as int] == lines@[i as int]@);
            if text::byte_len_up_to(lines[i].as_slice(), 4) >= 4 {
                assert(names_a_file(l[i as int]));
                let ghost before = files@;
                files.push(file_of_line(&lines[i]));
                assert(model::file_entries(files@) =~= model::file_entries(before).push(
                    files@.last()@,
                ));
            }
            i = i + 1;
        }
        files
    }

    /// The arguments that ask whether there is a commit yet.
    pub fn head_exists_args(&self) -> (r: Vec<String>)
        ensures
            text::texts(r@) == seq!["rev-parse"@, "--verify"@, "HEAD"@],
    {
        let r = vec!["rev-parse".to_string(), "--verify".to_string(), "HEAD".to_string()];
        assert(text::texts(r@) =~= seq!["rev-parse"@, "--verify"@, "HEAD"@]);
        r
    }

    /// The arguments that count added and deleted lines against the last commit,
    /// or of the index where there is no commit yet.
    pub fn numstat_args(&self, head_exists: bool) -> (r: Vec<String>)
        ensures
            text::texts(r@) == seq![
                "diff"@,
                if head_exists {
                    "HEAD"@
                } else {
                    "--cached"@
                },
                "--numstat"@,
                "-z"@,
                "--find-renames"@,
                "--no-color"@,
            ],
    {
        let base = if head_exists {
            "HEAD"
        } else {
            "--cached"
        };
        let r = vec![
            "diff".to_string(),
            base.to_string(),
            "--numstat".to_string(),
            "-z".to_string(),
            "--find-renames".to_string(),
            "--no-color".to_string(),
        ];
        assert(text::texts(r@) =~= seq![
            "diff"@,
            base@,
            "--numstat"@,
            "-z"@,
            "--find-renames"@,
            "--no-color"@,
        ]);
        r
    }

    /// The arguments of the patch whose hunks are counted.
    pub fn hunk_args(&self, head_exists: bool) -> (r: Vec<String>)
        ensures
            text::texts(r@) == seq![
                "diff"@,
                if head_exists {
                    "HEAD"@
                } else {
                    "--cached"@
                },
                "--unified=0"@,
                "--find-renames"@,
                "--no-color"@,
                "--no-prefix"@,
            ],
    {
        let base = if head_exists {
            "HEAD"
        } else {
            "--cached"
        };
        let r = vec![
            "diff".to_string(),
            base.to_string(),
            "--unified=0".to_string(),
            "--find-renames".to_string(),
            "--no-color".to_string(),
            "--no-prefix".to_string(),
        ];
        assert(text::texts(r@) =~= seq![
            "diff"@,
            base@,
            "--unified=0"@,
            "--find-renames"@,
            "--no-color"@,
            "--no-prefix"@,
        ]);
        r
    }

    /// Fills in the counts of the files from what git answered, where it did, and
    /// from the contents of the new files, where they could be read.
    pub fn populate_file_diff_stats(
        &self,
        files: &mut Vec<File>,
        numstat: Option<&str>,
        patch: Option<&str>,
        contents: &PathMap<String>,
    )
        requires
            contents.wf(),
        ensures
            model::file_entries(final(files)@) == all_with_stats(
                model::file_entries(old(files)@),
                numstat_answer(numstat),
                hunk_answer(patch),
                contents@,
            ),
    {
        let line_stats = match numstat {
            Some(s) => parse_numstat_z(s),
            None => PathMap::new(),
        };
        let hunk_counts = match patch {
            Some(s) => parse_hunk_counts(s),
            None => PathMap::new(),
        };
        let ghost before = files@;
        let mut i: usize = 0;
        while i < files.len()
            invariant
                i <= files@.len(),
                files@.len() == before.len(),
                line_stats.wf(),
                hunk_counts.wf(),
                contents.wf(),
                forall|j: int|
                    0 <= j < i ==> (#[trigger] files@[j])@ == with_stats(
                        before[j]@,
                        line_stats@,
                        hunk_counts@,
                        contents@,
                    ),
                forall|j: int| i <= j < files@.len() ==> #[trigger] files@[j] == before[j],
            decreases files@.len() - i,
        {
            fill_stats(&mut files[i], &line_stats, &hunk_counts, contents);
            i = i + 1;
        }
        assert(model::file_entries(files@) =~= all_with_stats(
            model::file_entries(before),
            line_stats@,
            hunk_counts@,
            contents@,
        ));
    }

    /// Reads the status listing and fills in the counts.
    pub fn load_files(
        &self,
        status: &str,
        numstat: Option<&str>,
        patch: Option<&str>,
        contents: &PathMap<String>,
    ) -> (r: Vec<File>)
        requires
            is_status_listing(status@),
            contents.wf(),
        ensures
            model::file_entries(r@) == all_with_stats(
                listed_files(text::lines(status@), text::lines(status@).len() as int),
                numstat_answer(numstat),
                hunk_answer(patch),
                contents@,
            ),
    {
        let mut files = self.load_files_status_only(status);
        self.populate_file_diff_stats(&mut files, numstat, patch, contents);
        files
    }

    /// The arguments that stage a file. Pathspecs are taken literally, so that
    /// brackets in a path are no pattern.
    pub fn stage_file(&self, path: &str) -> (r: Vec<String>)
        ensures
            text::texts(r@) == seq!["--literal-pathspecs"@, "add"@, "--"@, path@],
    {
        let r = vec![
            "--literal-pathspecs".to_string(),
            "add".to_string(),
            "--".to_string(),
            path.to_string(),
        ];
        assert(text::texts(r@) =~= seq!["--literal-pathspecs"@, "add"@, "--"@, path@]);
        r
    }

    /// The arguments that stage several files in one call; none are needed for no
    /// files.
    pub fn stage_files(&self, paths: &Vec<String>) -> (r: Option<Vec<String>>)
        ensures
            match r {
                None => paths@.len() == 0,
                Some(args) => paths@.len() > 0 && text::texts(args@) == seq![
                    "--literal-pathspecs"@,
                    "add"@,
                    "--"@,
                ] + text::texts(paths@),
            },
    {
        if paths.len() == 0 {
            return None;
        }
        let mut args = vec![
            "--literal-pathspecs".to_string(),
            "add".to_string(),
            "--".to_string(),
        ];
        assert(text::texts(args@) =~= seq!["--literal-pathspecs"@, "add"@, "--"@]);
        push_all(&mut args, paths);
        Some(args)
    }

    /// The arguments that unstage a file.
    pub fn unstage_file(&self, path: &str) -> (r: Vec<String>)
        ensures
            text::texts(r@) == seq!["--literal-pathspecs"@, "reset"@, "HEAD"@, "--"@, path@],
    {
        let r = vec![
            "--literal-pathspecs".to_string(),
            "reset".to_string(),
            "HEAD".to_string(),
            "--".to_string(),
            path.to_string(),
        ];
        assert(text::texts(r@) =~= seq!["--literal-pathspecs"@, "reset"@, "HEAD"@, "--"@, path@]);
        r
    }

    /// The arguments that unstage several files in one call; none are needed for
    /// no files.
    pub fn unstage_files(&self, paths: &Vec<String>) -> (r: Option<Vec<String>>)
        ensures
            match r {
                None => paths@.len() == 0,
                Some(args) => paths@.len() > 0 && text::texts(args@) == seq![
                    "--literal-pathspecs"@,
                    "reset"@,
                    "HEAD"@,
                    "--"@,
                ] + text::texts(paths@),
            },
    {
        if paths.len() == 0 {
            return None;
        }
        let mut args = vec![
            "--literal-pathspecs".to_string(),
            "reset".to_string(),
            "HEAD".to_string(),
            "--".to_string(),
        ];
        assert(text::texts(args@) =~= seq!["--literal-pathspecs"@, "reset"@, "HEAD"@, "--"@]);
        push_all(&mut args, paths);
        Some(args)
    }

    /// The arguments that stage everything.
    pub fn stage_all(&self) -> (r: Vec<String>)
        ensures
            text::texts(r@) == seq!["add"@, "-A"@],
    {
        let r = vec!["add".to_string(), "-A".to_string()];
        assert(text::texts(r@) =~= seq!["add"@, "-A"@]);
        r
    }

    /// The arguments that unstage everything. Without a commit there is nothing to
    /// reset to, so the index is emptied instead.
    pub fn unstage_all(&self, head_exists: bool) -> (r: Vec<String>)
        ensures
            text::texts(r@) == if head_exists {
                seq!["reset"@, "HEAD"@]
            } else {
                seq!["rm"@, "--cached"@, "-r"@, "."@]
            },
    {
        if head_exists {
            let r = vec!["reset".to_string(), "HEAD".to_string()];
            assert(text::texts(r@) =~= seq!["reset"@, "HEAD"@]);
            r
        } else {
            let r = vec![
                "rm".to_string(),
                "--cached".to_string(),
                "-r".to_string(),
                ".".to_string(),
            ];
            assert(text::texts(r@) =~= seq!["rm"@, "--cached"@, "-r"@, "."@]);
            r
        }
    }

    /// How the changes of a file are discarded: a new file is deleted, any other
    /// restored.
    pub fn discard_file(&self, path: &str, added: bool) -> (r: DiscardPlan)
        ensures
            text::texts(r.unstage@) == seq!["reset"@, "HEAD"@, "--"@, path@],
            match r.step {
                DiscardStep::Delete { path: p } => added && p@ == path@,
                DiscardStep::Checkout { args } => !added && text::texts(args@) == seq![
                    "checkout"@,
                    "--"@,
                    path@,
                ],
            },
    {
        let unstage = vec![
            "reset".to_string(),
            "HEAD".to_string(),
            "--".to_string(),
            path.to_string(),
        ];
        assert(text::texts(unstage@) =~= seq!["reset"@, "HEAD"@, "--"@, path@]);
        let step = if added {
            DiscardStep::Delete { path: path.to_string() }
        } else {
            let args = vec!["checkout".to_string(), "--".to_string(), path.to_string()];
            assert(text::texts(args@) =~= seq!["checkout"@, "--"@, path@]);
            DiscardStep::Checkout { args }
        };
        DiscardPlan { unstage, step }
    }

    /// The new contents of the repository's ignore file, from the old ones.
    pub fn ignore_file(&self, contents: &str, path: &str) -> (r: String)
        ensures
            r@ == with_pattern(contents@, path@),
    {
        append_pattern(contents, path)
    }

    /// The new contents of the repository's private exclude file, from the old
    /// ones.
    pub fn exclude_file(&self, contents: &str, path: &str) -> (r: String)
        ensures
            r@ == with_pattern(contents@, path@),
    {
        append_pattern(contents, path)
    }
}

fn append_pattern(contents: &str, path: &str) -> (r: String)
    ensures
        r@ == with_pattern(contents@, path@),
{
    let chars = text::chars_of(contents);
    let mut out = contents.to_string();
    if chars.len() > 0 && chars[chars.len() - 1] != '\n' {
        out.push('\n');
    }
    out.append(path);
    out.push('\n');
    out
}

/// Appends copies of strings.
pub(crate) fn push_all(args: &mut Vec<String>, more: &Vec<String>)
    ensures
        text::texts(final(args)@) == text::texts(old(args)@) + text::texts(more@),
{
    let ghost before = args@;
    let mut i: usize = 0;
    while i < more.len()
        invariant
            i <= more@.len(),
            args@.len() == before.len() + i,
            forall|j: int| 0 <= j < before.len() ==> #[trigger] args@[j] == before[j],
            forall|j: int|
                before.len() <= j < args@.len() ==> (#[trigger] args@[j])@ == more@[j
                    - before.len()]@,
        decreases more@.len() - i,
    {
        args.push(more[i].clone());
        i = i + 1;
    }
    assert(text::texts(args@) =~= text::texts(before) + text::texts(more@));
}

/// Every ignored path ends up on a line of its own, and what the ignore file held
/// before is its start.
pub proof fn ignored_path_is_a_line(contents: Seq<char>, path: Seq<char>)
    ensures
        contents.is_prefix_of(with_pattern(contents, path)),
        path.push('\n').is_suffix_of(with_pattern(contents, path)),
        ({
            let n = with_pattern(contents, path).len() - path.len() - 1;
            n == 0 || with_pattern(contents, path)[n - 1] == '\n'
        }),
{
    let w = with_pattern(contents, path);
    assert(contents =~= w.subrange(0, contents.len() as int));
    assert(path.push('\n') =~= w.subrange(w.len() - path.len() - 1, w.len() as int));
}

/// The letter that stands for a byte behind a backslash, where it has one.
pub open spec fn escape_letter(b: u8) -> Option<u8> {
    if b == 0x07 {
        Some(97)
    } else if b == 0x08 {
        Some(98)
    } else if b == 0x09 {
        Some(116)
    } else if b == 0x0a {
        Some(110)
    } else if b == 0x0b {
        Some(118)
    } else if b == 0x0c {
        Some(102)
    } else if b == 0x0d {
        Some(114)
    } else if b == 34 {
        Some(34)
    } else if b == 92 {
        Some(92)
    } else {
        None
    }
}

/// A byte in git's C-style quoting: behind a backslash its letter, or three octal
/// digits for a byte that is no printable ASCII character; any other byte as it is.
pub open spec fn escaped_byte(b: u8) -> Seq<u8> {
    match escape_letter(b) {
        Some(letter) => seq![92u8, letter],
        None => if b < 32 || b >= 127 {
            seq![92u8, (48 + b / 64) as u8, (48 + (b / 8) % 8) as u8, (48 + b % 8) as u8]
        } else {
            seq![b]
        },
    }
}

/// Bytes in git's C-style quoting, without the quotes.
pub open spec fn escaped(b: Seq<u8>) -> Seq<u8>
    decreases b.len(),
{
    if b.len() == 0 {
        seq![]
    } else {
        escaped_byte(b[0]) + escaped(b.skip(1))
    }
}

/// A path as git writes it in double quotes.
pub open spec fn quoted(path: Seq<char>) -> Seq<char> {
    let e = escaped(vstd::utf8::encode_utf8(path));
    seq!['"'] + Seq::new(e.len(), |i: int| e[i] as char) + seq!['"']
}

/// A path is read back from the quotes that git put round it, whatever characters
/// it holds.
pub proof fn unquoting_undoes_quoting(path: Seq<char>)
    ensures
        unquoted(quoted(path)) == path,
{
    broadcast use vstd::utf8::encode_utf8_decode_utf8, vstd::utf8::encode_utf8_valid_utf8;

    let b = vstd::utf8::encode_utf8(path);
    let e = escaped(b);
    let q = quoted(path);
    lemma_escaped_is_ascii(b);
    assert forall|i: int| 0 <= i < q.len() implies '\0' <= #[trigger] q[i] <= '\u{7f}' by {
        if 0 < i < q.len() - 1 {
            assert(q[i] == e[i - 1] as char);
            assert(e[i - 1] < 128);
        }
    }
    vstd::utf8::is_ascii_chars_encode_utf8(q);
    let raw = vstd::utf8::encode_utf8(q);
    assert forall|i: int| 0 <= i < e.len() implies raw.subrange(1, raw.len() - 1)[i] == e[i] by {
        assert(q[i + 1] == e[i] as char);
        assert(e[i] < 128);
        assert(raw[i + 1] == q[i + 1] as u8);
    }
    assert(raw.subrange(1, raw.len() - 1) =~= e);
    assert(q[0] as u8 == raw[0]);
    assert(q[q.len() - 1] as u8 == raw[q.len() - 1]);
    lemma_unescape_escaped(seq![], b);
    assert(seq![] + e =~= e);
}

proof fn lemma_escaped_is_ascii(b: Seq<u8>)
    ensures
        forall|i: int| 0 <= i < escaped(b).len() ==> #[trigger] escaped(b)[i] < 128,
    decreases b.len(),
{
    if b.len() > 0 {
        lemma_escaped_is_ascii(b.skip(1));
        let one = escaped_byte(b[0]);
        let rest = escaped(b.skip(1));
        assert forall|i: int| 0 <= i < escaped(b).len() implies #[trigger] escaped(b)[i] < 128 by {
            if i >= one.len() {
                assert(escaped(b)[i] == rest[i - one.len()]);
            }
        }
    }
}

proof fn lemma_unescape_escaped(before: Seq<u8>, b: Seq<u8>)
    ensures
        unescape_from(before + escaped(b), before.len() as int) == b,
    decreases b.len(),
{
    let s = before + escaped(b);
    let i = before.len() as int;
    if b.len() > 0 {
        let one = escaped_byte(b[0]);
        let rest = b.skip(1);
        lemma_unescape_escaped(before + one, rest);
        assert(before + one + escaped(rest) =~= s);
        assert forall|k: int| 0 <= k < one.len() implies s[i + k] == #[trigger] one[k] by {}
        assert(seq![b[0]] + rest =~= b);
        match escape_letter(b[0]) {
            Some(letter) => {
                assert(s[i] == one[0] && s[i + 1] == one[1]);
            },
            None => if b[0] < 32 || b[0] >= 127 {
                assert(s[i] == one[0] && s[i + 1] == one[1] && s[i + 2] == one[2] && s[i + 3]
                    == one[3]);
            } else {
                assert(s[i] == one[0]);
            },
        }
    }
}

/// A tracked file that is not unmerged has staged changes exactly when the first
/// letter is no space, and unstaged changes exactly when the second is no space. An
/// untracked or unmerged file has nothing staged and something to stage.
pub proof fn status_letters_tell_what_is_staged(x: char, y: char)
    ensures
        status_codes(x, y).2 && !(status_codes(x, y).3 is Unmerged) ==> {
            &&& status_codes(x, y).0 <==> x != ' '
            &&& status_codes(x, y).1 <==> y != ' '
        },
        !status_codes(x, y).2 || status_codes(x, y).3 is Unmerged ==> !status_codes(x, y).0
            && status_codes(x, y).1,
{
}

/// A file is untracked exactly when both letters are question marks, and unmerged
/// exactly when both sides added it, both deleted it, or one of the letters is `U` and
/// the other `U`, `A` or `D`.
pub proof fn status_letters_tell_the_state(x: char, y: char)
    ensures
        status_codes(x, y).2 <==> !(x == '?' && y == '?'),
        status_codes(x, y).3 is Untracked <==> x == '?' && y == '?',
        status_codes(x, y).3 is Unmerged <==> {
            &&& seq!['U', 'A', 'D'].contains(x)
            &&& seq!['U', 'A', 'D'].contains(y)
            &&& x == 'U' || y == 'U' || x == y
        },
{
    let l = seq!['U', 'A', 'D'];
    assert(l[0] == 'U' && l[1] == 'A' && l[2] == 'D');
    assert(l.contains(x) <==> x == 'U' || x == 'A' || x == 'D');
    assert(l.contains(y) <==> y == 'U' || y == 'A' || y == 'D');
}

/// What happened to a tracked file follows from one letter: a file added, renamed or
/// copied in the index, untouched or modified since, has that status; one deleted on
/// one side and untouched on the other is deleted; all else is a modification.
pub proof fn status_letters_tell_what_happened(x: char, y: char)
    ensures
        status_codes(x, y).3 is Added <==> x == 'A' && seq![' ', 'M'].contains(y),
        status_codes(x, y).3 is Renamed <==> x == 'R' && seq![' ', 'M'].contains(y),
        status_codes(x, y).3 is Copied <==> x == 'C' && seq![' ', 'M'].contains(y),
        status_codes(x, y).3 is Deleted <==> (x, y) == ('D', ' ') || (x, y) == (' ', 'D'),
        x == 'M' || (y == 'M' && x == ' ') ==> status_codes(x, y).3 is Modified,
{
    let l = seq![' ', 'M'];
    assert(l[0] == ' ' && l[1] == 'M');
}

/// A line of the listing, two letters, a space and a path that git wrote without
/// quotes, names that path, with its letters as they stand; a path with an arrow in it
/// names both sides of the rename.
pub proof fn a_listed_line_names_its_path(x: char, y: char, path: Seq<char>)
    requires
        (x as u32) < 128,
        (y as u32) < 128,
        path.len() > 0,
        path[0] != '"',
        !text::contains(path, " -> "@),
    ensures
        ({
            let line = seq![x, y, ' '] + path;
            let file = listed_file(line);
            &&& names_a_file(line)
            &&& file.name == path
            &&& file.display_name == path
            &&& file.short_status == seq![x, y]
            &&& file.is_tracked <==> status_codes(x, y).2
            &&& file.status == status_codes(x, y).3
            &&& file.has_staged_changes == status_codes(x, y).0
            &&& file.has_unstaged_changes == status_codes(x, y).1
            &&& file.hunk_count == 0 && file.additions == 0 && file.deletions == 0
        }),
{
    let line = seq![x, y, ' '] + path;
    lemma_listed_line(x, y, path);
    text::find_text_is_first_occurrence(path, " -> "@);
    lemma_plain_path(path);
}

/// What is behind the letters of a renamed file names both sides, each unquoted.
pub proof fn a_listed_rename_names_both_sides(x: char, y: char, from: Seq<char>, to: Seq<char>)
    requires
        (x as u32) < 128,
        (y as u32) < 128,
        from.len() > 0,
        from[0] != '"',
        to.len() > 0,
        to[0] != '"',
        !text::contains(from + " ->"@, " -> "@),
    ensures
        listed_file(seq![x, y, ' '] + (from + " -> "@ + to)).name == from + " -> "@ + to,
{
    let path = from + " -> "@ + to;
    lemma_listed_line(x, y, path);
    model::the_arrow_parts_a_rename(from, to);
    assert(path.take(from.len() as int) =~= from);
    assert(path.skip(from.len() as int + 4) =~= to) by {
        reveal_strlit(" -> ");
    }
    lemma_plain_path(from);
    lemma_plain_path(to);
}

/// A quoted path is listed as the path itself.
pub proof fn a_listed_quoted_path_is_unquoted(x: char, y: char, path: Seq<char>)
    requires
        (x as u32) < 128,
        (y as u32) < 128,
        !text::contains(quoted(path), " -> "@),
    ensures
        listed_file(seq![x, y, ' '] + quoted(path)).name == path,
{
    unquoting_undoes_quoting(path);
    text::find_text_is_first_occurrence(quoted(path), " -> "@);
    lemma_listed_line(x, y, quoted(path));
}

/// A file is new, deleted or in conflict as its letters say: `A`, `D` or `U` on either
/// side; one both added or both deleted is in conflict, and an untracked file is new.
pub proof fn a_listed_line_tells_what_it_is(l: Seq<char>)
    requires
        l.len() >= 2,
    ensures
        l[0] == 'A' || l[1] == 'A' ==> listed_file(l).added,
        l[0] == '?' && l[1] == '?' ==> listed_file(l).added && !listed_file(l).deleted,
        l[0] == 'D' || l[1] == 'D' <==> listed_file(l).deleted,
        l[0] == 'U' || l[1] == 'U' ==> listed_file(l).has_merge_conflicts,
        listed_file(l).status is Unmerged ==> listed_file(l).has_merge_conflicts,
        listed_file(l).has_merge_conflicts && l[0] != 'U' && l[1] != 'U' ==> l[0] == l[1],
        listed_file(l).added ==> l[0] == 'A' || l[1] == 'A' || listed_file(l).status is Untracked,
        listed_file(l).short_status == l.take(2),
{
    assert(l.take(2) =~= seq![l[0], l[1]]);
}

proof fn lemma_listed_line(x: char, y: char, raw: Seq<char>)
    requires
        (x as u32) < 128,
        (y as u32) < 128,
    ensures
        listed_file(seq![x, y, ' '] + raw).name == listed_name(raw),
        listed_file(seq![x, y, ' '] + raw).display_name == listed_name(raw),
        raw.len() > 0 ==> names_a_file(seq![x, y, ' '] + raw),
{
    let line = seq![x, y, ' '] + raw;
    let r1 = seq![y, ' '] + raw;
    let r2 = seq![' '] + raw;
    assert(line.skip(1) =~= r1);
    assert(r1.skip(1) =~= r2);
    assert(r2.skip(1) =~= raw);
    text::lemma_byte_len_first(line);
    text::lemma_byte_len_first(r1);
    text::lemma_byte_len_first(r2);
    if raw.len() > 0 {
        text::lemma_byte_len_first(raw);
    }
    reveal_with_fuel(text::chars_in_bytes, 5);
    assert(text::chars_in_bytes(line, 3) == Some(3int));
    assert(line.skip(3) =~= raw);
}

proof fn lemma_plain_path(path: Seq<char>)
    requires
        path.len() > 0,
        path[0] != '"',
    ensures
        unquoted(path) == path,
{
    vstd::utf8::encode_utf8_first_scalar(path);
    let b = vstd::utf8::encode_utf8(path);
    assert(34u8 & 0x7F == 34u8) by (bit_vector);
    if b.len() >= 2 && b[0] == 34 {
        assert(vstd::utf8::decode_first_scalar(b) == 34);
        vstd::utf8::char_u32_cast(path[0], 34);
        assert(path[0] as int == 34);
    }
}

/// A listing is read line by line: a line of at least four bytes names one file, a
/// shorter one none, and the files come in the order of their lines.
pub proof fn a_listing_is_read_line_by_line(line: Seq<char>, rest: Seq<char>)
    requires
        !line.contains('\n'),
        line.len() > 0 ==> line.last() != '\r',
    ensures
        files_of(line + "\n"@ + rest) == (if text::byte_len(line) >= 4 {
            seq![listed_file(line)]
        } else {
            seq![]
        }) + files_of(rest),
        files_of(Seq::<char>::empty()) == Seq::<FileEntry>::empty(),
{
    text::lines_go_line_by_line(line, rest);
    lemma_listed_front(line, text::lines(rest), text::lines(rest).len() as int);
}

/// The files of a listing.
pub open spec fn files_of(s: Seq<char>) -> Seq<FileEntry> {
    listed_files(text::lines(s), text::lines(s).len() as int)
}

proof fn lemma_listed_front(x: Seq<char>, l: Seq<Seq<char>>, n: int)
    requires
        0 <= n <= l.len(),
    ensures
        listed_files(seq![x] + l, n + 1) == (if names_a_file(x) {
            seq![listed_file(x)]
        } else {
            seq![]
        }) + listed_files(l, n),
    decreases n,
{
    let m = seq![x] + l;
    if n > 0 {
        lemma_listed_front(x, l, n - 1);
        assert(m[n] == l[n - 1]);
        assert(listed_files(m, n + 1) =~= (if names_a_file(x) {
            seq![listed_file(x)]
        } else {
            seq![]
        }) + listed_files(l, n));
    } else {
        assert(listed_files(m, 0) =~= seq![]);
        assert(listed_files(m, 1) =~= (if names_a_file(x) {
            seq![listed_file(x)]
        } else {
            seq![]
        }) + listed_files(l, 0));
    }
}

/// The counts of a file stand in front of its path and are found by it, unless the same
/// path comes again.
pub proof fn counted_lines_are_read_back(a: nat, d: nat, path: Seq<char>, rest: Seq<char>)
    requires
        a <= usize::MAX,
        d <= usize::MAX,
        path.len() > 0,
        !path.contains('\0'),
    ensures
        numstat(text::decimal(a) + "\t"@ + text::decimal(d) + "\t"@ + path + "\0"@ + rest)
            == Map::empty().insert(path, (a as usize, d as usize)).union_prefer_right(
            numstat(rest),
        ),
        numstat(Seq::<char>::empty()) == Map::<Seq<char>, (usize, usize)>::empty(),
{
    reveal_strlit("\t");
    reveal_strlit("\0");
    let f = text::decimal(a) + "\t"@ + text::decimal(d) + "\t"@ + path;
    lemma_written_stat(a, d, path);
    assert("\0"@ =~= seq!['\0']);
    text::splitting_goes_piece_by_piece(f, '\0', rest);
    let r = text::split(rest, '\0');
    let one = Map::empty().insert(path, (a as usize, d as usize));
    lemma_numstat_front(seq![f], r, 0, one);
    assert((seq![f] + r)[0] == f);
    lemma_numstat_known(r, 0, one);
    let none = Seq::<char>::empty();
    text::splitting_goes_piece_by_piece(none, '\0', none);
    lemma_find_none(none);
    let l = text::split(none, '\0');
    assert(l[0] == none);
    assert(stat_field(l[0]) is None);
    assert(numstat_from(l, 1, Map::empty()) == Map::<Seq<char>, (usize, usize)>::empty());
}

/// The counts of a renamed file belong to its new path, which comes behind the old one.
pub proof fn counted_lines_follow_a_rename(
    a: nat,
    d: nat,
    from: Seq<char>,
    to: Seq<char>,
    rest: Seq<char>,
)
    requires
        a <= usize::MAX,
        d <= usize::MAX,
        to.len() > 0,
        !from.contains('\0'),
        !to.contains('\0'),
    ensures
        numstat(
            text::decimal(a) + "\t"@ + text::decimal(d) + "\t"@ + "\0"@ + from + "\0"@ + to + "\0"@
                + rest,
        ) == Map::empty().insert(to, (a as usize, d as usize)).union_prefer_right(numstat(rest)),
{
    reveal_strlit("\t");
    reveal_strlit("\0");
    let z = seq!['\0'];
    let none = Seq::<char>::empty();
    let f = text::decimal(a) + "\t"@ + text::decimal(d) + "\t"@ + none;
    lemma_written_stat(a, d, none);
    assert("\0"@ =~= z);
    let s3 = to + z + rest;
    let s2 = from + z + s3;
    text::splitting_goes_piece_by_piece(f, '\0', s2);
    text::splitting_goes_piece_by_piece(from, '\0', s3);
    text::splitting_goes_piece_by_piece(to, '\0', rest);
    assert(f + z + s2 =~= text::decimal(a) + "\t"@ + text::decimal(d) + "\t"@ + "\0"@ + from
        + "\0"@ + to + "\0"@ + rest);
    let r = text::split(rest, '\0');
    let front = seq![f, from, to];
    assert(seq![f] + (seq![from] + (seq![to] + r)) =~= front + r);
    let one = Map::empty().insert(to, (a as usize, d as usize));
    text::join_undoes_split(rest, '\0');
    lemma_numstat_front(front, r, 0, one);
    assert((front + r)[0] == f && (front + r)[2] == to);
    lemma_numstat_known(r, 0, one);
}

/// A binary file, which has dashes in place of counts, adds nothing.
pub proof fn binary_files_have_no_counts(path: Seq<char>, rest: Seq<char>)
    requires
        !path.contains('\0'),
    ensures
        numstat("-\t-\t"@ + path + "\0"@ + rest) == numstat(rest),
{
    reveal_strlit("-\t-\t");
    reveal_strlit("\0");
    assert("\0"@ =~= seq!['\0']);
    let f = "-\t-\t"@ + path;
    let dash = seq!['-'];
    let tail = dash + seq!['\t'] + path;
    assert(f =~= dash + seq!['\t'] + tail);
    text::a_front_is_split_off(dash, '\t', tail);
    text::a_front_is_split_off(dash, '\t', path);
    assert(text::unsigned_digits(dash) == dash);
    assert(!text::is_digit(dash[0]));
    assert(text::parse_unsigned(dash, usize::MAX as nat) is None);
    assert(stat_field(f) is None);
    assert(!f.contains('\0')) by {
        if f.contains('\0') {
            let j = choose|j: int| 0 <= j < f.len() && f[j] == '\0';
            assert(path[j - 4] == '\0');
        }
    }
    text::splitting_goes_piece_by_piece(f, '\0', rest);
    let r = text::split(rest, '\0');
    lemma_numstat_front(seq![f], r, 0, Map::empty());
    assert((seq![f] + r)[0] == f);
}

proof fn lemma_find_none(s: Seq<char>)
    requires
        s.len() == 0,
    ensures
        text::split_once(s, '\t') is None,
{
    text::a_split_is_at_the_first(s, '\t');
}

proof fn lemma_written_stat(a: nat, d: nat, path: Seq<char>)
    requires
        a <= usize::MAX,
        d <= usize::MAX,
        !path.contains('\0'),
    ensures
        ({
            let f = text::decimal(a) + "\t"@ + text::decimal(d) + "\t"@ + path;
            stat_field(f) == Some((a, d, path)) && !f.contains('\0')
        }),
{
    reveal_strlit("\t");
    let x = text::decimal(a);
    let y = text::decimal(d);
    let t = seq!['\t'];
    assert("\t"@ =~= t);
    let f = x + "\t"@ + y + "\t"@ + path;
    text::decimals_are_digits(a);
    text::decimals_are_digits(d);
    assert(!x.contains('\t') && !y.contains('\t'));
    assert(f =~= x + t + (y + t + path));
    text::a_front_is_split_off(x, '\t', y + t + path);
    text::a_front_is_split_off(y, '\t', path);
    text::a_written_number_is_read_back(a, usize::MAX as nat);
    text::a_written_number_is_read_back(d, usize::MAX as nat);
    if f.contains('\0') {
        let j = choose|j: int| 0 <= j < f.len() && f[j] == '\0';
        let m = x.len() + 1 + y.len() + 1;
        if j < x.len() {
            assert(text::is_digit(x[j]));
        } else if x.len() < j < x.len() + 1 + y.len() {
            assert(text::is_digit(y[j - x.len() - 1]));
        } else if j >= m {
            assert(path[j - m] == '\0');
        }
    }
}

proof fn lemma_numstat_front(
    front: Seq<Seq<char>>,
    f: Seq<Seq<char>>,
    i: int,
    known: Map<Seq<char>, (usize, usize)>,
)
    requires
        0 <= i <= f.len(),
    ensures
        numstat_from(front + f, front.len() + i, known) == numstat_from(f, i, known),
    decreases f.len() - i,
{
    let l = front + f;
    if i < f.len() {
        assert(l[front.len() + i] == f[i]);
        match stat_field(f[i]) {
            None => {
                lemma_numstat_front(front, f, i + 1, known);
            },
            Some((a, d, path)) => {
                let counts = (a as usize, d as usize);
                if path.len() > 0 {
                    lemma_numstat_front(front, f, i + 1, known.insert(path, counts));
                } else if i + 2 < f.len() {
                    assert(l[front.len() + i + 2] == f[i + 2]);
                    lemma_numstat_front(front, f, i + 3, known.insert(f[i + 2], counts));
                    lemma_numstat_front(front, f, i + 3, known);
                }
            },
        }
    }
}

proof fn lemma_numstat_known(f: Seq<Seq<char>>, i: int, known: Map<Seq<char>, (usize, usize)>)
    requires
        0 <= i <= f.len(),
    ensures
        numstat_from(f, i, known) == known.union_prefer_right(numstat_from(f, i, Map::empty())),
    decreases f.len() - i,
{
    let none = Map::<Seq<char>, (usize, usize)>::empty();
    if i < f.len() {
        match stat_field(f[i]) {
            None => {
                lemma_numstat_known(f, i + 1, known);
            },
            Some((a, d, path)) => {
                let counts = (a as usize, d as usize);
                if path.len() > 0 {
                    lemma_numstat_known(f, i + 1, known.insert(path, counts));
                    lemma_numstat_known(f, i + 1, none.insert(path, counts));
                    lemma_insert_first(known, path, counts, numstat_from(f, i + 1, none));
                } else if i + 2 < f.len() && f[i + 2].len() > 0 {
                    lemma_numstat_known(f, i + 3, known.insert(f[i + 2], counts));
                    lemma_numstat_known(f, i + 3, none.insert(f[i + 2], counts));
                    lemma_insert_first(known, f[i + 2], counts, numstat_from(f, i + 3, none));
                } else if i + 2 < f.len() {
                    lemma_numstat_known(f, i + 3, known);
                } else {
                    assert(known.union_prefer_right(none) =~= known);
                }
            },
        }
    } else {
        assert(known.union_prefer_right(none) =~= known);
    }
}

proof fn lemma_insert_first(
    known: Map<Seq<char>, (usize, usize)>,
    k: Seq<char>,
    v: (usize, usize),
    more: Map<Seq<char>, (usize, usize)>,
)
    ensures
        known.insert(k, v).union_prefer_right(more) == known.union_prefer_right(
            Map::empty().insert(k, v).union_prefer_right(more),
        ),
{
    assert(known.insert(k, v).union_prefer_right(more) =~= known.union_prefer_right(
        Map::empty().insert(k, v).union_prefer_right(more),
    ));
}

/// How many of the texts begin with another.
pub open spec fn how_many_begin(l: Seq<Seq<char>>, p: Seq<char>) -> nat
    decreases l.len(),
{
    if l.len() == 0 {
        0
    } else {
        how_many_begin(l.drop_last(), p) + if p.is_prefix_of(l.last()) {
            1nat
        } else {
            0nat
        }
    }
}

/// The hunks of a file are the lines behind its header that begin with two at signs:
/// a patch of one file counts them for its new path, or for the old one where the file
/// is gone, and counts nothing else.
pub proof fn hunks_are_the_lines_with_at_signs(
    patch: Seq<char>,
    from: Seq<char>,
    to: Seq<char>,
    body: Seq<Seq<char>>,
)
    requires
        text::lines(patch) == seq!["--- "@ + from, "+++ "@ + to] + body,
        from != "/dev/null"@,
        body.len() < usize::MAX,
        forall|k: int|
            0 <= k < body.len() ==> !"--- "@.is_prefix_of(#[trigger] body[k]) && !"+++ "@.is_prefix_of(
                body[k],
            ),
    ensures
        ({
            let n = how_many_begin(body, "@@"@);
            let path = if to == "/dev/null"@ {
                unquoted(from)
            } else {
                unquoted(to)
            };
            hunk_counts(patch) == if n == 0 {
                Map::<Seq<char>, usize>::empty()
            } else {
                Map::empty().insert(path, n as usize)
            }
        }),
{
    reveal_strlit("--- ");
    reveal_strlit("+++ ");
    reveal_strlit("@@");
    let h1 = "--- "@ + from;
    let h2 = "+++ "@ + to;
    let l = seq![h1, h2] + body;
    assert(l[0] == h1 && l[1] == h2);
    assert(h1.skip(4) =~= from);
    assert(h2.skip(4) =~= to);
    assert("--- "@.is_prefix_of(h1));
    assert("+++ "@.is_prefix_of(h2));
    assert(h2[0] == '+');
    assert(!"--- "@.is_prefix_of(h2)) by {
        if "--- "@.is_prefix_of(h2) {
            assert("--- "@[0] == h2[0]);
        }
    }
    reveal_with_fuel(scan_lines, 3);
    let path = if to == "/dev/null"@ {
        unquoted(from)
    } else {
        unquoted(to)
    };
    assert(scan_lines(l, 2).current == Some(path));
    assert(scan_lines(l, 2).counts == Map::<Seq<char>, usize>::empty());
    lemma_hunks_behind(l, body, path, body.len() as int);
    assert(body.take(body.len() as int) =~= body);
}

proof fn lemma_hunks_behind(l: Seq<Seq<char>>, body: Seq<Seq<char>>, path: Seq<char>, n: int)
    requires
        0 <= n <= body.len() < usize::MAX,
        l.len() == body.len() + 2,
        forall|k: int| 0 <= k < body.len() ==> l[k + 2] == #[trigger] body[k],
        forall|k: int|
            0 <= k < body.len() ==> !"--- "@.is_prefix_of(#[trigger] body[k]) && !"+++ "@.is_prefix_of(
                body[k],
            ),
        scan_lines(l, 2).current == Some(path),
        scan_lines(l, 2).counts == Map::<Seq<char>, usize>::empty(),
    ensures
        scan_lines(l, n + 2).current == Some(path),
        how_many_begin(body.take(n), "@@"@) <= n,
        scan_lines(l, n + 2).counts == if how_many_begin(body.take(n), "@@"@) == 0 {
            Map::<Seq<char>, usize>::empty()
        } else {
            Map::empty().insert(path, how_many_begin(body.take(n), "@@"@) as usize)
        },
    decreases n,
{
    if n > 0 {
        lemma_hunks_behind(l, body, path, n - 1);
        assert(body.take(n).drop_last() =~= body.take(n - 1));
        assert(body.take(n).last() == body[n - 1]);
        assert(l[n + 1] == body[n - 1]);
        let c = scan_lines(l, n + 2).counts;
        let m = how_many_begin(body.take(n), "@@"@);
        if m > 0 {
            assert(c =~= Map::empty().insert(path, m as usize));
        }
    } else {
        assert(body.take(0) =~= seq![]);
    }
}

/// A tracked file gets what git counted for the path that it has now, and keeps all
/// else; a path without hunks has none.
pub proof fn a_tracked_file_gets_its_counts(
    e: FileEntry,
    lines: Map<Seq<char>, (usize, usize)>,
    hunks: Map<Seq<char>, usize>,
    contents: Map<Seq<char>, String>,
    path: Seq<char>,
    a: usize,
    d: usize,
    n: usize,
)
    requires
        e.is_tracked,
        path == model::path_now(e.name),
    ensures
        ({
            let r = with_stats(e, lines.insert(path, (a, d)), hunks.insert(path, n), contents);
            &&& r.additions == a
            &&& r.deletions == d
            &&& r.hunk_count == n
            &&& r.name == e.name && r.display_name == e.display_name && r.status == e.status
            &&& r.short_status == e.short_status
            &&& r.has_staged_changes == e.has_staged_changes
            &&& r.has_unstaged_changes == e.has_unstaged_changes
            &&& r.is_tracked && r.added == e.added && r.deleted == e.deleted
            &&& r.has_merge_conflicts == e.has_merge_conflicts
        }),
        with_stats(e, lines.remove(path), hunks.remove(path), contents).additions == e.additions,
        with_stats(e, lines.remove(path), hunks.remove(path), contents).deletions == e.deletions,
        with_stats(e, lines.remove(path), hunks.remove(path), contents).hunk_count == 0,
{
}

/// A new file counts every line of its contents as added, in one hunk, and takes nothing
/// from what git counted; one that could not be read stays as it was.
pub proof fn a_new_file_counts_its_lines(
    e: FileEntry,
    lines: Map<Seq<char>, (usize, usize)>,
    hunks: Map<Seq<char>, usize>,
    contents: Map<Seq<char>, String>,
)
    requires
        !e.is_tracked,
    ensures
        ({
            let r = with_stats(e, lines, hunks, contents);
            let path = model::path_now(e.name);
            if contents.dom().contains(path) {
                &&& r.additions == text::lines(contents[path]@).len()
                &&& r.deletions == e.deletions
                &&& r.hunk_count == 1 <==> contents[path]@.len() > 0
                &&& r.hunk_count <= 1
                &&& r.name == e.name && r.status == e.status
            } else {
                r == e
            }
        }),
{
    let path = model::path_now(e.name);
    if contents.dom().contains(path) {
        let s = contents[path]@;
        text::lines_inclusive_rebuild(s);
        if text::lines_inclusive(s).len() == 0 {
            assert(s =~= seq![]);
        }
    }
}

/// Of three octal digits the lowest eight bits count: four more in the first digit write the
/// same byte.
pub proof fn octal_digits_write_a_byte(s: Seq<u8>, i: int)
    requires
        0 <= i,
        octal_at(s, i),
    ensures
        s[i] < 52 ==> octal_value(s, i) == (s[i] - 48) * 64 + (s[i + 1] - 48) * 8 + (s[i + 2] - 48),
        s[i] < 52 ==> octal_value(s.update(i, (s[i] + 4) as u8), i) == octal_value(s, i),
{
}

/// A backslash before what is no escape stands for itself, and so does any other byte.
pub proof fn other_bytes_stand_for_themselves(b: u8, rest: Seq<u8>)
    requires
        b == 92 ==> rest.len() == 0 || (letter_escape(rest[0]) is None && !(48 <= rest[0] <= 55)),
    ensures
        unescape_from(seq![b] + rest, 0) == seq![b] + unescape_from(rest, 0),
{
    let s = seq![b] + rest;
    lemma_unescape_shift(b, rest, 0);
    if rest.len() > 0 {
        assert(s[1] == rest[0]);
    }
}

proof fn lemma_unescape_shift(b: u8, rest: Seq<u8>, i: int)
    requires
        0 <= i,
    ensures
        unescape_from(seq![b] + rest, i + 1) == unescape_from(rest, i),
    decreases rest.len() - i,
{
    let s = seq![b] + rest;
    assert(forall|j: int| 0 <= j < rest.len() ==> s[j + 1] == rest[j]);
    if i < rest.len() {
        assert(s[i + 1] == rest[i]);
        if i + 1 < rest.len() {
            assert(s[i + 2] == rest[i + 1]);
            lemma_unescape_shift(b, rest, i + 2);
        }
        if i + 3 < rest.len() {
            assert(s[i + 3] == rest[i + 2]);
            assert(s[i + 4] == rest[i + 3]);
            lemma_unescape_shift(b, rest, i + 4);
        }
        lemma_unescape_shift(b, rest, i + 1);
    }
}

} // verus!
