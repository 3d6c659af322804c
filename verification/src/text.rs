//! Text as sequences of characters: the vocabulary that the parsers and the
//! views of this crate share, with an executable function for each notion.

use vstd::prelude::*;

verus! {

/// Appends one character to the end of a string (`String::push`).
pub assume_specification[ String::push ](s: &mut String, c: char)
    ensures
        final(s)@ == old(s)@.push(c),
;

/// The lower-case form of a text by the Unicode rules.
pub uninterp spec fn lowercase(s: Seq<char>) -> Seq<char>;

/// `str::to_lowercase`: the lower-case form of a string, which rests on the string
/// alone. An empty string stays empty.
pub assume_specification[ str::to_lowercase ](s: &str) -> (r: String)
    ensures
        r@ == lowercase(s@),
        s@.len() == 0 ==> r@.len() == 0,
;

/// The characters of a string, in order.
pub fn chars_of(s: &str) -> (v: Vec<char>)
    ensures
        v@ == s@,
{
    let mut v: Vec<char> = Vec::new();
    for c in it: s.chars()
        invariant
            it.seq() == s@,
            v@ == s@.take(it.index()),
    {
        v.push(c);
    }
    assert(s@.take(s@.len() as int) == s@);
    v
}

/// The string that holds the characters of a slice.
pub fn string_of(v: &[char]) -> (s: String)
    ensures
        s@ == v@,
{
    let mut s = String::new();
    let mut i: usize = 0;
    while i < v.len()
        invariant
            i <= v@.len(),
            s@ == v@.take(i as int),
        decreases v@.len() - i,
    {
        s.push(v[i]);
        i = i + 1;
        assert(v@.take(i as int) == v@.take(i as int - 1).push(v@[i as int - 1]));
    }
    assert(v@.take(v@.len() as int) == v@);
    s
}

/// The texts that strings hold, in order.
pub open spec fn texts(v: Seq<String>) -> Seq<Seq<char>> {
    Seq::new(v.len(), |i: int| v[i]@)
}

/// The text of an optional string.
pub open spec fn opt_text(o: Option<String>) -> Option<Seq<char>> {
    match o {
        Some(s) => Some(s@),
        None => None,
    }
}

/// The texts that vectors of characters hold, in order.
pub open spec fn pieces(v: Seq<Vec<char>>) -> Seq<Seq<char>> {
    Seq::new(v.len(), |i: int| v[i]@)
}

/// The strings that hold the characters of the pieces, one each.
pub fn strings_of(v: &Vec<Vec<char>>) -> (r: Vec<String>)
    ensures
        texts(r@) == pieces(v@),
{
    let mut r: Vec<String> = Vec::new();
    let mut i: usize = 0;
    while i < v.len()
        invariant
            i <= v@.len(),
            r@.len() == i,
            forall|j: int| 0 <= j < i ==> (#[trigger] r@[j])@ == v@[j]@,
        decreases v@.len() - i,
    {
        r.push(string_of(v[i].as_slice()));
        i = i + 1;
    }
    assert(texts(r@) =~= pieces(v@));
    r
}

/// Whether two slices hold the same characters.
pub fn same(a: &[char], b: &[char]) -> (r: bool)
    ensures
        r == (a@ == b@),
{
    if a.len() != b.len() {
        return false;
    }
    let mut i: usize = 0;
    while i < a.len()
        invariant
            i <= a@.len(),
            a@.len() == b@.len(),
            forall|j: int| 0 <= j < i ==> a@[j] == b@[j],
        decreases a@.len() - i,
    {
        if a[i] != b[i] {
            return false;
        }
        i = i + 1;
    }
    assert(a@ =~= b@);
    true
}

/// Whether two strings hold the same characters.
pub fn same_str(a: &str, b: &str) -> (r: bool)
    ensures
        r == (a@ == b@),
{
    same(chars_of(a).as_slice(), chars_of(b).as_slice())
}

/// Whether a string holds no characters.
pub fn is_empty_str(s: &str) -> (r: bool)
    ensures
        r == (s@.len() == 0),
{
    chars_of(s).len() == 0
}

/// Whether `s` starts with the characters of `p`.
pub fn starts_with(s: &[char], p: &str) -> (r: bool)
    ensures
        r == p@.is_prefix_of(s@),
{
    let p = chars_of(p);
    if s.len() < p.len() {
        return false;
    }
    let r = same(vstd::slice::slice_subrange(s, 0, p.len()), p.as_slice());
    r
}

/// Whether `s` ends with the characters of `p`.
pub fn ends_with(s: &[char], p: &str) -> (r: bool)
    ensures
        r == p@.is_suffix_of(s@),
{
    let p = chars_of(p);
    if s.len() < p.len() {
        return false;
    }
    same(vstd::slice::slice_subrange(s, s.len() - p.len(), s.len()), p.as_slice())
}

// ---------------------------------------------------------------------------
// White space
// ---------------------------------------------------------------------------

/// A character with the Unicode property `White_Space`.
pub open spec fn is_space(c: char) -> bool {
    ||| 0x09 <= c as int <= 0x0d
    ||| c as int == 0x20
    ||| c as int == 0x85
    ||| c as int == 0xa0
    ||| c as int == 0x1680
    ||| 0x2000 <= c as int <= 0x200a
    ||| c as int == 0x2028
    ||| c as int == 0x2029
    ||| c as int == 0x202f
    ||| c as int == 0x205f
    ||| c as int == 0x3000
}

/// Whether `c` is white space.
pub fn is_space_char(c: char) -> (r: bool)
    ensures
        r == is_space(c),
{
    let n: u32 = c as u32;
    (0x09 <= n && n <= 0x0d) || n == 0x20 || n == 0x85 || n == 0xa0 || n == 0x1680 || (0x2000 <= n
        && n <= 0x200a) || n == 0x2028 || n == 0x2029 || n == 0x202f || n == 0x205f || n == 0x3000
}

/// The text without the white space at its start.
pub open spec fn trim_start(s: Seq<char>) -> Seq<char>
    decreases s.len(),
{
    if s.len() > 0 && is_space(s[0]) {
        trim_start(s.skip(1))
    } else {
        s
    }
}

/// The text without the white space at its end.
pub open spec fn trim_end(s: Seq<char>) -> Seq<char>
    decreases s.len(),
{
    if s.len() > 0 && is_space(s.last()) {
        trim_end(s.drop_last())
    } else {
        s
    }
}

/// The text without the white space at both ends.
pub open spec fn trim(s: Seq<char>) -> Seq<char> {
    trim_end(trim_start(s))
}

/// Trimming removes characters only.
pub proof fn lemma_trim_start_shorter(s: Seq<char>)
    ensures
        trim_start(s).len() <= s.len(),
    decreases s.len(),
{
    if s.len() > 0 && is_space(s[0]) {
        lemma_trim_start_shorter(s.skip(1));
    }
}

/// Removes the white space at the start.
pub fn trim_start_of(s: &[char]) -> (r: &[char])
    ensures
        r@ == trim_start(s@),
{
    let mut i: usize = 0;
    assert(s@.skip(0) == s@);
    while i < s.len() && is_space_char(s[i])
        invariant
            i <= s@.len(),
            trim_start(s@) == trim_start(s@.skip(i as int)),
        decreases s@.len() - i,
    {
        assert(s@.skip(i as int).skip(1) == s@.skip(i as int + 1));
        i = i + 1;
    }
    vstd::slice::slice_subrange(s, i, s.len())
}

/// Removes the white space at the end.
pub fn trim_end_of(s: &[char]) -> (r: &[char])
    ensures
        r@ == trim_end(s@),
{
    let mut i: usize = s.len();
    assert(s@.take(s@.len() as int) == s@);
    while i > 0 && is_space_char(s[i - 1])
        invariant
            i <= s@.len(),
            trim_end(s@) == trim_end(s@.take(i as int)),
        decreases i,
    {
        assert(s@.take(i as int).drop_last() == s@.take(i as int - 1));
        i = i - 1;
    }
    vstd::slice::slice_subrange(s, 0, i)
}

/// Removes the white space at both ends.
pub fn trim_of(s: &[char]) -> (r: &[char])
    ensures
        r@ == trim(s@),
{
    trim_end_of(trim_start_of(s))
}

/// The trimmed text of a string, as a string.
pub fn trim_str(s: &str) -> (r: String)
    ensures
        r@ == trim(s@),
{
    string_of(trim_of(chars_of(s).as_slice()))
}

// ---------------------------------------------------------------------------
// Pieces of a text
// ---------------------------------------------------------------------------

/// The first position at or after `i` that holds `c`, or the length of the text.
pub open spec fn find_from(s: Seq<char>, c: char, i: int) -> int
    decreases s.len() - i,
{
    if i < 0 || i >= s.len() {
        s.len() as int
    } else if s[i] == c {
        i
    } else {
        find_from(s, c, i + 1)
    }
}

/// The position that `find_from` names is the first one with that character.
pub proof fn lemma_find_from(s: Seq<char>, c: char, i: int)
    requires
        0 <= i <= s.len(),
    ensures
        i <= find_from(s, c, i) <= s.len(),
        find_from(s, c, i) < s.len() ==> s[find_from(s, c, i)] == c,
        forall|j: int| i <= j < find_from(s, c, i) ==> s[j] != c,
    decreases s.len() - i,
{
    if i < s.len() && s[i] != c {
        lemma_find_from(s, c, i + 1);
    }
}

/// Finds the first position at or after `start` that holds `c`.
pub fn find_char_from(s: &[char], c: char, start: usize) -> (r: usize)
    requires
        start <= s@.len(),
    ensures
        r == find_from(s@, c, start as int),
        start <= r <= s@.len(),
{
    let mut i: usize = start;
    while i < s.len() && s[i] != c
        invariant
            start <= i <= s@.len(),
            find_from(s@, c, start as int) == find_from(s@, c, i as int),
        decreases s@.len() - i,
    {
        i = i + 1;
    }
    i
}

/// The text from position `i` on, cut at each `c`; the separators are left out.
pub open spec fn split_from(s: Seq<char>, c: char, i: int) -> Seq<Seq<char>>
    decreases s.len() - i,
{
    if i < 0 || i > s.len() {
        seq![]
    } else {
        let e = find_from(s, c, i);
        if e < i || e >= s.len() {
            seq![s.subrange(i, s.len() as int)]
        } else {
            seq![s.subrange(i, e)] + split_from(s, c, e + 1)
        }
    }
}

/// The text cut at each `c`; the separators are left out.
pub open spec fn split(s: Seq<char>, c: char) -> Seq<Seq<char>> {
    split_from(s, c, 0)
}

/// A copy of the characters between two positions.
pub fn copy_range(s: &[char], i: usize, j: usize) -> (r: Vec<char>)
    requires
        i <= j <= s@.len(),
    ensures
        r@ == s@.subrange(i as int, j as int),
{
    vstd::slice::slice_to_vec(vstd::slice::slice_subrange(s, i, j))
}

/// Cuts a text at each `c`.
pub fn split_at_char(s: &[char], c: char) -> (r: Vec<Vec<char>>)
    ensures
        pieces(r@) == split(s@, c),
        r@.len() > 0,
{
    let mut r: Vec<Vec<char>> = Vec::new();
    let mut start: usize = 0;
    assert(pieces(r@) + split_from(s@, c, 0) =~= split(s@, c));
    loop
        invariant_except_break
            start <= s@.len(),
            pieces(r@) + split_from(s@, c, start as int) == split(s@, c),
        ensures
            pieces(r@) == split(s@, c),
            r@.len() > 0,
        decreases s@.len() - start,
    {
        let e: usize = find_char_from(s, c, start);
        let ghost before = r@;
        r.push(copy_range(s, start, e));
        assert(pieces(r@) =~= pieces(before).push(s@.subrange(start as int, e as int)));
        if e >= s.len() {
            assert(pieces(r@) =~= pieces(before) + split_from(s@, c, start as int));
            break;
        }
        assert(pieces(before) + split_from(s@, c, start as int) =~= pieces(r@) + split_from(
            s@,
            c,
            e as int + 1,
        ));
        start = e + 1;
    }
    r
}

/// The lines of the text from position `i` on, each with its line feed.
pub open spec fn lines_inclusive_from(s: Seq<char>, i: int) -> Seq<Seq<char>>
    decreases s.len() - i,
{
    if i < 0 || i >= s.len() {
        seq![]
    } else {
        let e = line_end(s, i);
        if e <= i {
            seq![]
        } else {
            seq![s.subrange(i, e)] + lines_inclusive_from(s, e)
        }
    }
}

/// Where the line that starts at position `i` ends: behind its line feed, or at
/// the end of the text.
pub open spec fn line_end(s: Seq<char>, i: int) -> int {
    let e = find_from(s, '\n', i);
    if e < s.len() {
        e + 1
    } else {
        s.len() as int
    }
}

/// The lines of a text, each with its line feed (the last may have none).
pub open spec fn lines_inclusive(s: Seq<char>) -> Seq<Seq<char>> {
    lines_inclusive_from(s, 0)
}

/// Cuts a text into lines that keep their line feeds.
pub fn split_inclusive_lines(s: &[char]) -> (r: Vec<Vec<char>>)
    ensures
        pieces(r@) == lines_inclusive(s@),
{
    let mut r: Vec<Vec<char>> = Vec::new();
    let mut start: usize = 0;
    assert(pieces(r@) + lines_inclusive_from(s@, 0) =~= lines_inclusive(s@));
    while start < s.len()
        invariant
            start <= s@.len(),
            pieces(r@) + lines_inclusive_from(s@, start as int) == lines_inclusive(s@),
        decreases s@.len() - start,
    {
        let e: usize = find_char_from(s, '\n', start);
        let end: usize = if e < s.len() {
            e + 1
        } else {
            s.len()
        };
        let ghost before = r@;
        r.push(copy_range(s, start, end));
        assert(pieces(r@) =~= pieces(before).push(s@.subrange(start as int, end as int)));
        assert(pieces(before) + lines_inclusive_from(s@, start as int) =~= pieces(r@)
            + lines_inclusive_from(s@, end as int));
        start = end;
    }
    assert(pieces(r@) =~= pieces(r@) + lines_inclusive_from(s@, start as int));
    r
}

/// A line without its line feed, and without the carriage return before it.
pub open spec fn strip_line_end(l: Seq<char>) -> Seq<char> {
    if l.len() > 0 && l.last() == '\n' {
        let m = l.drop_last();
        if m.len() > 0 && m.last() == '\r' {
            m.drop_last()
        } else {
            m
        }
    } else {
        l
    }
}

/// The lines of a text without their line ends.
pub open spec fn lines(s: Seq<char>) -> Seq<Seq<char>> {
    let l = lines_inclusive(s);
    Seq::new(l.len(), |i: int| strip_line_end(l[i]))
}

/// Cuts a text into lines without their line ends.
pub fn lines_of(s: &[char]) -> (r: Vec<Vec<char>>)
    ensures
        pieces(r@) == lines(s@),
{
    let l = split_inclusive_lines(s);
    let mut r: Vec<Vec<char>> = Vec::new();
    let mut i: usize = 0;
    while i < l.len()
        invariant
            i <= l@.len(),
            r@.len() == i,
            forall|j: int| 0 <= j < i ==> (#[trigger] r@[j])@ == strip_line_end(l@[j]@),
        decreases l@.len() - i,
    {
        let line: &Vec<char> = &l[i];
        let mut n: usize = line.len();
        if n > 0 && line[n - 1] == '\n' {
            n = n - 1;
            if n > 0 && line[n - 1] == '\r' {
                n = n - 1;
            }
        }
        assert(line@.subrange(0, n as int) =~= strip_line_end(line@));
        r.push(copy_range(line.as_slice(), 0, n));
        i = i + 1;
    }
    assert(pieces(l@) == lines_inclusive(s@));
    assert(forall|j: int| 0 <= j < l@.len() ==> pieces(l@)[j] == l@[j]@);
    assert(pieces(r@) =~= lines(s@));
    r
}

/// The texts one behind the other.
pub open spec fn concat(l: Seq<Seq<char>>) -> Seq<char>
    decreases l.len(),
{
    if l.len() == 0 {
        seq![]
    } else {
        concat(l.drop_last()) + l.last()
    }
}

/// The texts one behind the other, with `sep` between each two.
pub open spec fn join(l: Seq<Seq<char>>, sep: Seq<char>) -> Seq<char>
    decreases l.len(),
{
    if l.len() == 0 {
        seq![]
    } else if l.len() == 1 {
        l[0]
    } else {
        join(l.drop_last(), sep) + sep + l.last()
    }
}

/// Appends the pieces between two indices to a string.
pub fn push_pieces(out: &mut String, l: &Vec<Vec<char>>, from: usize, to: usize)
    requires
        from <= to <= l@.len(),
    ensures
        final(out)@ == old(out)@ + concat(pieces(l@).subrange(from as int, to as int)),
{
    let mut i: usize = from;
    assert(pieces(l@).subrange(from as int, from as int) =~= seq![]);
    assert(out@ =~= old(out)@ + concat(seq![]));
    while i < to
        invariant
            from <= i <= to <= l@.len(),
            out@ == old(out)@ + concat(pieces(l@).subrange(from as int, i as int)),
        decreases to - i,
    {
        let piece = string_of(l[i].as_slice());
        out.append(piece.as_str());
        proof {
            let a = pieces(l@).subrange(from as int, i as int);
            let b = pieces(l@).subrange(from as int, i as int + 1);
            assert(b.drop_last() =~= a);
            assert(b.last() == l@[i as int]@);
            assert(out@ =~= old(out)@ + concat(b));
        }
        i = i + 1;
    }
}

/// The pieces between two indices, one behind the other.
pub fn concat_range(l: &Vec<Vec<char>>, from: usize, to: usize) -> (r: String)
    requires
        from <= to <= l@.len(),
    ensures
        r@ == concat(pieces(l@).subrange(from as int, to as int)),
{
    let mut out = String::new();
    push_pieces(&mut out, l, from, to);
    assert(out@ =~= concat(pieces(l@).subrange(from as int, to as int)));
    out
}

/// Joins strings with a separator between each two.
pub fn join_strings(l: &Vec<String>, sep: &str) -> (r: String)
    ensures
        r@ == join(texts(l@), sep@),
{
    let mut out = String::new();
    let mut i: usize = 0;
    assert(texts(l@).take(0) =~= seq![]);
    while i < l.len()
        invariant
            i <= l@.len(),
            out@ == join(texts(l@).take(i as int), sep@),
        decreases l@.len() - i,
    {
        proof {
            let a = texts(l@).take(i as int);
            let b = texts(l@).take(i as int + 1);
            assert(b.drop_last() =~= a);
            assert(b.last() == l@[i as int]@);
        }
        if i > 0 {
            out.append(sep);
        }
        out.append(l[i].as_str());
        assert(out@ =~= join(texts(l@).take(i as int + 1), sep@));
        i = i + 1;
    }
    assert(texts(l@).take(l@.len() as int) =~= texts(l@));
    out
}

/// Cutting a text into lines loses nothing: the lines one behind the other are
/// the text.
pub proof fn lines_inclusive_rebuild(s: Seq<char>)
    ensures
        concat(lines_inclusive(s)) == s,
{
    lemma_lines_rebuild_from(s, 0);
    assert(s.subrange(0, s.len() as int) =~= s);
}

proof fn lemma_lines_rebuild_from(s: Seq<char>, i: int)
    requires
        0 <= i <= s.len(),
    ensures
        concat(lines_inclusive_from(s, i)) == s.subrange(i, s.len() as int),
    decreases s.len() - i,
{
    if i < s.len() {
        lemma_find_from(s, '\n', i);
        let e = line_end(s, i);
        lemma_lines_rebuild_from(s, e);
        lemma_concat_add(seq![s.subrange(i, e)], lines_inclusive_from(s, e));
        lemma_concat_one(s.subrange(i, e));
        assert(s.subrange(i, e) + s.subrange(e, s.len() as int) =~= s.subrange(i, s.len() as int));
    } else {
        assert(s.subrange(i, s.len() as int) =~= seq![]);
    }
}

/// A piece behind a separator is the last one.
pub proof fn lemma_split_behind(a: Seq<char>, c: char, b: Seq<char>, i: int)
    requires
        0 <= i <= a.len(),
        forall|j: int| 0 <= j < b.len() ==> b[j] != c,
    ensures
        split_from(a + seq![c] + b, c, i) == split_from(a, c, i).push(b),
    decreases a.len() - i,
{
    let s = a + seq![c] + b;
    lemma_find_from(a, c, i);
    lemma_find_from(s, c, i);
    let e = find_from(a, c, i);
    let f = find_from(s, c, i);
    assert(s[a.len() as int] == c);
    if e < a.len() {
        assert(s[e] == c);
        if f < e {
            assert(s[f] == a[f]);
        }
        assert(f == e);
        lemma_split_behind(a, c, b, e + 1);
        assert(s.subrange(i, e) =~= a.subrange(i, e));
        assert(split_from(s, c, i) =~= split_from(a, c, i).push(b));
    } else {
        if f < a.len() {
            assert(s[f] == a[f]);
        }
        assert(f == a.len());
        assert(s.subrange(i, f) =~= a.subrange(i, a.len() as int));
        let n = a.len() + 1;
        lemma_find_from(s, c, n as int);
        let g = find_from(s, c, n as int);
        if g < s.len() {
            assert(s[g] == b[g - n]);
        }
        assert(s.subrange(n as int, s.len() as int) =~= b);
        assert(split_from(s, c, n as int) =~= seq![b]);
        assert(split_from(s, c, i) =~= split_from(a, c, i).push(b));
    }
}

/// Texts that were joined by a separator that none of them holds are found again by
/// cutting at it.
pub proof fn split_undoes_join(l: Seq<Seq<char>>, c: char)
    requires
        l.len() > 0,
        forall|i: int, j: int|
            #![trigger l[i][j]]
            0 <= i < l.len() && 0 <= j < l[i].len() ==> l[i][j] != c,
    ensures
        split(join(l, seq![c]), c) == l,
    decreases l.len(),
{
    if l.len() == 1 {
        lemma_find_from(l[0], c, 0);
        assert(l[0].subrange(0, l[0].len() as int) =~= l[0]);
        assert(split(l[0], c) =~= l);
    } else {
        let d = l.drop_last();
        assert forall|i: int, j: int|
            #![trigger d[i][j]]
            0 <= i < d.len() && 0 <= j < d[i].len() implies d[i][j] != c by {
            assert(d[i] == l[i]);
            assert(l[i][j] != c);
        }
        split_undoes_join(d, c);
        assert forall|j: int| 0 <= j < l.last().len() implies l.last()[j] != c by {
            assert(l[l.len() - 1][j] != c);
        }
        lemma_split_behind(join(d, seq![c]), c, l.last(), 0);
        assert(split(join(l, seq![c]), c) =~= l);
    }
}

/// Concatenation goes piece by piece.
pub proof fn lemma_concat_add(a: Seq<Seq<char>>, b: Seq<Seq<char>>)
    ensures
        concat(a + b) == concat(a) + concat(b),
    decreases b.len(),
{
    if b.len() == 0 {
        assert(a + b =~= a);
        assert(concat(a) + concat(b) =~= concat(a));
    } else {
        assert((a + b).drop_last() =~= a + b.drop_last());
        lemma_concat_add(a, b.drop_last());
        assert(concat(a + b) =~= concat(a) + concat(b));
    }
}

/// A single piece is its own concatenation.
pub proof fn lemma_concat_one(a: Seq<char>)
    ensures
        concat(seq![a]) == a,
{
    reveal_with_fuel(concat, 2);
    assert(concat(seq![a]) =~= a);
}

/// Every line holds at least one character and ends a line at most once, at its
/// end; only the last may have no line feed.
pub proof fn lines_inclusive_shape(s: Seq<char>)
    ensures
        forall|k: int|
            #![trigger lines_inclusive(s)[k]]
            0 <= k < lines_inclusive(s).len() ==> lines_inclusive(s)[k].len() > 0 && forall|j: int|
                0 <= j < lines_inclusive(s)[k].len() - 1 ==> lines_inclusive(s)[k][j] != '\n',
        forall|k: int|
            #![trigger lines_inclusive(s)[k]]
            0 <= k < lines_inclusive(s).len() - 1 ==> lines_inclusive(s)[k].last() == '\n',
{
    lemma_lines_shape_from(s, 0);
}

proof fn lemma_lines_shape_from(s: Seq<char>, i: int)
    requires
        0 <= i <= s.len(),
    ensures
        forall|k: int|
            #![trigger lines_inclusive_from(s, i)[k]]
            0 <= k < lines_inclusive_from(s, i).len() ==> lines_inclusive_from(s, i)[k].len() > 0
                && forall|j: int|
                0 <= j < lines_inclusive_from(s, i)[k].len() - 1 ==> lines_inclusive_from(
                    s,
                    i,
                )[k][j] != '\n',
        forall|k: int|
            #![trigger lines_inclusive_from(s, i)[k]]
            0 <= k < lines_inclusive_from(s, i).len() - 1 ==> lines_inclusive_from(s, i)[k].last()
                == '\n',
        i < s.len() ==> lines_inclusive_from(s, i).len() > 0,
    decreases s.len() - i,
{
    if i < s.len() {
        lemma_find_from(s, '\n', i);
        let e = line_end(s, i);
        lemma_lines_shape_from(s, e);
        let l = lines_inclusive_from(s, i);
        let r = lines_inclusive_from(s, e);
        assert(forall|k: int| 0 < k < l.len() ==> l[k] == #[trigger] r[k - 1]);
    }
}

/// A line: at least one character, and no line feed but at its end.
pub open spec fn is_line(l: Seq<char>) -> bool {
    l.len() > 0 && forall|j: int| 0 <= j < l.len() - 1 ==> l[j] != '\n'
}

/// Lines of which only the last may have no line feed.
pub open spec fn are_lines(l: Seq<Seq<char>>) -> bool {
    &&& forall|k: int| 0 <= k < l.len() ==> is_line(#[trigger] l[k])
    &&& forall|k: int| 0 <= k < l.len() - 1 ==> (#[trigger] l[k]).last() == '\n'
}

/// Lines that are put together are cut into the same lines again.
pub proof fn cutting_undoes_putting_together(l: Seq<Seq<char>>)
    requires
        are_lines(l),
    ensures
        lines_inclusive(concat(l)) == l,
{
    lemma_lines_behind(seq![], l);
    assert(seq![] + concat(l) =~= concat(l));
}

proof fn lemma_lines_behind(before: Seq<char>, l: Seq<Seq<char>>)
    requires
        are_lines(l),
    ensures
        lines_inclusive_from(before + concat(l), before.len() as int) == l,
    decreases l.len(),
{
    let s = before + concat(l);
    let i = before.len() as int;
    if l.len() > 0 {
        let x = l[0];
        let rest = l.skip(1);
        assert(is_line(x));
        assert forall|k: int| 0 <= k < rest.len() implies is_line(#[trigger] rest[k]) by {
            assert(rest[k] == l[k + 1]);
        }
        assert forall|k: int| 0 <= k < rest.len() - 1 implies (#[trigger] rest[k]).last()
            == '\n' by {
            assert(rest[k] == l[k + 1]);
        }
        assert(l =~= seq![x] + rest);
        lemma_concat_add(seq![x], rest);
        lemma_concat_one(x);
        assert(s =~= before + x + concat(rest));
        lemma_lines_behind(before + x, rest);
        assert forall|j: int| 0 <= j < x.len() implies s[i + j] == #[trigger] x[j] by {}
        lemma_find_from(s, '\n', i);
        let e = find_from(s, '\n', i);
        if e < i + x.len() {
            assert(x[e - i] == s[e]);
        }
        if x.last() == '\n' {
            assert(s[i + x.len() - 1] == x[x.len() - 1]);
        } else {
            assert(rest.len() == 0);
            assert(s.len() == i + x.len());
        }
        assert(line_end(s, i) == i + x.len());
        assert(s.subrange(i, i + x.len()) =~= x);
    }
}

// ---------------------------------------------------------------------------
// Substrings
// ---------------------------------------------------------------------------

/// Whether `p` stands in `s` at position `i`.
pub open spec fn occurs_at(s: Seq<char>, p: Seq<char>, i: int) -> bool {
    0 <= i && i + p.len() <= s.len() && s.subrange(i, i + p.len()) == p
}

/// Whether `p` stands anywhere in `s`.
pub open spec fn contains(s: Seq<char>, p: Seq<char>) -> bool {
    exists|i: int| #[trigger] occurs_at(s, p, i)
}

/// Whether `p` stands in `s` at position `i`.
pub fn occurs_here(s: &[char], p: &[char], i: usize) -> (r: bool)
    requires
        i <= s@.len(),
    ensures
        r == occurs_at(s@, p@, i as int),
{
    if p.len() > s.len() - i {
        return false;
    }
    same(vstd::slice::slice_subrange(s, i, i + p.len()), p)
}

/// The first position at or after `i` where `p` stands in `s`, if there is one.
pub open spec fn find_text_from(s: Seq<char>, p: Seq<char>, i: int) -> Option<int>
    decreases s.len() - i,
{
    if i < 0 || i > s.len() {
        None
    } else if occurs_at(s, p, i) {
        Some(i)
    } else if i == s.len() {
        None
    } else {
        find_text_from(s, p, i + 1)
    }
}

/// The first position where `p` stands in `s`, if there is one.
pub open spec fn find_text(s: Seq<char>, p: Seq<char>) -> Option<int> {
    find_text_from(s, p, 0)
}

proof fn lemma_find_text_from(s: Seq<char>, p: Seq<char>, i: int)
    requires
        0 <= i <= s.len(),
    ensures
        match find_text_from(s, p, i) {
            Some(j) => i <= j && occurs_at(s, p, j) && forall|k: int|
                i <= k < j ==> !occurs_at(s, p, k),
            None => forall|k: int| i <= k ==> !occurs_at(s, p, k),
        },
    decreases s.len() - i,
{
    if !occurs_at(s, p, i) && i < s.len() {
        lemma_find_text_from(s, p, i + 1);
    }
}

/// The search finds the first occurrence, and finds one whenever there is one.
pub proof fn find_text_is_first_occurrence(s: Seq<char>, p: Seq<char>)
    ensures
        find_text(s, p) is Some <==> contains(s, p),
        find_text(s, p) matches Some(j) ==> occurs_at(s, p, j) && forall|k: int|
            0 <= k < j ==> !occurs_at(s, p, k),
{
    lemma_find_text_from(s, p, 0);
}

/// Finds the first position of `p` in `s`.
pub fn find_text_of(s: &[char], p: &[char]) -> (r: Option<usize>)
    ensures
        r is Some <==> find_text(s@, p@) is Some,
        r matches Some(i) ==> find_text(s@, p@) == Some(i as int) && i + p@.len() <= s@.len(),
        r is Some <==> contains(s@, p@),
{
    let mut i: usize = 0;
    proof {
        find_text_is_first_occurrence(s@, p@);
    }
    loop
        invariant
            i <= s@.len(),
            find_text(s@, p@) == find_text_from(s@, p@, i as int),
            find_text(s@, p@) is Some <==> contains(s@, p@),
        decreases s@.len() - i,
    {
        if occurs_here(s, p, i) {
            return Some(i);
        }
        if i == s.len() {
            return None;
        }
        i = i + 1;
    }
}

/// Whether `p` stands anywhere in `s`.
pub fn contains_text(s: &[char], p: &[char]) -> (r: bool)
    ensures
        r == contains(s@, p@),
{
    find_text_of(s, p).is_some()
}

/// Whether the string `p` stands anywhere in the string `s`.
pub fn contains_str(s: &str, p: &str) -> (r: bool)
    ensures
        r == contains(s@, p@),
{
    contains_text(chars_of(s).as_slice(), chars_of(p).as_slice())
}

/// The text from position `i` on with each occurrence of `from` replaced, read
/// from left to right without overlaps.
pub open spec fn replace_from(s: Seq<char>, from: Seq<char>, to: Seq<char>, i: int) -> Seq<char>
    decreases s.len() - i,
{
    if i < 0 || i >= s.len() {
        seq![]
    } else if from.len() > 0 && occurs_at(s, from, i) {
        to + replace_from(s, from, to, i + from.len())
    } else {
        seq![s[i]] + replace_from(s, from, to, i + 1)
    }
}

/// The text with each occurrence of `from` replaced by `to`.
pub open spec fn replace(s: Seq<char>, from: Seq<char>, to: Seq<char>) -> Seq<char> {
    replace_from(s, from, to, 0)
}

/// Replaces each occurrence of `from` (which must not be empty) by `to`.
pub fn replace_text(s: &[char], from: &[char], to: &[char]) -> (r: Vec<char>)
    requires
        from@.len() > 0,
    ensures
        r@ == replace(s@, from@, to@),
{
    let mut r: Vec<char> = Vec::new();
    let mut i: usize = 0;
    assert(r@ + replace_from(s@, from@, to@, 0) =~= replace(s@, from@, to@));
    while i < s.len()
        invariant
            i <= s@.len(),
            from@.len() > 0,
            r@ + replace_from(s@, from@, to@, i as int) == replace(s@, from@, to@),
        decreases s@.len() - i,
    {
        let ghost before = r@;
        if occurs_here(s, from, i) {
            r.extend_from_slice(to);
            assert(r@ =~= before + to@);
            assert(before + replace_from(s@, from@, to@, i as int) =~= r@ + replace_from(
                s@,
                from@,
                to@,
                i + from@.len(),
            ));
            i = i + from.len();
        } else {
            r.push(s[i]);
            assert(before + replace_from(s@, from@, to@, i as int) =~= r@ + replace_from(
                s@,
                from@,
                to@,
                i + 1,
            ));
            i = i + 1;
        }
    }
    assert(r@ + replace_from(s@, from@, to@, i as int) =~= r@);
    r
}

/// The text before and behind the first `c`, if there is one.
pub open spec fn split_once(s: Seq<char>, c: char) -> Option<(Seq<char>, Seq<char>)> {
    let e = find_from(s, c, 0);
    if e < s.len() {
        Some((s.take(e), s.skip(e + 1)))
    } else {
        None
    }
}

/// Splits a text at the first `c`.
pub fn split_once_of(s: &[char], c: char) -> (r: Option<(Vec<char>, Vec<char>)>)
    ensures
        match r {
            Some(p) => split_once(s@, c) == Some((p.0@, p.1@)),
            None => split_once(s@, c) is None,
        },
{
    let e: usize = find_char_from(s, c, 0);
    if e < s.len() {
        Some((copy_range(s, 0, e), copy_range(s, e + 1, s.len())))
    } else {
        None
    }
}

/// What stands behind a prefix, if the text has it.
pub open spec fn strip_prefix(s: Seq<char>, p: Seq<char>) -> Option<Seq<char>> {
    if p.is_prefix_of(s) {
        Some(s.skip(p.len() as int))
    } else {
        None
    }
}

/// Removes a prefix, if the text has it.
pub fn strip_prefix_of(s: &[char], p: &str) -> (r: Option<Vec<char>>)
    ensures
        match r {
            Some(v) => strip_prefix(s@, p@) == Some(v@),
            None => strip_prefix(s@, p@) is None,
        },
{
    if starts_with(s, p) {
        let n: usize = chars_of(p).len();
        Some(copy_range(s, n, s.len()))
    } else {
        None
    }
}

/// Whether a text holds exactly the characters of `p`.
pub fn is_text(s: &[char], p: &str) -> (r: bool)
    ensures
        r == (s@ == p@),
{
    same(s, chars_of(p).as_slice())
}

/// The first position at or after `i` whose character is white space (or is not,
/// where `space` is false), or the length of the text.
pub open spec fn find_space_from(s: Seq<char>, i: int, space: bool) -> int
    decreases s.len() - i,
{
    if i < 0 || i >= s.len() {
        s.len() as int
    } else if is_space(s[i]) == space {
        i
    } else {
        find_space_from(s, i + 1, space)
    }
}

/// The words of the text from position `i` on: the longest runs of characters
/// that are no white space.
pub open spec fn words_from(s: Seq<char>, i: int) -> Seq<Seq<char>>
    decreases s.len() - i,
{
    let a = find_space_from(s, i, false);
    let b = find_space_from(s, a, true);
    if i < 0 || a < i || b <= a || b > s.len() {
        seq![]
    } else {
        seq![s.subrange(a, b)] + words_from(s, b)
    }
}

/// The words of a text.
pub open spec fn words(s: Seq<char>) -> Seq<Seq<char>> {
    words_from(s, 0)
}

fn find_space(s: &[char], start: usize, space: bool) -> (r: usize)
    requires
        start <= s@.len(),
    ensures
        r == find_space_from(s@, start as int, space),
        start <= r <= s@.len(),
        r < s@.len() ==> is_space(s@[r as int]) == space,
{
    let mut i: usize = start;
    while i < s.len() && is_space_char(s[i]) != space
        invariant
            start <= i <= s@.len(),
            find_space_from(s@, start as int, space) == find_space_from(s@, i as int, space),
        decreases s@.len() - i,
    {
        i = i + 1;
    }
    i
}

/// Cuts a text into words.
pub fn words_of(s: &[char]) -> (r: Vec<Vec<char>>)
    ensures
        pieces(r@) == words(s@),
{
    let mut r: Vec<Vec<char>> = Vec::new();
    let mut i: usize = 0;
    assert(pieces(r@) + words_from(s@, 0) =~= words(s@));
    loop
        invariant
            i <= s@.len(),
            pieces(r@) + words_from(s@, i as int) == words(s@),
        decreases s@.len() - i,
    {
        let a: usize = find_space(s, i, false);
        if a >= s.len() {
            assert(pieces(r@) + words_from(s@, i as int) =~= pieces(r@));
            return r;
        }
        let b: usize = find_space(s, a, true);
        assert(b > a);
        let ghost before = r@;
        r.push(copy_range(s, a, b));
        assert(pieces(r@) =~= pieces(before).push(s@.subrange(a as int, b as int)));
        assert(pieces(before) + words_from(s@, i as int) =~= pieces(r@) + words_from(
            s@,
            b as int,
        ));
        i = b;
    }
}

// ---------------------------------------------------------------------------
// Order
// ---------------------------------------------------------------------------

/// Whether a text comes before another in the order of their characters.
pub open spec fn text_less(a: Seq<char>, b: Seq<char>) -> bool
    decreases a.len(),
{
    if b.len() == 0 {
        false
    } else if a.len() == 0 {
        true
    } else if a[0] != b[0] {
        (a[0] as int) < (b[0] as int)
    } else {
        text_less(a.skip(1), b.skip(1))
    }
}

/// Of two texts exactly one comes first, unless they are the same.
pub proof fn text_order_is_total(a: Seq<char>, b: Seq<char>)
    ensures
        text_less(a, b) || text_less(b, a) || a == b,
        !(text_less(a, b) && text_less(b, a)),
        a == b ==> !text_less(a, b),
    decreases a.len(),
{
    if a.len() > 0 && b.len() > 0 && a[0] == b[0] {
        text_order_is_total(a.skip(1), b.skip(1));
        if a.skip(1) == b.skip(1) {
            assert(a =~= seq![a[0]] + a.skip(1));
            assert(b =~= seq![b[0]] + b.skip(1));
        }
    } else if a.len() == 0 && b.len() == 0 {
        assert(a =~= b);
    }
}

/// The order of texts is transitive.
pub proof fn text_order_is_transitive(a: Seq<char>, b: Seq<char>, c: Seq<char>)
    requires
        text_less(a, b),
        text_less(b, c),
    ensures
        text_less(a, c),
    decreases a.len(),
{
    if a.len() > 0 && a[0] == b[0] && b[0] == c[0] {
        text_order_is_transitive(a.skip(1), b.skip(1), c.skip(1));
    }
}

fn code_of(c: char) -> (r: u32)
    ensures
        r == c as int,
{
    c as u32
}

/// Whether `a` comes before `b`.
pub fn less(a: &[char], b: &[char]) -> (r: bool)
    ensures
        r == text_less(a@, b@),
{
    let mut i: usize = 0;
    assert(a@.skip(0) =~= a@);
    assert(b@.skip(0) =~= b@);
    while i < a.len() && i < b.len() && a[i] == b[i]
        invariant
            i <= a@.len(),
            i <= b@.len(),
            text_less(a@, b@) == text_less(a@.skip(i as int), b@.skip(i as int)),
        decreases a@.len() - i,
    {
        assert(a@.skip(i as int).skip(1) =~= a@.skip(i as int + 1));
        assert(b@.skip(i as int).skip(1) =~= b@.skip(i as int + 1));
        i = i + 1;
    }
    if i >= b.len() {
        false
    } else if i >= a.len() {
        true
    } else {
        code_of(a[i]) < code_of(b[i])
    }
}

/// Texts in strictly ascending order.
pub open spec fn ascending(l: Seq<Seq<char>>) -> bool {
    forall|i: int, j: int| 0 <= i < j < l.len() ==> text_less(l[i], l[j])
}

/// Adds a text to an ascending list, unless the list holds it.
pub fn insert_sorted(l: &mut Vec<Vec<char>>, t: Vec<char>)
    requires
        ascending(pieces(old(l)@)),
    ensures
        ascending(pieces(final(l)@)),
        pieces(final(l)@).to_set() == pieces(old(l)@).to_set().insert(t@),
{
    let ghost before = pieces(l@);
    let mut i: usize = 0;
    while i < l.len() && less(l[i].as_slice(), t.as_slice())
        invariant
            i <= l@.len(),
            forall|j: int| 0 <= j < i ==> text_less(#[trigger] pieces(l@)[j], t@),
        decreases l@.len() - i,
    {
        assert(pieces(l@)[i as int] == l@[i as int]@);
        i = i + 1;
    }
    if i < l.len() && same(l[i].as_slice(), t.as_slice()) {
        assert(before[i as int] == t@);
        assert(before.to_set() =~= before.to_set().insert(t@));
        return;
    }
    let ghost text = t@;
    l.insert(i, t);
    proof {
        let after = pieces(l@);
        assert(after =~= before.insert(i as int, text));
        if i < before.len() {
            text_order_is_total(before[i as int], text);
        }
        assert forall|a: int, b: int| 0 <= a < b < after.len() implies text_less(
            after[a],
            after[b],
        ) by {
            if a < i && b > i {
                assert(text_less(before[a], before[b - 1]));
            } else if a == i && b > i {
                if b - 1 > i {
                    assert(text_less(before[i as int], before[b - 1]));
                    text_order_is_transitive(text, before[i as int], before[b - 1]);
                }
            } else if a > i {
                assert(text_less(before[a - 1], before[b - 1]));
            } else if b < i {
                assert(text_less(before[a], before[b]));
            }
        }
        assert forall|x: Seq<char>| after.to_set().contains(x) == before.to_set().insert(
            text,
        ).contains(x) by {
            if before.contains(x) {
                let k = choose|k: int| 0 <= k < before.len() && before[k] == x;
                assert(after[if k < i { k } else { k + 1 }] == x);
            }
            assert(after[i as int] == text);
            if after.contains(x) {
                let k = choose|k: int| 0 <= k < after.len() && after[k] == x;
                if k < i {
                    assert(before[k] == x);
                } else if k > i {
                    assert(before[k - 1] == x);
                }
            }
        }
        assert(after.to_set() =~= before.to_set().insert(text));
    }
}

// ---------------------------------------------------------------------------
// Bytes
// ---------------------------------------------------------------------------

/// How many bytes a character takes in UTF-8.
pub open spec fn utf8_width(c: char) -> nat {
    if (c as int) < 0x80 {
        1
    } else if (c as int) < 0x800 {
        2
    } else if (c as int) < 0x10000 {
        3
    } else {
        4
    }
}

/// How many bytes a text takes in UTF-8.
pub open spec fn byte_len(s: Seq<char>) -> nat
    decreases s.len(),
{
    if s.len() == 0 {
        0
    } else {
        byte_len(s.drop_last()) + utf8_width(s.last())
    }
}

/// How many characters make up the first `n` bytes, if a character ends there.
pub open spec fn chars_in_bytes(s: Seq<char>, n: int) -> Option<int>
    decreases s.len(),
{
    if n == 0 {
        Some(0)
    } else if n < 0 || s.len() == 0 {
        None
    } else {
        match chars_in_bytes(s.skip(1), n - utf8_width(s[0])) {
            Some(k) => Some(k + 1),
            None => None,
        }
    }
}

/// The number of bytes of a character.
pub fn utf8_width_of(c: char) -> (r: usize)
    ensures
        r == utf8_width(c),
        1 <= r <= 4,
{
    let n: u32 = c as u32;
    if n < 0x80 {
        1
    } else if n < 0x800 {
        2
    } else if n < 0x10000 {
        3
    } else {
        4
    }
}

/// How many characters make up the first `n` bytes, if a character ends there.
pub fn chars_in_bytes_of(s: &[char], n: usize) -> (r: Option<usize>)
    ensures
        match r {
            Some(k) => chars_in_bytes(s@, n as int) == Some(k as int) && k <= s@.len(),
            None => chars_in_bytes(s@, n as int) is None,
        },
{
    let mut i: usize = 0;
    let mut left: usize = n;
    assert(s@.skip(0) =~= s@);
    while left > 0
        invariant
            i <= s@.len(),
            left <= n,
            match chars_in_bytes(s@.skip(i as int), left as int) {
                Some(k) => chars_in_bytes(s@, n as int) == Some(k + i),
                None => chars_in_bytes(s@, n as int) is None,
            },
        decreases left,
    {
        if i >= s.len() {
            return None;
        }
        let w: usize = utf8_width_of(s[i]);
        assert(s@.skip(i as int).skip(1) =~= s@.skip(i as int + 1));
        if w > left {
            assert(chars_in_bytes(s@.skip(i as int + 1), left - w) is None);
            return None;
        }
        left = left - w;
        i = i + 1;
    }
    Some(i)
}

/// The bytes of a text are those of its first character and of the rest.
pub proof fn lemma_byte_len_first(s: Seq<char>)
    requires
        s.len() > 0,
    ensures
        byte_len(s) == utf8_width(s[0]) + byte_len(s.skip(1)),
    decreases s.len(),
{
    if s.len() == 1 {
        assert(s.drop_last() =~= seq![]);
        assert(s.skip(1) =~= seq![]);
    } else {
        lemma_byte_len_first(s.drop_last());
        assert(s.drop_last().skip(1) =~= s.skip(1).drop_last());
    }
}

proof fn lemma_width_encoded(c: char)
    ensures
        vstd::utf8::encode_scalar(c as u32).len() == utf8_width(c),
{
}

/// The bytes of a text are those of its encoding.
proof fn lemma_byte_len_encoded(s: Seq<char>)
    ensures
        vstd::utf8::encode_utf8(s).len() == byte_len(s),
    decreases s.len(),
{
    if s.len() > 0 {
        lemma_byte_len_first(s);
        lemma_byte_len_encoded(s.skip(1));
        assert(s.drop_first() =~= s.skip(1));
        lemma_width_encoded(s[0]);
    }
}

/// The number of bytes of a text.
pub fn byte_len_of(s: &str) -> (r: usize)
    ensures
        r == byte_len(s@),
{
    proof {
        lemma_byte_len_encoded(s@);
    }
    s.as_bytes().len()
}

/// A start of a text takes no more bytes than the text.
pub proof fn lemma_byte_len_grows(s: Seq<char>, i: int)
    requires
        0 <= i <= s.len(),
    ensures
        byte_len(s.take(i)) <= byte_len(s),
    decreases s.len() - i,
{
    if i < s.len() {
        lemma_byte_len_grows(s, i + 1);
        assert(s.take(i + 1).drop_last() =~= s.take(i));
    } else {
        assert(s.take(i) =~= s);
    }
}

/// How many characters at the start fit in `n` bytes.
pub open spec fn chars_within(s: Seq<char>, n: int) -> int
    decreases s.len(),
{
    if s.len() == 0 || utf8_width(s[0]) > n {
        0
    } else {
        1 + chars_within(s.skip(1), n - utf8_width(s[0]))
    }
}

/// The characters that fit take no more than those bytes, and one more would not
/// fit; all fit exactly where the whole text does.
pub proof fn lemma_chars_within(s: Seq<char>, n: int)
    requires
        n >= 0,
    ensures
        0 <= chars_within(s, n) <= s.len(),
        byte_len(s.take(chars_within(s, n))) <= n,
        chars_within(s, n) < s.len() ==> byte_len(s.take(chars_within(s, n) + 1)) > n,
        chars_within(s, n) == s.len() <==> byte_len(s) <= n,
    decreases s.len(),
{
    let k = chars_within(s, n);
    if s.len() == 0 {
        assert(s.take(0) =~= s);
    } else if utf8_width(s[0]) > n {
        assert(s.take(0) =~= seq![]);
        lemma_byte_len_first(s);
        lemma_byte_len_first(s.take(1));
    } else {
        let rest = s.skip(1);
        lemma_chars_within(rest, n - utf8_width(s[0]));
        lemma_byte_len_first(s);
        lemma_byte_len_first(s.take(k));
        assert(s.take(k).skip(1) =~= rest.take(k - 1));
        if k < s.len() {
            lemma_byte_len_first(s.take(k + 1));
            assert(s.take(k + 1).skip(1) =~= rest.take(k));
        }
    }
}

/// Counts the characters at the start that fit in `n` bytes.
pub fn chars_within_of(s: &[char], n: usize) -> (r: usize)
    ensures
        r == chars_within(s@, n as int),
        r <= s@.len(),
        r == s@.len() <==> byte_len(s@) <= n,
{
    let mut i: usize = 0;
    let mut left: usize = n;
    assert(s@.skip(0) =~= s@);
    proof {
        lemma_chars_within(s@, n as int);
    }
    while i < s.len()
        invariant
            i <= s@.len(),
            left <= n,
            chars_within(s@, n as int) == i + chars_within(s@.skip(i as int), left as int),
            chars_within(s@, n as int) == s@.len() <==> byte_len(s@) <= n,
        decreases s@.len() - i,
    {
        let w: usize = utf8_width_of(s[i]);
        assert(s@.skip(i as int).skip(1) =~= s@.skip(i as int + 1));
        if w > left {
            return i;
        }
        left = left - w;
        i = i + 1;
    }
    i
}

/// The number of bytes of a text, or `max` where it is more.
pub fn byte_len_up_to(s: &[char], max: usize) -> (r: usize)
    ensures
        r == if byte_len(s@) < max {
            byte_len(s@)
        } else {
            max as nat
        },
{
    let mut n: usize = 0;
    let mut i: usize = 0;
    assert(s@.take(0) =~= seq![]);
    while i < s.len()
        invariant
            i <= s@.len(),
            n == byte_len(s@.take(i as int)),
            n <= max,
        decreases s@.len() - i,
    {
        let w: usize = utf8_width_of(s[i]);
        proof {
            assert(s@.take(i as int + 1).drop_last() =~= s@.take(i as int));
            lemma_byte_len_grows(s@, i as int + 1);
        }
        if w > max - n {
            return max;
        }
        n = n + w;
        i = i + 1;
    }
    assert(s@.take(s@.len() as int) =~= s@);
    n
}

/// Whether a character ends where a hash is cut short.
pub open spec fn can_shorten(h: Seq<char>) -> bool {
    byte_len(h) <= 7 || chars_in_bytes(h, 7) is Some
}

/// The first seven bytes of a hash, or all of it where it has no more.
pub open spec fn short_hash(h: Seq<char>) -> Seq<char> {
    if byte_len(h) <= 7 {
        h
    } else {
        h.take(chars_in_bytes(h, 7)->0)
    }
}

/// Cuts a hash short.
pub fn short_hash_of(hash: &str) -> (r: String)
    requires
        can_shorten(hash@),
    ensures
        r@ == short_hash(hash@),
{
    let chars = chars_of(hash);
    if byte_len_up_to(chars.as_slice(), 8) <= 7 {
        return hash.to_string();
    }
    match chars_in_bytes_of(chars.as_slice(), 7) {
        Some(k) => {
            let part = copy_range(chars.as_slice(), 0, k);
            assert(part@ =~= chars@.take(k as int));
            string_of(part.as_slice())
        },
        None => hash.to_string(),
    }
}

// ---------------------------------------------------------------------------
// Numbers
// ---------------------------------------------------------------------------

/// The character of a decimal digit.
pub open spec fn digit_char(d: nat) -> char {
    (48 + d) as char
}

/// A number in decimal, without leading zeros.
pub open spec fn decimal(n: nat) -> Seq<char>
    decreases n,
{
    if n < 10 {
        seq![digit_char(n)]
    } else {
        decimal(n / 10).push(digit_char(n % 10))
    }
}

/// Writes a number in decimal.
pub fn decimal_of(n: usize) -> (s: String)
    ensures
        s@ == decimal(n as nat),
    decreases n,
{
    let d: u8 = (n % 10) as u8;
    let c: char = (48 + d) as char;
    if n < 10 {
        let mut s = String::new();
        s.push(c);
        assert(s@ =~= decimal(n as nat));
        s
    } else {
        let mut s = decimal_of(n / 10);
        s.push(c);
        s
    }
}

/// Whether `c` is one of the ten ASCII digits.
pub open spec fn is_digit(c: char) -> bool {
    48 <= c as int <= 57
}

/// The number that a row of digits writes.
pub open spec fn digits_value(s: Seq<char>) -> nat
    decreases s.len(),
{
    if s.len() == 0 {
        0
    } else {
        digits_value(s.drop_last()) * 10 + (s.last() as int - 48) as nat
    }
}

/// The digits of an unsigned number as it may be written: a plus sign may stand
/// in front.
pub open spec fn unsigned_digits(s: Seq<char>) -> Seq<char> {
    if s.len() > 0 && s[0] == '+' {
        s.skip(1)
    } else {
        s
    }
}

/// The unsigned number that a text writes, if it writes one and `max` is not
/// below it.
pub open spec fn parse_unsigned(s: Seq<char>, max: nat) -> Option<nat> {
    let d = unsigned_digits(s);
    if d.len() > 0 && (forall|i: int| 0 <= i < d.len() ==> is_digit(#[trigger] d[i]))
        && digits_value(d) <= max {
        Some(digits_value(d))
    } else {
        None
    }
}

proof fn lemma_digits_value_grows(s: Seq<char>, i: int)
    requires
        0 <= i <= s.len(),
    ensures
        digits_value(s.take(i)) <= digits_value(s),
    decreases s.len() - i,
{
    if i < s.len() {
        lemma_digits_value_grows(s, i + 1);
        assert(s.take(i + 1).drop_last() =~= s.take(i));
    } else {
        assert(s.take(i) =~= s);
    }
}

/// The value of an ASCII digit.
pub fn digit_of(c: char) -> (r: Option<usize>)
    ensures
        r is Some <==> is_digit(c),
        r matches Some(v) ==> v == c as int - 48 && v < 10,
{
    let code: u32 = c as u32;
    if code < 48 || code > 57 {
        None
    } else {
        Some((code - 48) as usize)
    }
}

/// Reads an unsigned number of at most `max`.
pub fn parse_unsigned_of(s: &[char], max: usize) -> (r: Option<usize>)
    ensures
        r is Some <==> parse_unsigned(s@, max as nat) is Some,
        r matches Some(n) ==> parse_unsigned(s@, max as nat) == Some(n as nat),
{
    let start: usize = if s.len() > 0 && s[0] == '+' {
        1
    } else {
        0
    };
    let d = vstd::slice::slice_subrange(s, start, s.len());
    assert(d@ =~= unsigned_digits(s@));
    if d.len() == 0 {
        return None;
    }
    let mut n: usize = 0;
    let mut i: usize = 0;
    assert(d@.take(0) =~= seq![]);
    while i < d.len()
        invariant
            i <= d@.len(),
            d@ == unsigned_digits(s@),
            n == digits_value(d@.take(i as int)),
            n <= max,
            forall|j: int| 0 <= j < i ==> is_digit(#[trigger] d@[j]),
        decreases d@.len() - i,
    {
        let v: usize = match digit_of(d[i]) {
            Some(v) => v,
            None => {
                assert(!is_digit(d@[i as int]));
                return None;
            },
        };
        proof {
            assert(d@.take(i as int + 1).drop_last() =~= d@.take(i as int));
            lemma_digits_value_grows(d@, i as int + 1);
        }
        if v > max || n > (max - v) / 10 {
            assert(n * 10 + v > max);
            return None;
        }
        assert(n * 10 + v <= max);
        n = n * 10 + v;
        i = i + 1;
    }
    assert(d@.take(d@.len() as int) =~= d@);
    Some(n)
}

// ---------------------------------------------------------------------------
// Laws
// ---------------------------------------------------------------------------

/// Whether a text is white space throughout.
pub open spec fn all_space(s: Seq<char>) -> bool {
    forall|i: int| 0 <= i < s.len() ==> is_space(#[trigger] s[i])
}

/// Among the characters of ASCII, white space is the space and the five that move to
/// another column or line.
pub proof fn ascii_space(c: char)
    requires
        (c as int) < 128,
    ensures
        is_space(c) <==> c == ' ' || c == '\t' || c == '\n' || c == '\r' || c as int == 0x0b
            || c as int == 0x0c,
{
}

/// Trimming takes away the white space around a text and nothing else: what it takes is
/// white space, and what it leaves neither begins nor ends with any. The two parts that
/// were taken are given back.
pub proof fn trimming_takes_the_space_around(s: Seq<char>) -> (r: (Seq<char>, Seq<char>))
    ensures
        s == r.0 + trim(s) + r.1,
        all_space(r.0) && all_space(r.1),
        trim(s).len() > 0 ==> !is_space(trim(s)[0]) && !is_space(trim(s).last()),
{
    let t = trim_start(s);
    let front = lemma_trimmed_front(s);
    let back = lemma_trimmed_back(t);
    assert(s =~= front + trim(s) + back);
    if trim(s).len() > 0 {
        assert(t[0] == trim(s)[0]);
    }
    (front, back)
}

proof fn lemma_trimmed_front(s: Seq<char>) -> (a: Seq<char>)
    ensures
        s == a + trim_start(s),
        all_space(a),
        trim_start(s).len() > 0 ==> !is_space(trim_start(s)[0]),
    decreases s.len(),
{
    if s.len() > 0 && is_space(s[0]) {
        let a = lemma_trimmed_front(s.skip(1));
        let r = seq![s[0]] + a;
        assert(s =~= seq![s[0]] + s.skip(1));
        assert(seq![s[0]] + (a + trim_start(s)) =~= r + trim_start(s));
        assert forall|i: int| 0 <= i < r.len() implies is_space(#[trigger] r[i]) by {
            if i > 0 {
                assert(r[i] == a[i - 1]);
            }
        }
        r
    } else {
        assert(s =~= Seq::<char>::empty() + s);
        seq![]
    }
}

proof fn lemma_trimmed_back(s: Seq<char>) -> (b: Seq<char>)
    ensures
        s == trim_end(s) + b,
        all_space(b),
        trim_end(s).len() > 0 ==> !is_space(trim_end(s).last()),
    decreases s.len(),
{
    if s.len() > 0 && is_space(s.last()) {
        let b = lemma_trimmed_back(s.drop_last());
        let r = b.push(s.last());
        assert(s =~= s.drop_last().push(s.last()));
        assert((trim_end(s) + b).push(s.last()) =~= trim_end(s) + r);
        assert forall|i: int| 0 <= i < r.len() implies is_space(#[trigger] r[i]) by {
            if i < b.len() {
                assert(r[i] == b[i]);
            }
        }
        r
    } else {
        assert(s =~= s + Seq::<char>::empty());
        seq![]
    }
}

/// White space around a text does not matter to what trimming leaves of it.
pub proof fn trimming_looks_inside(a: Seq<char>, s: Seq<char>, b: Seq<char>)
    requires
        all_space(a),
        all_space(b),
        s.len() > 0 ==> !is_space(s[0]) && !is_space(s.last()),
    ensures
        trim(a + s + b) == s,
    decreases a.len() + b.len(),
{
    let t = a + s + b;
    if a.len() > 0 {
        assert(is_space(a[0]));
        assert(t[0] == a[0]);
        assert(t.skip(1) =~= a.skip(1) + s + b);
        assert forall|i: int| 0 <= i < a.skip(1).len() implies is_space(
            #[trigger] a.skip(1)[i],
        ) by {
            assert(is_space(a[i + 1]));
        }
        trimming_looks_inside(a.skip(1), s, b);
    } else if s.len() == 0 {
        assert(t =~= b);
        if b.len() > 0 {
            assert(is_space(b[0]));
            assert(t.skip(1) =~= b.skip(1));
            assert(a + s + b.skip(1) =~= b.skip(1));
            assert forall|i: int| 0 <= i < b.skip(1).len() implies is_space(
                #[trigger] b.skip(1)[i],
            ) by {
                assert(is_space(b[i + 1]));
            }
            trimming_looks_inside(a, s, b.skip(1));
        } else {
            assert(t =~= s);
        }
    } else {
        assert(t =~= s + b);
        assert(trim_start(t) == t);
        lemma_trim_end_over(s, b);
    }
}

proof fn lemma_trim_end_over(s: Seq<char>, b: Seq<char>)
    requires
        all_space(b),
        s.len() > 0 ==> !is_space(s.last()),
    ensures
        trim_end(s + b) == s,
    decreases b.len(),
{
    let t = s + b;
    if b.len() > 0 {
        assert(is_space(b[b.len() - 1]));
        assert(t.drop_last() =~= s + b.drop_last());
        assert forall|i: int| 0 <= i < b.drop_last().len() implies is_space(
            #[trigger] b.drop_last()[i],
        ) by {
            assert(is_space(b[i]));
        }
        lemma_trim_end_over(s, b.drop_last());
    } else {
        assert(t =~= s);
    }
}

/// Cutting a text at a character loses nothing but that character: no piece holds it, and
/// the pieces with it between each two are the text.
pub proof fn join_undoes_split(s: Seq<char>, c: char)
    ensures
        split(s, c).len() > 0,
        join(split(s, c), seq![c]) == s,
        forall|k: int|
            0 <= k < split(s, c).len() ==> !(#[trigger] split(s, c)[k]).contains(c),
{
    lemma_split_pieces(s, c, 0);
    lemma_join_split_from(s, c, 0);
    assert(s.subrange(0, s.len() as int) =~= s);
}

proof fn lemma_split_pieces(s: Seq<char>, c: char, i: int)
    requires
        0 <= i <= s.len(),
    ensures
        split_from(s, c, i).len() > 0,
        forall|k: int|
            0 <= k < split_from(s, c, i).len() ==> !(#[trigger] split_from(s, c, i)[k]).contains(c),
    decreases s.len() - i,
{
    lemma_find_from(s, c, i);
    let e = find_from(s, c, i);
    let l = split_from(s, c, i);
    let first = s.subrange(i, e);
    assert(!first.contains(c)) by {
        if first.contains(c) {
            let j = choose|j: int| 0 <= j < first.len() && first[j] == c;
            assert(s[i + j] == c);
        }
    }
    if e < s.len() {
        lemma_split_pieces(s, c, e + 1);
        let r = split_from(s, c, e + 1);
        assert forall|k: int| 0 <= k < l.len() implies !(#[trigger] l[k]).contains(c) by {
            if k > 0 {
                assert(l[k] == r[k - 1]);
            }
        }
    }
}

/// Texts joined begin with the first and go on with the others behind the separator.
pub proof fn lemma_join_front(x: Seq<char>, l: Seq<Seq<char>>, sep: Seq<char>)
    ensures
        join(seq![x] + l, sep) == x + (if l.len() == 0 {
            seq![]
        } else {
            sep + join(l, sep)
        }),
    decreases l.len(),
{
    let m = seq![x] + l;
    if l.len() == 0 {
        assert(m[0] == x);
        assert(x + Seq::<char>::empty() =~= x);
    } else {
        assert(m.drop_last() =~= seq![x] + l.drop_last());
        lemma_join_front(x, l.drop_last(), sep);
        assert(m.last() == l.last());
        if l.len() == 1 {
            assert(join(m, sep) =~= x + (sep + join(l, sep)));
        } else {
            assert(join(m, sep) =~= x + (sep + join(l, sep)));
        }
    }
}

proof fn lemma_join_split_from(s: Seq<char>, c: char, i: int)
    requires
        0 <= i <= s.len(),
    ensures
        join(split_from(s, c, i), seq![c]) == s.subrange(i, s.len() as int),
    decreases s.len() - i,
{
    lemma_find_from(s, c, i);
    let e = find_from(s, c, i);
    if e < s.len() {
        lemma_join_split_from(s, c, e + 1);
        lemma_split_pieces(s, c, e + 1);
        lemma_join_front(s.subrange(i, e), split_from(s, c, e + 1), seq![c]);
        assert(s.subrange(i, s.len() as int) =~= s.subrange(i, e) + (seq![c] + s.subrange(
            e + 1,
            s.len() as int,
        )));
    }
}

/// The lines of a text without carriage returns, with line feeds between them, are the
/// text, but for a line feed at its end.
pub proof fn joined_lines_are_the_text(s: Seq<char>)
    requires
        !s.contains('\r'),
    ensures
        s == join(lines(s), "\n"@) + (if s.len() > 0 && s.last() == '\n' {
            seq!['\n']
        } else {
            seq![]
        }),
        forall|k: int| 0 <= k < lines(s).len() ==> !(#[trigger] lines(s)[k]).contains('\n'),
        lines(s).len() == 0 <==> s.len() == 0,
{
    let l = lines_inclusive(s);
    lines_inclusive_shape(s);
    lines_inclusive_rebuild(s);
    lemma_lines_shape_from(s, 0);
    assert forall|k: int, j: int|
        #![trigger l[k][j]]
        0 <= k < l.len() && 0 <= j < l[k].len() implies l[k][j] != '\r' by {
        lemma_part_of_concat(l, k, j);
    }
    assert forall|k: int| 0 <= k < lines(s).len() implies !(#[trigger] lines(s)[k]).contains(
        '\n',
    ) by {
        let line = l[k];
        let bare = lines(s)[k];
        if bare.contains('\n') {
            let j = choose|j: int| 0 <= j < bare.len() && bare[j] == '\n';
            assert(line[j] == bare[j]);
            if line.last() == '\n' {
                assert(j < line.len() - 1);
            } else {
                assert(line[line.len() - 1] != '\n');
            }
        }
    }
    reveal_strlit("\n");
    assert("\n"@ =~= seq!['\n']);
    lemma_joined_lines(l);
    assert(lines(s) =~= Seq::new(l.len(), |i: int| strip_line_end(l[i])));
    if l.len() > 0 {
        assert(concat(l) =~= concat(l.drop_last()) + l.last());
        assert(s.last() == l.last().last());
    } else {
        assert(s =~= seq![]);
    }
}

/// A character of one of the texts stands in them all together.
pub proof fn lemma_part_of_concat(l: Seq<Seq<char>>, k: int, j: int)
    requires
        0 <= k < l.len(),
        0 <= j < l[k].len(),
    ensures
        concat(l).contains(l[k][j]),
    decreases l.len(),
{
    if k == l.len() - 1 {
        assert(concat(l)[concat(l.drop_last()).len() + j] == l[k][j]);
    } else {
        lemma_part_of_concat(l.drop_last(), k, j);
        let d = concat(l.drop_last());
        let i = choose|i: int| 0 <= i < d.len() && d[i] == l[k][j];
        assert(concat(l)[i] == d[i]);
    }
}

proof fn lemma_joined_lines(l: Seq<Seq<char>>)
    requires
        forall|k: int| 0 <= k < l.len() ==> (#[trigger] l[k]).len() > 0,
        forall|k: int| 0 <= k < l.len() - 1 ==> (#[trigger] l[k]).last() == '\n',
        forall|k: int, j: int|
            #![trigger l[k][j]]
            0 <= k < l.len() && 0 <= j < l[k].len() ==> l[k][j] != '\r',
    ensures
        concat(l) == join(Seq::new(l.len(), |i: int| strip_line_end(l[i])), seq!['\n']) + (if l.len()
            > 0 && l.last().last() == '\n' {
            seq!['\n']
        } else {
            seq![]
        }),
    decreases l.len(),
{
    let m = Seq::new(l.len(), |i: int| strip_line_end(l[i]));
    if l.len() == 0 {
        assert(concat(l) =~= join(m, seq!['\n']) + Seq::<char>::empty());
    } else {
        let d = l.drop_last();
        assert forall|k: int, j: int|
            #![trigger d[k][j]]
            0 <= k < d.len() && 0 <= j < d[k].len() implies d[k][j] != '\r' by {
            assert(d[k] == l[k]);
            assert(l[k][j] != '\r');
        }
        lemma_joined_lines(d);
        let n = Seq::new(d.len(), |i: int| strip_line_end(d[i]));
        assert(m.drop_last() =~= n);
        let last = l.last();
        if last.last() == '\n' && last.len() > 1 {
            assert(l[l.len() - 1][last.len() - 2] != '\r');
            assert(last.drop_last().last() == last[last.len() - 2]);
        }
        let end = if last.last() == '\n' {
            seq!['\n']
        } else {
            seq![]
        };
        assert(last =~= strip_line_end(last) + end);
        if d.len() > 0 {
            assert(d.last() == l[l.len() - 2]);
            assert(concat(l) =~= join(m, seq!['\n']) + end);
        } else {
            assert(concat(d) =~= seq![]);
            assert(m[0] == strip_line_end(last));
            assert(concat(l) =~= join(m, seq!['\n']) + end);
        }
    }
}

/// A text is split at the first of a character: the first part does not hold it, and the
/// two parts with it between them are the text. Where it stands nowhere, nothing is
/// split.
pub proof fn a_split_is_at_the_first(s: Seq<char>, c: char)
    ensures
        match split_once(s, c) {
            Some((a, b)) => !a.contains(c) && s == a + seq![c] + b,
            None => !s.contains(c),
        },
{
    lemma_find_from(s, c, 0);
    let e = find_from(s, c, 0);
    if e < s.len() {
        assert(s =~= s.take(e) + seq![c] + s.skip(e + 1));
        if s.take(e).contains(c) {
            let j = choose|j: int| 0 <= j < s.take(e).len() && s.take(e)[j] == c;
            assert(s[j] == c);
        }
    }
}

/// What stands behind a prefix is what makes up the text with it; a text that does not
/// begin with it has no such part.
pub proof fn a_prefix_is_put_back(s: Seq<char>, p: Seq<char>)
    ensures
        match strip_prefix(s, p) {
            Some(rest) => s == p + rest,
            None => forall|rest: Seq<char>| #[trigger] (p + rest) != s,
        },
{
    if p.is_prefix_of(s) {
        assert(s =~= p + s.skip(p.len() as int));
    } else {
        assert forall|rest: Seq<char>| #[trigger] (p + rest) != s by {
            if p + rest == s {
                assert(p =~= s.subrange(0, p.len() as int));
            }
        }
    }
}

/// Replacing goes from the first occurrence on: what stands before it stays, it gives way
/// to the other text, and behind it the same goes on. A text in which nothing occurs stays
/// as it is.
pub proof fn replacing_starts_at_the_first_occurrence(s: Seq<char>, from: Seq<char>, to: Seq<char>)
    requires
        from.len() > 0,
    ensures
        match find_text(s, from) {
            Some(i) => replace(s, from, to) == s.take(i) + to + replace(
                s.skip(i + from.len()),
                from,
                to,
            ),
            None => replace(s, from, to) == s,
        },
{
    find_text_is_first_occurrence(s, from);
    match find_text(s, from) {
        Some(i) => {
            lemma_replace_before(s, from, to, 0, i);
            lemma_replace_shift(s, from, to, i + from.len(), 0);
            assert(s.subrange(0, i) =~= s.take(i));
            assert(s.take(i) + (to + replace(s.skip(i + from.len()), from, to)) =~= s.take(i) + to
                + replace(s.skip(i + from.len()), from, to));
        },
        None => {
            assert forall|k: int| 0 <= k < s.len() implies !#[trigger] occurs_at(s, from, k) by {}
            lemma_replace_before(s, from, to, 0, s.len() as int);
            assert(s.subrange(0, s.len() as int) + Seq::<char>::empty() =~= s);
        },
    }
}

proof fn lemma_replace_before(s: Seq<char>, from: Seq<char>, to: Seq<char>, i: int, j: int)
    requires
        0 <= i <= j <= s.len(),
        forall|k: int| i <= k < j ==> !#[trigger] occurs_at(s, from, k),
    ensures
        replace_from(s, from, to, i) == s.subrange(i, j) + replace_from(s, from, to, j),
    decreases j - i,
{
    if i < j {
        assert(!occurs_at(s, from, i));
        lemma_replace_before(s, from, to, i + 1, j);
        assert(s.subrange(i, j) =~= seq![s[i]] + s.subrange(i + 1, j));
        assert(replace_from(s, from, to, i) =~= s.subrange(i, j) + replace_from(s, from, to, j));
    } else {
        assert(s.subrange(i, j) + replace_from(s, from, to, j) =~= replace_from(s, from, to, j));
    }
}

proof fn lemma_replace_shift(s: Seq<char>, from: Seq<char>, to: Seq<char>, d: int, i: int)
    requires
        from.len() > 0,
        0 <= d <= s.len(),
        0 <= i,
    ensures
        replace_from(s, from, to, d + i) == replace_from(s.skip(d), from, to, i),
    decreases s.len() - d - i,
{
    let t = s.skip(d);
    if d + i < s.len() {
        assert(occurs_at(s, from, d + i) == occurs_at(t, from, i)) by {
            if i + from.len() <= t.len() {
                assert(s.subrange(d + i, d + i + from.len()) =~= t.subrange(i, i + from.len()));
            }
        }
        if occurs_at(t, from, i) {
            lemma_replace_shift(s, from, to, d, i + from.len());
        } else {
            lemma_replace_shift(s, from, to, d, i + 1);
        }
    }
}

/// A number that was written in decimal is read back, if it is not too large.
pub proof fn a_written_number_is_read_back(n: nat, max: nat)
    ensures
        parse_unsigned(decimal(n), max) == if n <= max {
            Some(n)
        } else {
            None
        },
{
    lemma_decimal_digits(n);
    assert(unsigned_digits(decimal(n)) == decimal(n)) by {
        assert(is_digit(decimal(n)[0]));
    }
}

proof fn lemma_decimal_digits(n: nat)
    ensures
        decimal(n).len() > 0,
        forall|i: int| 0 <= i < decimal(n).len() ==> is_digit(#[trigger] decimal(n)[i]),
        digits_value(decimal(n)) == n,
    decreases n,
{
    if n < 10 {
        reveal_with_fuel(digits_value, 2);
        assert(decimal(n).drop_last() =~= seq![]);
    } else {
        lemma_decimal_digits(n / 10);
        assert(decimal(n).drop_last() =~= decimal(n / 10));
        assert forall|i: int| 0 <= i < decimal(n).len() implies is_digit(
            #[trigger] decimal(n)[i],
        ) by {
            if i < decimal(n).len() - 1 {
                assert(decimal(n)[i] == decimal(n / 10)[i]);
            }
        }
    }
}

/// A hash that is cut short is the start of the hash: seven bytes of it, or all there
/// are.
pub proof fn a_short_hash_is_the_start(h: Seq<char>)
    requires
        can_shorten(h),
    ensures
        short_hash(h).is_prefix_of(h),
        byte_len(short_hash(h)) == if byte_len(h) <= 7 {
            byte_len(h)
        } else {
            7
        },
{
    assert(h =~= h.subrange(0, h.len() as int));
    if byte_len(h) > 7 {
        lemma_chars_in_bytes(h, 7);
        let k = chars_in_bytes(h, 7)->0;
        assert(h.take(k) =~= h.subrange(0, k));
    }
}

proof fn lemma_chars_in_bytes(s: Seq<char>, n: int)
    requires
        n >= 0,
        chars_in_bytes(s, n) is Some,
    ensures
        0 <= chars_in_bytes(s, n)->0 <= s.len(),
        byte_len(s.take(chars_in_bytes(s, n)->0)) == n,
    decreases s.len(),
{
    let k = chars_in_bytes(s, n)->0;
    if n == 0 {
        assert(s.take(0) =~= seq![]);
    } else {
        let m = n - utf8_width(s[0]);
        if m < 0 {
            assert(chars_in_bytes(s.skip(1), m) is None);
        }
        lemma_chars_in_bytes(s.skip(1), m);
        lemma_byte_len_first(s.take(k));
        assert(s.take(k).skip(1) =~= s.skip(1).take(k - 1));
    }
}

/// The bytes of a text are counted as its encoding has them.
pub proof fn bytes_are_those_of_the_encoding(s: Seq<char>)
    ensures
        byte_len(s) == vstd::utf8::encode_utf8(s).len(),
{
    lemma_byte_len_encoded(s);
}

/// The words of a text are not empty and hold no white space, and with the white space
/// between them left out they are the text.
pub proof fn words_are_what_is_no_space(s: Seq<char>)
    ensures
        forall|k: int|
            #![trigger words(s)[k]]
            0 <= k < words(s).len() ==> words(s)[k].len() > 0 && forall|j: int|
                0 <= j < words(s)[k].len() ==> !is_space(words(s)[k][j]),
        concat(words(s)) == s.filter(|c: char| !is_space(c)),
{
    lemma_words_from(s, 0);
    assert(s.subrange(0, s.len() as int) =~= s);
}

proof fn lemma_find_space(s: Seq<char>, i: int, space: bool)
    requires
        0 <= i <= s.len(),
    ensures
        i <= find_space_from(s, i, space) <= s.len(),
        find_space_from(s, i, space) < s.len() ==> is_space(s[find_space_from(s, i, space)])
            == space,
        forall|j: int| i <= j < find_space_from(s, i, space) ==> is_space(#[trigger] s[j]) != space,
    decreases s.len() - i,
{
    if i < s.len() && is_space(s[i]) != space {
        lemma_find_space(s, i + 1, space);
    }
}

proof fn lemma_filter_all(s: Seq<char>, keep: bool)
    requires
        forall|j: int| 0 <= j < s.len() ==> is_space(#[trigger] s[j]) != keep,
    ensures
        s.filter(|c: char| !is_space(c)) == if keep {
            s
        } else {
            seq![]
        },
    decreases s.len(),
{
    reveal(Seq::filter);
    if s.len() > 0 {
        lemma_filter_all(s.drop_last(), keep);
        assert(is_space(s[s.len() - 1]) != keep);
        assert(s.drop_last().push(s.last()) =~= s);
    }
}

proof fn lemma_words_from(s: Seq<char>, i: int)
    requires
        0 <= i <= s.len(),
    ensures
        forall|k: int|
            #![trigger words_from(s, i)[k]]
            0 <= k < words_from(s, i).len() ==> words_from(s, i)[k].len() > 0 && forall|j: int|
                0 <= j < words_from(s, i)[k].len() ==> !is_space(words_from(s, i)[k][j]),
        concat(words_from(s, i)) == s.subrange(i, s.len() as int).filter(|c: char| !is_space(c)),
    decreases s.len() - i,
{
    let f = |c: char| !is_space(c);
    let a = find_space_from(s, i, false);
    lemma_find_space(s, i, false);
    let b = find_space_from(s, a, true);
    lemma_find_space(s, a, true);
    let n = s.len() as int;
    let gap = s.subrange(i, a);
    assert forall|j: int| 0 <= j < gap.len() implies is_space(#[trigger] gap[j]) != false by {
        assert(gap[j] == s[i + j]);
    }
    lemma_filter_all(gap, false);
    if a < n {
        assert(b > a) by {
            if b == a {
                assert(is_space(s[a]) == false);
            }
        }
        lemma_words_from(s, b);
        let word = s.subrange(a, b);
        assert forall|j: int| 0 <= j < word.len() implies is_space(#[trigger] word[j]) != true by {
            assert(word[j] == s[a + j]);
        }
        lemma_filter_all(word, true);
        let rest = s.subrange(b, n);
        Seq::filter_distributes_over_add(gap, word + rest, f);
        Seq::filter_distributes_over_add(word, rest, f);
        assert(s.subrange(i, n) =~= gap + (word + rest));
        lemma_concat_add(seq![word], words_from(s, b));
        lemma_concat_one(word);
        assert(concat(words_from(s, i)) =~= s.subrange(i, n).filter(f));
        let w = words_from(s, i);
        let r = words_from(s, b);
        assert forall|k: int| #![trigger w[k]] 0 <= k < w.len() implies w[k].len() > 0 && forall|
            j: int,
        |
            0 <= j < w[k].len() ==> !is_space(w[k][j]) by {
            if k > 0 {
                assert(w[k] == r[k - 1]);
            } else {
                assert(w[0] == word);
            }
        }
    } else {
        assert(gap =~= s.subrange(i, n));
        assert(words_from(s, i) =~= seq![]);
    }
}

/// The lines of a text are its first line and those of the rest: what stands before the
/// first line feed is a line of its own, without the carriage return before the feed.
pub proof fn lines_go_line_by_line(line: Seq<char>, rest: Seq<char>)
    requires
        !line.contains('\n'),
        line.len() > 0 ==> line.last() != '\r',
    ensures
        lines(line + "\n"@ + rest) == seq![line] + lines(rest),
        lines(line + "\r\n"@ + rest) == seq![line] + lines(rest),
        line.len() > 0 ==> lines(line) == seq![line],
        lines(Seq::<char>::empty()) == Seq::<Seq<char>>::empty(),
{
    reveal_strlit("\n");
    reveal_strlit("\r\n");
    assert forall|j: int| 0 <= j < line.len() implies line[j] != '\n' by {
        if line[j] == '\n' {
            assert(line.contains('\n'));
        }
    }
    let a = line + "\n"@;
    let b = line + "\r\n"@;
    lemma_first_line(a, rest);
    lemma_first_line(b, rest);
    assert(a.drop_last() =~= line);
    assert(b.drop_last().drop_last() =~= line);
    assert(lines(a + rest) =~= seq![line] + lines(rest));
    assert(b.drop_last().last() == '\r');
    assert(lines(b + rest) =~= seq![line] + lines(rest));
    if line.len() > 0 {
        let l = seq![line];
        lemma_concat_one(line);
        assert(are_lines(l));
        cutting_undoes_putting_together(l);
        assert(line[line.len() - 1] != '\n');
        assert(lines(line) =~= seq![line]);
    }
    assert(lines(Seq::<char>::empty()) =~= Seq::<Seq<char>>::empty());
}

proof fn lemma_first_line(x: Seq<char>, rest: Seq<char>)
    requires
        is_line(x),
        x.last() == '\n',
    ensures
        lines_inclusive(x + rest) == seq![x] + lines_inclusive(rest),
{
    let r = lines_inclusive(rest);
    let l = seq![x] + r;
    lines_inclusive_shape(rest);
    lines_inclusive_rebuild(rest);
    assert forall|k: int| 0 <= k < l.len() implies is_line(#[trigger] l[k]) by {
        if k > 0 {
            assert(l[k] == r[k - 1]);
        }
    }
    assert forall|k: int| 0 <= k < l.len() - 1 implies (#[trigger] l[k]).last() == '\n' by {
        if k > 0 {
            assert(l[k] == r[k - 1]);
        }
    }
    lemma_concat_add(seq![x], r);
    lemma_concat_one(x);
    cutting_undoes_putting_together(l);
}

/// The pieces of a text are what stands before the first separator and those of the rest.
pub proof fn splitting_goes_piece_by_piece(piece: Seq<char>, c: char, rest: Seq<char>)
    requires
        !piece.contains(c),
    ensures
        split(piece + seq![c] + rest, c) == seq![piece] + split(rest, c),
        split(piece, c) == seq![piece],
{
    let r = split(rest, c);
    let l = seq![piece] + r;
    join_undoes_split(rest, c);
    lemma_join_front(piece, r, seq![c]);
    assert(piece + (seq![c] + rest) =~= piece + seq![c] + rest);
    assert forall|i: int, j: int|
        #![trigger l[i][j]]
        0 <= i < l.len() && 0 <= j < l[i].len() implies l[i][j] != c by {
        if i > 0 {
            assert(l[i] == r[i - 1]);
            assert(!r[i - 1].contains(c));
        }
    }
    split_undoes_join(l, c);
    lemma_find_from(piece, c, 0);
    if find_from(piece, c, 0) < piece.len() {
        assert(piece.contains(c));
    }
    assert(piece.subrange(0, piece.len() as int) =~= piece);
    assert(split(piece, c) =~= seq![piece]);
}

/// A text split at a character that its front does not hold gives the front and the rest.
pub proof fn a_front_is_split_off(front: Seq<char>, c: char, rest: Seq<char>)
    requires
        !front.contains(c),
    ensures
        split_once(front + seq![c] + rest, c) == Some((front, rest)),
        split_once(front, c) is None,
{
    let s = front + seq![c] + rest;
    lemma_find_from(s, c, 0);
    lemma_find_from(front, c, 0);
    let e = find_from(s, c, 0);
    assert(s[front.len() as int] == c);
    if e < front.len() {
        assert(front[e] == c);
    }
    if find_from(front, c, 0) < front.len() {
        assert(front.contains(c));
    }
    assert(s.take(front.len() as int) =~= front);
    assert(s.skip(front.len() as int + 1) =~= rest);
}

/// A number is written in digits alone, at least one of them.
pub proof fn decimals_are_digits(n: nat)
    ensures
        decimal(n).len() > 0,
        forall|j: int| 0 <= j < decimal(n).len() ==> is_digit(#[trigger] decimal(n)[j]),
{
    lemma_decimal_digits(n);
}

/// The words of a text are its first word and those of the rest; white space in front is
/// passed over.
pub proof fn words_go_word_by_word(word: Seq<char>, c: char, rest: Seq<char>)
    requires
        word.len() > 0,
        forall|j: int| 0 <= j < word.len() ==> !is_space(#[trigger] word[j]),
        is_space(c),
    ensures
        words(word + seq![c] + rest) == seq![word] + words(rest),
        words(word) == seq![word],
        words(seq![c] + rest) == words(rest),
        words(Seq::<char>::empty()) == Seq::<Seq<char>>::empty(),
{
    let n = word.len() as int;
    let s = word + seq![c] + rest;
    lemma_find_space(s, 0, false);
    lemma_find_space(s, 0, true);
    assert(s[0] == word[0]);
    assert(find_space_from(s, 0, false) == 0);
    let b = find_space_from(s, 0, true);
    assert(s[n] == c);
    if b < n {
        assert(s[b] == word[b]);
    }
    assert(s.subrange(0, n) =~= word);
    lemma_words_shift(word, seq![c] + rest, 0);
    assert(word + (seq![c] + rest) =~= s);
    lemma_words_skip(c, rest);
    lemma_find_space(word, 0, false);
    lemma_find_space(word, 0, true);
    assert(find_space_from(word, 0, false) == 0);
    let e = find_space_from(word, 0, true);
    if e < n {
        assert(is_space(word[e]));
    }
    assert(word.subrange(0, n) =~= word);
    assert(words_from(word, n) =~= seq![]);
    assert(words(word) =~= seq![word]);
}

proof fn lemma_words_skip(c: char, rest: Seq<char>)
    requires
        is_space(c),
    ensures
        words(seq![c] + rest) == words(rest),
{
    let t = seq![c] + rest;
    assert(t[0] == c);
    assert(find_space_from(t, 0, false) == find_space_from(t, 1, false));
    lemma_words_shift(seq![c], rest, 0);
    assert(words_from(t, 0) == words_from(t, 1));
}

proof fn lemma_words_shift(front: Seq<char>, s: Seq<char>, i: int)
    requires
        0 <= i <= s.len(),
    ensures
        words_from(front + s, front.len() + i) == words_from(s, i),
    decreases s.len() - i,
{
    let t = front + s;
    let n = front.len() as int;
    lemma_space_shift(front, s, i, false);
    lemma_find_space(s, i, false);
    let a = find_space_from(s, i, false);
    lemma_space_shift(front, s, a, true);
    lemma_find_space(s, a, true);
    let b = find_space_from(s, a, true);
    if b > a {
        lemma_words_shift(front, s, b);
        assert(t.subrange(n + a, n + b) =~= s.subrange(a, b));
    }
}

proof fn lemma_space_shift(front: Seq<char>, s: Seq<char>, i: int, space: bool)
    requires
        0 <= i <= s.len(),
    ensures
        find_space_from(front + s, front.len() + i, space) == front.len() + find_space_from(
            s,
            i,
            space,
        ),
    decreases s.len() - i,
{
    if i < s.len() {
        assert((front + s)[front.len() + i] == s[i]);
        if is_space(s[i]) != space {
            lemma_space_shift(front, s, i + 1, space);
        }
    }
}

/// Of two texts the one with the smaller character comes first, where they first differ,
/// and a text comes before every longer one that it begins.
pub proof fn the_first_difference_orders(
    front: Seq<char>,
    a: char,
    b: char,
    x: Seq<char>,
    y: Seq<char>,
)
    ensures
        (a as int) < (b as int) ==> text_less(front + seq![a] + x, front + seq![b] + y),
        (b as int) < (a as int) ==> !text_less(front + seq![a] + x, front + seq![b] + y),
        text_less(front, front + seq![a] + x),
        !text_less(front + seq![a] + x, front),
    decreases front.len(),
{
    let s = front + seq![a] + x;
    let t = front + seq![b] + y;
    if front.len() > 0 {
        let rest = front.skip(1);
        the_first_difference_orders(rest, a, b, x, y);
        assert(s.skip(1) =~= rest + seq![a] + x);
        assert(t.skip(1) =~= rest + seq![b] + y);
        assert(s[0] == front[0] && t[0] == front[0]);
    } else {
        assert(s[0] == a && t[0] == b);
    }
}

/// Replacing goes through a text from its start: what is to be replaced gives way where it
/// stands at the front, and any other first character stays.
pub proof fn replacing_goes_from_the_front(s: Seq<char>, from: Seq<char>, to: Seq<char>)
    requires
        from.len() > 0,
    ensures
        from.is_prefix_of(s) ==> replace(s, from, to) == to + replace(
            s.skip(from.len() as int),
            from,
            to,
        ),
        !from.is_prefix_of(s) && s.len() > 0 ==> replace(s, from, to) == seq![s[0]] + replace(
            s.skip(1),
            from,
            to,
        ),
        replace(Seq::<char>::empty(), from, to) == Seq::<char>::empty(),
{
    if s.len() > 0 {
        lemma_replace_shift(s, from, to, 1, 0);
        if from.is_prefix_of(s) {
            assert(s.subrange(0, from.len() as int) =~= from);
            assert(occurs_at(s, from, 0));
            lemma_replace_shift(s, from, to, from.len() as int, 0);
        } else if occurs_at(s, from, 0) {
            assert(s.subrange(0, from.len() as int) == from);
        }
    } else if from.is_prefix_of(s) {
        assert(false);
    }
}

} // verus!
