//! Turns an editor's command template into a command line for the shell.

use crate::text;
use vstd::prelude::*;

verus! {

/// A text in single quotes, each single quote of it closed, escaped and reopened.
pub open spec fn quoted(s: Seq<char>) -> Seq<char> {
    "'"@ + text::replace(s, "'"@, "'\\''"@) + "'"@
}

/// Quotes a text for a POSIX shell.
pub fn shell_quote(s: &str) -> (r: String)
    ensures
        r@ == quoted(s@),
{
    let quote = text::chars_of("'");
    let escape = text::chars_of("'\\''");
    let body = text::chars_of(s);
    proof {
        reveal_strlit("'");
    }
    let inner = text::string_of(
        text::replace_text(body.as_slice(), quote.as_slice(), escape.as_slice()).as_slice(),
    );
    let mut out = "'".to_string();
    out.append(inner.as_str());
    out.append("'");
    out
}

/// The command line of a template: the quoted path stands for `{{filename}}`, the
/// line (1 where it is unknown) for `{{line}}`, the column for `{{column}}`.
pub open spec fn expanded(
    template: Seq<char>,
    path: Seq<char>,
    line: Option<usize>,
    column: usize,
) -> Seq<char> {
    let n = match line {
        Some(n) => n as nat,
        None => 1,
    };
    text::replace(
        text::replace(
            text::replace(template, "{{filename}}"@, quoted(path)),
            "{{line}}"@,
            text::decimal(n),
        ),
        "{{column}}"@,
        text::decimal(column as nat),
    )
}

/// Expands a command template.
pub fn expand(template: &str, path: &str, line: Option<usize>, column: usize) -> (r: String)
    ensures
        r@ == expanded(template@, path@, line, column),
{
    proof {
        reveal_strlit("{{filename}}");
        reveal_strlit("{{line}}");
        reveal_strlit("{{column}}");
    }
    let n: usize = match line {
        Some(n) => n,
        None => 1,
    };
    let t = text::chars_of(template);
    let with_path = text::replace_text(
        t.as_slice(),
        text::chars_of("{{filename}}").as_slice(),
        text::chars_of(shell_quote(path).as_str()).as_slice(),
    );
    let with_line = text::replace_text(
        with_path.as_slice(),
        text::chars_of("{{line}}").as_slice(),
        text::chars_of(text::decimal_of(n).as_str()).as_slice(),
    );
    let with_column = text::replace_text(
        with_line.as_slice(),
        text::chars_of("{{column}}").as_slice(),
        text::chars_of(text::decimal_of(column).as_str()).as_slice(),
    );
    text::string_of(with_column.as_slice())
}

// ---------------------------------------------------------------------------
// Laws
// ---------------------------------------------------------------------------

/// What a POSIX shell reads from a text that must be one word without anything to
/// expand: characters in single quotes stand for themselves, and outside of them
/// only a backslash with the character behind it may stand. Anything else gives
/// no such word.
pub open spec fn shell_word(s: Seq<char>, in_quotes: bool) -> Option<Seq<char>>
    decreases s.len(),
{
    if s.len() == 0 {
        if in_quotes {
            None
        } else {
            Some(seq![])
        }
    } else if s[0] == '\'' {
        shell_word(s.skip(1), !in_quotes)
    } else if in_quotes {
        match shell_word(s.skip(1), true) {
            Some(rest) => Some(seq![s[0]] + rest),
            None => None,
        }
    } else if s[0] == '\\' && s.len() > 1 {
        match shell_word(s.skip(2), false) {
            Some(rest) => Some(seq![s[1]] + rest),
            None => None,
        }
    } else {
        None
    }
}

/// Quoting is safe for every text: the shell reads a quoted text as one word, and
/// that word is the text.
pub proof fn shell_reads_back_what_was_quoted(s: Seq<char>)
    ensures
        shell_word(quoted(s), false) == Some(s),
{
    reveal_strlit("'");
    let body = text::replace(s, "'"@, "'\\''"@);
    assert(quoted(s).skip(1) =~= body + "'"@);
    lemma_quoted_body(s, 0);
    assert(s.skip(0) =~= s);
}

proof fn lemma_quoted_body(s: Seq<char>, i: int)
    requires
        0 <= i <= s.len(),
    ensures
        shell_word(text::replace_from(s, "'"@, "'\\''"@, i) + "'"@, true) == Some(s.skip(i)),
    decreases s.len() - i,
{
    reveal_strlit("'");
    reveal_strlit("'\\''");
    let out = text::replace_from(s, "'"@, "'\\''"@, i) + "'"@;
    if i == s.len() {
        assert(out =~= "'"@);
        assert(out.skip(1) =~= seq![]);
        assert(s.skip(i) =~= seq![]);
        assert(shell_word(seq![], false) == Some(Seq::<char>::empty()));
    } else {
        let rest = text::replace_from(s, "'"@, "'\\''"@, i + 1) + "'"@;
        lemma_quoted_body(s, i + 1);
        assert(s.skip(i) =~= seq![s[i]] + s.skip(i + 1));
        if s[i] == '\'' {
            assert(s.subrange(i, i + 1) =~= "'"@);
            assert(out =~= "'\\''"@ + rest);
            assert(out.skip(1).skip(2).skip(1) =~= rest);
            assert(out.skip(1)[0] == '\\');
            assert(out.skip(1)[1] == '\'');
            assert(out.skip(1).skip(2)[0] == '\'');
            assert(shell_word(out.skip(1).skip(2), false) == Some(s.skip(i + 1)));
            assert(shell_word(out.skip(1), false) == Some(seq!['\''] + s.skip(i + 1)));
        } else {
            if text::occurs_at(s, "'"@, i) {
                assert(s.subrange(i, i + 1)[0] == s[i]);
            }
            assert(out =~= seq![s[i]] + rest);
            assert(out.skip(1) =~= rest);
        }
    }
}

/// Whether `q` cannot come about with the help of `r`: neither end of `r` stands in it,
/// and it does not stand in `r`.
pub open spec fn kept_out(q: Seq<char>, r: Seq<char>) -> bool {
    r.len() > 0 && !q.contains(r[0]) && !q.contains(r.last()) && !text::contains(r, q)
}

/// Where the start of a replaced text does not hold the first character of the
/// replacement, it is the start of the text itself.
proof fn lemma_start_is_kept(s: Seq<char>, p: Seq<char>, r: Seq<char>, i: int, k: int)
    requires
        0 <= i <= s.len(),
        p.len() > 0,
        r.len() > 0,
        0 <= k <= text::replace_from(s, p, r, i).len(),
        !text::replace_from(s, p, r, i).take(k).contains(r[0]),
    ensures
        i + k <= s.len(),
        text::replace_from(s, p, r, i).take(k) == s.subrange(i, i + k),
    decreases k,
{
    let out = text::replace_from(s, p, r, i);
    if k == 0 {
        assert(out.take(0) =~= s.subrange(i, i));
    } else {
        assert(out.take(k)[0] == out[0]);
        assert(i < s.len());
        if text::occurs_at(s, p, i) {
            assert(out[0] == r[0]);
            assert(out.take(k).contains(out.take(k)[0]));
        }
        let rest = text::replace_from(s, p, r, i + 1);
        assert(out =~= seq![s[i]] + rest);
        let shorter = rest.take(k - 1);
        assert forall|a: int| 0 <= a < shorter.len() implies #[trigger] shorter[a] != r[0] by {
            assert(shorter[a] == out.take(k)[a + 1]);
            assert(out.take(k).contains(out.take(k)[a + 1]));
        }
        lemma_start_is_kept(s, p, r, i + 1, k - 1);
        assert(out.take(k) =~= seq![s[i]] + rest.take(k - 1));
        assert(s.subrange(i, i + k) =~= seq![s[i]] + s.subrange(i + 1, i + k));
    }
}

/// Replacing brings in no occurrence of `q`, if the replacement keeps it out and each
/// occurrence in the text was replaced.
proof fn lemma_no_occurrence(
    s: Seq<char>,
    p: Seq<char>,
    r: Seq<char>,
    q: Seq<char>,
    i: int,
    j: int,
)
    requires
        0 <= i <= s.len(),
        p.len() > 0,
        q.len() > 0,
        kept_out(q, r),
        p == q || !text::contains(s, q),
    ensures
        !text::occurs_at(text::replace_from(s, p, r, i), q, j),
    decreases s.len() - i, j,
{
    let out = text::replace_from(s, p, r, i);
    if i == s.len() || !text::occurs_at(out, q, j) {
    } else if text::occurs_at(s, p, i) {
        let rest = text::replace_from(s, p, r, i + p.len());
        assert(out =~= r + rest);
        let n = r.len() as int;
        if j < n && j + q.len() <= n {
            assert(r.subrange(j, j + q.len()) =~= out.subrange(j, j + q.len()));
            assert(text::occurs_at(r, q, j));
        } else if j < n {
            assert(out.subrange(j, j + q.len())[n - 1 - j] == r[n - 1]);
            assert(q.contains(q[n - 1 - j]));
        } else {
            assert(rest.subrange(j - n, j - n + q.len()) =~= out.subrange(j, j + q.len()));
            lemma_no_occurrence(s, p, r, q, i + p.len(), j - n);
        }
    } else {
        let rest = text::replace_from(s, p, r, i + 1);
        assert(out =~= seq![s[i]] + rest);
        if j == 0 {
            assert(out.subrange(0, q.len() as int) =~= out.take(q.len() as int));
            assert(out.take(q.len() as int) == q);
            lemma_start_is_kept(s, p, r, i, q.len() as int);
            assert(text::occurs_at(s, q, i));
        } else {
            assert(rest.subrange(j - 1, j - 1 + q.len()) =~= out.subrange(j, j + q.len()));
            lemma_no_occurrence(s, p, r, q, i + 1, j - 1);
        }
    }
}

/// The same of the whole text.
proof fn lemma_none_left(s: Seq<char>, p: Seq<char>, r: Seq<char>, q: Seq<char>)
    requires
        p.len() > 0,
        q.len() > 0,
        kept_out(q, r),
        p == q || !text::contains(s, q),
    ensures
        !text::contains(text::replace(s, p, r), q),
{
    let out = text::replace(s, p, r);
    if text::contains(out, q) {
        let j = choose|j: int| text::occurs_at(out, q, j);
        lemma_no_occurrence(s, p, r, q, 0, j);
    }
}

proof fn lemma_decimal_is_digits(n: nat)
    ensures
        text::decimal(n).len() > 0,
        forall|i: int|
            0 <= i < text::decimal(n).len() ==> text::is_digit(#[trigger] text::decimal(n)[i]),
    decreases n,
{
    if n >= 10 {
        lemma_decimal_is_digits(n / 10);
    }
}

/// Digits keep out what holds none.
proof fn lemma_digits_keep_out(q: Seq<char>, n: nat)
    requires
        q.len() > 0,
        forall|i: int| 0 <= i < q.len() ==> !text::is_digit(#[trigger] q[i]),
    ensures
        kept_out(q, text::decimal(n)),
{
    lemma_decimal_is_digits(n);
    let r = text::decimal(n);
    assert(text::is_digit(r[0]) && text::is_digit(r[r.len() - 1]));
    if text::contains(r, q) {
        let j = choose|j: int| text::occurs_at(r, q, j);
        assert(r.subrange(j, j + q.len())[0] == r[j]);
        assert(q[0] == r[j]);
    }
}

/// No `{{line}}` and no `{{column}}` is left in a command line, whatever the
/// template and the path hold and whether the line is known or not.
pub proof fn no_position_placeholder_is_left(
    template: Seq<char>,
    path: Seq<char>,
    line: Option<usize>,
    column: usize,
)
    ensures
        !text::contains(expanded(template, path, line, column), "{{line}}"@),
        !text::contains(expanded(template, path, line, column), "{{column}}"@),
{
    reveal_strlit("{{line}}");
    reveal_strlit("{{column}}");
    let n = match line {
        Some(n) => n as nat,
        None => 1,
    };
    let first = text::replace(template, "{{filename}}"@, quoted(path));
    let second = text::replace(first, "{{line}}"@, text::decimal(n));
    lemma_digits_keep_out("{{line}}"@, n);
    lemma_digits_keep_out("{{line}}"@, column as nat);
    lemma_digits_keep_out("{{column}}"@, column as nat);
    lemma_none_left(first, "{{line}}"@, text::decimal(n), "{{line}}"@);
    lemma_none_left(second, "{{column}}"@, text::decimal(column as nat), "{{line}}"@);
    lemma_none_left(second, "{{column}}"@, text::decimal(column as nat), "{{column}}"@);
}

/// A quoted path holds two opening braces only where the path does.
proof fn lemma_quoted_braces(path: Seq<char>)
    requires
        !text::contains(path, "{{"@),
    ensures
        !text::contains(quoted(path), "{{"@),
{
    reveal_strlit("{{");
    reveal_strlit("'");
    reveal_strlit("'\\''");
    let q = "{{"@;
    let r = "'\\''"@;
    if text::contains(r, q) {
        let j = choose|j: int| text::occurs_at(r, q, j);
        assert(r.subrange(j, j + 2)[0] == r[j]);
    }
    lemma_none_left(path, "'"@, r, q);
    let body = text::replace(path, "'"@, r);
    let out = quoted(path);
    if text::contains(out, q) {
        let j = choose|j: int| text::occurs_at(out, q, j);
        assert(out.subrange(j, j + 2)[0] == out[j]);
        assert(out.subrange(j, j + 2)[1] == out[j + 1]);
        assert(out[0] == '\'');
        assert(out[out.len() - 1] == '\'');
        assert(body.subrange(j - 1, j + 1) =~= out.subrange(j, j + 2));
        assert(text::occurs_at(body, q, j - 1));
    }
}

/// No `{{filename}}` is left in a command line either, if the path holds no two opening
/// braces in a row.
pub proof fn no_path_placeholder_is_left(
    template: Seq<char>,
    path: Seq<char>,
    line: Option<usize>,
    column: usize,
)
    requires
        !text::contains(path, "{{"@),
    ensures
        !text::contains(expanded(template, path, line, column), "{{filename}}"@),
{
    reveal_strlit("{{filename}}");
    reveal_strlit("{{line}}");
    reveal_strlit("{{column}}");
    reveal_strlit("{{");
    reveal_strlit("'");
    let q = "{{filename}}"@;
    let r = quoted(path);
    let n = match line {
        Some(n) => n as nat,
        None => 1,
    };
    lemma_quoted_braces(path);
    if text::contains(r, q) {
        let j = choose|j: int| text::occurs_at(r, q, j);
        assert(r.subrange(j, j + q.len()).take(2) =~= r.subrange(j, j + 2));
        assert(q.take(2) =~= "{{"@);
        assert(text::occurs_at(r, "{{"@, j));
    }
    assert(r[0] == '\'' && r.last() == '\'');
    assert(!q.contains('\''));
    let first = text::replace(template, q, r);
    let second = text::replace(first, "{{line}}"@, text::decimal(n));
    lemma_none_left(template, q, r, q);
    lemma_digits_keep_out(q, n);
    lemma_digits_keep_out(q, column as nat);
    lemma_none_left(first, "{{line}}"@, text::decimal(n), q);
    lemma_none_left(second, "{{column}}"@, text::decimal(column as nat), q);
}

/// An unknown line is the first one.
pub proof fn an_unknown_line_is_the_first(template: Seq<char>, path: Seq<char>, column: usize)
    ensures
        expanded(template, path, None, column) == expanded(template, path, Some(1), column),
{
}

/// A template without placeholders is the command line.
pub proof fn plain_template_is_kept(
    template: Seq<char>,
    path: Seq<char>,
    line: Option<usize>,
    column: usize,
)
    requires
        !text::contains(template, "{{filename}}"@),
        !text::contains(template, "{{line}}"@),
        !text::contains(template, "{{column}}"@),
    ensures
        expanded(template, path, line, column) == template,
{
    let n = match line {
        Some(n) => n as nat,
        None => 1,
    };
    lemma_replace_nothing(template, "{{filename}}"@, quoted(path), 0);
    lemma_replace_nothing(template, "{{line}}"@, text::decimal(n), 0);
    lemma_replace_nothing(template, "{{column}}"@, text::decimal(column as nat), 0);
    assert(template.skip(0) =~= template);
}

proof fn lemma_replace_nothing(s: Seq<char>, p: Seq<char>, r: Seq<char>, i: int)
    requires
        0 <= i <= s.len(),
        !text::contains(s, p),
    ensures
        text::replace_from(s, p, r, i) == s.skip(i),
    decreases s.len() - i,
{
    if i < s.len() {
        assert(!text::occurs_at(s, p, i));
        lemma_replace_nothing(s, p, r, i + 1);
        assert(s.skip(i) =~= seq![s[i]] + s.skip(i + 1));
    } else {
        assert(s.skip(i) =~= seq![]);
    }
}

/// A template is expanded from its start: what stands before its first placeholder stays, the
/// placeholder gives way to what it stands for, the quoted path, the line or the column, and
/// the rest is expanded in the same way. The placeholders may stand in any order and as often
/// as one likes; the path holds no opening brace.
pub proof fn placeholders_give_way_one_by_one(
    front: Seq<char>,
    p: Seq<char>,
    rest: Seq<char>,
    path: Seq<char>,
    line: Option<usize>,
    column: usize,
)
    requires
        !front.contains('{'),
        !path.contains('{'),
        p == "{{filename}}"@ || p == "{{line}}"@ || p == "{{column}}"@,
    ensures
        p == "{{filename}}"@ ==> expanded(front + p + rest, path, line, column) == front + quoted(
            path,
        ) + expanded(rest, path, line, column),
        p == "{{line}}"@ && line is Some ==> expanded(front + p + rest, path, line, column) == front
            + text::decimal(line->0 as nat) + expanded(rest, path, line, column),
        p == "{{line}}"@ && line is None ==> expanded(front + p + rest, path, line, column) == front
            + text::decimal(1) + expanded(rest, path, line, column),
        p == "{{column}}"@ ==> expanded(front + p + rest, path, line, column) == front
            + text::decimal(column as nat) + expanded(rest, path, line, column),
{
    lemma_placeholders();
    let f = "{{filename}}"@;
    let l = "{{line}}"@;
    let c = "{{column}}"@;
    let n = text::decimal(
        match line {
            Some(n) => n as nat,
            None => 1,
        },
    );
    let m = text::decimal(column as nat);
    let q = quoted(path);
    lemma_quoted_no_brace(path);
    lemma_number_no_brace(match line {
        Some(n) => n as nat,
        None => 1,
    });
    lemma_number_no_brace(column as nat);
    let r1 = text::replace(rest, f, q);
    let r2 = text::replace(r1, l, n);
    let r3 = text::replace(r2, c, m);
    let s = front + p + rest;
    assert(s =~= front + (p + rest));
    lemma_front_stays(front, p + rest, f, q);
    if p == f {
        lemma_placeholder_goes(f, rest, q);
        assert(front + (q + r1) =~= (front + q) + r1);
        lemma_no_brace_add(front, q);
        lemma_front_stays(front + q, r1, l, n);
        lemma_front_stays(front + q, r2, c, m);
    } else {
        lemma_placeholder_stays(p, rest, f, q);
        lemma_front_stays(front, p + r1, l, n);
        if p == l {
            lemma_placeholder_goes(l, r1, n);
            assert(front + (n + r2) =~= (front + n) + r2);
            lemma_no_brace_add(front, n);
            lemma_front_stays(front + n, r2, c, m);
        } else {
            lemma_placeholder_stays(p, r1, l, n);
            lemma_front_stays(front, p + r2, c, m);
            lemma_placeholder_goes(c, r2, m);
            assert(front + (m + r3) =~= front + m + r3);
        }
    }
}

proof fn lemma_placeholders()
    ensures
        "{{filename}}"@.len() == 12 && "{{line}}"@.len() == 8 && "{{column}}"@.len() == 10,
        "{{filename}}"@ != "{{line}}"@ && "{{filename}}"@ != "{{column}}"@ && "{{line}}"@
            != "{{column}}"@,
{
    reveal_strlit("{{filename}}");
    reveal_strlit("{{line}}");
    reveal_strlit("{{column}}");
    assert("{{filename}}"@.len() == 12);
    assert("{{line}}"@.len() == 8);
    assert("{{column}}"@.len() == 10);
}

proof fn lemma_placeholder_goes(p: Seq<char>, rest: Seq<char>, r: Seq<char>)
    requires
        p.len() > 0,
    ensures
        text::replace(p + rest, p, r) == r + text::replace(rest, p, r),
{
    assert(p.is_prefix_of(p + rest));
    text::replacing_goes_from_the_front(p + rest, p, r);
    assert((p + rest).skip(p.len() as int) =~= rest);
}

proof fn lemma_front_stays(front: Seq<char>, s: Seq<char>, q: Seq<char>, r: Seq<char>)
    requires
        !front.contains('{'),
        q == "{{filename}}"@ || q == "{{line}}"@ || q == "{{column}}"@,
    ensures
        text::replace(front + s, q, r) == front + text::replace(s, q, r),
    decreases front.len(),
{
    reveal_strlit("{{filename}}");
    reveal_strlit("{{line}}");
    reveal_strlit("{{column}}");
    if front.len() > 0 {
        let t = front + s;
        assert(q[0] == '{');
        assert(front.contains(front[0]));
        assert(t[0] == front[0]);
        if q.is_prefix_of(t) {
            assert(q[0] == t[0]);
        }
        text::replacing_goes_from_the_front(t, q, r);
        assert(t.skip(1) =~= front.skip(1) + s);
        assert(!front.skip(1).contains('{')) by {
            if front.skip(1).contains('{') {
                let j = choose|j: int| 0 <= j < front.skip(1).len() && front.skip(1)[j] == '{';
                assert(front[j + 1] == '{');
            }
        }
        lemma_front_stays(front.skip(1), s, q, r);
        assert(seq![front[0]] + (front.skip(1) + text::replace(s, q, r)) =~= front + text::replace(
            s,
            q,
            r,
        ));
    } else {
        assert(front + s =~= s);
        assert(front + text::replace(s, q, r) =~= text::replace(s, q, r));
    }
}

proof fn lemma_placeholder_stays(p: Seq<char>, rest: Seq<char>, q: Seq<char>, r: Seq<char>)
    requires
        p == "{{filename}}"@ || p == "{{line}}"@ || p == "{{column}}"@,
        q == "{{filename}}"@ || q == "{{line}}"@ || q == "{{column}}"@,
        p != q,
    ensures
        text::replace(p + rest, q, r) == p + text::replace(rest, q, r),
{
    reveal_strlit("{{filename}}");
    reveal_strlit("{{line}}");
    reveal_strlit("{{column}}");
    let t = p + rest;
    assert(p[0] == '{' && p[1] == '{' && q[0] == '{' && q[1] == '{');
    assert(p[2] == 'f' || p[2] == 'l' || p[2] == 'c');
    assert(p[2] != q[2]);
    if q.is_prefix_of(t) {
        assert(q[2] == t[2]);
        assert(t[2] == p[2]);
    }
    text::replacing_goes_from_the_front(t, q, r);
    let t1 = t.skip(1);
    assert(t1[0] == '{');
    assert(t1[1] == p[2]);
    if q.is_prefix_of(t1) {
        assert(q[1] == t1[1]);
    }
    text::replacing_goes_from_the_front(t1, q, r);
    let inner = p.skip(2);
    assert(t1.skip(1) =~= inner + rest);
    assert(!inner.contains('{'));
    lemma_front_stays(inner, rest, q, r);
    assert(seq!['{'] + (seq!['{'] + (inner + text::replace(rest, q, r))) =~= p + text::replace(
        rest,
        q,
        r,
    ));
}

proof fn lemma_no_brace_add(a: Seq<char>, b: Seq<char>)
    requires
        !a.contains('{'),
        !b.contains('{'),
    ensures
        !(a + b).contains('{'),
{
    if (a + b).contains('{') {
        let j = choose|j: int| 0 <= j < (a + b).len() && (a + b)[j] == '{';
        if j < a.len() {
            assert(a[j] == '{');
        } else {
            assert(b[j - a.len()] == '{');
        }
    }
}

proof fn lemma_number_no_brace(n: nat)
    ensures
        !text::decimal(n).contains('{'),
{
    text::decimals_are_digits(n);
    if text::decimal(n).contains('{') {
        let j = choose|j: int| 0 <= j < text::decimal(n).len() && text::decimal(n)[j] == '{';
        assert(text::is_digit(text::decimal(n)[j]));
    }
}

proof fn lemma_quoted_no_brace(path: Seq<char>)
    requires
        !path.contains('{'),
    ensures
        !quoted(path).contains('{'),
{
    reveal_strlit("'");
    reveal_strlit("'\\''");
    lemma_replaced_no_brace(path);
    let body = text::replace(path, "'"@, "'\\''"@);
    lemma_no_brace_add("'"@, body);
    lemma_no_brace_add("'"@ + body, "'"@);
}

proof fn lemma_replaced_no_brace(s: Seq<char>)
    requires
        !s.contains('{'),
    ensures
        !text::replace(s, "'"@, "'\\''"@).contains('{'),
    decreases s.len(),
{
    reveal_strlit("'");
    reveal_strlit("'\\''");
    text::replacing_goes_from_the_front(s, "'"@, "'\\''"@);
    if s.len() > 0 {
        let rest = s.skip(1);
        assert(!rest.contains('{')) by {
            if rest.contains('{') {
                let j = choose|j: int| 0 <= j < rest.len() && rest[j] == '{';
                assert(s[j + 1] == '{');
            }
        }
        lemma_replaced_no_brace(rest);
        assert(s.contains(s[0]));
        lemma_no_brace_add(seq![s[0]], text::replace(rest, "'"@, "'\\''"@));
        lemma_no_brace_add("'\\''"@, text::replace(rest, "'"@, "'\\''"@));
    } else {
        assert(s =~= Seq::<char>::empty());
    }
}

} // verus!
