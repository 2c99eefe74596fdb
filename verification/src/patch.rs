//! Unified-diff patches: reading file headers and hunk headers, and applying
//! the hunks of one file to its old contents.
use vstd::prelude::*;

use crate::text::{char_is_space, chars_of, has_prefix, is_space, join2, join3, string_from, text_starts_with};

verus! {

// ---------------------------------------------------------------------------
// Debug rendering of text
// ---------------------------------------------------------------------------

/// What `format!("{:?}", s)` renders for the text `s`: the text quoted and
/// escaped the way `<str as Debug>::fmt` escapes it.
pub uninterp spec fn str_debug(s: Seq<char>) -> Seq<char>;

/// The `Debug` rendering of `s`; wraps `<str as Debug>::fmt`, whose output
/// depends on `s` alone.
#[verifier::external_body]
fn debug_text(s: &str) -> (r: String)
    ensures
        r@ == str_debug(s@),
{
    format!("{:?}", s)
}

// ---------------------------------------------------------------------------
// Text pieces
// ---------------------------------------------------------------------------

/// The characters of `cs` from `i` to `j`, as a string.
pub(crate) fn slice_text(cs: &Vec<char>, i: usize, j: usize) -> (r: String)
    requires
        i <= j <= cs@.len(),
    ensures
        r@ == cs@.subrange(i as int, j as int),
{
    string_from(vstd::slice::slice_subrange(cs.as_slice(), i, j))
}

/// `s` without its first `n` characters.
fn text_skip(s: &str, n: usize) -> (r: String)
    requires
        n <= s@.len(),
    ensures
        r@ == s@.skip(n as int),
{
    let cs = chars_of(s);
    let r = slice_text(&cs, n, cs.len());
    assert(cs@.subrange(n as int, cs@.len() as int) =~= s@.skip(n as int));
    r
}

/// `s` with leading whitespace removed.
pub open spec fn skip_spaces(s: Seq<char>) -> Seq<char>
    decreases s.len(),
{
    if s.len() > 0 && is_space(s[0]) {
        skip_spaces(s.drop_first())
    } else {
        s
    }
}

/// The leading run of non-whitespace characters of `s`.
pub open spec fn word(s: Seq<char>) -> Seq<char>
    decreases s.len(),
{
    if s.len() == 0 || is_space(s[0]) {
        Seq::empty()
    } else {
        seq![s[0]] + word(s.drop_first())
    }
}

proof fn lemma_skip_spaces(s: Seq<char>, k: int)
    requires
        0 <= k <= s.len(),
        forall|j: int| 0 <= j < k ==> is_space(#[trigger] s[j]),
        k == s.len() || !is_space(s[k]),
    ensures
        skip_spaces(s) == s.skip(k),
    decreases k,
{
    if k == 0 {
        assert(s.skip(0) =~= s);
    } else {
        let t = s.drop_first();
        assert forall|j: int| 0 <= j < k - 1 implies is_space(#[trigger] t[j]) by {
            assert(t[j] == s[j + 1]);
        }
        if k < s.len() {
            assert(t[k - 1] == s[k]);
        }
        lemma_skip_spaces(t, k - 1);
        assert(t.skip(k - 1) =~= s.skip(k));
    }
}

proof fn lemma_word(s: Seq<char>, k: int)
    requires
        0 <= k <= s.len(),
        forall|j: int| 0 <= j < k ==> !is_space(#[trigger] s[j]),
        k == s.len() || is_space(s[k]),
    ensures
        word(s) == s.take(k),
    decreases k,
{
    if k == 0 {
        assert(s.take(0) =~= Seq::<char>::empty());
    } else {
        let t = s.drop_first();
        assert forall|j: int| 0 <= j < k - 1 implies !is_space(#[trigger] t[j]) by {
            assert(t[j] == s[j + 1]);
        }
        if k < s.len() {
            assert(t[k - 1] == s[k]);
        }
        lemma_word(t, k - 1);
        assert(seq![s[0]] + t.take(k - 1) =~= s.take(k));
    }
}

// ---------------------------------------------------------------------------
// File headers
// ---------------------------------------------------------------------------

/// A header path without the `a/` or `b/` side marker.
pub open spec fn strip_side(p: Seq<char>) -> Seq<char> {
    if has_prefix(p, "a/"@) {
        p.skip(2)
    } else if has_prefix(p, "b/"@) {
        p.skip(2)
    } else {
        p
    }
}

/// The path named by a `--- ` or `+++ ` header line: the first word after
/// the prefix, without its side marker.
pub open spec fn header_path(line: Seq<char>, prefix: Seq<char>) -> Result<Seq<char>, Seq<char>> {
    if !has_prefix(line, prefix) {
        Err("patch line '"@ + line + "' is missing prefix '"@ + prefix + "'"@)
    } else {
        let t = skip_spaces(line.skip(prefix.len() as int));
        if t.len() == 0 {
            Err("patch line '"@ + line + "' is missing a path"@)
        } else {
            Ok(strip_side(word(t)))
        }
    }
}

/// Reads the path of a `--- ` or `+++ ` header line.
pub fn patch_file_path(line: &str, prefix: &str) -> (r: Result<String, String>)
    ensures
        match r {
            Ok(p) => header_path(line@, prefix@) == Ok::<Seq<char>, Seq<char>>(p@),
            Err(e) => header_path(line@, prefix@) == Err::<Seq<char>, Seq<char>>(e@),
        },
{
    if !text_starts_with(line, prefix) {
        let head = join3("patch line '", line, "' is missing prefix '");
        return Err(join3(head.as_str(), prefix, "'"));
    }
    let cs = chars_of(line);
    let ps = chars_of(prefix);
    let ghost rest = line@.skip(prefix@.len() as int);
    let mut i: usize = ps.len();
    while i < cs.len() && char_is_space(cs[i])
        invariant
            ps@.len() <= i <= cs@.len(),
            cs@ == line@,
            ps@ == prefix@,
            rest == line@.skip(prefix@.len() as int),
            forall|j: int| 0 <= j < i - ps@.len() ==> is_space(#[trigger] rest[j]),
        decreases cs@.len() - i,
    {
        assert(rest[i - ps@.len()] == cs@[i as int]);
        i += 1;
    }
    proof {
        if i < cs@.len() {
            assert(rest[i - ps@.len()] == cs@[i as int]);
        }
        lemma_skip_spaces(rest, i - ps@.len());
    }
    let ghost t = skip_spaces(rest);
    assert(t =~= line@.skip(i as int));
    if i == cs.len() {
        return Err(join3("patch line '", line, "' is missing a path"));
    }
    let mut j: usize = i;
    while j < cs.len() && !char_is_space(cs[j])
        invariant
            i <= j <= cs@.len(),
            cs@ == line@,
            t == line@.skip(i as int),
            forall|k: int| 0 <= k < j - i ==> !is_space(#[trigger] t[k]),
        decreases cs@.len() - j,
    {
        assert(t[j - i] == cs@[j as int]);
        j += 1;
    }
    proof {
        if j < cs@.len() {
            assert(t[j - i] == cs@[j as int]);
        }
        lemma_word(t, j - i);
        assert(t.take(j - i) =~= cs@.subrange(i as int, j as int));
    }
    let path = slice_text(&cs, i, j);
    if text_starts_with(path.as_str(), "a/") || text_starts_with(path.as_str(), "b/") {
        proof {
            reveal_strlit("a/");
            reveal_strlit("b/");
        }
        Ok(text_skip(path.as_str(), 2))
    } else {
        Ok(path)
    }
}

// ---------------------------------------------------------------------------
// Numbers
// ---------------------------------------------------------------------------

pub open spec fn is_digit(c: char) -> bool {
    48 <= (c as u32) && (c as u32) <= 57
}

pub open spec fn digit_value(c: char) -> int {
    (c as u32) - 48
}

/// The number written by the decimal digits `d`.
pub open spec fn digits_value(d: Seq<char>) -> int
    decreases d.len(),
{
    if d.len() == 0 {
        0
    } else {
        10 * digits_value(d.drop_last()) + digit_value(d.last())
    }
}

/// The index of the first character of `d` that is not a decimal digit, or
/// the length of `d`.
pub open spec fn first_non_digit(d: Seq<char>) -> int
    decreases d.len(),
{
    if d.len() == 0 || !is_digit(d[0]) {
        0
    } else {
        1 + first_non_digit(d.drop_first())
    }
}

pub open spec fn empty_number_message() -> Seq<char> {
    "cannot parse integer from empty string"@
}

pub open spec fn invalid_digit_message() -> Seq<char> {
    "invalid digit found in string"@
}

pub open spec fn overflow_message() -> Seq<char> {
    "number too large to fit in target type"@
}

/// What `usize::from_str` gives for `s`, with the error rendered as text:
/// an optional `+`, then decimal digits; the first non-digit is an invalid
/// digit unless the digits before it already overflow.
pub open spec fn usize_from_text(s: Seq<char>) -> Result<usize, Seq<char>> {
    if s.len() == 0 {
        Err(empty_number_message())
    } else if s == "+"@ || s == "-"@ {
        Err(invalid_digit_message())
    } else {
        let d = if s[0] == '+' {
            s.drop_first()
        } else {
            s
        };
        let k = first_non_digit(d);
        if digits_value(d.take(k)) > usize::MAX {
            Err(overflow_message())
        } else if k < d.len() {
            Err(invalid_digit_message())
        } else {
            Ok(digits_value(d) as usize)
        }
    }
}

proof fn lemma_first_non_digit(d: Seq<char>, k: int)
    requires
        0 <= k <= d.len(),
        forall|j: int| 0 <= j < k ==> is_digit(#[trigger] d[j]),
        k == d.len() || !is_digit(d[k]),
    ensures
        first_non_digit(d) == k,
    decreases k,
{
    if k > 0 {
        let t = d.drop_first();
        assert forall|j: int| 0 <= j < k - 1 implies is_digit(#[trigger] t[j]) by {
            assert(t[j] == d[j + 1]);
        }
        if k < d.len() {
            assert(t[k - 1] == d[k]);
        }
        lemma_first_non_digit(t, k - 1);
    }
}

proof fn lemma_first_non_digit_props(d: Seq<char>)
    ensures
        0 <= first_non_digit(d) <= d.len(),
        forall|t: int| 0 <= t < first_non_digit(d) ==> is_digit(#[trigger] d[t]),
        first_non_digit(d) == d.len() || !is_digit(d[first_non_digit(d)]),
    decreases d.len(),
{
    if d.len() > 0 && is_digit(d[0]) {
        let t = d.drop_first();
        lemma_first_non_digit_props(t);
        assert forall|j: int| 0 <= j < first_non_digit(d) implies is_digit(#[trigger] d[j]) by {
            if j > 0 {
                assert(d[j] == t[j - 1]);
            }
        }
        if first_non_digit(d) < d.len() {
            assert(d[first_non_digit(d)] == t[first_non_digit(t)]);
        }
    }
}

proof fn lemma_digits_value_grows(d: Seq<char>, j: int, k: int)
    requires
        0 <= j <= k <= d.len(),
        forall|t: int| 0 <= t < k ==> is_digit(#[trigger] d[t]),
    ensures
        0 <= digits_value(d.take(j)) <= digits_value(d.take(k)),
    decreases k,
{
    if k > 0 {
        if j < k {
            lemma_digits_value_grows(d, j, k - 1);
            assert(d.take(k).drop_last() =~= d.take(k - 1));
            assert(d.take(k).last() == d[k - 1]);
        }
    }
    if j == 0 {
        assert(d.take(0) =~= Seq::<char>::empty());
    }
    if k == j && j > 0 {
        lemma_digits_value_grows(d, j - 1, k - 1);
        assert(d.take(k).drop_last() =~= d.take(k - 1));
        assert(d.take(k).last() == d[k - 1]);
    }
}

/// Reads a `usize` the way `str::parse::<usize>` does.
pub fn parse_usize(s: &str) -> (r: Result<usize, String>)
    ensures
        match r {
            Ok(v) => usize_from_text(s@) == Ok::<usize, Seq<char>>(v),
            Err(e) => usize_from_text(s@) == Err::<usize, Seq<char>>(e@),
        },
{
    let cs = chars_of(s);
    if cs.len() == 0 {
        return Err("cannot parse integer from empty string".to_owned());
    }
    proof {
        reveal_strlit("+");
        reveal_strlit("-");
    }
    if cs.len() == 1 && (cs[0] == '+' || cs[0] == '-') {
        assert(s@ =~= "+"@ || s@ =~= "-"@);
        return Err("invalid digit found in string".to_owned());
    }
    assert(s@ != "+"@ && s@ != "-"@);
    let start: usize = if cs[0] == '+' {
        1
    } else {
        0
    };
    let ghost d = if s@[0] == '+' {
        s@.drop_first()
    } else {
        s@
    };
    assert(d =~= cs@.skip(start as int));
    let mut acc: usize = 0;
    let mut i: usize = start;
    assert(d.take(0) =~= Seq::<char>::empty());
    while i < cs.len()
        invariant
            start <= i <= cs@.len(),
            start <= 1,
            cs@ == s@,
            s@.len() > 0,
            s@ != "+"@ && s@ != "-"@,
            d == (if s@[0] == '+' {
                s@.drop_first()
            } else {
                s@
            }),
            d == cs@.skip(start as int),
            forall|t: int| 0 <= t < i - start ==> is_digit(#[trigger] d[t]),
            acc == digits_value(d.take(i - start)),
        decreases cs@.len() - i,
    {
        let c = cs[i];
        let u = c as u32;
        assert(d[i - start] == c);
        if u < 48 || u > 57 {
            proof {
                lemma_first_non_digit(d, i - start);
            }
            return Err("invalid digit found in string".to_owned());
        }
        proof {
            assert(d.take(i - start + 1).drop_last() =~= d.take(i - start));
            assert(d.take(i - start + 1).last() == c);
        }
        let next = match acc.checked_mul(10) {
            Some(m) => m.checked_add((u - 48) as usize),
            None => None,
        };
        match next {
            Some(v) => {
                acc = v;
            },
            None => {
                proof {
                    lemma_first_non_digit_props(d);
                    let k = first_non_digit(d);
                    if k < i - start + 1 {
                        assert(is_digit(d[k]));
                    }
                    lemma_digits_value_grows(d, i - start + 1, k);
                }
                return Err("number too large to fit in target type".to_owned());
            },
        }
        i += 1;
    }
    proof {
        lemma_first_non_digit(d, d.len() as int);
        assert(d.take(d.len() as int) =~= d);
    }
    Ok(acc)
}


// ---------------------------------------------------------------------------
// Hunk headers
// ---------------------------------------------------------------------------

/// The index of the first `c` in `s`, or the length of `s`.
pub open spec fn first_index(s: Seq<char>, c: char) -> int
    decreases s.len(),
{
    if s.len() == 0 || s[0] == c {
        0
    } else {
        1 + first_index(s.drop_first(), c)
    }
}

proof fn lemma_first_index(s: Seq<char>, c: char, k: int)
    requires
        0 <= k <= s.len(),
        forall|j: int| 0 <= j < k ==> #[trigger] s[j] != c,
        k == s.len() || s[k] == c,
    ensures
        first_index(s, c) == k,
    decreases k,
{
    if k > 0 {
        let t = s.drop_first();
        assert forall|j: int| 0 <= j < k - 1 implies #[trigger] t[j] != c by {
            assert(t[j] == s[j + 1]);
        }
        if k < s.len() {
            assert(t[k - 1] == s[k]);
        }
        lemma_first_index(t, c, k - 1);
    }
}

/// Finds the first `c` in `cs` at or after `from`.
pub(crate) fn find_char(cs: &Vec<char>, from: usize, c: char) -> (r: usize)
    requires
        from <= cs@.len(),
    ensures
        r == from + first_index(cs@.skip(from as int), c),
        from <= r <= cs@.len(),
{
    let mut i = from;
    while i < cs.len() && cs[i] != c
        invariant
            from <= i <= cs@.len(),
            forall|j: int| from <= j < i ==> #[trigger] cs@[j] != c,
        decreases cs@.len() - i,
    {
        i += 1;
    }
    proof {
        let t = cs@.skip(from as int);
        assert forall|j: int| 0 <= j < i - from implies #[trigger] t[j] != c by {
            assert(t[j] == cs@[from + j]);
        }
        if i < cs@.len() {
            assert(t[i - from] == cs@[i as int]);
        }
        lemma_first_index(t, c, i - from);
    }
    i
}

/// The old-file start line of a hunk header `@@ -start[,count] ...`.
pub open spec fn hunk_start(line: Seq<char>) -> Result<usize, Seq<char>> {
    if !has_prefix(line, "@@ -"@) {
        Err("malformed hunk header '"@ + line + "'"@)
    } else {
        let rest = line.skip(4);
        let sp = first_index(rest, ' ');
        if sp == rest.len() {
            Err("malformed hunk header '"@ + line + "'"@)
        } else {
            let range = rest.take(sp);
            let start = range.take(first_index(range, ','));
            match usize_from_text(start) {
                Ok(v) => Ok(v),
                Err(e) => Err("malformed hunk start '"@ + start + "': "@ + e),
            }
        }
    }
}

/// Reads the old-file start line of a hunk header.
pub fn parse_hunk_old_start(line: &str) -> (r: Result<usize, String>)
    ensures
        match r {
            Ok(v) => hunk_start(line@) == Ok::<usize, Seq<char>>(v),
            Err(e) => hunk_start(line@) == Err::<usize, Seq<char>>(e@),
        },
{
    if !text_starts_with(line, "@@ -") {
        return Err(join3("malformed hunk header '", line, "'"));
    }
    proof {
        reveal_strlit("@@ -");
    }
    let cs = chars_of(line);
    let ghost rest = line@.skip(4);
    let sp = find_char(&cs, 4, ' ');
    assert(cs@.skip(4) =~= rest);
    if sp == cs.len() {
        return Err(join3("malformed hunk header '", line, "'"));
    }
    let range = slice_text(&cs, 4, sp);
    assert(range@ =~= rest.take(sp - 4));
    let rcs = chars_of(range.as_str());
    let comma = find_char(&rcs, 0, ',');
    assert(rcs@.skip(0) =~= rcs@);
    let start = slice_text(&rcs, 0, comma);
    assert(start@ =~= range@.take(comma as int));
    match parse_usize(start.as_str()) {
        Ok(v) => Ok(v),
        Err(e) => {
            let head = join3("malformed hunk start '", start.as_str(), "': ");
            Err(join2(head.as_str(), e.as_str()))
        },
    }
}

// ---------------------------------------------------------------------------
// Applying hunks
// ---------------------------------------------------------------------------

/// Why line `index` of the old file cannot be the expected line, if it
/// cannot.
pub open spec fn old_line_problem(lines: Seq<Seq<char>>, index: int, expected: Seq<char>) -> Option<Seq<char>> {
    if index < 0 || index >= lines.len() {
        Some("patch hunk refers past end of file"@)
    } else if lines[index] == expected {
        None
    } else {
        Some("patch context mismatch: expected "@ + str_debug(expected) + ", got "@ + str_debug(lines[index]))
    }
}

/// Checks that line `index` of the old file is `expected`.
pub fn ensure_old_line(lines: &Vec<String>, index: usize, expected: &str) -> (r: Result<(), String>)
    ensures
        match r {
            Ok(()) => old_line_problem(crate::text::views(lines@), index as int, expected@) is None,
            Err(e) => old_line_problem(crate::text::views(lines@), index as int, expected@) == Some(e@),
        },
{
    if index >= lines.len() {
        return Err("patch hunk refers past end of file".to_owned());
    }
    let actual = &lines[index];
    if let crate::text::TextOrder::Equal = crate::text::compare_text(actual.as_str(), expected) {
        Ok(())
    } else {
        let e = debug_text(expected);
        let a = debug_text(actual.as_str());
        let head = join3("patch context mismatch: expected ", e.as_str(), ", got ");
        Err(join2(head.as_str(), a.as_str()))
    }
}

pub open spec fn no_newline_marker() -> Seq<char> {
    "\\ No newline at end of file"@
}

/// One body line of a hunk, applied to the old file `orig` at line `old`
/// with output so far `out`.
pub open spec fn body_step(orig: Seq<Seq<char>>, old: int, out: Seq<Seq<char>>, line: Seq<char>) -> Result<
    (int, Seq<Seq<char>>),
    Seq<char>,
> {
    if line == no_newline_marker() {
        Ok((old, out))
    } else if line.len() == 0 || (line[0] as u32) >= 128 {
        Err("malformed patch hunk line"@)
    } else {
        let expected = line.drop_first().push('\n');
        if line[0] == ' ' {
            match old_line_problem(orig, old, expected) {
                Some(e) => Err(e),
                None => Ok((old + 1, out.push(orig[old]))),
            }
        } else if line[0] == '-' {
            match old_line_problem(orig, old, expected) {
                Some(e) => Err(e),
                None => Ok((old + 1, out)),
            }
        } else if line[0] == '+' {
            Ok((old, out.push(expected)))
        } else {
            Err("unsupported patch hunk line '"@ + line + "'"@)
        }
    }
}

pub open spec fn is_boundary(l: Seq<char>) -> bool {
    has_prefix(l, "@@ "@) || has_prefix(l, "diff --git "@) || has_prefix(l, "--- "@)
}

/// The hunks of one file, read from patch line `i` on: each `@@ ` header
/// copies the old lines before its start, and its body lines run until the
/// next `@@ `, `diff --git ` or `--- ` line. The result is the line where the
/// file's hunks end, the old line reached, the output, and whether any hunk
/// was seen.
pub open spec fn run_hunks(
    ls: Seq<Seq<char>>,
    i: int,
    orig: Seq<Seq<char>>,
    old: int,
    out: Seq<Seq<char>>,
    had: bool,
) -> Result<(int, int, Seq<Seq<char>>, bool), Seq<char>>
    decreases ls.len() - i,
{
    if i < 0 || i >= ls.len() {
        Ok((i, old, out, had))
    } else if has_prefix(ls[i], "@@ "@) {
        match hunk_start(ls[i]) {
            Err(e) => Err(e),
            Ok(start) => {
                let copy_until: int = if start >= 1 {
                    start - 1
                } else {
                    0
                };
                let stop: int = if copy_until < orig.len() {
                    copy_until
                } else {
                    orig.len() as int
                };
                if old < stop {
                    run_hunks(ls, i + 1, orig, stop, out + orig.subrange(old, stop), true)
                } else {
                    run_hunks(ls, i + 1, orig, old, out, true)
                }
            },
        }
    } else if !had || is_boundary(ls[i]) {
        Ok((i, old, out, had))
    } else {
        match body_step(orig, old, out, ls[i]) {
            Err(e) => Err(e),
            Ok((o, u)) => run_hunks(ls, i + 1, orig, o, u, had),
        }
    }
}

/// Applies one body line; returns the next old line.
fn apply_body_line(orig: &Vec<String>, at: usize, out: &mut Vec<String>, line: &str) -> (r: Result<
    usize,
    String,
>)
    requires
        at <= orig@.len(),
    ensures
        match r {
            Ok(o) => body_step(crate::text::views(orig@), at as int, crate::text::views(old(out)@), line@)
                == Ok::<(int, Seq<Seq<char>>), Seq<char>>((o as int, crate::text::views(final(out)@))),
            Err(e) => body_step(crate::text::views(orig@), at as int, crate::text::views(old(out)@), line@)
                == Err::<(int, Seq<Seq<char>>), Seq<char>>(e@),
        },
        match r {
            Ok(o) => o <= orig@.len(),
            Err(_) => true,
        },
{
    let ghost o = crate::text::views(orig@);
    let ghost u = crate::text::views(out@);
    let total = orig.len();
    assert(o.len() == total);
    if let crate::text::TextOrder::Equal = crate::text::compare_text(line, "\\ No newline at end of file") {
        return Ok(at);
    }
    let cs = chars_of(line);
    if cs.len() == 0 || (cs[0] as u32) >= 128 {
        return Err("malformed patch hunk line".to_owned());
    }
    let body = text_skip(line, 1);
    assert(body@ =~= line@.drop_first());
    let expected = crate::lines::with_newline(body.as_str());
    let tag = cs[0];
    if tag == ' ' {
        let checked = ensure_old_line(orig, at, expected.as_str());
        match checked {
            Ok(()) => {
                assert(old_line_problem(o, at as int, expected@) is None);
                assert(at < o.len());
            },
            Err(e) => {
                return Err(e);
            },
        }
        out.push(orig[at].clone());
        assert(crate::text::views(out@) =~= u.push(o[at as int]));
        Ok(at + 1)
    } else if tag == '-' {
        let checked = ensure_old_line(orig, at, expected.as_str());
        match checked {
            Ok(()) => {
                assert(old_line_problem(o, at as int, expected@) is None);
                assert(at < o.len());
            },
            Err(e) => {
                return Err(e);
            },
        }
        Ok(at + 1)
    } else if tag == '+' {
        out.push(expected);
        assert(crate::text::views(out@) =~= u.push(line@.drop_first().push('\n')));
        Ok(at)
    } else {
        Err(join3("unsupported patch hunk line '", line, "'"))
    }
}

/// Whether `line` ends a hunk body.
fn boundary_line(line: &str) -> (r: bool)
    ensures
        r == is_boundary(line@),
{
    text_starts_with(line, "@@ ") || text_starts_with(line, "diff --git ") || text_starts_with(line, "--- ")
}

/// The change a patch makes to one file.
pub enum FileChange {
    Write(String),
    Remove,
}

pub enum FileChangeView {
    Write(Seq<char>),
    Remove,
}

pub open spec fn file_change_view(c: FileChange) -> FileChangeView {
    match c {
        FileChange::Write(s) => FileChangeView::Write(s@),
        FileChange::Remove => FileChangeView::Remove,
    }
}

/// What the hunks from patch line `body_start` on do to a file whose old
/// contents are `old_text`: the line after them, and the change.
pub open spec fn file_change(
    ls: Seq<Seq<char>>,
    body_start: int,
    old_text: Seq<char>,
    target: Seq<char>,
    deletes: bool,
) -> Result<(int, FileChangeView), Seq<char>> {
    let orig = crate::lines::pieces_of(old_text);
    match run_hunks(ls, body_start, orig, 0, Seq::empty(), false) {
        Err(e) => Err(e),
        Ok((next, old, out, had)) => if !had {
            Err("patch for '"@ + target + "' does not contain a hunk"@)
        } else {
            let full = out + orig.skip(old);
            if deletes {
                if full.len() > 0 {
                    Err("deletion patch for '"@ + target + "' leaves undeleted content"@)
                } else {
                    Ok((next, FileChangeView::Remove))
                }
            } else {
                Ok((next, FileChangeView::Write(crate::text::join_with(full, Seq::empty()))))
            }
        },
    }
}

} // verus!

verus! {

/// Applies the hunks that start at patch line `body_start` to the old
/// contents `old_text` of `target`.
pub fn patch_file_change(
    lines: &Vec<String>,
    body_start: usize,
    old_text: &str,
    target: &str,
    deletes: bool,
) -> (r: Result<(usize, FileChange), String>)
    requires
        body_start <= lines@.len(),
    ensures
        match r {
            Ok((next, c)) => file_change(crate::text::views(lines@), body_start as int, old_text@, target@, deletes)
                == Ok::<(int, FileChangeView), Seq<char>>((next as int, file_change_view(c))),
            Err(e) => file_change(crate::text::views(lines@), body_start as int, old_text@, target@, deletes)
                == Err::<(int, FileChangeView), Seq<char>>(e@),
        },
        match r {
            Ok((next, _)) => next <= lines@.len(),
            Err(_) => true,
        },
{
    let ghost ls = crate::text::views(lines@);
    let orig = crate::lines::split_lines(old_text);
    let ghost o = crate::text::views(orig@);
    let mut out: Vec<String> = Vec::new();
    let mut old: usize = 0;
    let mut had = false;
    let mut i: usize = body_start;
    assert(crate::text::views(out@) =~= Seq::<Seq<char>>::empty());
    while i < lines.len()
        invariant
            body_start <= i <= lines@.len(),
            old <= orig@.len(),
            ls == crate::text::views(lines@),
            o == crate::text::views(orig@),
            o == crate::lines::pieces_of(old_text@),
            run_hunks(ls, body_start as int, o, 0, Seq::empty(), false) == run_hunks(
                ls,
                i as int,
                o,
                old as int,
                crate::text::views(out@),
                had,
            ),
        ensures
            i <= lines@.len(),
            old <= orig@.len(),
            run_hunks(ls, body_start as int, o, 0, Seq::empty(), false) == Ok::<
                (int, int, Seq<Seq<char>>, bool),
                Seq<char>,
            >((i as int, old as int, crate::text::views(out@), had)),
        decreases lines@.len() - i,
    {
        let line = lines[i].as_str();
        assert(ls[i as int] == line@);
        if text_starts_with(line, "@@ ") {
            let start = match parse_hunk_old_start(line) {
                Ok(v) => v,
                Err(e) => {
                    return Err(e);
                },
            };
            let copy_until: usize = if start >= 1 {
                start - 1
            } else {
                0
            };
            let stop: usize = if copy_until < orig.len() {
                copy_until
            } else {
                orig.len()
            };
            if old < stop {
                let ghost before = crate::text::views(out@);
                let ghost first = old;
                while old < stop
                    invariant
                        first <= old <= stop <= orig@.len(),
                        o == crate::text::views(orig@),
                        crate::text::views(out@) == before + o.subrange(first as int, old as int),
                    decreases stop - old,
                {
                    let ghost prev = crate::text::views(out@);
                    out.push(orig[old].clone());
                    assert(crate::text::views(out@) =~= prev.push(o[old as int]));
                    assert(o.subrange(first as int, old + 1) =~= o.subrange(first as int, old as int).push(
                        o[old as int],
                    ));
                    old += 1;
                }
            }
            had = true;
        } else if !had || boundary_line(line) {
            break;
        } else {
            old = match apply_body_line(&orig, old, &mut out, line) {
                Ok(v) => v,
                Err(e) => {
                    return Err(e);
                },
            };
        }
        i += 1;
    }
    if !had {
        let head = join3("patch for '", target, "' does not contain a hunk");
        return Err(head);
    }
    let mut full = out;
    let ghost before = crate::text::views(full@);
    let ghost first = old;
    while old < orig.len()
        invariant
            first <= old <= orig@.len(),
            o == crate::text::views(orig@),
            crate::text::views(full@) == before + o.subrange(first as int, old as int),
        decreases orig@.len() - old,
    {
        let ghost prev = crate::text::views(full@);
        full.push(orig[old].clone());
        assert(crate::text::views(full@) =~= prev.push(o[old as int]));
        assert(o.subrange(first as int, old + 1) =~= o.subrange(first as int, old as int).push(o[old as int]));
        old += 1;
    }
    assert(o.subrange(first as int, old as int) =~= o.skip(first as int));
    if deletes {
        if full.len() > 0 {
            return Err(join3("deletion patch for '", target, "' leaves undeleted content"));
        }
        Ok((i, FileChange::Remove))
    } else {
        let contents = crate::text::join_texts(&full, "");
        proof {
            reveal_strlit("");
            assert(""@ =~= Seq::<char>::empty());
            assert(crate::text::views(full@) == before + o.skip(first as int));
        }
        Ok((i, FileChange::Write(contents)))
    }
}


// ---------------------------------------------------------------------------
// Walking a patch file by file
// ---------------------------------------------------------------------------

/// The old and new paths of the file header that starts at patch line `h`.
pub open spec fn file_header(ls: Seq<Seq<char>>, h: int) -> Result<(Seq<char>, Seq<char>), Seq<char>> {
    match header_path(ls[h], "--- "@) {
        Err(e) => Err(e),
        Ok(o) => if h + 1 >= ls.len() || !has_prefix(ls[h + 1], "+++ "@) {
            Err("patch file header is missing target path"@)
        } else {
            match header_path(ls[h + 1], "+++ "@) {
                Err(e) => Err(e),
                Ok(n) => Ok((o, n)),
            }
        },
    }
}

/// The file a header changes, and whether it deletes it (new path
/// `/dev/null`).
pub open spec fn header_target(o: Seq<char>, n: Seq<char>) -> (Seq<char>, bool) {
    if n == "/dev/null"@ {
        (o, true)
    } else {
        (n, false)
    }
}

/// Reads the file header that starts at line `h`.
fn read_file_header(lines: &Vec<String>, h: usize) -> (r: Result<(String, String), String>)
    requires
        h < lines@.len(),
    ensures
        match r {
            Ok((o, n)) => file_header(crate::text::views(lines@), h as int) == Ok::<
                (Seq<char>, Seq<char>),
                Seq<char>,
            >((o@, n@)),
            Err(e) => file_header(crate::text::views(lines@), h as int) == Err::<
                (Seq<char>, Seq<char>),
                Seq<char>,
            >(e@),
        },
{
    let ghost ls = crate::text::views(lines@);
    let old_path = match patch_file_path(lines[h].as_str(), "--- ") {
        Ok(p) => p,
        Err(e) => {
            return Err(e);
        },
    };
    if h >= lines.len() - 1 || !text_starts_with(lines[h + 1].as_str(), "+++ ") {
        return Err("patch file header is missing target path".to_owned());
    }
    assert(ls[h + 1] == lines@[h + 1]@);
    let new_path = match patch_file_path(lines[h + 1].as_str(), "+++ ") {
        Ok(p) => p,
        Err(e) => {
            return Err(e);
        },
    };
    Ok((old_path, new_path))
}

/// The next step of applying a patch.
pub enum PatchStep {
    /// Read `target` and apply the hunks that start at `body_start`.
    File { target: String, deletes: bool, body_start: usize },
    /// The patch is done, with this outcome.
    Done(Result<(), String>),
}

pub enum PatchStepView {
    File { target: Seq<char>, deletes: bool, body_start: int },
    Done(Result<(), Seq<char>>),
}

pub open spec fn patch_step_view(s: PatchStep) -> PatchStepView {
    match s {
        PatchStep::File { target, deletes, body_start } => PatchStepView::File {
            target: target@,
            deletes,
            body_start: body_start as int,
        },
        PatchStep::Done(Ok(())) => PatchStepView::Done(Ok(())),
        PatchStep::Done(Err(e)) => PatchStepView::Done(Err(e@)),
    }
}

/// From patch line `i` on, with `applied` telling whether a file was
/// already changed: the next file to change, or the outcome.
pub open spec fn patch_step(ls: Seq<Seq<char>>, i: int, applied: bool) -> PatchStepView
    decreases ls.len() - i,
{
    if i < 0 || i >= ls.len() {
        PatchStepView::Done(
            if applied {
                Ok(())
            } else {
                Err("patch does not contain an applicable file header"@)
            },
        )
    } else if !has_prefix(ls[i], "--- "@) {
        patch_step(ls, i + 1, applied)
    } else {
        match file_header(ls, i) {
            Err(e) => PatchStepView::Done(Err(e)),
            Ok((o, n)) => {
                let (t, d) = header_target(o, n);
                match crate::paths::relative_path_problem(t) {
                    Some(e) => PatchStepView::Done(Err(e)),
                    None => PatchStepView::File { target: t, deletes: d, body_start: i + 2 },
                }
            },
        }
    }
}

/// The next step of applying the patch `lines` from line `from` on.
pub fn next_patch_step(lines: &Vec<String>, from: usize, applied: bool) -> (r: PatchStep)
    ensures
        patch_step_view(r) == patch_step(crate::text::views(lines@), from as int, applied),
        match r {
            PatchStep::File { body_start, .. } => body_start <= lines@.len(),
            _ => true,
        },
{
    let ghost ls = crate::text::views(lines@);
    let mut i = from;
    while i < lines.len() && !text_starts_with(lines[i].as_str(), "--- ")
        invariant
            from <= i,
            ls == crate::text::views(lines@),
            patch_step(ls, from as int, applied) == patch_step(ls, i as int, applied),
        decreases lines@.len() - i,
    {
        assert(ls[i as int] == lines@[i as int]@);
        i += 1;
    }
    if i >= lines.len() {
        if applied {
            return PatchStep::Done(Ok(()));
        } else {
            return PatchStep::Done(Err("patch does not contain an applicable file header".to_owned()));
        }
    }
    assert(ls[i as int] == lines@[i as int]@);
    let (old_path, new_path) = match read_file_header(lines, i) {
        Ok(pair) => pair,
        Err(e) => {
            return PatchStep::Done(Err(e));
        },
    };
    let deletes = match crate::text::compare_text(new_path.as_str(), "/dev/null") {
        crate::text::TextOrder::Equal => true,
        _ => false,
    };
    let target = if deletes {
        old_path
    } else {
        new_path
    };
    match crate::paths::validate_relative_path(target.as_str()) {
        Ok(()) => PatchStep::File { target, deletes, body_start: i + 2 },
        Err(e) => PatchStep::Done(Err(e)),
    }
}

/// The files a patch touches, from patch line `i` on, added to `acc` in
/// order of first mention.
pub open spec fn collect_paths(ls: Seq<Seq<char>>, i: int, acc: Seq<Seq<char>>) -> Result<
    Seq<Seq<char>>,
    Seq<char>,
>
    decreases ls.len() - i,
{
    if i < 0 || i >= ls.len() {
        Ok(acc)
    } else if !has_prefix(ls[i], "--- "@) {
        collect_paths(ls, i + 1, acc)
    } else {
        match file_header(ls, i) {
            Err(e) => Err(e),
            Ok((o, n)) => {
                let p = header_target(o, n).0;
                collect_paths(
                    ls,
                    i + 2,
                    if crate::organs::occurs(acc, p) {
                        acc
                    } else {
                        acc.push(p)
                    },
                )
            },
        }
    }
}

/// The files a patch touches, each once, in order of first mention.
pub open spec fn patch_targets(patch: Seq<char>) -> Result<Seq<Seq<char>>, Seq<char>> {
    match collect_paths(crate::lines::lines_of(patch), 0, Seq::empty()) {
        Err(e) => Err(e),
        Ok(v) => if v.len() == 0 {
            Err("proposal patch does not contain a target path"@)
        } else {
            Ok(v)
        },
    }
}

/// The files a patch touches.
pub fn patch_paths(patch: &str) -> (r: Result<Vec<String>, String>)
    ensures
        match r {
            Ok(v) => patch_targets(patch@) == Ok::<Seq<Seq<char>>, Seq<char>>(crate::text::views(v@)),
            Err(e) => patch_targets(patch@) == Err::<Seq<Seq<char>>, Seq<char>>(e@),
        },
{
    let lines = crate::lines::text_lines(patch);
    let ghost ls = crate::text::views(lines@);
    let mut values: Vec<String> = Vec::new();
    let mut i: usize = 0;
    assert(crate::text::views(values@) =~= Seq::<Seq<char>>::empty());
    while i < lines.len()
        invariant
            ls == crate::text::views(lines@),
            ls == crate::lines::lines_of(patch@),
            collect_paths(ls, 0, Seq::empty()) == collect_paths(ls, i as int, crate::text::views(values@)),
        decreases lines@.len() - i,
    {
        assert(ls[i as int] == lines@[i as int]@);
        if !text_starts_with(lines[i].as_str(), "--- ") {
            i += 1;
        } else {
            let (old_path, new_path) = match read_file_header(&lines, i) {
                Ok(pair) => pair,
                Err(e) => {
                    return Err(e);
                },
            };
            let deletes = match crate::text::compare_text(new_path.as_str(), "/dev/null") {
                crate::text::TextOrder::Equal => true,
                _ => false,
            };
            let normalized = if deletes {
                old_path
            } else {
                new_path
            };
            crate::organs::push_unique(&mut values, normalized);
            i += 2;
        }
    }
    if values.len() == 0 {
        return Err("proposal patch does not contain a target path".to_owned());
    }
    Ok(values)
}

// ---------------------------------------------------------------------------
// Which files a patch writes
// ---------------------------------------------------------------------------

/// No line is both an old-file and a new-file header line.
proof fn lemma_header_prefixes_differ(x: Seq<char>)
    ensures
        !(has_prefix(x, "--- "@) && has_prefix(x, "+++ "@)),
{
    reveal_strlit("--- ");
    reveal_strlit("+++ ");
    if has_prefix(x, "--- "@) && has_prefix(x, "+++ "@) {
        assert(x.subrange(0, 4)[0] == x[0]);
        assert("--- "@[0] == '-');
        assert("+++ "@[0] == '+');
    }
}

/// Collecting never loses a path already collected.
proof fn lemma_collect_keeps(ls: Seq<Seq<char>>, i: int, acc: Seq<Seq<char>>, x: Seq<char>)
    requires
        collect_paths(ls, i, acc) is Ok,
        crate::organs::occurs(acc, x),
    ensures
        crate::organs::occurs(collect_paths(ls, i, acc)->Ok_0, x),
    decreases ls.len() - i,
{
    if i < 0 || i >= ls.len() {
    } else if !has_prefix(ls[i], "--- "@) {
        lemma_collect_keeps(ls, i + 1, acc, x);
    } else {
        match file_header(ls, i) {
            Err(_) => {},
            Ok((o, n)) => {
                let p = header_target(o, n).0;
                if !crate::organs::occurs(acc, p) {
                    let k = choose|k: int| 0 <= k < acc.len() && #[trigger] acc[k] == x;
                    assert(acc.push(p)[k] == x);
                    lemma_collect_keeps(ls, i + 2, acc.push(p), x);
                } else {
                    lemma_collect_keeps(ls, i + 2, acc, x);
                }
            },
        }
    }
}

/// When collecting from line `i` succeeds, every file header at or after
/// `i` is well formed and its file is among the collected paths.
proof fn lemma_collect_sees_header(ls: Seq<Seq<char>>, i: int, acc: Seq<Seq<char>>, h: int)
    requires
        collect_paths(ls, i, acc) is Ok,
        0 <= i <= h < ls.len(),
        has_prefix(ls[h], "--- "@),
    ensures
        file_header(ls, h) is Ok,
        crate::organs::occurs(
            collect_paths(ls, i, acc)->Ok_0,
            header_target(file_header(ls, h)->Ok_0.0, file_header(ls, h)->Ok_0.1).0,
        ),
    decreases h - i,
{
    if !has_prefix(ls[i], "--- "@) {
        lemma_collect_sees_header(ls, i + 1, acc, h);
    } else {
        match file_header(ls, i) {
            Err(_) => {},
            Ok((o, n)) => {
                let p = header_target(o, n).0;
                let next = if crate::organs::occurs(acc, p) {
                    acc
                } else {
                    acc.push(p)
                };
                if i == h {
                    assert(crate::organs::occurs(next, p)) by {
                        if !crate::organs::occurs(acc, p) {
                            assert(next[acc.len() as int] == p);
                        }
                    }
                    lemma_collect_keeps(ls, i + 2, next, p);
                } else {
                    lemma_header_prefixes_differ(ls[i + 1]);
                    lemma_collect_sees_header(ls, i + 2, next, h);
                }
            },
        }
    }
}

/// The file a step of applying a patch writes is the file of a header at
/// or after the line the step started from.
proof fn lemma_step_from_header(ls: Seq<Seq<char>>, i: int, applied: bool)
    requires
        0 <= i,
    ensures
        patch_step(ls, i, applied) matches PatchStepView::File { target, .. } ==> exists|h: int|
            i <= h < ls.len() && has_prefix(#[trigger] ls[h], "--- "@) && file_header(ls, h) is Ok
                && header_target(file_header(ls, h)->Ok_0.0, file_header(ls, h)->Ok_0.1).0 == target,
    decreases ls.len() - i,
{
    if i < ls.len() && !has_prefix(ls[i], "--- "@) {
        lemma_step_from_header(ls, i + 1, applied);
    }
}

/// Every file a step of applying `patch` writes is one of the files
/// `patch_targets` lists for it.
pub proof fn lemma_step_targets_listed(patch: Seq<char>, i: int, applied: bool)
    requires
        patch_targets(patch) is Ok,
        0 <= i,
    ensures
        patch_step(crate::lines::lines_of(patch), i, applied) matches PatchStepView::File { target, .. }
            ==> crate::organs::occurs(patch_targets(patch)->Ok_0, target),
{
    let ls = crate::lines::lines_of(patch);
    lemma_step_from_header(ls, i, applied);
    if let PatchStepView::File { target, .. } = patch_step(ls, i, applied) {
        let h = choose|h: int|
            i <= h < ls.len() && has_prefix(#[trigger] ls[h], "--- "@) && file_header(ls, h) is Ok
                && header_target(file_header(ls, h)->Ok_0.0, file_header(ls, h)->Ok_0.1).0 == target;
        lemma_collect_sees_header(ls, 0, Seq::empty(), h);
    }
}

/// No text occurs twice in `v`.
pub open spec fn distinct_texts(v: Seq<Seq<char>>) -> bool {
    forall|i: int, j: int| 0 <= i < j < v.len() ==> #[trigger] v[i] != #[trigger] v[j]
}

proof fn lemma_collect_distinct(ls: Seq<Seq<char>>, i: int, acc: Seq<Seq<char>>)
    requires
        distinct_texts(acc),
    ensures
        collect_paths(ls, i, acc) matches Ok(v) ==> distinct_texts(v),
    decreases ls.len() - i,
{
    if i < 0 || i >= ls.len() {
    } else if !has_prefix(ls[i], "--- "@) {
        lemma_collect_distinct(ls, i + 1, acc);
    } else {
        match file_header(ls, i) {
            Err(_) => {},
            Ok((o, n)) => {
                let p = header_target(o, n).0;
                if crate::organs::occurs(acc, p) {
                    lemma_collect_distinct(ls, i + 2, acc);
                } else {
                    let next = acc.push(p);
                    assert forall|a: int, b: int| 0 <= a < b < next.len() implies #[trigger] next[a] != #[trigger] next[b] by {
                        if b == acc.len() {
                            assert(next[a] == acc[a]);
                        } else {
                            assert(next[a] == acc[a] && next[b] == acc[b]);
                        }
                    }
                    lemma_collect_distinct(ls, i + 2, next);
                }
            },
        }
    }
}

/// The files a patch touches are listed once each, and there is at least
/// one.
pub proof fn lemma_patch_targets_distinct(patch: Seq<char>)
    ensures
        patch_targets(patch) matches Ok(v) ==> v.len() > 0 && distinct_texts(v),
{
    lemma_collect_distinct(crate::lines::lines_of(patch), 0, Seq::empty());
}

/// The file named by the header that line `k` starts, if line `k` starts
/// a well-formed `--- `/`+++ ` header.
pub open spec fn target_at(ls: Seq<Seq<char>>, k: int) -> Option<Seq<char>> {
    if 0 <= k < ls.len() && has_prefix(ls[k], "--- "@) {
        match file_header(ls, k) {
            Ok((o, n)) => Some(header_target(o, n).0),
            Err(_) => None,
        }
    } else {
        None
    }
}

/// Every header naming `y` comes after some header naming `x`.
#[verifier::opaque]
pub open spec fn named_before(ls: Seq<Seq<char>>, x: Seq<char>, y: Seq<char>) -> bool {
    forall|k: int| #[trigger] target_at(ls, k) == Some(y) ==> exists|k2: int| k2 < k && #[trigger] target_at(ls, k2) == Some(x)
}

/// Some header among the first `upto` lines names `x`.
pub open spec fn named_within(ls: Seq<Seq<char>>, x: Seq<char>, upto: int) -> bool {
    exists|k: int| 0 <= k < upto && #[trigger] target_at(ls, k) == Some(x)
}

/// `v` lists, each once and in the order they first appear, the files named
/// by the headers among the first `upto` lines, and every such line starts
/// a well-formed header.
pub open spec fn targets_in_order(ls: Seq<Seq<char>>, v: Seq<Seq<char>>, upto: int) -> bool {
    &&& forall|k: int|
        0 <= k < upto && k < ls.len() && #[trigger] has_prefix(ls[k], "--- "@) ==> target_at(ls, k) is Some
            && crate::organs::occurs(v, target_at(ls, k)->0)
    &&& forall|j: int| 0 <= j < v.len() ==> named_within(ls, #[trigger] v[j], upto)
    &&& forall|a: int, b: int| 0 <= a < b < v.len() ==> named_before(ls, #[trigger] v[a], #[trigger] v[b])
}

/// The list after a header at line `i`: its target added unless listed.
pub open spec fn after_header(acc: Seq<Seq<char>>, p: Seq<char>) -> Seq<Seq<char>> {
    if crate::organs::occurs(acc, p) {
        acc
    } else {
        acc.push(p)
    }
}

proof fn lemma_no_plus_header(x: Seq<char>)
    requires
        has_prefix(x, "+++ "@),
    ensures
        !has_prefix(x, "--- "@),
{
    reveal_strlit("--- ");
    reveal_strlit("+++ ");
    assert(x[0] == x.subrange(0, 4)[0]);
}

proof fn lemma_header_listed(ls: Seq<Seq<char>>, i: int, acc: Seq<Seq<char>>, p: Seq<char>)
    requires
        0 <= i,
        i + 1 < ls.len(),
        targets_in_order(ls, acc, i),
        target_at(ls, i) == Some(p),
        !has_prefix(ls[i + 1], "--- "@),
    ensures
        forall|k: int|
            0 <= k < i + 2 && k < ls.len() && #[trigger] has_prefix(ls[k], "--- "@) ==> target_at(ls, k) is Some
                && crate::organs::occurs(after_header(acc, p), target_at(ls, k)->0),
{
    let next = after_header(acc, p);
    assert forall|k: int|
        0 <= k < i + 2 && k < ls.len() && #[trigger] has_prefix(ls[k], "--- "@) implies target_at(ls, k) is Some
        && crate::organs::occurs(next, target_at(ls, k)->0) by {
        if k < i {
            let t = target_at(ls, k)->0;
            let j = choose|j: int| 0 <= j < acc.len() && #[trigger] acc[j] == t;
            assert(next[j] == t);
        } else if k == i {
            if !crate::organs::occurs(acc, p) {
                assert(next[acc.len() as int] == p);
            }
        }
    }
}

proof fn lemma_header_named(ls: Seq<Seq<char>>, i: int, acc: Seq<Seq<char>>, p: Seq<char>)
    requires
        0 <= i,
        targets_in_order(ls, acc, i),
        target_at(ls, i) == Some(p),
    ensures
        forall|j: int|
            0 <= j < after_header(acc, p).len() ==> named_within(ls, #[trigger] after_header(acc, p)[j], i + 2),
{
    let next = after_header(acc, p);
    assert forall|j: int| 0 <= j < next.len() implies named_within(ls, #[trigger] next[j], i + 2) by {
        if j < acc.len() {
            assert(next[j] == acc[j]);
            assert(named_within(ls, acc[j], i));
        } else {
            assert(next[j] == p);
            assert(target_at(ls, i) == Some(p));
        }
    }
}

proof fn lemma_header_order(ls: Seq<Seq<char>>, i: int, acc: Seq<Seq<char>>, p: Seq<char>)
    requires
        0 <= i,
        targets_in_order(ls, acc, i),
        target_at(ls, i) == Some(p),
    ensures
        forall|a: int, b: int|
            0 <= a < b < after_header(acc, p).len() ==> named_before(
                ls,
                #[trigger] after_header(acc, p)[a],
                #[trigger] after_header(acc, p)[b],
            ),
{
    reveal(named_before);
    let next = after_header(acc, p);
    assert forall|a: int, b: int| 0 <= a < b < next.len() implies named_before(ls, #[trigger] next[a], #[trigger] next[b]) by {
        assert(next[a] == acc[a]);
        if b < acc.len() {
            assert(next[b] == acc[b]);
        } else {
            assert(next[b] == p);
            assert(!crate::organs::occurs(acc, p));
            assert(named_within(ls, acc[a], i));
            let ka = choose|k: int| 0 <= k < i && #[trigger] target_at(ls, k) == Some(acc[a]);
            assert forall|k: int| #[trigger] target_at(ls, k) == Some(p) implies exists|k2: int|
                k2 < k && #[trigger] target_at(ls, k2) == Some(acc[a]) by {
                if k < i {
                    assert(has_prefix(ls[k], "--- "@));
                    assert(crate::organs::occurs(acc, p));
                }
                assert(ka < k);
            }
        }
    }
}

proof fn lemma_header_step(ls: Seq<Seq<char>>, i: int, acc: Seq<Seq<char>>, p: Seq<char>)
    requires
        0 <= i,
        i + 1 < ls.len(),
        targets_in_order(ls, acc, i),
        target_at(ls, i) == Some(p),
        !has_prefix(ls[i + 1], "--- "@),
    ensures
        targets_in_order(ls, after_header(acc, p), i + 2),
{
    lemma_header_listed(ls, i, acc, p);
    lemma_header_named(ls, i, acc, p);
    lemma_header_order(ls, i, acc, p);
}

proof fn lemma_plain_line_step(ls: Seq<Seq<char>>, i: int, acc: Seq<Seq<char>>)
    requires
        0 <= i,
        targets_in_order(ls, acc, i),
        i >= ls.len() || !has_prefix(ls[i], "--- "@),
    ensures
        targets_in_order(ls, acc, i + 1),
{
    assert forall|j: int| 0 <= j < acc.len() implies named_within(ls, #[trigger] acc[j], i + 1) by {
        assert(named_within(ls, acc[j], i));
    }
}

proof fn lemma_targets_upto_end(ls: Seq<Seq<char>>, i: int, acc: Seq<Seq<char>>)
    requires
        i >= ls.len(),
        targets_in_order(ls, acc, i),
    ensures
        targets_in_order(ls, acc, ls.len() as int),
{
    assert forall|j: int| 0 <= j < acc.len() implies named_within(ls, #[trigger] acc[j], ls.len() as int) by {
        assert(named_within(ls, acc[j], i));
        let k = choose|k: int| 0 <= k < i && #[trigger] target_at(ls, k) == Some(acc[j]);
    }
}

proof fn lemma_collect_order(ls: Seq<Seq<char>>, i: int, acc: Seq<Seq<char>>)
    requires
        0 <= i,
        targets_in_order(ls, acc, i),
    ensures
        collect_paths(ls, i, acc) matches Ok(v) ==> targets_in_order(ls, v, ls.len() as int),
    decreases ls.len() - i,
{
    if i >= ls.len() {
        lemma_targets_upto_end(ls, i, acc);
    } else if !has_prefix(ls[i], "--- "@) {
        lemma_plain_line_step(ls, i, acc);
        lemma_collect_order(ls, i + 1, acc);
    } else {
        match file_header(ls, i) {
            Err(_) => {},
            Ok((o, n)) => {
                let p = header_target(o, n).0;
                assert(target_at(ls, i) == Some(p));
                lemma_no_plus_header(ls[i + 1]);
                lemma_header_step(ls, i, acc, p);
                lemma_collect_order(ls, i + 2, after_header(acc, p));
            },
        }
    }
}

/// A patch's target list holds, each once and in the order of their first
/// header, exactly the files its `--- `/`+++ ` headers name (the `+++`
/// path, or the `---` path where the file is deleted), and every `--- `
/// line of it starts a well-formed header.
pub proof fn lemma_patch_targets_in_order(patch: Seq<char>)
    ensures
        patch_targets(patch) matches Ok(v) ==> targets_in_order(
            crate::lines::lines_of(patch),
            v,
            crate::lines::lines_of(patch).len() as int,
        ),
{
    lemma_collect_order(crate::lines::lines_of(patch), 0, Seq::empty());
}

proof fn lemma_collect_no_header(ls: Seq<Seq<char>>, i: int, acc: Seq<Seq<char>>)
    requires
        0 <= i,
        forall|k: int| i <= k < ls.len() ==> !#[trigger] has_prefix(ls[k], "--- "@),
    ensures
        collect_paths(ls, i, acc) == Ok::<Seq<Seq<char>>, Seq<char>>(acc),
    decreases ls.len() - i,
{
    if i < ls.len() {
        lemma_collect_no_header(ls, i + 1, acc);
    }
}

/// A patch with no `--- ` line touches no file, and is refused for it.
pub proof fn lemma_patch_without_header(patch: Seq<char>)
    requires
        forall|k: int|
            0 <= k < crate::lines::lines_of(patch).len() ==> !has_prefix(
                #[trigger] crate::lines::lines_of(patch)[k],
                "--- "@,
            ),
    ensures
        patch_targets(patch) == Err::<Seq<Seq<char>>, Seq<char>>("proposal patch does not contain a target path"@),
{
    lemma_collect_no_header(crate::lines::lines_of(patch), 0, Seq::empty());
}

} // verus!


verus! {

// ---------------------------------------------------------------------------
// What a hunk does to a file
// ---------------------------------------------------------------------------

/// A hunk body line that keeps, removes or adds a line: tagged ` `, `-` or
/// `+` (a `-` line that reads as a file header ends the hunk instead).
pub open spec fn change_line(l: Seq<char>) -> bool {
    l.len() > 0 && (l[0] == ' ' || l[0] == '+' || (l[0] == '-' && !is_boundary(l)))
}

/// The text of a hunk body line: the line without its tag, with its `\n`.
pub open spec fn line_text(l: Seq<char>) -> Seq<char> {
    l.drop_first().push('\n')
}

/// The old side of a hunk body: its kept and removed lines, in order.
pub open spec fn old_side(body: Seq<Seq<char>>) -> Seq<Seq<char>>
    decreases body.len(),
{
    if body.len() == 0 {
        Seq::empty()
    } else if body[0][0] == '+' {
        old_side(body.drop_first())
    } else {
        seq![line_text(body[0])] + old_side(body.drop_first())
    }
}

/// The new side of a hunk body: its kept and added lines, in order.
pub open spec fn new_side(body: Seq<Seq<char>>) -> Seq<Seq<char>>
    decreases body.len(),
{
    if body.len() == 0 {
        Seq::empty()
    } else if body[0][0] == '-' {
        new_side(body.drop_first())
    } else {
        seq![line_text(body[0])] + new_side(body.drop_first())
    }
}

/// The old line (from 0) at which a hunk with header `hdr` applies to a file
/// of `n` lines.
pub open spec fn hunk_position(hdr: Seq<char>, n: int) -> int {
    let start = hunk_start(hdr)->Ok_0 as int;
    let at: int = if start >= 1 {
        start - 1
    } else {
        0
    };
    if at < n {
        at
    } else {
        n
    }
}

proof fn lemma_first_char_of_prefix(l: Seq<char>, p: Seq<char>)
    requires
        has_prefix(l, p),
        p.len() > 0,
    ensures
        l[0] == p[0],
{
    assert(l.subrange(0, p.len() as int)[0] == l[0]);
}

proof fn lemma_change_line_is_body(l: Seq<char>)
    requires
        change_line(l),
    ensures
        !has_prefix(l, "@@ "@),
        !is_boundary(l),
        l != no_newline_marker(),
        (l[0] as u32) < 128,
{
    reveal_strlit("@@ ");
    reveal_strlit("diff --git ");
    reveal_strlit("--- ");
    reveal_strlit("\\ No newline at end of file");
    if has_prefix(l, "@@ "@) {
        lemma_first_char_of_prefix(l, "@@ "@);
    }
    if l[0] != '-' {
        if has_prefix(l, "diff --git "@) {
            lemma_first_char_of_prefix(l, "diff --git "@);
        }
        if has_prefix(l, "--- "@) {
            lemma_first_char_of_prefix(l, "--- "@);
        }
    }
    if l == no_newline_marker() {
        assert(l[0] == '\\');
    }
}

proof fn lemma_run_body(ls: Seq<Seq<char>>, i: int, orig: Seq<Seq<char>>, old: int, out: Seq<Seq<char>>)
    requires
        0 <= i <= ls.len(),
        0 <= old <= orig.len(),
        forall|k: int| i <= k < ls.len() ==> change_line(#[trigger] ls[k]),
    ensures
        run_hunks(ls, i, orig, old, out, true) matches Ok((n, o2, u2, h)) ==> {
            &&& n == ls.len()
            &&& o2 == old + old_side(ls.skip(i)).len()
            &&& o2 <= orig.len()
            &&& orig.subrange(old, o2) == old_side(ls.skip(i))
            &&& u2 == out + new_side(ls.skip(i))
        },
    decreases ls.len() - i,
{
    if i >= ls.len() {
        assert(ls.skip(i) =~= Seq::<Seq<char>>::empty());
        assert(out + Seq::<Seq<char>>::empty() =~= out);
        assert(orig.subrange(old, old) =~= Seq::<Seq<char>>::empty());
    } else {
        let l = ls[i];
        lemma_change_line_is_body(l);
        let body = ls.skip(i);
        assert(body[0] == l);
        assert(body.drop_first() =~= ls.skip(i + 1));
        let t = line_text(l);
        assert(t =~= l.drop_first().push('\n'));
        match body_step(orig, old, out, l) {
            Err(_) => {},
            Ok((o, u)) => {
                lemma_run_body(ls, i + 1, orig, o, u);
                match run_hunks(ls, i + 1, orig, o, u, true) {
                    Err(_) => {},
                    Ok((n, o2, u2, h)) => {
                        if l[0] == ' ' {
                            assert(orig[old] == t);
                            assert(orig.subrange(old, o2) =~= seq![orig[old]] + orig.subrange(old + 1, o2));
                            assert(out.push(orig[old]) + new_side(ls.skip(i + 1)) =~= out + (seq![t] + new_side(
                                ls.skip(i + 1),
                            )));
                        } else if l[0] == '-' {
                            assert(orig[old] == t);
                            assert(orig.subrange(old, o2) =~= seq![orig[old]] + orig.subrange(old + 1, o2));
                        } else {
                            assert(out.push(t) + new_side(ls.skip(i + 1)) =~= out + (seq![t] + new_side(ls.skip(i + 1))));
                        }
                    },
                }
            },
        }
    }
}

/// Applying a single hunk replaces, at the line its header names, the
/// hunk's old side (its kept and removed lines) with its new side (its kept
/// and added lines), and leaves every other line of the file in place:
/// kept lines stay, removed lines go, added lines come in at their place.
pub proof fn lemma_hunk_replaces_old_side(hdr: Seq<char>, body: Seq<Seq<char>>, old_text: Seq<char>, target: Seq<char>)
    requires
        has_prefix(hdr, "@@ "@),
        hunk_start(hdr) is Ok,
        forall|k: int| 0 <= k < body.len() ==> change_line(#[trigger] body[k]),
    ensures
        file_change(seq![hdr] + body, 0, old_text, target, false) matches Ok((_, FileChangeView::Write(w))) ==> {
            let orig = crate::lines::pieces_of(old_text);
            let at = hunk_position(hdr, orig.len() as int);
            &&& at + old_side(body).len() <= orig.len()
            &&& orig.subrange(at, at + old_side(body).len()) == old_side(body)
            &&& w == crate::text::join_with(
                orig.take(at) + new_side(body) + orig.skip(at + old_side(body).len()),
                Seq::empty(),
            )
        },
{
    let ls = seq![hdr] + body;
    let orig = crate::lines::pieces_of(old_text);
    let at = hunk_position(hdr, orig.len() as int);
    assert(ls[0] == hdr);
    assert(ls.skip(1) =~= body);
    assert forall|k: int| 1 <= k < ls.len() implies change_line(#[trigger] ls[k]) by {
        assert(ls[k] == body[k - 1]);
    }
    lemma_run_body(ls, 1, orig, at, orig.take(at));
    assert(Seq::<Seq<char>>::empty() + orig.subrange(0, at) =~= orig.take(at));
    assert(orig.take(0) =~= Seq::<Seq<char>>::empty());
    match run_hunks(ls, 0, orig, 0, Seq::empty(), false) {
        Err(_) => {},
        Ok((n, o2, u2, h)) => {
            assert(run_hunks(ls, 0, orig, 0, Seq::empty(), false) == run_hunks(ls, 1, orig, at, orig.take(at), true));
            assert(u2 + orig.skip(o2) =~= orig.take(at) + new_side(body) + orig.skip(at + old_side(body).len()));
        },
    }
}

proof fn lemma_context_sides(body: Seq<Seq<char>>)
    requires
        forall|k: int| 0 <= k < body.len() ==> (#[trigger] body[k]).len() > 0 && body[k][0] == ' ',
    ensures
        new_side(body) == old_side(body),
    decreases body.len(),
{
    if body.len() > 0 {
        let rest = body.drop_first();
        assert forall|k: int| 0 <= k < rest.len() implies (#[trigger] rest[k]).len() > 0 && rest[k][0] == ' ' by {
            assert(rest[k] == body[k + 1]);
        }
        lemma_context_sides(rest);
    }
}

/// A hunk of kept lines only changes nothing: the file's lines come out as
/// they went in.
pub proof fn lemma_context_hunk_keeps_file(hdr: Seq<char>, body: Seq<Seq<char>>, old_text: Seq<char>, target: Seq<char>)
    requires
        has_prefix(hdr, "@@ "@),
        hunk_start(hdr) is Ok,
        forall|k: int| 0 <= k < body.len() ==> (#[trigger] body[k]).len() > 0 && body[k][0] == ' ',
    ensures
        file_change(seq![hdr] + body, 0, old_text, target, false) matches Ok((_, FileChangeView::Write(w))) ==> w
            == crate::text::join_with(crate::lines::pieces_of(old_text), Seq::empty()),
{
    assert forall|k: int| 0 <= k < body.len() implies change_line(#[trigger] body[k]) by {}
    lemma_hunk_replaces_old_side(hdr, body, old_text, target);
    lemma_context_sides(body);
    let orig = crate::lines::pieces_of(old_text);
    let at = hunk_position(hdr, orig.len() as int);
    let m = at + old_side(body).len();
    if file_change(seq![hdr] + body, 0, old_text, target, false) matches Ok((_, FileChangeView::Write(w))) {
        assert(orig.take(at) + orig.subrange(at, m) + orig.skip(m) =~= orig);
    }
}

} // verus!
