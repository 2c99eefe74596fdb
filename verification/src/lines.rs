//! Splitting text into lines, the two ways the patch engine needs: patch
//! lines without their terminators (as `str::lines` gives them), and file
//! lines that keep their `\n` (as `str::split_inclusive('\n')` gives them).
use vstd::prelude::*;

use crate::text::{push_char, string_from, views};

verus! {

/// The pieces of `s` between `sep` characters; there is always at least one
/// (the text after the last `sep`, possibly empty).
pub open spec fn segments(s: Seq<char>, sep: char) -> Seq<Seq<char>>
    decreases s.len(),
{
    if s.len() == 0 {
        seq![Seq::empty()]
    } else {
        let t = segments(s.drop_last(), sep);
        if s.last() == sep {
            t.push(Seq::empty())
        } else {
            t.update(t.len() - 1, t.last().push(s.last()))
        }
    }
}

pub proof fn lemma_segments_len(s: Seq<char>, sep: char)
    ensures
        segments(s, sep).len() >= 1,
    decreases s.len(),
{
    if s.len() > 0 {
        lemma_segments_len(s.drop_last(), sep);
    }
}

/// Splitting a concatenation: the last piece of `x` and the first piece of
/// `y` fuse, the other pieces stay.
pub proof fn lemma_segments_concat(x: Seq<char>, y: Seq<char>, sep: char)
    ensures
        segments(x + y, sep) == segments(x, sep).drop_last() + seq![
            segments(x, sep).last() + segments(y, sep)[0],
        ] + segments(y, sep).drop_first(),
    decreases y.len(),
{
    lemma_segments_len(x, sep);
    lemma_segments_len(y, sep);
    let sx = segments(x, sep);
    if y.len() == 0 {
        assert(x + y =~= x);
        assert(segments(y, sep) =~= seq![Seq::<char>::empty()]);
        assert(sx.last() + Seq::<char>::empty() =~= sx.last());
        assert(sx.drop_last() + seq![sx.last() + segments(y, sep)[0]] + segments(y, sep).drop_first() =~= sx);
    } else {
        let y1 = y.drop_last();
        let c = y.last();
        lemma_segments_concat(x, y1, sep);
        lemma_segments_len(y1, sep);
        assert((x + y).drop_last() =~= x + y1);
        assert((x + y).last() == c);
        let s1 = segments(y1, sep);
        let head = sx.drop_last();
        let mid = sx.last() + s1[0];
        let before = segments(x + y1, sep);
        assert(before == head + seq![mid] + s1.drop_first());
        if c == sep {
            let sy = s1.push(Seq::empty());
            assert(segments(y, sep) == sy);
            assert(sy[0] == s1[0]);
            assert(sy.drop_first() =~= s1.drop_first().push(Seq::empty()));
            assert(before.push(Seq::empty()) =~= head + seq![mid] + sy.drop_first());
        } else {
            let sy = s1.update(s1.len() - 1, s1.last().push(c));
            assert(segments(y, sep) == sy);
            let after = before.update(before.len() - 1, before.last().push(c));
            assert(segments(x + y, sep) == after);
            if s1.len() == 1 {
                assert(sy[0] == s1[0].push(c));
                assert(mid.push(c) =~= sx.last() + s1[0].push(c));
                assert(sy.drop_first() =~= Seq::<Seq<char>>::empty());
                assert(after =~= head + seq![sx.last() + sy[0]] + sy.drop_first());
            } else {
                assert(sy[0] == s1[0]);
                assert(sy.drop_first() =~= s1.drop_first().update(s1.len() - 2, s1.last().push(c)));
                assert(after =~= head + seq![mid] + sy.drop_first());
            }
        }
    }
}

/// A text without the separator is one piece.
pub proof fn lemma_segments_no_sep(w: Seq<char>, sep: char)
    requires
        forall|i: int| 0 <= i < w.len() ==> #[trigger] w[i] != sep,
    ensures
        segments(w, sep) == seq![w],
    decreases w.len(),
{
    if w.len() > 0 {
        lemma_segments_no_sep(w.drop_last(), sep);
        assert(w.drop_last().push(w.last()) =~= w);
        assert(seq![w.drop_last()].update(0, w.drop_last().push(w.last())) =~= seq![w]);
    } else {
        assert(w =~= Seq::<char>::empty());
    }
}

/// Words without the separator, joined by it, split back into the words.
pub proof fn lemma_segments_join(w: Seq<Seq<char>>, sep: char)
    requires
        w.len() >= 1,
        forall|k: int, i: int| 0 <= k < w.len() && 0 <= i < w[k].len() ==> #[trigger] w[k][i] != sep,
    ensures
        segments(crate::text::join_with(w, seq![sep]), sep) == w,
    decreases w.len(),
{
    if w.len() == 1 {
        assert forall|i: int| 0 <= i < w[0].len() implies #[trigger] w[0][i] != sep by {}
        lemma_segments_no_sep(w[0], sep);
        assert(seq![w[0]] =~= w);
    } else {
        let w1 = w.drop_last();
        assert forall|k: int, i: int| 0 <= k < w1.len() && 0 <= i < w1[k].len() implies #[trigger] w1[k][i] != sep by {
            assert(w1[k] == w[k]);
        }
        lemma_segments_join(w1, sep);
        let j1 = crate::text::join_with(w1, seq![sep]);
        let x = j1 + seq![sep];
        assert(x.drop_last() =~= j1);
        assert(x.last() == sep);
        assert(segments(x, sep) == w1.push(Seq::empty()));
        let last = w.last();
        assert forall|i: int| 0 <= i < last.len() implies #[trigger] last[i] != sep by {
            assert(last == w[w.len() - 1]);
        }
        lemma_segments_no_sep(last, sep);
        lemma_segments_concat(x, last, sep);
        assert(crate::text::join_with(w, seq![sep]) == x + last);
        assert(w1.push(Seq::empty()).drop_last() =~= w1);
        assert(Seq::<char>::empty() + last =~= last);
        assert(w1 + seq![last] + seq![last].drop_first() =~= w);
    }
}

/// A line that ended in `\r\n` loses its `\r`.
pub open spec fn strip_cr(x: Seq<char>) -> Seq<char> {
    if x.len() > 0 && x.last() == '\r' {
        x.drop_last()
    } else {
        x
    }
}

/// The lines of `s` as `str::lines` yields them: split at `\n`, a `\r`
/// before the `\n` dropped, and no empty line after a final `\n`.
pub open spec fn lines_of(s: Seq<char>) -> Seq<Seq<char>> {
    let t = segments(s, '\n');
    let body = t.drop_last().map_values(|x: Seq<char>| strip_cr(x));
    if t.last().len() == 0 {
        body
    } else {
        body.push(t.last())
    }
}

/// The lines of `s`, each keeping its `\n`, as
/// `str::split_inclusive('\n')` yields them.
pub open spec fn pieces_of(s: Seq<char>) -> Seq<Seq<char>> {
    let t = segments(s, '\n');
    let body = t.drop_last().map_values(|x: Seq<char>| x.push('\n'));
    if t.last().len() == 0 {
        body
    } else {
        body.push(t.last())
    }
}

pub proof fn lemma_segments_step(cs: Seq<char>, i: int, sep: char)
    requires
        0 <= i < cs.len(),
    ensures
        segments(cs.take(i + 1), sep) == if cs[i] == sep {
            segments(cs.take(i), sep).push(Seq::empty())
        } else {
            segments(cs.take(i), sep).update(
                segments(cs.take(i), sep).len() - 1,
                segments(cs.take(i), sep).last().push(cs[i]),
            )
        },
{
    assert(cs.take(i + 1).drop_last() =~= cs.take(i));
    assert(cs.take(i + 1).last() == cs[i]);
}

/// The lines of `s` without their line terminators.
pub fn text_lines(s: &str) -> (r: Vec<String>)
    ensures
        views(r@) == lines_of(s@),
{
    let cs = crate::text::chars_of(s);
    let mut done: Vec<String> = Vec::new();
    let mut cur: Vec<char> = Vec::new();
    let mut i: usize = 0;
    proof {
        assert(cs@.take(0) =~= Seq::<char>::empty());
        assert(views(done@) =~= segments(cs@.take(0), '\n').drop_last().map_values(|x: Seq<char>| strip_cr(x)));
    }
    while i < cs.len()
        invariant
            i <= cs@.len(),
            segments(cs@.take(i as int), '\n').len() >= 1,
            views(done@) == segments(cs@.take(i as int), '\n').drop_last().map_values(|x: Seq<char>| strip_cr(x)),
            cur@ == segments(cs@.take(i as int), '\n').last(),
        decreases cs@.len() - i,
    {
        let ghost t = segments(cs@.take(i as int), '\n');
        proof {
            lemma_segments_step(cs@, i as int, '\n');
        }
        let c = cs[i];
        if c == '\n' {
            let ghost line = cur@;
            let n = cur.len();
            if n > 0 && cur[n - 1] == '\r' {
                cur.pop();
                assert(cur@ =~= strip_cr(line));
            }
            let ghost before = views(done@);
            done.push(string_from(cur.as_slice()));
            cur.clear();
            proof {
                let t2 = segments(cs@.take(i + 1), '\n');
                assert(t2 == t.push(Seq::empty()));
                assert(t2.drop_last() =~= t);
                assert(t.drop_last().push(t.last()) =~= t);
                assert(views(done@) =~= before.push(strip_cr(line)));
                assert(t2.drop_last().map_values(|x: Seq<char>| strip_cr(x)) =~= t.drop_last().map_values(
                    |x: Seq<char>| strip_cr(x),
                ).push(strip_cr(t.last())));
                assert(cur@ =~= t2.last());
            }
        } else {
            cur.push(c);
            proof {
                let t2 = segments(cs@.take(i + 1), '\n');
                assert(t2.drop_last() =~= t.drop_last());
            }
        }
        i += 1;
    }
    proof {
        assert(cs@.take(i as int) =~= cs@);
    }
    if cur.len() > 0 {
        let ghost before = views(done@);
        done.push(string_from(cur.as_slice()));
        assert(views(done@) =~= before.push(cur@));
    }
    done
}

/// The lines of `s`, each keeping its `\n`.
pub fn split_lines(s: &str) -> (r: Vec<String>)
    ensures
        views(r@) == pieces_of(s@),
{
    let cs = crate::text::chars_of(s);
    let mut done: Vec<String> = Vec::new();
    let mut cur: Vec<char> = Vec::new();
    let mut i: usize = 0;
    proof {
        assert(cs@.take(0) =~= Seq::<char>::empty());
        assert(views(done@) =~= segments(cs@.take(0), '\n').drop_last().map_values(|x: Seq<char>| x.push('\n')));
    }
    while i < cs.len()
        invariant
            i <= cs@.len(),
            segments(cs@.take(i as int), '\n').len() >= 1,
            views(done@) == segments(cs@.take(i as int), '\n').drop_last().map_values(|x: Seq<char>| x.push('\n')),
            cur@ == segments(cs@.take(i as int), '\n').last(),
        decreases cs@.len() - i,
    {
        let ghost t = segments(cs@.take(i as int), '\n');
        proof {
            lemma_segments_step(cs@, i as int, '\n');
        }
        let c = cs[i];
        if c == '\n' {
            let ghost line = cur@;
            cur.push('\n');
            let ghost before = views(done@);
            done.push(string_from(cur.as_slice()));
            cur.clear();
            proof {
                let t2 = segments(cs@.take(i + 1), '\n');
                assert(t2 == t.push(Seq::empty()));
                assert(t2.drop_last() =~= t);
                assert(t.drop_last().push(t.last()) =~= t);
                assert(views(done@) =~= before.push(line.push('\n')));
                assert(t2.drop_last().map_values(|x: Seq<char>| x.push('\n')) =~= t.drop_last().map_values(
                    |x: Seq<char>| x.push('\n'),
                ).push(t.last().push('\n')));
                assert(cur@ =~= t2.last());
            }
        } else {
            cur.push(c);
            proof {
                let t2 = segments(cs@.take(i + 1), '\n');
                assert(t2.drop_last() =~= t.drop_last());
            }
        }
        i += 1;
    }
    proof {
        assert(cs@.take(i as int) =~= cs@);
    }
    if cur.len() > 0 {
        let ghost before = views(done@);
        done.push(string_from(cur.as_slice()));
        assert(views(done@) =~= before.push(cur@));
    }
    done
}

/// The pieces of `s` between `sep` characters, as `str::split(sep)` yields
/// them.
pub fn split_on(s: &str, sep: char) -> (r: Vec<String>)
    ensures
        views(r@) == segments(s@, sep),
{
    let cs = crate::text::chars_of(s);
    let mut done: Vec<String> = Vec::new();
    let mut cur: Vec<char> = Vec::new();
    let mut i: usize = 0;
    proof {
        assert(cs@.take(0) =~= Seq::<char>::empty());
        assert(views(done@) =~= segments(cs@.take(0), sep).drop_last());
    }
    while i < cs.len()
        invariant
            i <= cs@.len(),
            segments(cs@.take(i as int), sep).len() >= 1,
            views(done@) == segments(cs@.take(i as int), sep).drop_last(),
            cur@ == segments(cs@.take(i as int), sep).last(),
        decreases cs@.len() - i,
    {
        let ghost t = segments(cs@.take(i as int), sep);
        proof {
            lemma_segments_step(cs@, i as int, sep);
        }
        let c = cs[i];
        if c == sep {
            let ghost before = views(done@);
            done.push(string_from(cur.as_slice()));
            cur.clear();
            proof {
                let t2 = segments(cs@.take(i + 1), sep);
                assert(t2.drop_last() =~= t);
                assert(t.drop_last().push(t.last()) =~= t);
                assert(views(done@) =~= before.push(t.last()));
                assert(cur@ =~= t2.last());
            }
        } else {
            cur.push(c);
            proof {
                let t2 = segments(cs@.take(i + 1), sep);
                assert(t2.drop_last() =~= t.drop_last());
            }
        }
        i += 1;
    }
    proof {
        assert(cs@.take(i as int) =~= cs@);
    }
    let ghost before = views(done@);
    done.push(string_from(cur.as_slice()));
    proof {
        let t = segments(s@, sep);
        assert(views(done@) =~= before.push(cur@));
        assert(t.drop_last().push(t.last()) =~= t);
    }
    done
}

/// `value` followed by a `\n`.
pub fn with_newline(value: &str) -> (line: String)
    ensures
        line@ == value@.push('\n'),
{
    let mut line = value.to_owned();
    push_char(&mut line, '\n');
    line
}

} // verus!
