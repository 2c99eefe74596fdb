//! Reading the observed body of the system: service units from `systemctl`
//! output, journal lines, project file suffixes, and pain points inferred
//! from shell history.
use vstd::prelude::*;

use crate::lines::{lines_of, text_lines};
use crate::records::{JournalState, PainPoint, SystemdState, UnitState};
use crate::text::{chars_of, char_is_space, copy_opt, is_space, join_texts, join_with, string_from, text_starts_with, views};

verus! {

// ---------------------------------------------------------------------------
// Words
// ---------------------------------------------------------------------------

/// The pieces of `s` between whitespace characters (possibly empty).
pub open spec fn space_pieces(s: Seq<char>) -> Seq<Seq<char>>
    decreases s.len(),
{
    if s.len() == 0 {
        seq![Seq::empty()]
    } else {
        let t = space_pieces(s.drop_last());
        if is_space(s.last()) {
            t.push(Seq::empty())
        } else {
            t.update(t.len() - 1, t.last().push(s.last()))
        }
    }
}

/// The non-empty texts of `v`, in order.
pub open spec fn non_empty(v: Seq<Seq<char>>) -> Seq<Seq<char>>
    decreases v.len(),
{
    if v.len() == 0 {
        Seq::empty()
    } else if v.last().len() == 0 {
        non_empty(v.drop_last())
    } else {
        non_empty(v.drop_last()).push(v.last())
    }
}

/// The whitespace-separated words of `s`, as `str::split_whitespace` yields
/// them.
pub open spec fn words(s: Seq<char>) -> Seq<Seq<char>> {
    non_empty(space_pieces(s))
}

proof fn lemma_space_pieces_len(s: Seq<char>)
    ensures
        space_pieces(s).len() >= 1,
    decreases s.len(),
{
    if s.len() > 0 {
        lemma_space_pieces_len(s.drop_last());
    }
}

/// The whitespace-separated words of `s`.
pub fn split_words(s: &str) -> (r: Vec<String>)
    ensures
        views(r@) == words(s@),
{
    let cs = chars_of(s);
    let mut done: Vec<String> = Vec::new();
    let mut cur: Vec<char> = Vec::new();
    let mut i: usize = 0;
    proof {
        assert(cs@.take(0) =~= Seq::<char>::empty());
        assert(views(done@) =~= non_empty(space_pieces(cs@.take(0)).drop_last()));
    }
    while i < cs.len()
        invariant
            i <= cs@.len(),
            space_pieces(cs@.take(i as int)).len() >= 1,
            views(done@) == non_empty(space_pieces(cs@.take(i as int)).drop_last()),
            cur@ == space_pieces(cs@.take(i as int)).last(),
        decreases cs@.len() - i,
    {
        let ghost t = space_pieces(cs@.take(i as int));
        assert(cs@.take(i + 1).drop_last() =~= cs@.take(i as int));
        assert(cs@.take(i + 1).last() == cs@[i as int]);
        let c = cs[i];
        if char_is_space(c) {
            let ghost before = views(done@);
            if cur.len() > 0 {
                done.push(string_from(cur.as_slice()));
                assert(views(done@) =~= before.push(cur@));
            }
            cur.clear();
            proof {
                let t2 = space_pieces(cs@.take(i + 1));
                assert(t2.drop_last() =~= t);
                assert(t.drop_last().push(t.last()) =~= t);
                assert(cur@ =~= t2.last());
            }
        } else {
            cur.push(c);
            proof {
                let t2 = space_pieces(cs@.take(i + 1));
                assert(t2.drop_last() =~= t.drop_last());
            }
        }
        i += 1;
    }
    proof {
        assert(cs@.take(i as int) =~= cs@);
        let t = space_pieces(s@);
        assert(t.drop_last().push(t.last()) =~= t);
    }
    if cur.len() > 0 {
        let ghost before = views(done@);
        done.push(string_from(cur.as_slice()));
        assert(views(done@) =~= before.push(cur@));
    }
    done
}

// ---------------------------------------------------------------------------
// Service units and journal
// ---------------------------------------------------------------------------

/// The units listed by `systemctl list-units --no-legend`: each line with
/// at least four words gives name, load, active and sub state.
pub open spec fn unit_lines(ls: Seq<Seq<char>>) -> Seq<Seq<Seq<char>>>
    decreases ls.len(),
{
    if ls.len() == 0 {
        Seq::empty()
    } else {
        let r = unit_lines(ls.drop_last());
        let w = words(ls.last());
        if w.len() >= 4 {
            r.push(w.take(4))
        } else {
            r
        }
    }
}

pub open spec fn unit_fields(u: UnitState) -> Seq<Seq<char>> {
    seq![u.name@, u.load@, u.active@, u.sub@]
}

/// The service state from a `systemctl` run: when it failed, its error (or
/// its stderr); otherwise the units of its output.
pub fn systemd_units(available: bool, stdout: &str, stderr: String, error: Option<String>) -> (r: SystemdState)
    ensures
        r.available == available,
        !available ==> r.error == (match error {
            Some(e) => Some(e),
            None => Some(stderr),
        }) && r.units@.len() == 0,
        available ==> r.error is None && r.units@.map_values(|u: UnitState| unit_fields(u)) == unit_lines(
            lines_of(stdout@),
        ),
{
    if !available {
        let e = match error {
            Some(e) => Some(e),
            None => Some(stderr),
        };
        return SystemdState { available: false, error: e, units: Vec::new() };
    }
    let lines = text_lines(stdout);
    let ghost ls = views(lines@);
    let mut units: Vec<UnitState> = Vec::new();
    let mut i: usize = 0;
    assert(units@.map_values(|u: UnitState| unit_fields(u)) =~= unit_lines(ls.take(0)));
    while i < lines.len()
        invariant
            i <= lines@.len(),
            ls == views(lines@),
            units@.map_values(|u: UnitState| unit_fields(u)) == unit_lines(ls.take(i as int)),
        decreases lines@.len() - i,
    {
        let ghost before = units@.map_values(|u: UnitState| unit_fields(u));
        assert(ls.take(i + 1).drop_last() =~= ls.take(i as int));
        assert(ls.take(i + 1).last() == lines@[i as int]@);
        let w = split_words(lines[i].as_str());
        if w.len() >= 4 {
            assert(views(w@)[0] == w@[0]@ && views(w@)[1] == w@[1]@ && views(w@)[2] == w@[2]@ && views(w@)[3]
                == w@[3]@);
            let u = UnitState {
                name: w[0].clone(),
                load: w[1].clone(),
                active: w[2].clone(),
                sub: w[3].clone(),
            };
            assert(unit_fields(u) =~= views(w@).take(4));
            units.push(u);
            assert(units@.map_values(|u: UnitState| unit_fields(u)) =~= before.push(views(w@).take(4)));
        }
        i += 1;
    }
    assert(ls.take(i as int) =~= ls);
    SystemdState { available: true, error: None, units }
}

/// The units of a listing are, in line order, the first four words of each
/// line that has at least four words; lines with fewer words give none.
pub proof fn lemma_unit_lines_filter_lines(ls: Seq<Seq<char>>)
    ensures
        unit_lines(ls) == ls.filter(|l: Seq<char>| words(l).len() >= 4).map_values(
            |l: Seq<char>| words(l).take(4),
        ),
    decreases ls.len(),
{
    reveal(Seq::filter);
    let p = |l: Seq<char>| words(l).len() >= 4;
    let f = |l: Seq<char>| words(l).take(4);
    if ls.len() > 0 {
        lemma_unit_lines_filter_lines(ls.drop_last());
        let sub = ls.drop_last().filter(p);
        if p(ls.last()) {
            assert(sub.push(ls.last()).map_values(f) =~= sub.map_values(f).push(f(ls.last())));
        }
    }
}

/// The journal state from a `journalctl -n limit` run: left out when the
/// limit is zero or the run failed, else one entry per output line.
pub fn journal(limit: usize, available: bool, stdout: &str, stderr: String, error: Option<String>) -> (r:
    JournalState)
    ensures
        limit == 0 ==> !r.included && r.error is None && r.entries@.len() == 0,
        limit != 0 && !available ==> !r.included && r.error == (match error {
            Some(e) => Some(e),
            None => Some(stderr),
        }) && r.entries@.len() == 0,
        limit != 0 && available ==> r.included && r.error is None && views(r.entries@) == lines_of(stdout@),
{
    if limit == 0 {
        return JournalState { included: false, error: None, entries: Vec::new() };
    }
    if !available {
        let e = match error {
            Some(e) => Some(e),
            None => Some(stderr),
        };
        return JournalState { included: false, error: e, entries: Vec::new() };
    }
    JournalState { included: true, error: None, entries: text_lines(stdout) }
}

// ---------------------------------------------------------------------------
// Pain points
// ---------------------------------------------------------------------------

/// `needle` occurs in `hay`.
pub open spec fn occurs_in(hay: Seq<char>, needle: Seq<char>) -> bool {
    exists|i: int| 0 <= i && i + needle.len() <= hay.len() && #[trigger] hay.subrange(i, i + needle.len()) == needle
}

/// Whether `needle` occurs in `hay`.
pub fn text_contains(hay: &Vec<char>, needle: &str) -> (r: bool)
    ensures
        r == occurs_in(hay@, needle@),
{
    let nd = chars_of(needle);
    let n = nd.len();
    let hl = hay.len();
    if n > hl {
        return false;
    }
    let mut i: usize = 0;
    while i <= hl - n
        invariant
            n == nd@.len(),
            nd@ == needle@,
            hl == hay@.len(),
            n <= hay@.len(),
            i <= hay@.len() - n + 1,
            forall|k: int| 0 <= k < i ==> #[trigger] hay@.subrange(k, k + n) != needle@,
        decreases hay@.len() - i,
    {
        let mut j: usize = 0;
        while j < n && hay[i + j] == nd[j]
            invariant
                j <= n,
                i + n <= hay@.len(),
                hl == hay@.len(),
                n == nd@.len(),
                forall|q: int| 0 <= q < j ==> hay@[i + q] == nd@[q],
            decreases n - j,
        {
            j += 1;
        }
        if j == n {
            assert(hay@.subrange(i as int, i + n) =~= needle@);
            return true;
        }
        assert(hay@.subrange(i as int, i + n)[j as int] != needle@[j as int]);
        i += 1;
    }
    proof {
        if occurs_in(hay@, needle@) {
            let k = choose|k: int| 0 <= k && k + needle@.len() <= hay@.len() && #[trigger] hay@.subrange(k, k + needle@.len()) == needle@;
            assert(k < i);
        }
    }
    false
}

/// The tokens of `raws` found in `joined`, each as the matching entry of
/// `trimmed`.
pub open spec fn found_tokens(joined: Seq<char>, raws: Seq<Seq<char>>, trimmed: Seq<Seq<char>>) -> Seq<Seq<char>>
    decreases raws.len(),
{
    if raws.len() == 0 {
        Seq::empty()
    } else {
        let r = found_tokens(joined, raws.drop_last(), trimmed.drop_last());
        if occurs_in(joined, raws.last()) {
            r.push(trimmed.last())
        } else {
            r
        }
    }
}

/// A signal: its name, its candidate organ, and its tokens in the order of
/// their trimmed text, as searched and as reported.
pub struct SignalView {
    pub signal: Seq<char>,
    pub candidate: Seq<char>,
    pub raws: Seq<Seq<char>>,
    pub trimmed: Seq<Seq<char>>,
}

pub open spec fn signals() -> Seq<SignalView> {
    seq![
        SignalView {
            signal: "repeated manual pdf tooling"@,
            candidate: "create research-papers organ"@,
            raws: seq!["ocrmypdf"@, "pdftotext"@, "zotero"@],
            trimmed: seq!["ocrmypdf"@, "pdftotext"@, "zotero"@],
        },
        SignalView {
            signal: "repeated Python project setup"@,
            candidate: "create python-dev devShell"@,
            raws: seq!["pytest"@, "ruff"@, "uv "@],
            trimmed: seq!["pytest"@, "ruff"@, "uv"@],
        },
        SignalView {
            signal: "repeated media processing"@,
            candidate: "create media-pipeline organ"@,
            raws: seq!["ffmpeg"@, "imagemagick"@, "yt-dlp"@],
            trimmed: seq!["ffmpeg"@, "imagemagick"@, "yt-dlp"@],
        },
    ]
}

/// The pain points of shell history whose lines, joined, are `joined`:
/// one per signal with a token found, in signal order.
pub open spec fn pain_points_of(joined: Seq<char>, sigs: Seq<SignalView>) -> Seq<(Seq<char>, Seq<Seq<char>>, Seq<char>)>
    decreases sigs.len(),
{
    if sigs.len() == 0 {
        Seq::empty()
    } else {
        let r = pain_points_of(joined, sigs.drop_last());
        let s = sigs.last();
        let ev = found_tokens(joined, s.raws, s.trimmed);
        if ev.len() > 0 {
            r.push((s.signal, ev, s.candidate))
        } else {
            r
        }
    }
}

/// The pain points are, in signal order, the signals with at least one of
/// their tokens found in the history, each with the found tokens as its
/// evidence.
pub proof fn lemma_pain_points_filter_signals(joined: Seq<char>, sigs: Seq<SignalView>)
    ensures
        pain_points_of(joined, sigs) == sigs.filter(
            |s: SignalView| found_tokens(joined, s.raws, s.trimmed).len() > 0,
        ).map_values(|s: SignalView| (s.signal, found_tokens(joined, s.raws, s.trimmed), s.candidate)),
    decreases sigs.len(),
{
    reveal(Seq::filter);
    let p = |s: SignalView| found_tokens(joined, s.raws, s.trimmed).len() > 0;
    let f = |s: SignalView| (s.signal, found_tokens(joined, s.raws, s.trimmed), s.candidate);
    if sigs.len() > 0 {
        lemma_pain_points_filter_signals(joined, sigs.drop_last());
        let sub = sigs.drop_last().filter(p);
        if p(sigs.last()) {
            assert(sub.push(sigs.last()).map_values(f) =~= sub.map_values(f).push(f(sigs.last())));
        }
    }
}

pub open spec fn pain_point_view(p: PainPoint) -> (Seq<char>, Seq<Seq<char>>, Seq<char>) {
    (p.signal@, views(p.evidence@), p.candidate@)
}

fn found_in(joined: &Vec<char>, raws: &Vec<String>, trimmed: &Vec<String>) -> (r: Vec<String>)
    requires
        raws@.len() == trimmed@.len(),
    ensures
        views(r@) == found_tokens(joined@, views(raws@), views(trimmed@)),
{
    let mut r: Vec<String> = Vec::new();
    let mut i: usize = 0;
    while i < raws.len()
        invariant
            i <= raws@.len(),
            raws@.len() == trimmed@.len(),
            views(r@) == found_tokens(joined@, views(raws@).take(i as int), views(trimmed@).take(i as int)),
        decreases raws@.len() - i,
    {
        let ghost before = views(r@);
        assert(views(raws@).take(i + 1).drop_last() =~= views(raws@).take(i as int));
        assert(views(trimmed@).take(i + 1).drop_last() =~= views(trimmed@).take(i as int));
        assert(views(raws@).take(i + 1).last() == raws@[i as int]@);
        assert(views(trimmed@).take(i + 1).last() == trimmed@[i as int]@);
        if text_contains(joined, raws[i].as_str()) {
            r.push(trimmed[i].clone());
            assert(views(r@) =~= before.push(trimmed@[i as int]@));
        }
        i += 1;
    }
    assert(views(raws@).take(i as int) =~= views(raws@));
    assert(views(trimmed@).take(i as int) =~= views(trimmed@));
    r
}

fn texts3(a: &str, b: &str, c: &str) -> (r: Vec<String>)
    ensures
        views(r@) == seq![a@, b@, c@],
        r@.len() == 3,
{
    let mut r: Vec<String> = Vec::new();
    r.push(a.to_owned());
    r.push(b.to_owned());
    r.push(c.to_owned());
    assert(views(r@) =~= seq![a@, b@, c@]);
    assert(r@.len() == 3);
    r
}

/// Infers pain points from shell history: a signal is raised when one of
/// its tokens occurs in the history, and its evidence is the tokens found,
/// trimmed, in order.
pub fn infer_pain_points(entries: &Vec<String>) -> (r: Vec<PainPoint>)
    ensures
        r@.map_values(|p: PainPoint| pain_point_view(p)) == pain_points_of(
            join_with(views(entries@), "\n"@),
            signals(),
        ),
{
    let joined_text = join_texts(entries, "\n");
    let joined = chars_of(joined_text.as_str());
    let ghost sigs = signals();
    let mut r: Vec<PainPoint> = Vec::new();
    let ghost v0 = r@.map_values(|p: PainPoint| pain_point_view(p));
    assert(v0 =~= pain_points_of(joined@, sigs.take(0)));

    // pdf tooling
    let raws = texts3("ocrmypdf", "pdftotext", "zotero");
    let trimmed = texts3("ocrmypdf", "pdftotext", "zotero");
    let ev = found_in(&joined, &raws, &trimmed);
    assert(sigs.take(1).drop_last() =~= sigs.take(0));
    let ghost before = r@.map_values(|p: PainPoint| pain_point_view(p));
    if ev.len() > 0 {
        r.push(PainPoint {
            signal: "repeated manual pdf tooling".to_owned(),
            evidence: ev,
            candidate: "create research-papers organ".to_owned(),
        });
        assert(r@.map_values(|p: PainPoint| pain_point_view(p)) =~= before.push(
            (sigs[0].signal, found_tokens(joined@, sigs[0].raws, sigs[0].trimmed), sigs[0].candidate),
        ));
    }
    assert(r@.map_values(|p: PainPoint| pain_point_view(p)) =~= pain_points_of(joined@, sigs.take(1)));

    // Python setup
    let raws = texts3("pytest", "ruff", "uv ");
    let trimmed = texts3("pytest", "ruff", "uv");
    let ev = found_in(&joined, &raws, &trimmed);
    assert(sigs.take(2).drop_last() =~= sigs.take(1));
    let ghost before = r@.map_values(|p: PainPoint| pain_point_view(p));
    if ev.len() > 0 {
        r.push(PainPoint {
            signal: "repeated Python project setup".to_owned(),
            evidence: ev,
            candidate: "create python-dev devShell".to_owned(),
        });
        assert(r@.map_values(|p: PainPoint| pain_point_view(p)) =~= before.push(
            (sigs[1].signal, found_tokens(joined@, sigs[1].raws, sigs[1].trimmed), sigs[1].candidate),
        ));
    }
    assert(r@.map_values(|p: PainPoint| pain_point_view(p)) =~= pain_points_of(joined@, sigs.take(2)));

    // media processing
    let raws = texts3("ffmpeg", "imagemagick", "yt-dlp");
    let trimmed = texts3("ffmpeg", "imagemagick", "yt-dlp");
    let ev = found_in(&joined, &raws, &trimmed);
    assert(sigs.take(3).drop_last() =~= sigs.take(2));
    let ghost before = r@.map_values(|p: PainPoint| pain_point_view(p));
    if ev.len() > 0 {
        r.push(PainPoint {
            signal: "repeated media processing".to_owned(),
            evidence: ev,
            candidate: "create media-pipeline organ".to_owned(),
        });
        assert(r@.map_values(|p: PainPoint| pain_point_view(p)) =~= before.push(
            (sigs[2].signal, found_tokens(joined@, sigs[2].raws, sigs[2].trimmed), sigs[2].candidate),
        ));
    }
    assert(sigs.take(3) =~= sigs);
    r
}


// ---------------------------------------------------------------------------
// Project suffixes
// ---------------------------------------------------------------------------

/// The index of the last `.` of `s`, or -1.
pub open spec fn last_dot(s: Seq<char>) -> int
    decreases s.len(),
{
    if s.len() == 0 {
        -1
    } else if s.last() == '.' {
        s.len() - 1
    } else {
        last_dot(s.drop_last())
    }
}

/// The extension of a file name, as `Path::extension` reads it: the text
/// after the last `.`, unless the name has no `.` other than a leading one
/// (or is `..`).
pub open spec fn extension_of(name: Seq<char>) -> Option<Seq<char>> {
    if name == ".."@ {
        None
    } else {
        let k = last_dot(name);
        if k <= 0 {
            None
        } else {
            Some(name.skip(k + 1))
        }
    }
}

/// The suffix a file is counted under: `.ext`, or `<none>`.
pub open spec fn suffix_of(name: Seq<char>) -> Seq<char> {
    match extension_of(name) {
        Some(e) => "."@ + e,
        None => "<none>"@,
    }
}

proof fn lemma_last_dot(s: Seq<char>, k: int)
    requires
        -1 <= k < s.len(),
        k >= 0 ==> s[k] == '.',
        forall|j: int| k < j < s.len() ==> #[trigger] s[j] != '.',
    ensures
        last_dot(s) == k,
    decreases s.len(),
{
    if s.len() > 0 && k < s.len() - 1 {
        assert(s.last() == s[s.len() - 1]);
        lemma_last_dot(s.drop_last(), k);
    }
}

/// The suffix a file named `name` is counted under.
pub fn file_suffix(name: &str) -> (r: String)
    ensures
        r@ == suffix_of(name@),
{
    proof {
        reveal_strlit("..");
    }
    if let crate::text::TextOrder::Equal = crate::text::compare_text(name, "..") {
        return "<none>".to_owned();
    }
    let cs = chars_of(name);
    let mut k: usize = cs.len();
    while k > 0 && cs[k - 1] != '.'
        invariant
            k <= cs@.len(),
            cs@ == name@,
            forall|j: int| k <= j < cs@.len() ==> #[trigger] cs@[j] != '.',
        decreases k,
    {
        k -= 1;
    }
    proof {
        lemma_last_dot(name@, k - 1);
    }
    if k <= 1 {
        return "<none>".to_owned();
    }
    let ext = string_from(vstd::slice::slice_subrange(cs.as_slice(), k, cs.len()));
    assert(ext@ =~= name@.skip(k as int));
    crate::text::join2(".", ext.as_str())
}

fn same_text(a: &str, b: &str) -> (r: bool)
    ensures
        r == (a@ == b@),
{
    match crate::text::compare_text(a, b) {
        crate::text::TextOrder::Equal => true,
        _ => false,
    }
}

fn text_before(a: &str, b: &str) -> (r: bool)
    ensures
        r == crate::text::text_lt(a@, b@),
{
    proof {
        crate::text::lemma_text_lt_irreflexive(a@);
    }
    match crate::text::compare_text(a, b) {
        crate::text::TextOrder::Less => true,
        _ => false,
    }
}

/// How many entries of `sfx` are `s`.
pub open spec fn count_of(sfx: Seq<Seq<char>>, s: Seq<char>) -> nat
    decreases sfx.len(),
{
    if sfx.len() == 0 {
        0
    } else {
        count_of(sfx.drop_last(), s) + if sfx.last() == s {
            1nat
        } else {
            0nat
        }
    }
}

/// `a` ranks before `b`: a higher count, or the same count and a smaller
/// suffix.
pub open spec fn ranks_before(a: (Seq<char>, nat), b: (Seq<char>, nat)) -> bool {
    a.1 > b.1 || (a.1 == b.1 && crate::text::text_lt(a.0, b.0))
}

pub open spec fn entry_view(e: (String, usize)) -> (Seq<char>, nat) {
    (e.0@, e.1 as nat)
}

/// `top` holds, best first, the `limit` best-ranked suffixes of `sfx` with
/// their counts (all of them when there are fewer).
pub open spec fn top_suffixes_of(top: Seq<(Seq<char>, nat)>, sfx: Seq<Seq<char>>, limit: nat) -> bool {
    &&& top.len() <= limit
    &&& forall|i: int, j: int| 0 <= i < j < top.len() ==> ranks_before(#[trigger] top[i], #[trigger] top[j])
    &&& forall|i: int|
        0 <= i < top.len() ==> crate::organs::occurs(sfx, (#[trigger] top[i]).0) && top[i].1 == count_of(
            sfx,
            top[i].0,
        )
    &&& forall|s: Seq<char>|
        crate::organs::occurs(sfx, s) && !(exists|i: int| 0 <= i < top.len() && (#[trigger] top[i]).0 == s) ==> top.len()
            == limit && forall|i: int| 0 <= i < top.len() ==> ranks_before(#[trigger] top[i], (s, count_of(sfx, s)))
}

proof fn lemma_ranks_before_order(a: (Seq<char>, nat), b: (Seq<char>, nat), c: (Seq<char>, nat))
    ensures
        !ranks_before(a, a),
        a.0 != b.0 ==> (ranks_before(a, b) || ranks_before(b, a)),
        !(ranks_before(a, b) && ranks_before(b, a)),
        ranks_before(a, b) && ranks_before(b, c) ==> ranks_before(a, c),
{
    crate::text::lemma_text_lt_irreflexive(a.0);
    crate::text::lemma_text_lt_total(a.0, b.0);
    if ranks_before(a, b) && ranks_before(b, c) && a.1 == b.1 && b.1 == c.1 {
        crate::text::lemma_text_lt_transitive(a.0, b.0, c.0);
    }
}

proof fn lemma_count_step(sfx: Seq<Seq<char>>, i: int, s: Seq<char>)
    requires
        0 <= i < sfx.len(),
    ensures
        count_of(sfx.take(i + 1), s) == count_of(sfx.take(i), s) + if sfx[i] == s {
            1nat
        } else {
            0nat
        },
{
    assert(sfx.take(i + 1).drop_last() =~= sfx.take(i));
    assert(sfx.take(i + 1).last() == sfx[i]);
}

proof fn lemma_count_zero(sfx: Seq<Seq<char>>, s: Seq<char>)
    requires
        !crate::organs::occurs(sfx, s),
    ensures
        count_of(sfx, s) == 0,
    decreases sfx.len(),
{
    if sfx.len() > 0 {
        if crate::organs::occurs(sfx.drop_last(), s) {
            let k = choose|k: int| 0 <= k < sfx.drop_last().len() && #[trigger] sfx.drop_last()[k] == s;
            assert(sfx[k] == s);
        }
        lemma_count_zero(sfx.drop_last(), s);
    }
}

proof fn lemma_count_bound(sfx: Seq<Seq<char>>, s: Seq<char>)
    ensures
        count_of(sfx, s) <= sfx.len(),
    decreases sfx.len(),
{
    if sfx.len() > 0 {
        lemma_count_bound(sfx.drop_last(), s);
    }
}

/// The distinct suffixes of `sfx` with their counts, in order of first
/// appearance.
fn suffix_counts(sfx: &Vec<String>) -> (r: Vec<(String, usize)>)
    ensures
        forall|i: int, j: int| 0 <= i < j < r@.len() ==> (#[trigger] r@[i]).0@ != (#[trigger] r@[j]).0@,
        forall|i: int|
            0 <= i < r@.len() ==> crate::organs::occurs(views(sfx@), (#[trigger] r@[i]).0@) && r@[i].1
                == count_of(views(sfx@), r@[i].0@),
        forall|s: Seq<char>|
            crate::organs::occurs(views(sfx@), s) ==> exists|i: int| 0 <= i < r@.len() && (#[trigger] r@[i]).0@ == s,
{
    let ghost v = views(sfx@);
    let mut r: Vec<(String, usize)> = Vec::new();
    let mut i: usize = 0;
    while i < sfx.len()
        invariant
            i <= sfx@.len(),
            v == views(sfx@),
            forall|a: int, b: int| 0 <= a < b < r@.len() ==> (#[trigger] r@[a]).0@ != (#[trigger] r@[b]).0@,
            forall|a: int|
                0 <= a < r@.len() ==> crate::organs::occurs(v.take(i as int), (#[trigger] r@[a]).0@) && r@[a].1
                    == count_of(v.take(i as int), r@[a].0@),
            forall|s: Seq<char>|
                #[trigger] crate::organs::occurs(v.take(i as int), s) ==> exists|a: int|
                    0 <= a < r@.len() && (#[trigger] r@[a]).0@ == s,
        decreases sfx@.len() - i,
    {
        let x = sfx[i].as_str();
        assert(v[i as int] == x@);
        let ghost old_r = r@;
        let mut p: usize = 0;
        while p < r.len() && !same_text(r[p].0.as_str(), x)
            invariant
                p <= r@.len(),
                r@ == old_r,
                forall|q: int| 0 <= q < p ==> (#[trigger] r@[q]).0@ != x@,
            decreases r@.len() - p,
        {
            p += 1;
        }
        proof {
            assert forall|a: int| 0 <= a < r@.len() implies crate::organs::occurs(v.take(i + 1), (#[trigger] r@[a]).0@) by {
                let k = choose|k: int| 0 <= k < v.take(i as int).len() && #[trigger] v.take(i as int)[k] == r@[a].0@;
                assert(v.take(i + 1)[k] == r@[a].0@);
            }
            assert(v.take(i + 1)[i as int] == x@);
            lemma_count_bound(v.take(i as int), x@);
        }
        if p < r.len() {
            let c = r[p].1;
            assert(c <= i) by {
                lemma_count_bound(v.take(i as int), x@);
            }
            let key = r[p].0.clone();
            r.set(p, (key, c + 1));
        } else {
            proof {
                if crate::organs::occurs(v.take(i as int), x@) {
                    let a = choose|a: int| 0 <= a < old_r.len() && (#[trigger] old_r[a]).0@ == x@;
                    assert(false);
                }
                lemma_count_zero(v.take(i as int), x@);
            }
            r.push((sfx[i].clone(), 1));
        }
        proof {
            assert forall|a: int|
                0 <= a < r@.len() implies crate::organs::occurs(v.take(i + 1), (#[trigger] r@[a]).0@) && r@[a].1
                == count_of(v.take(i + 1), r@[a].0@) by {
                lemma_count_step(v, i as int, r@[a].0@);
                if a < old_r.len() && a != p {
                    let k = choose|k: int| 0 <= k < v.take(i as int).len() && #[trigger] v.take(i as int)[k] == r@[a].0@;
                    assert(v.take(i + 1)[k] == r@[a].0@);
                } else {
                    assert(v.take(i + 1)[i as int] == r@[a].0@);
                }
            }
            assert forall|s: Seq<char>| #[trigger] crate::organs::occurs(v.take(i + 1), s) implies exists|a: int|
                0 <= a < r@.len() && (#[trigger] r@[a]).0@ == s by {
                let k = choose|k: int| 0 <= k < v.take(i + 1).len() && #[trigger] v.take(i + 1)[k] == s;
                if k < i {
                    assert(v.take(i as int)[k] == s);
                    assert(crate::organs::occurs(v.take(i as int), s));
                    let a = choose|a: int| 0 <= a < old_r.len() && (#[trigger] old_r[a]).0@ == s;
                    assert(r@[a].0@ == old_r[a].0@);
                    assert(r@[a].0@ == s);
                } else {
                    assert(r@[p as int].0@ == s);
                }
            }
        }
        i += 1;
    }
    assert(v.take(i as int) =~= v);
    r
}

pub open spec fn rank_sorted(v: Seq<(Seq<char>, nat)>) -> bool {
    forall|i: int, j: int| 0 <= i < j < v.len() ==> ranks_before(#[trigger] v[i], #[trigger] v[j])
}

/// `v` and `w` hold the same entries.
pub open spec fn same_members(v: Seq<(Seq<char>, nat)>, w: Seq<(Seq<char>, nat)>) -> bool {
    &&& forall|i: int| 0 <= i < v.len() ==> #[trigger] w.contains(v[i])
    &&& forall|j: int| 0 <= j < w.len() ==> #[trigger] v.contains(w[j])
}

proof fn lemma_sorted_insert(old: Seq<(Seq<char>, nat)>, p: int, x: (Seq<char>, nat))
    requires
        rank_sorted(old),
        0 <= p <= old.len(),
        forall|q: int| 0 <= q < p ==> ranks_before(#[trigger] old[q], x),
        p < old.len() ==> ranks_before(x, old[p]),
    ensures
        rank_sorted(old.insert(p, x)),
{
    let n = old.insert(p, x);
    assert forall|i: int, j: int| 0 <= i < j < n.len() implies ranks_before(#[trigger] n[i], #[trigger] n[j]) by {
        if j < p {
            assert(n[i] == old[i] && n[j] == old[j]);
        } else if j == p {
            assert(n[i] == old[i]);
        } else if i == p {
            assert(n[j] == old[j - 1]);
            if j - 1 > p {
                lemma_ranks_before_order(x, old[p], old[j - 1]);
            }
        } else if i < p {
            assert(n[i] == old[i] && n[j] == old[j - 1]);
        } else {
            assert(n[i] == old[i - 1] && n[j] == old[j - 1]);
        }
    }
}

proof fn lemma_members_insert(old: Seq<(Seq<char>, nat)>, p: int, x: (Seq<char>, nat), w: Seq<(Seq<char>, nat)>)
    requires
        same_members(old, w),
        0 <= p <= old.len(),
    ensures
        same_members(old.insert(p, x), w.push(x)),
{
    let n = old.insert(p, x);
    let w2 = w.push(x);
    assert forall|i: int| 0 <= i < n.len() implies #[trigger] w2.contains(n[i]) by {
        if i == p {
            assert(w2[w.len() as int] == x);
        } else {
            let oi = if i < p { i } else { i - 1 };
            assert(n[i] == old[oi]);
            assert(w.contains(old[oi]));
            let j = choose|j: int| 0 <= j < w.len() && w[j] == old[oi];
            assert(w2[j] == old[oi]);
        }
    }
    assert forall|j: int| 0 <= j < w2.len() implies #[trigger] n.contains(w2[j]) by {
        if j == w.len() {
            assert(n[p] == x);
        } else {
            assert(w2[j] == w[j]);
            assert(old.contains(w[j]));
            let i = choose|i: int| 0 <= i < old.len() && old[i] == w[j];
            if i < p {
                assert(n[i] == old[i]);
            } else {
                assert(n[i + 1] == old[i]);
            }
        }
    }
}

pub open spec fn entry_views(v: Seq<(String, usize)>) -> Seq<(Seq<char>, nat)> {
    v.map_values(|e: (String, usize)| entry_view(e))
}

/// The entries of `counts` ordered best first.
fn rank_counts(counts: &Vec<(String, usize)>) -> (r: Vec<(String, usize)>)
    requires
        forall|i: int, j: int| 0 <= i < j < counts@.len() ==> (#[trigger] counts@[i]).0@ != (#[trigger] counts@[j]).0@,
    ensures
        rank_sorted(entry_views(r@)),
        same_members(entry_views(r@), entry_views(counts@)),
{
    let ghost cv = entry_views(counts@);
    let mut r: Vec<(String, usize)> = Vec::new();
    let mut k: usize = 0;
    assert(same_members(entry_views(r@), cv.take(0)));
    while k < counts.len()
        invariant
            k <= counts@.len(),
            cv == entry_views(counts@),
            forall|i: int, j: int| 0 <= i < j < counts@.len() ==> (#[trigger] counts@[i]).0@ != (#[trigger] counts@[j]).0@,
            rank_sorted(entry_views(r@)),
            same_members(entry_views(r@), cv.take(k as int)),
        decreases counts@.len() - k,
    {
        let x = (counts[k].0.clone(), counts[k].1);
        let ghost xv = entry_view(x);
        assert(xv == cv[k as int]);
        let ghost old_v = entry_views(r@);
        let mut p: usize = 0;
        while p < r.len() && (r[p].1 > x.1 || (r[p].1 == x.1 && text_before(r[p].0.as_str(), x.0.as_str())))
            invariant
                p <= r@.len(),
                old_v == entry_views(r@),
                xv == entry_view(x),
                forall|q: int| 0 <= q < p ==> ranks_before(#[trigger] old_v[q], xv),
            decreases r@.len() - p,
        {
            assert(old_v[p as int] == entry_view(r@[p as int]));
            p += 1;
        }
        proof {
            if p < old_v.len() {
                assert(old_v[p as int] == entry_view(r@[p as int]));
                assert(cv.take(k as int).contains(old_v[p as int]));
                let j = choose|j: int| 0 <= j < cv.take(k as int).len() && cv.take(k as int)[j] == old_v[p as int];
                assert(counts@[j].0@ != counts@[k as int].0@);
                lemma_ranks_before_order(old_v[p as int], xv, xv);
            }
            lemma_sorted_insert(old_v, p as int, xv);
            lemma_members_insert(old_v, p as int, xv, cv.take(k as int));
            assert(cv.take(k + 1) =~= cv.take(k as int).push(xv));
        }
        r.insert(p, x);
        assert(entry_views(r@) =~= old_v.insert(p as int, xv));
        k += 1;
    }
    assert(cv.take(k as int) =~= cv);
    r
}

/// The summary of one project directory: whether it exists, how many files
/// were sampled (their names are `sampled`), and the twelve most common
/// suffixes, most common first, ties by suffix.
pub fn summarize_project(path: String, exists: bool, sampled: &Vec<String>) -> (r: crate::records::ProjectSummary)
    ensures
        r.path == path,
        r.exists == exists,
        !exists ==> r.sampled_files is None && r.top_suffixes@.len() == 0,
        exists ==> r.sampled_files == Some(sampled@.len() as usize) && top_suffixes_of(
            r.top_suffixes@.map_values(|e: (String, usize)| entry_view(e)),
            sampled@.map_values(|n: String| suffix_of(n@)),
            12,
        ),
{
    if !exists {
        return crate::records::ProjectSummary { path, exists: false, sampled_files: None, top_suffixes: Vec::new() };
    }
    let mut sfx: Vec<String> = Vec::new();
    let mut i: usize = 0;
    while i < sampled.len()
        invariant
            i <= sampled@.len(),
            views(sfx@) == sampled@.take(i as int).map_values(|n: String| suffix_of(n@)),
        decreases sampled@.len() - i,
    {
        let ghost before = views(sfx@);
        sfx.push(file_suffix(sampled[i].as_str()));
        assert(views(sfx@) =~= before.push(suffix_of(sampled@[i as int]@)));
        assert(sampled@.take(i + 1).map_values(|n: String| suffix_of(n@)) =~= sampled@.take(i as int).map_values(
            |n: String| suffix_of(n@),
        ).push(suffix_of(sampled@[i as int]@)));
        i += 1;
    }
    assert(sampled@.take(i as int) =~= sampled@);
    let ghost sv = views(sfx@);
    let counts = suffix_counts(&sfx);
    let ranked = rank_counts(&counts);
    let mut top: Vec<(String, usize)> = Vec::new();
    let mut k: usize = 0;
    while k < ranked.len() && k < 12
        invariant
            k <= ranked@.len(),
            k <= 12,
            top@.len() == k,
            forall|q: int| 0 <= q < k ==> #[trigger] entry_view(top@[q]) == entry_view(ranked@[q]),
            k < 12 ==> k <= ranked@.len(),
        decreases ranked@.len() - k,
    {
        top.push((ranked[k].0.clone(), ranked[k].1));
        k += 1;
    }
    proof {
        let tv = top@.map_values(|e: (String, usize)| entry_view(e));
        let rv = entry_views(ranked@);
        let cv = entry_views(counts@);
        assert forall|a: int| 0 <= a < tv.len() implies #[trigger] tv[a] == rv[a] by {
            assert(tv[a] == entry_view(top@[a]));
        }
        assert forall|a: int, b: int| 0 <= a < b < tv.len() implies ranks_before(#[trigger] tv[a], #[trigger] tv[b]) by {
            assert(tv[a] == rv[a] && tv[b] == rv[b]);
        }
        assert forall|a: int| 0 <= a < tv.len() implies crate::organs::occurs(sv, (#[trigger] tv[a]).0) && tv[a].1 == count_of(sv, tv[a].0) by {
            assert(tv[a] == rv[a]);
            assert(cv.contains(rv[a]));
            let j = choose|j: int| 0 <= j < cv.len() && cv[j] == rv[a];
            assert(cv[j] == entry_view(counts@[j]));
        }
        assert forall|s: Seq<char>|
            crate::organs::occurs(sv, s) && !(exists|a: int| 0 <= a < tv.len() && (#[trigger] tv[a]).0 == s) implies tv.len()
                == 12 && forall|a: int| 0 <= a < tv.len() ==> ranks_before(#[trigger] tv[a], (s, count_of(sv, s))) by {
            let c = choose|c: int| 0 <= c < counts@.len() && (#[trigger] counts@[c]).0@ == s;
            assert(cv[c] == entry_view(counts@[c]));
            assert(rv.contains(cv[c]));
            let m = choose|m: int| 0 <= m < rv.len() && rv[m] == cv[c];
            if m < k {
                assert(tv[m] == rv[m]);
                assert(tv[m].0 == s);
                assert(false);
            }
            assert forall|a: int| 0 <= a < tv.len() implies ranks_before(#[trigger] tv[a], (s, count_of(sv, s))) by {
                assert(tv[a] == rv[a]);
                assert(ranks_before(rv[a], rv[m]));
            }
        }
    }
    crate::records::ProjectSummary { path, exists: true, sampled_files: Some(sampled.len()), top_suffixes: top }
}
// ---------------------------------------------------------------------------
// Identity and system generations
// ---------------------------------------------------------------------------

/// The roles a host configuration names, each written as a quoted string.
pub open spec fn config_roles(text: Seq<char>) -> Seq<Seq<char>> {
    seq!["development"@, "research"@, "writing"@, "media"@].filter(
        |role: Seq<char>| occurs_in(text, "\""@ + role + "\""@),
    )
}

/// The identity read from a host configuration `text` (empty when there is
/// none): the host is `aion` where the text sets it so, else `hostname`;
/// the roles are those the text names.
pub fn identity_from_host_config(text: &str, hostname: String) -> (r: crate::records::Identity)
    ensures
        r.host@ == (if occurs_in(text@, "host = \"aion\""@) {
            "aion"@
        } else {
            hostname@
        }),
        views(r.roles@) == config_roles(text@),
{
    let hay = chars_of(text);
    let host = if text_contains(&hay, "host = \"aion\"") {
        "aion".to_owned()
    } else {
        hostname
    };
    let ghost all = seq!["development"@, "research"@, "writing"@, "media"@];
    let ghost keep = |role: Seq<char>| occurs_in(text@, "\""@ + role + "\""@);
    let mut roles: Vec<String> = Vec::new();
    let names: [&str; 4] = ["development", "research", "writing", "media"];
    let quoted: [&str; 4] = ["\"development\"", "\"research\"", "\"writing\"", "\"media\""];
    proof {
        reveal_strlit("development");
        reveal_strlit("research");
        reveal_strlit("writing");
        reveal_strlit("media");
        reveal_strlit("\"development\"");
        reveal_strlit("\"research\"");
        reveal_strlit("\"writing\"");
        reveal_strlit("\"media\"");
        reveal_strlit("\"");
        assert(names@.map_values(|n: &str| n@) =~= all);
        assert(forall|i: int| 0 <= i < 4 ==> #[trigger] quoted@[i]@ == "\""@ + all[i] + "\""@);
    }
    let mut i: usize = 0;
    while i < 4
        invariant
            i <= 4,
            all.len() == 4,
            names@.map_values(|n: &str| n@) == all,
            forall|k: int| 0 <= k < 4 ==> #[trigger] quoted@[k]@ == "\""@ + all[k] + "\""@,
            hay@ == text@,
            keep == (|role: Seq<char>| occurs_in(text@, "\""@ + role + "\""@)),
            views(roles@) == all.take(i as int).filter(keep),
        decreases 4 - i,
    {
        let ghost before = views(roles@);
        assert(all.take(i + 1).drop_last() =~= all.take(i as int));
        assert(all.take(i + 1).last() == all[i as int]);
        assert(names@[i as int]@ == all[i as int]);
        proof {
            reveal(Seq::filter);
            assert(all.take(i + 1).filter(keep) == if keep(all[i as int]) {
                all.take(i as int).filter(keep).push(all[i as int])
            } else {
                all.take(i as int).filter(keep)
            });
        }
        if text_contains(&hay, quoted[i]) {
            roles.push(names[i].to_owned());
            assert(views(roles@) =~= before.push(all[i as int]));
        } else {
            assert(views(roles@) =~= before);
        }
        i += 1;
    }
    assert(all.take(4) =~= all);
    crate::records::Identity { host, roles }
}

/// The generation a profile link named `name` stands for: the part between
/// `system-` and `-link`.
pub open spec fn link_generation(name: Seq<char>) -> Option<Seq<char>> {
    if name.len() >= 12 && name.take(7) == "system-"@ && name.skip(name.len() - 5) == "-link"@ {
        Some(name.subrange(7, name.len() - 5))
    } else {
        None
    }
}

/// The generation a profile link named `name` stands for, if it is one.
pub fn system_link_generation(name: &str) -> (r: Option<String>)
    ensures
        crate::text::opt_view(r) == link_generation(name@),
{
    let cs = chars_of(name);
    proof {
        reveal_strlit("system-");
        reveal_strlit("-link");
    }
    if cs.len() < 12 || !text_starts_with(name, "system-") {
        return None;
    }
    let n = cs.len();
    let tail = crate::patch::slice_text(&cs, n - 5, n);
    let ends = match crate::text::compare_text(tail.as_str(), "-link") {
        crate::text::TextOrder::Equal => true,
        _ => false,
    };
    assert(cs@.subrange(n - 5, n as int) =~= name@.skip(name@.len() - 5));
    if !ends {
        return None;
    }
    Some(crate::patch::slice_text(&cs, 7, n - 5))
}

/// The (generation, path) pairs of the profile links among `entries`
/// (each a link name and its path), in the order of `entries`.
pub open spec fn generation_pairs(entries: Seq<(Seq<char>, Seq<char>)>) -> Seq<(Seq<char>, Seq<char>)>
    decreases entries.len(),
{
    if entries.len() == 0 {
        Seq::empty()
    } else {
        let rest = generation_pairs(entries.drop_last());
        match link_generation(entries.last().0) {
            Some(g) => rest.push((g, entries.last().1)),
            None => rest,
        }
    }
}

/// The system generations of a profile directory whose entries are
/// `entries` (name, path), ordered by generation. Entry names are distinct
/// in a directory, so each generation occurs once.
pub fn system_generations(entries: &Vec<(String, String)>) -> (r: Vec<crate::records::SystemGeneration>)
    ensures
        r@.map_values(|g: crate::records::SystemGeneration| (g.generation@, g.path@))
            == crate::strmap::pairs_from(generation_pairs(crate::strmap::entry_views(entries@))),
{
    let ghost ev = crate::strmap::entry_views(entries@);
    let mut table = crate::strmap::StringMap::new();
    let mut i: usize = 0;
    assert(ev.take(0) =~= Seq::<(Seq<char>, Seq<char>)>::empty());
    while i < entries.len()
        invariant
            i <= entries@.len(),
            ev == crate::strmap::entry_views(entries@),
            table@ == crate::strmap::pairs_from(generation_pairs(ev.take(i as int))),
        decreases entries@.len() - i,
    {
        assert(ev.take(i + 1).drop_last() =~= ev.take(i as int));
        assert(ev.take(i + 1).last() == (entries@[i as int].0@, entries@[i as int].1@));
        let ghost g = generation_pairs(ev.take(i as int));
        match system_link_generation(entries[i].0.as_str()) {
            Some(gen) => {
                let ghost pair = (gen@, entries@[i as int].1@);
                table.insert(gen, entries[i].1.clone());
                assert(g.push(pair).drop_last() =~= g);
            },
            None => {},
        }
        i += 1;
    }
    assert(ev.take(i as int) =~= ev);
    let pairs = table.entries();
    let mut r: Vec<crate::records::SystemGeneration> = Vec::new();
    let mut k: usize = 0;
    while k < pairs.len()
        invariant
            k <= pairs@.len(),
            crate::strmap::entry_views(pairs@) == table@,
            r@.map_values(|g: crate::records::SystemGeneration| (g.generation@, g.path@)) == table@.take(k as int),
        decreases pairs@.len() - k,
    {
        let ghost before = r@.map_values(|g: crate::records::SystemGeneration| (g.generation@, g.path@));
        r.push(crate::records::SystemGeneration { generation: pairs[k].0.clone(), path: pairs[k].1.clone() });
        assert(r@.map_values(|g: crate::records::SystemGeneration| (g.generation@, g.path@)) =~= before.push(
            (pairs@[k as int].0@, pairs@[k as int].1@),
        ));
        assert(table@.take(k + 1) =~= table@.take(k as int).push(table@[k as int]));
        k += 1;
    }
    assert(table@.take(k as int) =~= table@);
    r
}

/// The input names of a flake lock whose nodes are `nodes`: every node but
/// `root`, in `String` order.
pub fn flake_input_names(nodes: &Vec<String>) -> (r: Vec<String>)
    ensures
        crate::text::texts_sorted(views(r@)),
        views(r@).to_multiset() == views(nodes@).filter(|n: Seq<char>| n != "root"@).to_multiset(),
{
    let ghost keep = |n: Seq<char>| n != "root"@;
    let mut kept: Vec<String> = Vec::new();
    let mut i: usize = 0;
    proof {
        reveal(Seq::filter);
        assert(views(nodes@).take(0) =~= Seq::<Seq<char>>::empty());
    }
    while i < nodes.len()
        invariant
            i <= nodes@.len(),
            keep == (|n: Seq<char>| n != "root"@),
            views(kept@) == views(nodes@).take(i as int).filter(keep),
        decreases nodes@.len() - i,
    {
        let ghost before = views(kept@);
        proof {
            reveal(Seq::filter);
            assert(views(nodes@).take(i + 1).drop_last() =~= views(nodes@).take(i as int));
            assert(views(nodes@).take(i + 1).last() == nodes@[i as int]@);
            reveal_strlit("root");
        }
        let is_root = match crate::text::compare_text(nodes[i].as_str(), "root") {
            crate::text::TextOrder::Equal => true,
            _ => false,
        };
        if !is_root {
            kept.push(nodes[i].clone());
            assert(views(kept@) =~= before.push(nodes@[i as int]@));
        }
        i += 1;
    }
    assert(views(nodes@).take(i as int) =~= views(nodes@));
    crate::text::sort_texts(&kept)
}

/// The last `n` items of `s` (all of them when there are fewer).
pub open spec fn last_n<A>(s: Seq<A>, n: nat) -> Seq<A> {
    if s.len() > n {
        s.skip(s.len() - n)
    } else {
        s
    }
}

/// The history lines gathered from the files read, last file first: the
/// last `limit` lines of each.
pub open spec fn gathered_history(texts: Seq<Seq<char>>, limit: nat) -> Seq<Seq<char>>
    decreases texts.len(),
{
    if texts.len() == 0 {
        Seq::empty()
    } else {
        last_n(lines_of(texts.last()), limit) + gathered_history(texts.drop_last(), limit)
    }
}

/// The shell history state: when left out, the reason `disabled`; else the
/// last `limit` of the lines gathered from the history files that could be
/// read (`texts`, in the order they were tried).
pub fn shell_history(wanted: bool, texts: &Vec<String>, limit: usize) -> (r: crate::records::ShellHistoryState)
    ensures
        !wanted ==> !r.included && crate::text::opt_view(r.reason) == Some("disabled"@) && r.entries@.len() == 0,
        wanted ==> r.included && r.reason is None && views(r.entries@) == last_n(
            gathered_history(views(texts@), limit as nat),
            limit as nat,
        ),
{
    if !wanted {
        return crate::records::ShellHistoryState {
            included: false,
            reason: Some("disabled".to_owned()),
            entries: Vec::new(),
        };
    }
    let ghost tv = views(texts@);
    let mut gathered: Vec<String> = Vec::new();
    let mut k: usize = texts.len();
    assert(tv.take(texts@.len() as int) =~= tv);
    assert(tv.skip(texts@.len() as int) =~= Seq::<Seq<char>>::empty());
    while k > 0
        invariant
            k <= texts@.len(),
            tv == views(texts@),
            views(gathered@) + gathered_history(tv.take(k as int), limit as nat) == gathered_history(tv, limit as nat),
        decreases k,
    {
        let ls = text_lines(texts[k - 1].as_str());
        let n = ls.len();
        let start: usize = if n > limit {
            n - limit
        } else {
            0
        };
        let ghost before = views(gathered@);
        let mut j: usize = start;
        while j < n
            invariant
                start <= j <= n,
                n == ls@.len(),
                views(gathered@) == before + views(ls@).subrange(start as int, j as int),
            decreases n - j,
        {
            let ghost prev = gathered@;
            gathered.push(ls[j].clone());
            assert(gathered@ == prev.push(ls@[j as int]));
            assert(views(gathered@) =~= views(prev).push(ls@[j as int]@));
            assert(views(ls@).subrange(start as int, j + 1) =~= views(ls@).subrange(start as int, j as int).push(
                ls@[j as int]@,
            ));
            assert(views(gathered@) =~= before + views(ls@).subrange(start as int, j + 1));
            j += 1;
        }
        proof {
            let t = tv.take(k as int);
            assert(t.drop_last() =~= tv.take(k - 1));
            assert(t.last() == texts@[k - 1]@);
            assert(views(ls@).subrange(start as int, n as int) =~= last_n(lines_of(t.last()), limit as nat));
            assert(views(gathered@) + gathered_history(tv.take(k - 1), limit as nat) =~= before + gathered_history(
                t,
                limit as nat,
            ));
        }
        k -= 1;
    }
    assert(tv.take(0) =~= Seq::<Seq<char>>::empty());
    assert(views(gathered@) =~= gathered_history(tv, limit as nat));
    let total = gathered.len();
    let from: usize = if total > limit {
        total - limit
    } else {
        0
    };
    let mut entries: Vec<String> = Vec::new();
    let mut j: usize = from;
    while j < total
        invariant
            from <= j <= total,
            total == gathered@.len(),
            views(entries@) == views(gathered@).subrange(from as int, j as int),
        decreases total - j,
    {
        let ghost prev = entries@;
        entries.push(gathered[j].clone());
        assert(entries@ == prev.push(gathered@[j as int]));
        assert(views(entries@) =~= views(prev).push(gathered@[j as int]@));
        assert(views(gathered@).subrange(from as int, j + 1) =~= views(gathered@).subrange(from as int, j as int).push(
            gathered@[j as int]@,
        ));
        j += 1;
    }
    assert(views(gathered@).subrange(from as int, total as int) =~= last_n(views(gathered@), limit as nat));
    crate::records::ShellHistoryState { included: true, reason: None, entries }
}

/// Whether a directory entry named `name` is passed over when scanning a
/// tree: version-control data, tool caches and build outputs.
pub open spec fn ignored_name(name: Seq<char>) -> bool {
    name == ".git"@ || name == ".direnv"@ || name == "node_modules"@ || name == "target"@ || name == "result"@
        || name == "result-vm"@
}

/// Whether a directory entry named `name` is passed over when scanning a
/// tree.
pub fn ignored_component(name: &str) -> (r: bool)
    ensures
        r == ignored_name(name@),
{
    same_text(name, ".git") || same_text(name, ".direnv") || same_text(name, "node_modules") || same_text(name, "target")
        || same_text(name, "result") || same_text(name, "result-vm")
}

proof fn lemma_found_tokens_sorted(joined: Seq<char>, raws: Seq<Seq<char>>, trimmed: Seq<Seq<char>>)
    requires
        raws.len() == trimmed.len(),
        crate::organs::sorted_texts(trimmed),
    ensures
        crate::organs::sorted_texts(found_tokens(joined, raws, trimmed)),
        forall|k: int|
            0 <= k < found_tokens(joined, raws, trimmed).len() ==> crate::organs::occurs(
                trimmed,
                #[trigger] found_tokens(joined, raws, trimmed)[k],
            ),
    decreases raws.len(),
{
    if raws.len() > 0 {
        let t = trimmed.drop_last();
        assert(crate::organs::sorted_texts(t)) by {
            assert forall|i: int, j: int| 0 <= i < j < t.len() implies crate::text::text_lt(
                #[trigger] t[i],
                #[trigger] t[j],
            ) by {
                assert(t[i] == trimmed[i] && t[j] == trimmed[j]);
            }
        }
        lemma_found_tokens_sorted(joined, raws.drop_last(), t);
        let r = found_tokens(joined, raws.drop_last(), t);
        let x = trimmed.last();
        assert forall|k: int| 0 <= k < r.len() implies crate::text::text_lt(#[trigger] r[k], x) by {
            let m = choose|m: int| 0 <= m < t.len() && #[trigger] t[m] == r[k];
            assert(trimmed[m] == t[m]);
        }
        if occurs_in(joined, raws.last()) {
            let f = r.push(x);
            assert forall|i: int, j: int| 0 <= i < j < f.len() implies crate::text::text_lt(
                #[trigger] f[i],
                #[trigger] f[j],
            ) by {
                if j == r.len() {
                    assert(f[i] == r[i]);
                } else {
                    assert(f[i] == r[i] && f[j] == r[j]);
                }
            }
            assert forall|k: int| 0 <= k < f.len() implies crate::organs::occurs(trimmed, #[trigger] f[k]) by {
                if k == r.len() {
                    assert(trimmed[trimmed.len() - 1] == f[k]);
                } else {
                    assert(f[k] == r[k]);
                    let m = choose|m: int| 0 <= m < t.len() && #[trigger] t[m] == r[k];
                    assert(trimmed[m] == t[m]);
                }
            }
        } else {
            assert forall|k: int| 0 <= k < r.len() implies crate::organs::occurs(trimmed, #[trigger] r[k]) by {
                let m = choose|m: int| 0 <= m < t.len() && #[trigger] t[m] == r[k];
                assert(trimmed[m] == t[m]);
            }
        }
    }
}

proof fn lemma_pain_points_sorted(joined: Seq<char>, sigs: Seq<SignalView>)
    requires
        forall|i: int|
            0 <= i < sigs.len() ==> (#[trigger] sigs[i]).raws.len() == sigs[i].trimmed.len()
                && crate::organs::sorted_texts(sigs[i].trimmed),
    ensures
        forall|k: int|
            0 <= k < pain_points_of(joined, sigs).len() ==> (#[trigger] pain_points_of(joined, sigs)[k]).1.len() > 0
                && crate::organs::sorted_texts(pain_points_of(joined, sigs)[k].1),
    decreases sigs.len(),
{
    if sigs.len() > 0 {
        let d = sigs.drop_last();
        assert forall|i: int| 0 <= i < d.len() implies (#[trigger] d[i]).raws.len() == d[i].trimmed.len()
            && crate::organs::sorted_texts(d[i].trimmed) by {
            assert(d[i] == sigs[i]);
        }
        lemma_pain_points_sorted(joined, d);
        let last = sigs.last();
        lemma_found_tokens_sorted(joined, last.raws, last.trimmed);
        let r = pain_points_of(joined, d);
        let ev = found_tokens(joined, last.raws, last.trimmed);
        let all = pain_points_of(joined, sigs);
        assert(all == if ev.len() > 0 {
            r.push((last.signal, ev, last.candidate))
        } else {
            r
        });
        assert forall|k: int| 0 <= k < all.len() implies (#[trigger] all[k]).1.len() > 0
            && crate::organs::sorted_texts(all[k].1) by {
            if k < r.len() {
                assert(all[k] == r[k]);
            }
        }
    }
}

/// Every pain point inferred from shell history has evidence, and its
/// evidence tokens are sorted and each listed once, as a set of tokens is.
pub proof fn lemma_pain_point_evidence_sorted(joined: Seq<char>)
    ensures
        forall|k: int|
            0 <= k < pain_points_of(joined, signals()).len() ==> (#[trigger] pain_points_of(joined, signals())[k]).1.len()
                > 0 && crate::organs::sorted_texts(pain_points_of(joined, signals())[k].1),
{
    reveal_strlit("ocrmypdf");
    reveal_strlit("pdftotext");
    reveal_strlit("zotero");
    reveal_strlit("pytest");
    reveal_strlit("ruff");
    reveal_strlit("uv");
    reveal_strlit("uv ");
    reveal_strlit("ffmpeg");
    reveal_strlit("imagemagick");
    reveal_strlit("yt-dlp");
    let sigs = signals();
    assert forall|i: int|
        0 <= i < sigs.len() implies (#[trigger] sigs[i]).raws.len() == sigs[i].trimmed.len()
        && crate::organs::sorted_texts(sigs[i].trimmed) by {
        let t = sigs[i].trimmed;
        assert forall|a: int, b: int| 0 <= a < b < t.len() implies crate::text::text_lt(#[trigger] t[a], #[trigger] t[b]) by {
            assert(t[a][0] < t[b][0]);
            assert(t[a].len() > 0 && t[b].len() > 0);
        }
    }
    lemma_pain_points_sorted(joined, sigs);
}

/// The suffixes of `sfx` other than `x`.
pub open spec fn without(sfx: Seq<Seq<char>>, x: Seq<char>) -> Seq<Seq<char>>
    decreases sfx.len(),
{
    if sfx.len() == 0 {
        Seq::empty()
    } else if sfx.last() == x {
        without(sfx.drop_last(), x)
    } else {
        without(sfx.drop_last(), x).push(sfx.last())
    }
}

proof fn lemma_without(sfx: Seq<Seq<char>>, x: Seq<char>, k: Seq<char>)
    ensures
        without(sfx, x).len() + count_of(sfx, x) == sfx.len(),
        k != x ==> count_of(without(sfx, x), k) == count_of(sfx, k),
    decreases sfx.len(),
{
    if sfx.len() > 0 {
        lemma_without(sfx.drop_last(), x, k);
        if sfx.last() != x {
            assert(without(sfx, x).drop_last() == without(sfx.drop_last(), x));
        }
    }
}

/// The sum of the counts in `sfx` of the texts `keys`.
pub open spec fn counts_sum(keys: Seq<Seq<char>>, sfx: Seq<Seq<char>>) -> nat
    decreases keys.len(),
{
    if keys.len() == 0 {
        0
    } else {
        counts_sum(keys.drop_last(), sfx) + count_of(sfx, keys.last())
    }
}

proof fn lemma_counts_sum_same(keys: Seq<Seq<char>>, a: Seq<Seq<char>>, b: Seq<Seq<char>>)
    requires
        forall|i: int| 0 <= i < keys.len() ==> count_of(a, #[trigger] keys[i]) == count_of(b, keys[i]),
    ensures
        counts_sum(keys, a) == counts_sum(keys, b),
    decreases keys.len(),
{
    if keys.len() > 0 {
        let d = keys.drop_last();
        assert forall|i: int| 0 <= i < d.len() implies count_of(a, #[trigger] d[i]) == count_of(b, d[i]) by {
            assert(d[i] == keys[i]);
        }
        lemma_counts_sum_same(d, a, b);
        assert(count_of(a, keys.last()) == count_of(b, keys[keys.len() - 1]));
    }
}

/// Distinct texts are counted no more often, together, than there are
/// texts.
proof fn lemma_counts_sum_bound(keys: Seq<Seq<char>>, sfx: Seq<Seq<char>>)
    requires
        crate::patch::distinct_texts(keys),
    ensures
        counts_sum(keys, sfx) <= sfx.len(),
    decreases keys.len(),
{
    if keys.len() > 0 {
        let d = keys.drop_last();
        let x = keys.last();
        let w = without(sfx, x);
        assert(crate::patch::distinct_texts(d)) by {
            assert forall|i: int, j: int| 0 <= i < j < d.len() implies #[trigger] d[i] != #[trigger] d[j] by {
                assert(d[i] == keys[i] && d[j] == keys[j]);
            }
        }
        assert forall|i: int| 0 <= i < d.len() implies count_of(w, #[trigger] d[i]) == count_of(sfx, d[i]) by {
            assert(d[i] == keys[i]);
            assert(keys[i] != keys[keys.len() - 1]);
            lemma_without(sfx, x, d[i]);
        }
        lemma_counts_sum_same(d, w, sfx);
        lemma_counts_sum_bound(d, w);
        lemma_without(sfx, x, x);
    }
}

/// The suffix texts of a ranking.
pub open spec fn ranked_suffixes(top: Seq<(Seq<char>, nat)>) -> Seq<Seq<char>> {
    top.map_values(|e: (Seq<char>, nat)| e.0)
}

/// The sum of the counts of a ranking.
pub open spec fn ranked_total(top: Seq<(Seq<char>, nat)>) -> nat
    decreases top.len(),
{
    if top.len() == 0 {
        0
    } else {
        ranked_total(top.drop_last()) + top.last().1
    }
}

proof fn lemma_ranked_total(top: Seq<(Seq<char>, nat)>, sfx: Seq<Seq<char>>)
    requires
        forall|i: int| 0 <= i < top.len() ==> (#[trigger] top[i]).1 == count_of(sfx, top[i].0),
    ensures
        ranked_total(top) == counts_sum(ranked_suffixes(top), sfx),
    decreases top.len(),
{
    if top.len() > 0 {
        let d = top.drop_last();
        assert forall|i: int| 0 <= i < d.len() implies (#[trigger] d[i]).1 == count_of(sfx, d[i].0) by {
            assert(d[i] == top[i]);
        }
        lemma_ranked_total(d, sfx);
        assert(ranked_suffixes(top).drop_last() =~= ranked_suffixes(d));
    }
}

proof fn lemma_count_positive(sfx: Seq<Seq<char>>, s: Seq<char>)
    requires
        crate::organs::occurs(sfx, s),
    ensures
        count_of(sfx, s) >= 1,
    decreases sfx.len(),
{
    if sfx.last() != s {
        let k = choose|k: int| 0 <= k < sfx.len() && #[trigger] sfx[k] == s;
        assert(sfx.drop_last()[k] == s);
        lemma_count_positive(sfx.drop_last(), s);
    }
}

/// A project summary's ranking: at most `limit` suffixes, each found among
/// the sampled files with a count of at least one, each listed once, most
/// common first and ties by suffix, and counting together no more files
/// than were sampled.
pub proof fn lemma_top_suffixes_bounds(top: Seq<(Seq<char>, nat)>, sfx: Seq<Seq<char>>, limit: nat)
    requires
        top_suffixes_of(top, sfx, limit),
    ensures
        top.len() <= limit,
        forall|i: int| 0 <= i < top.len() ==> (#[trigger] top[i]).1 >= 1,
        forall|i: int, j: int| 0 <= i < j < top.len() ==> ranks_before(#[trigger] top[i], #[trigger] top[j]),
        crate::patch::distinct_texts(ranked_suffixes(top)),
        ranked_total(top) <= sfx.len(),
{
    assert forall|i: int| 0 <= i < top.len() implies (#[trigger] top[i]).1 >= 1 by {
        lemma_count_positive(sfx, top[i].0);
    }
    let ks = ranked_suffixes(top);
    assert forall|i: int, j: int| 0 <= i < j < ks.len() implies #[trigger] ks[i] != #[trigger] ks[j] by {
        assert(ranks_before(top[i], top[j]));
        if ks[i] == ks[j] {
            assert(top[i].1 == top[j].1);
            crate::text::lemma_text_lt_irreflexive(ks[i]);
        }
    }
    lemma_ranked_total(top, sfx);
    lemma_counts_sum_bound(ks, sfx);
}

/// `s` is the suffix of one of `names`.
pub open spec fn suffix_of_some(names: Seq<Seq<char>>, s: Seq<char>) -> bool {
    exists|j: int| 0 <= j < names.len() && s == #[trigger] suffix_of(names[j])
}

/// Each suffix ranked for a project is that of one of the sampled names:
/// `.` and its extension, or `<none>` for a name without one.
pub proof fn lemma_top_suffix_forms(top: Seq<(Seq<char>, nat)>, names: Seq<Seq<char>>, limit: nat)
    requires
        top_suffixes_of(top, names.map_values(|n: Seq<char>| suffix_of(n)), limit),
    ensures
        forall|i: int| 0 <= i < top.len() ==> suffix_of_some(names, (#[trigger] top[i]).0),
{
    let sfx = names.map_values(|n: Seq<char>| suffix_of(n));
    assert forall|i: int| 0 <= i < top.len() implies suffix_of_some(names, (#[trigger] top[i]).0) by {
        assert(crate::organs::occurs(sfx, top[i].0));
        let j = choose|j: int| 0 <= j < sfx.len() && #[trigger] sfx[j] == top[i].0;
        assert(sfx[j] == suffix_of(names[j]));
    }
}

proof fn lemma_found_token(joined: Seq<char>, raws: Seq<Seq<char>>, trimmed: Seq<Seq<char>>, k: int)
    requires
        raws.len() == trimmed.len(),
        0 <= k < raws.len(),
        occurs_in(joined, raws[k]),
    ensures
        crate::organs::occurs(found_tokens(joined, raws, trimmed), trimmed[k]),
    decreases raws.len(),
{
    let r = found_tokens(joined, raws.drop_last(), trimmed.drop_last());
    if k == raws.len() - 1 {
        assert(r.push(trimmed.last())[r.len() as int] == trimmed[k]);
    } else {
        assert(raws.drop_last()[k] == raws[k]);
        assert(trimmed.drop_last()[k] == trimmed[k]);
        lemma_found_token(joined, raws.drop_last(), trimmed.drop_last(), k);
        let j = choose|j: int| 0 <= j < r.len() && #[trigger] r[j] == trimmed[k];
        if occurs_in(joined, raws.last()) {
            assert(r.push(trimmed.last())[j] == trimmed[k]);
        }
    }
}

proof fn lemma_signal_reported(joined: Seq<char>, sigs: Seq<SignalView>, m: int)
    requires
        0 <= m < sigs.len(),
        found_tokens(joined, sigs[m].raws, sigs[m].trimmed).len() > 0,
    ensures
        exists|k: int|
            0 <= k < pain_points_of(joined, sigs).len() && #[trigger] pain_points_of(joined, sigs)[k] == (
                sigs[m].signal,
                found_tokens(joined, sigs[m].raws, sigs[m].trimmed),
                sigs[m].candidate,
            ),
    decreases sigs.len(),
{
    let r = pain_points_of(joined, sigs.drop_last());
    if m == sigs.len() - 1 {
        let k = r.len() as int;
        assert(pain_points_of(joined, sigs)[k] == (
            sigs[m].signal,
            found_tokens(joined, sigs[m].raws, sigs[m].trimmed),
            sigs[m].candidate,
        ));
    } else {
        assert(sigs.drop_last()[m] == sigs[m]);
        lemma_signal_reported(joined, sigs.drop_last(), m);
        let k = choose|k: int|
            0 <= k < r.len() && #[trigger] r[k] == (
                sigs[m].signal,
                found_tokens(joined, sigs[m].raws, sigs[m].trimmed),
                sigs[m].candidate,
            );
        let ev = found_tokens(joined, sigs.last().raws, sigs.last().trimmed);
        if ev.len() > 0 {
            assert(pain_points_of(joined, sigs) == r.push((sigs.last().signal, ev, sigs.last().candidate)));
            assert(pain_points_of(joined, sigs)[k] == r[k]);
        } else {
            assert(pain_points_of(joined, sigs) == r);
        }
        assert(0 <= k < pain_points_of(joined, sigs).len());
        assert(pain_points_of(joined, sigs)[k] == r[k]);
    }
}

/// A tool of a signal found in the shell history makes that signal a pain
/// point with the tool among its evidence: `pdftotext`, `zotero` or
/// `ocrmypdf` for repeated manual pdf tooling; `pytest`, `ruff` or `uv `
/// (reported as `uv`) for repeated Python project setup; `ffmpeg`,
/// `imagemagick` or `yt-dlp` for repeated media processing.
pub proof fn lemma_tool_use_is_reported(joined: Seq<char>, signal: Seq<char>, searched: Seq<char>, token: Seq<char>)
    requires
        (signal == "repeated manual pdf tooling"@ && searched == token && (token == "pdftotext"@ || token == "zotero"@
            || token == "ocrmypdf"@)) || (signal == "repeated Python project setup"@ && ((searched == token && (token
            == "pytest"@ || token == "ruff"@)) || (searched == "uv "@ && token == "uv"@))) || (signal
            == "repeated media processing"@ && searched == token && (token == "ffmpeg"@ || token == "imagemagick"@
            || token == "yt-dlp"@)),
        occurs_in(joined, searched),
    ensures
        exists|k: int|
            0 <= k < pain_points_of(joined, signals()).len() && (#[trigger] pain_points_of(joined, signals())[k]).0
                == signal && crate::organs::occurs(pain_points_of(joined, signals())[k].1, token),
{
    let sigs = signals();
    let m: int = if signal == "repeated manual pdf tooling"@ {
        0
    } else if signal == "repeated Python project setup"@ {
        1
    } else {
        2
    };
    reveal_strlit("repeated manual pdf tooling");
    reveal_strlit("repeated Python project setup");
    reveal_strlit("repeated media processing");
    assert("repeated manual pdf tooling"@.len() == 27 && "repeated Python project setup"@.len() == 29
        && "repeated media processing"@.len() == 25);
    let s = sigs[m];
    assert(s.signal == signal);
    let j: int = if searched == s.raws[0] {
        0
    } else if searched == s.raws[1] {
        1
    } else {
        2
    };
    reveal_strlit("pdftotext");
    reveal_strlit("zotero");
    reveal_strlit("ocrmypdf");
    reveal_strlit("pytest");
    reveal_strlit("ruff");
    reveal_strlit("uv ");
    reveal_strlit("uv");
    reveal_strlit("ffmpeg");
    reveal_strlit("imagemagick");
    reveal_strlit("yt-dlp");
    assert(s.raws[j] == searched && s.trimmed[j] == token);
    lemma_found_token(joined, s.raws, s.trimmed, j);
    lemma_signal_reported(joined, sigs, m);
    let ev = found_tokens(joined, s.raws, s.trimmed);
    let k = choose|k: int|
        0 <= k < pain_points_of(joined, sigs).len() && #[trigger] pain_points_of(joined, sigs)[k] == (
            s.signal,
            ev,
            s.candidate,
        );
    assert(pain_points_of(joined, sigs)[k].1 == ev);
}

} // verus!
