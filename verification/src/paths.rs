//! Unix path text, read the way `std::path::Path` reads it: a leading `/`
//! makes a path absolute, `/`-separated pieces are components, empty pieces
//! and `.` vanish (a leading `.` of a relative path stays), `..` names the
//! parent.
use vstd::prelude::*;

use crate::lines::{lemma_segments_len, segments, split_on};
use crate::text::{compare_text, join3, text_starts_with, TextOrder};

verus! {

/// A path component as a value.
pub enum ComponentView {
    Root,
    Current,
    Parent,
    Normal(Seq<char>),
}

/// A path component.
#[derive(Debug)]
pub enum PathComponent {
    Root,
    Current,
    Parent,
    Normal(String),
}

pub open spec fn component_view(c: PathComponent) -> ComponentView {
    match c {
        PathComponent::Root => ComponentView::Root,
        PathComponent::Current => ComponentView::Current,
        PathComponent::Parent => ComponentView::Parent,
        PathComponent::Normal(s) => ComponentView::Normal(s@),
    }
}

pub open spec fn component_views(v: Seq<PathComponent>) -> Seq<ComponentView> {
    v.map_values(|c: PathComponent| component_view(c))
}

pub open spec fn is_absolute(p: Seq<char>) -> bool {
    p.len() > 0 && p[0] == '/'
}

/// The components named by a list of `/`-separated pieces, none leading.
pub open spec fn piece_components(pieces: Seq<Seq<char>>) -> Seq<ComponentView>
    decreases pieces.len(),
{
    if pieces.len() == 0 {
        Seq::empty()
    } else {
        let r = piece_components(pieces.drop_last());
        let x = pieces.last();
        if x.len() == 0 || x == "."@ {
            r
        } else if x == ".."@ {
            r.push(ComponentView::Parent)
        } else {
            r.push(ComponentView::Normal(x))
        }
    }
}

/// The components of the path `p`.
pub open spec fn path_components(p: Seq<char>) -> Seq<ComponentView> {
    let pieces = segments(p, '/');
    if is_absolute(p) {
        seq![ComponentView::Root] + piece_components(pieces.drop_first())
    } else if pieces[0] == "."@ {
        seq![ComponentView::Current] + piece_components(pieces.drop_first())
    } else {
        piece_components(pieces)
    }
}

/// The components left after resolving `.` and `..` lexically, as
/// `PathBuf::push` and `PathBuf::pop` would leave them: `..` drops the last
/// component, but never the root.
pub open spec fn normalized(cs: Seq<ComponentView>) -> Seq<ComponentView>
    decreases cs.len(),
{
    if cs.len() == 0 {
        Seq::empty()
    } else {
        let n = normalized(cs.drop_last());
        match cs.last() {
            ComponentView::Current => n,
            ComponentView::Parent => if n.len() > 0 && !(n.len() == 1 && n[0] is Root) {
                n.drop_last()
            } else {
                n
            },
            c => n.push(c),
        }
    }
}

/// `prefix` is a leading run of components of `cs`.
pub open spec fn starts_with_components(cs: Seq<ComponentView>, prefix: Seq<ComponentView>) -> bool {
    prefix.len() <= cs.len() && cs.take(prefix.len() as int) == prefix
}

pub open spec fn has_parent_component(p: Seq<char>) -> bool {
    exists|i: int| 0 <= i < path_components(p).len() && #[trigger] path_components(p)[i] is Parent
}

/// Why `p` cannot name a place inside a worktree, if it cannot.
pub open spec fn relative_path_problem(p: Seq<char>) -> Option<Seq<char>> {
    if is_absolute(p) {
        Some("path '"@ + p + "' must be relative"@)
    } else if has_parent_component(p) {
        Some("path '"@ + p + "' must stay inside the worktree"@)
    } else {
        None
    }
}

// ---------------------------------------------------------------------------
// Laws of components
// ---------------------------------------------------------------------------

/// The components of consecutive piece lists are those of each, in order.
pub proof fn lemma_piece_components_concat(a: Seq<Seq<char>>, b: Seq<Seq<char>>)
    ensures
        piece_components(a + b) == piece_components(a) + piece_components(b),
    decreases b.len(),
{
    if b.len() == 0 {
        assert(a + b =~= a);
        assert(piece_components(a) + piece_components(b) =~= piece_components(a));
    } else {
        let b1 = b.drop_last();
        lemma_piece_components_concat(a, b1);
        assert((a + b).drop_last() =~= a + b1);
        assert((a + b).last() == b.last());
        let pa = piece_components(a);
        let pb1 = piece_components(b1);
        assert((pa + pb1).push(ComponentView::Parent) =~= pa + pb1.push(ComponentView::Parent));
        assert((pa + pb1).push(ComponentView::Normal(b.last())) =~= pa + pb1.push(ComponentView::Normal(b.last())));
    }
}

/// Pieces name only plain components and parents.
pub proof fn lemma_piece_components_kinds(pieces: Seq<Seq<char>>)
    ensures
        forall|i: int|
            0 <= i < piece_components(pieces).len() ==> (#[trigger] piece_components(pieces)[i] is Normal
                || piece_components(pieces)[i] is Parent),
    decreases pieces.len(),
{
    if pieces.len() > 0 {
        lemma_piece_components_kinds(pieces.drop_last());
    }
}

/// An absolute path splits into an empty piece, then the pieces of the rest.
pub proof fn lemma_absolute_segments(p: Seq<char>)
    requires
        is_absolute(p),
    ensures
        segments(p, '/') == seq![Seq::<char>::empty()] + segments(p.skip(1), '/'),
{
    let x = seq!['/'];
    assert(x + p.skip(1) =~= p);
    assert(x.drop_last() =~= Seq::<char>::empty());
    assert(x.last() == '/');
    assert(segments(x.drop_last(), '/') == seq![Seq::<char>::empty()]);
    assert(segments(x, '/') == segments(x.drop_last(), '/').push(Seq::<char>::empty()));
    assert(seq![Seq::<char>::empty()].push(Seq::<char>::empty()) =~= seq![Seq::<char>::empty(), Seq::<char>::empty()]);
    crate::lines::lemma_segments_concat(x, p.skip(1), '/');
    crate::lines::lemma_segments_len(p.skip(1), '/');
    let s = segments(p.skip(1), '/');
    assert(Seq::<char>::empty() + s[0] =~= s[0]);
    assert(seq![Seq::<char>::empty()] + seq![s[0]] + s.drop_first() =~= seq![Seq::<char>::empty()] + s);
}

/// Lexical normalization leaves plain components appended after a path in
/// place.
pub proof fn lemma_normalized_plain_suffix(a: Seq<ComponentView>, b: Seq<ComponentView>)
    requires
        forall|i: int| 0 <= i < b.len() ==> #[trigger] b[i] is Normal,
    ensures
        normalized(a + b) == normalized(a) + b,
    decreases b.len(),
{
    if b.len() == 0 {
        assert(a + b =~= a);
        assert(normalized(a) + b =~= normalized(a));
    } else {
        let b1 = b.drop_last();
        assert forall|i: int| 0 <= i < b1.len() implies #[trigger] b1[i] is Normal by {
            assert(b1[i] == b[i]);
        }
        lemma_normalized_plain_suffix(a, b1);
        assert((a + b).drop_last() =~= a + b1);
        assert((a + b).last() == b.last());
        assert(b.last() is Normal);
        assert((normalized(a) + b1).push(b.last()) =~= normalized(a) + b);
    }
}

/// A component name as a path can hold it: not empty, not `.` or `..`, and
/// without `/`.
pub open spec fn plain_name(x: Seq<char>) -> bool {
    &&& x.len() > 0
    &&& x != "."@
    &&& x != ".."@
    &&& forall|i: int| 0 <= i < x.len() ==> #[trigger] x[i] != '/'
}

/// Components as path text gives them: a root only first, plain names.
pub open spec fn well_named(cs: Seq<ComponentView>) -> bool {
    forall|i: int|
        0 <= i < cs.len() ==> (#[trigger] cs[i] is Root ==> i == 0) && (cs[i] matches ComponentView::Normal(x)
            ==> plain_name(x))
}

/// Resolved components: a root only first, then plain names only.
pub open spec fn resolved(cs: Seq<ComponentView>) -> bool {
    forall|i: int|
        0 <= i < cs.len() ==> (#[trigger] cs[i] is Root && i == 0) || (cs[i] matches ComponentView::Normal(x)
            && plain_name(x))
}

/// No piece of a split holds the separator.
pub proof fn lemma_segments_free_of_sep(s: Seq<char>, sep: char)
    ensures
        forall|k: int, i: int|
            0 <= k < segments(s, sep).len() && 0 <= i < segments(s, sep)[k].len() ==> #[trigger] segments(
                s,
                sep,
            )[k][i] != sep,
    decreases s.len(),
{
    if s.len() > 0 {
        lemma_segments_free_of_sep(s.drop_last(), sep);
        lemma_segments_len(s.drop_last(), sep);
    }
}

/// Pieces without `/` give parents and plain names.
proof fn lemma_piece_components_named(pieces: Seq<Seq<char>>)
    requires
        forall|k: int, i: int| 0 <= k < pieces.len() && 0 <= i < pieces[k].len() ==> #[trigger] pieces[k][i] != '/',
    ensures
        forall|i: int|
            0 <= i < piece_components(pieces).len() ==> (#[trigger] piece_components(pieces)[i] is Parent)
                || (piece_components(pieces)[i] matches ComponentView::Normal(x) && plain_name(x)),
    decreases pieces.len(),
{
    if pieces.len() > 0 {
        let p1 = pieces.drop_last();
        assert forall|k: int, i: int| 0 <= k < p1.len() && 0 <= i < p1[k].len() implies #[trigger] p1[k][i] != '/' by {
            assert(p1[k] == pieces[k]);
        }
        lemma_piece_components_named(p1);
        let x = pieces.last();
        assert forall|i: int| 0 <= i < x.len() implies #[trigger] x[i] != '/' by {
            assert(x == pieces[pieces.len() - 1]);
        }
    }
}

/// The components of any path text are well named.
pub proof fn lemma_path_components_well_named(p: Seq<char>)
    ensures
        well_named(path_components(p)),
{
    let pieces = segments(p, '/');
    lemma_segments_len(p, '/');
    lemma_segments_free_of_sep(p, '/');
    let rest = pieces.drop_first();
    assert forall|k: int, i: int| 0 <= k < rest.len() && 0 <= i < rest[k].len() implies #[trigger] rest[k][i] != '/' by {
        assert(rest[k] == pieces[k + 1]);
    }
    lemma_piece_components_named(rest);
    lemma_piece_components_named(pieces);
    let cs = path_components(p);
    if is_absolute(p) || pieces[0] == "."@ {
        let pc = piece_components(rest);
        assert forall|i: int| 0 <= i < cs.len() implies (#[trigger] cs[i] is Root ==> i == 0) && (cs[i] matches ComponentView::Normal(
            x,
        ) ==> plain_name(x)) by {
            if i > 0 {
                assert(cs[i] == pc[i - 1]);
            }
        }
    }
}

/// Resolving well named components leaves resolved ones.
pub proof fn lemma_normalized_resolved(cs: Seq<ComponentView>)
    requires
        well_named(cs),
    ensures
        resolved(normalized(cs)),
    decreases cs.len(),
{
    if cs.len() > 0 {
        let c1 = cs.drop_last();
        assert forall|i: int| 0 <= i < c1.len() implies (#[trigger] c1[i] is Root ==> i == 0) && (c1[i] matches ComponentView::Normal(
            x,
        ) ==> plain_name(x)) by {
            assert(c1[i] == cs[i]);
        }
        lemma_normalized_resolved(c1);
        let n = normalized(c1);
        assert(cs.last() == cs[cs.len() - 1]);
        if cs.last() is Root {
            assert(c1.len() == 0);
            assert(n.len() == 0);
        }
        let r = normalized(cs);
        assert forall|i: int| 0 <= i < r.len() implies (#[trigger] r[i] is Root && i == 0) || (r[i] matches ComponentView::Normal(
            x,
        ) && plain_name(x)) by {
            if i < n.len() {
                assert(r[i] == n[i]);
            }
        }
    }
}

/// Resolved components resolve to themselves.
pub proof fn lemma_normalized_resolved_fixed(cs: Seq<ComponentView>)
    requires
        resolved(cs),
    ensures
        normalized(cs) == cs,
    decreases cs.len(),
{
    if cs.len() > 0 {
        let c1 = cs.drop_last();
        assert forall|i: int| 0 <= i < c1.len() implies (#[trigger] c1[i] is Root && i == 0) || (c1[i] matches ComponentView::Normal(
            x,
        ) && plain_name(x)) by {
            assert(c1[i] == cs[i]);
        }
        lemma_normalized_resolved_fixed(c1);
        assert(cs.last() == cs[cs.len() - 1]);
        assert(c1.push(cs.last()) =~= cs);
    }
}

/// Plain names as pieces give exactly those names as components.
pub proof fn lemma_piece_components_plain(names: Seq<Seq<char>>)
    requires
        forall|k: int| 0 <= k < names.len() ==> plain_name(#[trigger] names[k]),
    ensures
        piece_components(names) == names.map_values(|x: Seq<char>| ComponentView::Normal(x)),
    decreases names.len(),
{
    if names.len() > 0 {
        let n1 = names.drop_last();
        assert forall|k: int| 0 <= k < n1.len() implies plain_name(#[trigger] n1[k]) by {
            assert(n1[k] == names[k]);
        }
        lemma_piece_components_plain(n1);
        assert(plain_name(names[names.len() - 1]));
        assert(n1.map_values(|x: Seq<char>| ComponentView::Normal(x)).push(ComponentView::Normal(names.last()))
            =~= names.map_values(|x: Seq<char>| ComponentView::Normal(x)));
    }
}

// ---------------------------------------------------------------------------
// Executable
// ---------------------------------------------------------------------------

fn copy_component(c: &PathComponent) -> (r: PathComponent)
    ensures
        component_view(r) == component_view(*c),
{
    match c {
        PathComponent::Root => PathComponent::Root,
        PathComponent::Current => PathComponent::Current,
        PathComponent::Parent => PathComponent::Parent,
        PathComponent::Normal(s) => PathComponent::Normal(s.clone()),
    }
}

fn same_component(a: &PathComponent, b: &PathComponent) -> (r: bool)
    ensures
        r == (component_view(*a) == component_view(*b)),
{
    match (a, b) {
        (PathComponent::Root, PathComponent::Root) => true,
        (PathComponent::Current, PathComponent::Current) => true,
        (PathComponent::Parent, PathComponent::Parent) => true,
        (PathComponent::Normal(x), PathComponent::Normal(y)) => {
            match compare_text(x.as_str(), y.as_str()) {
                TextOrder::Equal => true,
                _ => false,
            }
        },
        _ => false,
    }
}

/// Whether `p` starts at the root.
pub fn is_absolute_path(p: &str) -> (r: bool)
    ensures
        r == is_absolute(p@),
{
    let r = text_starts_with(p, "/");
    proof {
        reveal_strlit("/");
        if is_absolute(p@) {
            assert(p@.subrange(0, 1) =~= "/"@);
        }
        if r {
            assert(p@[0] == p@.subrange(0, 1)[0]);
        }
    }
    r
}

/// The components of the path `p`.
pub fn components(p: &str) -> (r: Vec<PathComponent>)
    ensures
        component_views(r@) == path_components(p@),
{
    let pieces = split_on(p, '/');
    proof {
        lemma_segments_len(p@, '/');
    }
    let ghost ps = segments(p@, '/');
    let mut r: Vec<PathComponent> = Vec::new();
    let mut start: usize = 0;
    let ghost lead: Seq<ComponentView> = Seq::empty();
    if is_absolute_path(p) {
        r.push(PathComponent::Root);
        start = 1;
        proof {
            lead = seq![ComponentView::Root];
        }
    } else {
        let is_dot = match compare_text(pieces[0].as_str(), ".") {
            TextOrder::Equal => true,
            _ => false,
        };
        assert(pieces@[0]@ == ps[0]);
        if is_dot {
            r.push(PathComponent::Current);
            start = 1;
            proof {
                lead = seq![ComponentView::Current];
            }
        }
    }
    assert(component_views(r@) =~= lead + piece_components(ps.subrange(start as int, start as int)));
    let mut k: usize = start;
    while k < pieces.len()
        invariant
            start <= k <= pieces@.len(),
            ps.len() == pieces@.len(),
            forall|j: int| 0 <= j < ps.len() ==> #[trigger] ps[j] == pieces@[j]@,
            component_views(r@) == lead + piece_components(ps.subrange(start as int, k as int)),
        decreases pieces@.len() - k,
    {
        let ghost before = component_views(r@);
        assert(ps.subrange(start as int, k + 1).drop_last() =~= ps.subrange(start as int, k as int));
        assert(ps.subrange(start as int, k + 1).last() == pieces@[k as int]@);
        let piece = &pieces[k];
        let empty = match compare_text(piece.as_str(), "") {
            TextOrder::Equal => true,
            _ => false,
        };
        let skip = empty || match compare_text(piece.as_str(), ".") {
            TextOrder::Equal => true,
            _ => false,
        };
        proof {
            reveal_strlit("");
            if piece@.len() == 0 {
                assert(piece@ =~= ""@);
            }
        }
        if skip {
        } else if let TextOrder::Equal = compare_text(piece.as_str(), "..") {
            r.push(PathComponent::Parent);
            assert(component_views(r@) =~= before.push(ComponentView::Parent));
        } else {
            r.push(PathComponent::Normal(piece.clone()));
            assert(component_views(r@) =~= before.push(ComponentView::Normal(piece@)));
        }
        k += 1;
    }
    proof {
        assert(ps.subrange(start as int, k as int) =~= ps.drop_first() || start == 0);
        if start == 0 {
            assert(ps.subrange(0, k as int) =~= ps);
            assert(lead =~= Seq::<ComponentView>::empty());
            assert(component_views(r@) =~= piece_components(ps));
        } else {
            assert(ps.subrange(1, k as int) =~= ps.drop_first());
        }
    }
    r
}

/// `cs` with `.` and `..` resolved lexically.
pub fn normalize(cs: &Vec<PathComponent>) -> (r: Vec<PathComponent>)
    ensures
        component_views(r@) == normalized(component_views(cs@)),
{
    let ghost v = component_views(cs@);
    let mut r: Vec<PathComponent> = Vec::new();
    let mut i: usize = 0;
    assert(v.take(0) =~= Seq::<ComponentView>::empty());
    while i < cs.len()
        invariant
            i <= cs@.len(),
            v == component_views(cs@),
            component_views(r@) == normalized(v.take(i as int)),
        decreases cs@.len() - i,
    {
        let ghost n = component_views(r@);
        assert(v.take(i + 1).drop_last() =~= v.take(i as int));
        assert(v.take(i + 1).last() == component_view(cs@[i as int]));
        match &cs[i] {
            PathComponent::Current => {},
            PathComponent::Parent => {
                let len = r.len();
                let at_root = len == 1 && match &r[0] {
                    PathComponent::Root => true,
                    _ => false,
                };
                if len > 0 && !at_root {
                    r.pop();
                    assert(component_views(r@) =~= n.drop_last());
                }
            },
            c => {
                r.push(copy_component(c));
                assert(component_views(r@) =~= n.push(component_view(*c)));
            },
        }
        i += 1;
    }
    assert(v.take(i as int) =~= v);
    r
}

/// The lexically normalized components of the path `p`.
pub fn normalize_components(p: &str) -> (r: Vec<PathComponent>)
    ensures
        component_views(r@) == normalized(path_components(p@)),
{
    let cs = components(p);
    normalize(&cs)
}

/// Whether `prefix` is a leading run of components of `cs`.
pub fn components_start_with(cs: &Vec<PathComponent>, prefix: &Vec<PathComponent>) -> (r: bool)
    ensures
        r == starts_with_components(component_views(cs@), component_views(prefix@)),
{
    if prefix.len() > cs.len() {
        return false;
    }
    let mut i: usize = 0;
    while i < prefix.len()
        invariant
            prefix@.len() <= cs@.len(),
            i <= prefix@.len(),
            forall|j: int| 0 <= j < i ==> #[trigger] component_view(cs@[j]) == component_view(prefix@[j]),
        decreases prefix@.len() - i,
    {
        if !same_component(&cs[i], &prefix[i]) {
            proof {
                let a = component_views(cs@).take(prefix@.len() as int);
                assert(a[i as int] != component_views(prefix@)[i as int]);
            }
            return false;
        }
        i += 1;
    }
    assert(component_views(cs@).take(prefix@.len() as int) =~= component_views(prefix@));
    true
}

/// Whether two component lists are equal.
pub fn same_components(a: &Vec<PathComponent>, b: &Vec<PathComponent>) -> (r: bool)
    ensures
        r == (component_views(a@) == component_views(b@)),
{
    if a.len() != b.len() {
        proof {
            if component_views(a@) == component_views(b@) {
                assert(component_views(a@).len() == component_views(b@).len());
            }
        }
        return false;
    }
    let r = components_start_with(a, b);
    proof {
        assert(component_views(a@).take(b@.len() as int) =~= component_views(a@));
    }
    r
}

/// Whether `path` lies under `prefix` once both are normalized.
pub fn normalized_starts_with(path: &str, prefix: &str) -> (r: bool)
    ensures
        r == starts_with_components(normalized(path_components(path@)), normalized(path_components(prefix@))),
{
    let a = normalize_components(path);
    let b = normalize_components(prefix);
    components_start_with(&a, &b)
}

/// Whether some component of `p` is `..`.
pub fn path_has_parent_component(p: &str) -> (r: bool)
    ensures
        r == has_parent_component(p@),
{
    let cs = components(p);
    let mut i: usize = 0;
    while i < cs.len()
        invariant
            i <= cs@.len(),
            component_views(cs@) == path_components(p@),
            forall|j: int| 0 <= j < i ==> !(#[trigger] component_view(cs@[j]) is Parent),
        decreases cs@.len() - i,
    {
        if let PathComponent::Parent = &cs[i] {
            assert(path_components(p@)[i as int] is Parent);
            return true;
        }
        i += 1;
    }
    proof {
        if has_parent_component(p@) {
            let j = choose|j: int| 0 <= j < path_components(p@).len() && #[trigger] path_components(p@)[j] is Parent;
            assert(component_view(cs@[j]) is Parent);
        }
    }
    false
}

/// Checks that `path` is relative and never climbs out with `..`.
pub fn validate_relative_path(path: &str) -> (r: Result<(), String>)
    ensures
        match r {
            Ok(()) => relative_path_problem(path@) is None,
            Err(e) => relative_path_problem(path@) == Some(e@),
        },
{
    if is_absolute_path(path) {
        return Err(join3("path '", path, "' must be relative"));
    }
    if path_has_parent_component(path) {
        return Err(join3("path '", path, "' must stay inside the worktree"));
    }
    Ok(())
}

} // verus!
