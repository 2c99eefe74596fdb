//! Journal entries: `key=value` metadata, the mutation, effect and
//! generation records that the journal tool appends, and the paths an
//! evidence sidecar may not take.
use vstd::prelude::*;

use crate::patch::{find_char, first_index};
use crate::lines::{lemma_segments_join, segments};
use crate::paths::{
    component_view, component_views, components, components_start_with, is_absolute,
    lemma_absolute_segments, lemma_normalized_resolved, lemma_normalized_resolved_fixed,
    lemma_path_components_well_named, lemma_piece_components_plain, normalize, normalized,
    path_components, piece_components, plain_name, resolved, starts_with_components, ComponentView,
    PathComponent,
};
use crate::records::{
    EffectRecord, EffectRisk, GenerationRecord, LineageStatus, MutationRecord, MutationStatus,
};
use crate::strmap::{pairs_from, StringMap, TextPairs};
use crate::text::{chars_of, copy_strings, join2, join_texts, join_with, string_from, views};

verus! {

// ---------------------------------------------------------------------------
// Metadata
// ---------------------------------------------------------------------------

/// `s` split at its first `=`, if it has one.
pub open spec fn metadata_entry(s: Seq<char>) -> Option<(Seq<char>, Seq<char>)> {
    let k = first_index(s, '=');
    if k < s.len() {
        Some((s.take(k), s.skip(k + 1)))
    } else {
        None
    }
}

/// The first item that is not `key=value`, as an error.
pub open spec fn metadata_problem(items: Seq<Seq<char>>) -> Option<Seq<char>>
    decreases items.len(),
{
    if items.len() == 0 {
        None
    } else if metadata_entry(items[0]) is None {
        Some("metadata must be key=value, got: "@ + items[0])
    } else {
        metadata_problem(items.drop_first())
    }
}

/// The entries of well-formed metadata items, in order.
pub open spec fn metadata_entries(items: Seq<Seq<char>>) -> TextPairs {
    items.map_values(|s: Seq<char>| metadata_entry(s)->0)
}

proof fn lemma_first_index_bounds(s: Seq<char>, c: char)
    ensures
        0 <= first_index(s, c) <= s.len(),
        first_index(s, c) < s.len() ==> s[first_index(s, c)] == c,
    decreases s.len(),
{
    if s.len() > 0 && s[0] != c {
        lemma_first_index_bounds(s.drop_first(), c);
        if first_index(s, c) < s.len() {
            assert(s[first_index(s, c)] == s.drop_first()[first_index(s.drop_first(), c)]);
        }
    }
}

/// The metadata table of `key=value` items, split at the first `=`; a later
/// item for the same key replaces an earlier one.
pub fn parse_metadata(items: &Vec<String>) -> (r: Result<StringMap, String>)
    ensures
        match r {
            Ok(m) => metadata_problem(views(items@)) is None && m@ == pairs_from(metadata_entries(views(items@))),
            Err(e) => metadata_problem(views(items@)) == Some(e@),
        },
{
    let ghost v = views(items@);
    let mut m = StringMap::new();
    let mut i: usize = 0;
    proof {
        assert(v.skip(0) =~= v);
        assert(metadata_entries(v.take(0)) =~= Seq::<(Seq<char>, Seq<char>)>::empty());
        assert(pairs_from(metadata_entries(v.take(0))) =~= Seq::<(Seq<char>, Seq<char>)>::empty());
    }
    while i < items.len()
        invariant
            i <= items@.len(),
            v == views(items@),
            metadata_problem(v) == metadata_problem(v.skip(i as int)),
            m@ == pairs_from(metadata_entries(v.take(i as int))),
        decreases items@.len() - i,
    {
        let item = items[i].as_str();
        assert(v[i as int] == item@);
        assert(v.skip(i as int)[0] == item@);
        assert(v.skip(i as int).drop_first() =~= v.skip(i + 1));
        let cs = chars_of(item);
        let k = find_char(&cs, 0, '=');
        assert(cs@.skip(0) =~= cs@);
        proof {
            lemma_first_index_bounds(item@, '=');
        }
        if k == cs.len() {
            return Err(join2("metadata must be key=value, got: ", item));
        }
        let key = string_from(vstd::slice::slice_subrange(cs.as_slice(), 0, k));
        let value = string_from(vstd::slice::slice_subrange(cs.as_slice(), k + 1, cs.len()));
        proof {
            assert(key@ =~= item@.take(k as int));
            assert(value@ =~= item@.skip(k + 1));
            let es = metadata_entries(v.take(i + 1));
            assert(es.drop_last() =~= metadata_entries(v.take(i as int)));
            assert(es.last() == (key@, value@));
        }
        m.insert(key, value);
        i += 1;
    }
    proof {
        assert(v.skip(i as int) =~= Seq::<Seq<char>>::empty());
        assert(v.take(i as int) =~= v);
    }
    Ok(m)
}

// ---------------------------------------------------------------------------
// Journal records
// ---------------------------------------------------------------------------

/// The entry `append` adds to the mutation journal. The id is the one given,
/// or `generated_id` when none was.
pub fn append_mutation(
    mutation_id: Option<String>,
    generated_id: String,
    timestamp: String,
    goal: String,
    status: MutationStatus,
    phase: String,
    reason: String,
    changed_paths: Vec<String>,
    next_hypothesis: String,
    metadata: &Vec<String>,
) -> (r: Result<MutationRecord, String>)
    ensures
        match r {
            Ok(rec) => {
                &&& rec.mutation_id == (match mutation_id {
                    Some(id) => id,
                    None => generated_id,
                })
                &&& rec.timestamp == timestamp
                &&& rec.goal == goal
                &&& rec.status == status
                &&& rec.phase == phase
                &&& rec.reason == reason
                &&& rec.changed_paths == changed_paths
                &&& rec.next_hypothesis == next_hypothesis
                &&& metadata_problem(views(metadata@)) is None
                &&& rec.metadata@ == pairs_from(metadata_entries(views(metadata@)))
            },
            Err(e) => metadata_problem(views(metadata@)) == Some(e@),
        },
{
    let table = match parse_metadata(metadata) {
        Ok(m) => m,
        Err(e) => {
            return Err(e);
        },
    };
    Ok(MutationRecord {
        mutation_id: match mutation_id {
            Some(id) => id,
            None => generated_id,
        },
        timestamp,
        goal,
        status,
        phase,
        reason,
        changed_paths,
        next_hypothesis,
        metadata: table,
    })
}

/// The entry `effect` adds to the effect journal. The id is the one given,
/// or `generated_id` when none was.
pub fn append_effect(
    effect_id: Option<String>,
    generated_id: String,
    timestamp: String,
    mutation_id: String,
    effect_type: String,
    target: String,
    reversible: bool,
    compensation: String,
    verified_by: String,
    risk: EffectRisk,
    metadata: &Vec<String>,
) -> (r: Result<EffectRecord, String>)
    ensures
        match r {
            Ok(rec) => {
                &&& rec.effect_id == (match effect_id {
                    Some(id) => id,
                    None => generated_id,
                })
                &&& rec.timestamp == timestamp
                &&& rec.mutation_id == mutation_id
                &&& rec.effect_type == effect_type
                &&& rec.target == target
                &&& rec.reversible == reversible
                &&& rec.compensation == compensation
                &&& rec.verified_by == verified_by
                &&& rec.risk == risk
                &&& metadata_problem(views(metadata@)) is None
                &&& rec.metadata@ == pairs_from(metadata_entries(views(metadata@)))
            },
            Err(e) => metadata_problem(views(metadata@)) == Some(e@),
        },
{
    let table = match parse_metadata(metadata) {
        Ok(m) => m,
        Err(e) => {
            return Err(e);
        },
    };
    Ok(EffectRecord {
        effect_id: match effect_id {
            Some(id) => id,
            None => generated_id,
        },
        timestamp,
        mutation_id,
        effect_type,
        target,
        reversible,
        compensation,
        verified_by,
        risk,
        metadata: table,
    })
}

/// The entry `generation` adds to the generation lineage journal.
pub fn append_generation(
    timestamp: String,
    lineage_status: LineageStatus,
    generation: String,
    mutation_id: String,
    goal: String,
    changed_organs: Vec<String>,
    parent_generation: Option<String>,
    activation_result: String,
    verification_id: Option<String>,
    promotion_id: Option<String>,
    target_root: Option<String>,
    target_configuration: Option<String>,
    metadata: &Vec<String>,
) -> (r: Result<GenerationRecord, String>)
    ensures
        match r {
            Ok(rec) => {
                &&& rec.timestamp == timestamp
                &&& rec.lineage_status == lineage_status
                &&& rec.generation == generation
                &&& rec.mutation_id == mutation_id
                &&& rec.goal == goal
                &&& rec.changed_organs == changed_organs
                &&& rec.parent_generation == parent_generation
                &&& rec.activation_result == activation_result
                &&& rec.verification_id == verification_id
                &&& rec.promotion_id == promotion_id
                &&& rec.target_root == target_root
                &&& rec.target_configuration == target_configuration
                &&& metadata_problem(views(metadata@)) is None
                &&& rec.metadata@ == pairs_from(metadata_entries(views(metadata@)))
            },
            Err(e) => metadata_problem(views(metadata@)) == Some(e@),
        },
{
    let table = match parse_metadata(metadata) {
        Ok(m) => m,
        Err(e) => {
            return Err(e);
        },
    };
    Ok(GenerationRecord {
        timestamp,
        lineage_status,
        generation,
        mutation_id,
        goal,
        changed_organs,
        parent_generation,
        activation_result,
        verification_id,
        promotion_id,
        target_root,
        target_configuration,
        metadata: table,
    })
}

// ---------------------------------------------------------------------------
// Evidence sidecars
// ---------------------------------------------------------------------------

/// The first input source that the sidecar path `requested` would overwrite
/// (it is the source or lies under it), as an error.
pub open spec fn sidecar_problem(requested: Seq<char>, sources: Seq<Seq<char>>) -> Option<Seq<char>>
    decreases sources.len(),
{
    if sources.len() == 0 {
        None
    } else if starts_with_components(path_components(requested), path_components(sources[0])) {
        Some("evidence bundle path must not overwrite input source "@ + sources[0])
    } else {
        sidecar_problem(requested, sources.drop_first())
    }
}

/// A sidecar path is accepted exactly when it is none of the input sources
/// and lies under none of them.
pub proof fn lemma_sidecar_accepted(requested: Seq<char>, sources: Seq<Seq<char>>)
    ensures
        sidecar_problem(requested, sources) is None <==> forall|i: int|
            0 <= i < sources.len() ==> !starts_with_components(
                path_components(requested),
                path_components(#[trigger] sources[i]),
            ),
    decreases sources.len(),
{
    if sources.len() > 0 {
        let rest = sources.drop_first();
        lemma_sidecar_accepted(requested, rest);
        if sidecar_problem(requested, sources) is None {
            assert forall|i: int| 0 <= i < sources.len() implies !starts_with_components(
                path_components(requested),
                path_components(#[trigger] sources[i]),
            ) by {
                if i > 0 {
                    assert(sources[i] == rest[i - 1]);
                }
            }
        } else if !starts_with_components(path_components(requested), path_components(sources[0])) {
            let j = choose|j: int|
                0 <= j < rest.len() && starts_with_components(path_components(requested), path_components(#[trigger] rest[j]));
            assert(sources[j + 1] == rest[j]);
        }
    }
}

/// Checks that an evidence sidecar, at the resolved path `requested`, does
/// not overwrite any of the resolved input sources.
pub fn ensure_sidecar_path(requested: &str, sources: &Vec<String>) -> (r: Result<(), String>)
    ensures
        match r {
            Ok(()) => sidecar_problem(requested@, views(sources@)) is None,
            Err(e) => sidecar_problem(requested@, views(sources@)) == Some(e@),
        },
{
    let ghost v = views(sources@);
    let req = components(requested);
    let mut i: usize = 0;
    assert(v.skip(0) =~= v);
    while i < sources.len()
        invariant
            i <= sources@.len(),
            v == views(sources@),
            component_views(req@) == path_components(requested@),
            sidecar_problem(requested@, v) == sidecar_problem(requested@, v.skip(i as int)),
        decreases sources@.len() - i,
    {
        assert(v.skip(i as int)[0] == sources@[i as int]@);
        assert(v.skip(i as int).drop_first() =~= v.skip(i + 1));
        let src = components(sources[i].as_str());
        if components_start_with(&req, &src) {
            return Err(join2("evidence bundle path must not overwrite input source ", sources[i].as_str()));
        }
        i += 1;
    }
    assert(v.skip(i as int) =~= Seq::<Seq<char>>::empty());
    Ok(())
}

/// The text a component adds to a path.
pub open spec fn component_text(c: ComponentView) -> Seq<char> {
    match c {
        ComponentView::Root => Seq::empty(),
        ComponentView::Current => "."@,
        ComponentView::Parent => ".."@,
        ComponentView::Normal(s) => s,
    }
}

/// The path written by components: `/` for a leading root, the others
/// separated by `/`.
pub open spec fn rendered_path(cs: Seq<ComponentView>) -> Seq<char> {
    if cs.len() > 0 && cs[0] is Root {
        "/"@ + join_with(cs.drop_first().map_values(|c: ComponentView| component_text(c)), "/"@)
    } else {
        join_with(cs.map_values(|c: ComponentView| component_text(c)), "/"@)
    }
}

/// Resolved components, written as a path, read back as themselves.
pub proof fn lemma_rendered_path_components(n: Seq<ComponentView>)
    requires
        resolved(n),
    ensures
        path_components(rendered_path(n)) == n,
{
    reveal_strlit("/");
    reveal_strlit(".");
    reveal_strlit("..");
    reveal_with_fuel(piece_components, 2);
    assert("/"@ == seq!['/']);
    let tf = |c: ComponentView| component_text(c);
    let nf = |x: Seq<char>| ComponentView::Normal(x);
    if n.len() > 0 && n[0] is Root {
        let rest = n.drop_first();
        let names = rest.map_values(tf);
        assert forall|k: int| 0 <= k < names.len() implies plain_name(#[trigger] names[k]) by {
            assert(rest[k] == n[k + 1]);
        }
        let j = join_with(names, "/"@);
        let p = "/"@ + j;
        assert(rendered_path(n) == p);
        assert(p.skip(1) =~= j);
        lemma_absolute_segments(p);
        if names.len() == 0 {
            assert(j == Seq::<char>::empty());
            assert(segments(j, '/') == seq![Seq::<char>::empty()]);
            assert(seq![Seq::<char>::empty()].drop_last() =~= Seq::<Seq<char>>::empty());
            assert(seq![Seq::<char>::empty()].last().len() == 0);
            assert(piece_components(seq![Seq::<char>::empty()]) =~= Seq::<ComponentView>::empty());
            assert(seq![Seq::<char>::empty()] + seq![Seq::<char>::empty()] == segments(p, '/'));
            assert((seq![Seq::<char>::empty()] + seq![Seq::<char>::empty()]).drop_first() =~= seq![Seq::<char>::empty()]);
            assert(n =~= seq![ComponentView::Root]);
        } else {
            assert forall|k: int, i: int| 0 <= k < names.len() && 0 <= i < names[k].len() implies #[trigger] names[k][i]
                != '/' by {
                assert(plain_name(names[k]));
            }
            lemma_segments_join(names, '/');
            assert((seq![Seq::<char>::empty()] + names).drop_first() =~= names);
            lemma_piece_components_plain(names);
            assert forall|k: int| 0 <= k < rest.len() implies #[trigger] names.map_values(nf)[k] == rest[k] by {
                assert(rest[k] == n[k + 1]);
            }
            assert(names.map_values(nf) =~= rest);
            assert(seq![ComponentView::Root] + rest =~= n);
        }
    } else if n.len() == 0 {
        assert(n.map_values(tf) =~= Seq::<Seq<char>>::empty());
        assert(rendered_path(n) == Seq::<char>::empty());
        assert(segments(Seq::<char>::empty(), '/') == seq![Seq::<char>::empty()]);
        assert(seq![Seq::<char>::empty()].drop_last() =~= Seq::<Seq<char>>::empty());
            assert(seq![Seq::<char>::empty()].last().len() == 0);
            assert(piece_components(seq![Seq::<char>::empty()]) =~= Seq::<ComponentView>::empty());
    } else {
        let names = n.map_values(tf);
        assert forall|k: int| 0 <= k < names.len() implies plain_name(#[trigger] names[k]) by {
            assert(n[k] is Normal);
        }
        assert forall|k: int, i: int| 0 <= k < names.len() && 0 <= i < names[k].len() implies #[trigger] names[k][i]
            != '/' by {
            assert(plain_name(names[k]));
        }
        let j = join_with(names, "/"@);
        assert(rendered_path(n) == j);
        lemma_segments_join(names, '/');
        if is_absolute(j) {
            lemma_absolute_segments(j);
            assert(names[0] == segments(j, '/')[0]);
            assert(plain_name(names[0]));
        }
        assert(segments(j, '/')[0] == names[0]);
        assert(plain_name(names[0]));
        lemma_piece_components_plain(names);
        assert forall|k: int| 0 <= k < n.len() implies #[trigger] names.map_values(nf)[k] == n[k] by {
            assert(n[k] is Normal);
        }
        assert(names.map_values(nf) =~= n);
    }
}

/// Normalizing a path twice gives what normalizing it once gives.
pub proof fn lemma_normalize_path_idempotent(p: Seq<char>)
    ensures
        rendered_path(normalized(path_components(rendered_path(normalized(path_components(p))))))
            == rendered_path(normalized(path_components(p))),
{
    lemma_path_components_well_named(p);
    lemma_normalized_resolved(path_components(p));
    let n = normalized(path_components(p));
    lemma_rendered_path_components(n);
    lemma_normalized_resolved_fixed(n);
}

fn component_string(c: &PathComponent) -> (r: String)
    ensures
        r@ == component_text(component_view(*c)),
{
    match c {
        PathComponent::Root => String::new(),
        PathComponent::Current => ".".to_owned(),
        PathComponent::Parent => "..".to_owned(),
        PathComponent::Normal(s) => s.clone(),
    }
}

/// `p` with `.` and `..` resolved lexically, written back as a path.
pub fn normalize_path(p: &str) -> (r: String)
    ensures
        r@ == rendered_path(normalized(path_components(p@))),
{
    let cs = normalize(&components(p));
    render_components(&cs)
}

/// The path the components `cs` write.
pub fn render_components(cs: &Vec<PathComponent>) -> (r: String)
    ensures
        r@ == rendered_path(component_views(cs@)),
{
    let ghost v = component_views(cs@);
    let rooted = cs.len() > 0 && match &cs[0] {
        PathComponent::Root => true,
        _ => false,
    };
    let start: usize = if rooted {
        1
    } else {
        0
    };
    let mut names: Vec<String> = Vec::new();
    let mut i: usize = start;
    let ghost rest = v.skip(start as int);
    while i < cs.len()
        invariant
            start <= i <= cs@.len(),
            v == component_views(cs@),
            rest == v.skip(start as int),
            views(names@) == rest.take(i - start).map_values(|c: ComponentView| component_text(c)),
        decreases cs@.len() - i,
    {
        let ghost before = views(names@);
        names.push(component_string(&cs[i]));
        proof {
            assert(rest[i - start] == component_view(cs@[i as int]));
            assert(views(names@) =~= before.push(component_text(rest[i - start])));
            assert(rest.take(i - start + 1).map_values(|c: ComponentView| component_text(c)) =~= rest.take(
                i - start,
            ).map_values(|c: ComponentView| component_text(c)).push(component_text(rest[i - start])));
        }
        i += 1;
    }
    assert(rest.take(i - start) =~= rest);
    let body = join_texts(&names, "/");
    if rooted {
        assert(v.drop_first() =~= rest);
        join2("/", body.as_str())
    } else {
        assert(v =~= rest);
        body
    }
}

/// The directory of a file at `path`, written from its components: the
/// path without its last component, `.` when nothing is left, and an error
/// when `path` is empty or ends at the root.
pub open spec fn directory_of(path: Seq<char>) -> Result<Seq<char>, Seq<char>> {
    let cs = path_components(path);
    if cs.len() == 0 || cs.last() is Root {
        Err("failed to resolve proposal directory for "@ + path)
    } else if rendered_path(cs.drop_last()).len() == 0 {
        Ok("."@)
    } else {
        Ok(rendered_path(cs.drop_last()))
    }
}

/// The directory the proposal at `proposal_path` lies in.
pub fn proposal_directory(proposal_path: &str) -> (r: Result<String, String>)
    ensures
        match r {
            Ok(d) => directory_of(proposal_path@) == Ok::<Seq<char>, Seq<char>>(d@),
            Err(e) => directory_of(proposal_path@) == Err::<Seq<char>, Seq<char>>(e@),
        },
{
    let mut cs = components(proposal_path);
    let ghost all = component_views(cs@);
    let ends_at_root = cs.len() == 0 || match &cs[cs.len() - 1] {
        PathComponent::Root => true,
        _ => false,
    };
    if ends_at_root {
        return Err(join2("failed to resolve proposal directory for ", proposal_path));
    }
    cs.pop();
    assert(component_views(cs@) =~= all.drop_last());
    let parent = render_components(&cs);
    if chars_of(parent.as_str()).len() == 0 {
        Ok(".".to_owned())
    } else {
        Ok(parent)
    }
}

} // verus!
