//! The command line of the organ registry commands of the journal tool:
//! `organ list`, `organ review` and `organ suggest`, each with long options
//! written `--name value` or `--name=value`, each at most once.
use vstd::prelude::*;

use crate::text::{compare_text, has_prefix, join3, text_starts_with, views, TextOrder};

verus! {

/// The value given for each option so far, by option index.
pub type OptionSlots = Seq<Option<Seq<char>>>;

/// No option given yet.
pub open spec fn no_slots(n: nat) -> OptionSlots {
    Seq::new(n, |j: int| None::<Seq<char>>)
}

/// Reads options from `tokens[i..]` into `slots`: each token names one of
/// `names` as `--name value` or `--name=value`.
pub open spec fn read_options(tokens: Seq<Seq<char>>, i: int, names: Seq<Seq<char>>, slots: OptionSlots) -> Result<
    OptionSlots,
    Seq<char>,
>
    decreases tokens.len() - i,
{
    if i < 0 || i >= tokens.len() {
        Ok(slots)
    } else {
        let t = tokens[i];
        let k = option_index(t, names);
        if k >= names.len() {
            Err("unexpected argument '"@ + t + "' found"@)
        } else if slots[k] is Some {
            Err("the argument '--"@ + names[k] + "' cannot be used multiple times"@)
        } else if t == "--"@ + names[k] {
            if i + 1 >= tokens.len() {
                Err("a value is required for '--"@ + names[k] + "' but none was supplied"@)
            } else {
                read_options(tokens, i + 2, names, slots.update(k, Some(tokens[i + 1])))
            }
        } else {
            read_options(
                tokens,
                i + 1,
                names,
                slots.update(k, Some(t.skip(names[k].len() + 3int))),
            )
        }
    }
}

proof fn lemma_read_options_len(tokens: Seq<Seq<char>>, i: int, names: Seq<Seq<char>>, slots: OptionSlots)
    requires
        slots.len() == names.len(),
    ensures
        read_options(tokens, i, names, slots) matches Ok(r) ==> r.len() == slots.len(),
    decreases tokens.len() - i,
{
    if 0 <= i < tokens.len() {
        let t = tokens[i];
        lemma_option_index_bounds(t, names);
        let k = option_index(t, names);
        if k < names.len() && slots[k] is None {
            if t == "--"@ + names[k] {
                if i + 1 < tokens.len() {
                    lemma_read_options_len(tokens, i + 2, names, slots.update(k, Some(tokens[i + 1])));
                }
            } else {
                lemma_read_options_len(tokens, i + 1, names, slots.update(k, Some(t.skip(names[k].len() + 3int))));
            }
        }
    }
}

/// The index of the option a token names (`--name` or `--name=...`), or the
/// number of names.
pub open spec fn option_index(t: Seq<char>, names: Seq<Seq<char>>) -> int
    decreases names.len(),
{
    if names.len() == 0 {
        0
    } else if t == "--"@ + names[0] || has_prefix(t, "--"@ + names[0] + "="@) {
        0
    } else {
        1 + option_index(t, names.drop_first())
    }
}

proof fn lemma_option_index_bounds(t: Seq<char>, names: Seq<Seq<char>>)
    ensures
        0 <= option_index(t, names) <= names.len(),
        option_index(t, names) < names.len() ==> (t == "--"@ + names[option_index(t, names)] || has_prefix(
            t,
            "--"@ + names[option_index(t, names)] + "="@,
        )),
    decreases names.len(),
{
    if names.len() > 0 && !(t == "--"@ + names[0] || has_prefix(t, "--"@ + names[0] + "="@)) {
        lemma_option_index_bounds(t, names.drop_first());
        let k = option_index(t, names);
        if k < names.len() {
            assert(names[k] == names.drop_first()[k - 1]);
        }
    }
}

fn find_option(t: &str, names: &Vec<String>) -> (k: usize)
    ensures
        k as int == option_index(t@, views(names@)),
        k <= names@.len(),
{
    let ghost v = views(names@);
    let mut k: usize = 0;
    assert(v.skip(0) =~= v);
    while k < names.len()
        invariant
            k <= names@.len(),
            v == views(names@),
            option_index(t@, v) == k + option_index(t@, v.skip(k as int)),
        decreases names@.len() - k,
    {
        assert(v.skip(k as int)[0] == names@[k as int]@);
        assert(v.skip(k as int).drop_first() =~= v.skip(k + 1));
        let flag = crate::text::join2("--", names[k].as_str());
        let with_eq = crate::text::join2(flag.as_str(), "=");
        let exact = match compare_text(t, flag.as_str()) {
            TextOrder::Equal => true,
            _ => false,
        };
        if exact || text_starts_with(t, with_eq.as_str()) {
            return k;
        }
        k += 1;
    }
    assert(v.skip(k as int) =~= Seq::<Seq<char>>::empty());
    k
}

/// Reads the options of `tokens[from..]`, each named by `names`.
pub fn parse_options(tokens: &Vec<String>, from: usize, names: &Vec<String>) -> (r: Result<Vec<Option<String>>, String>)
    ensures
        match r {
            Ok(vals) => read_options(
                views(tokens@),
                from as int,
                views(names@),
                no_slots(names@.len()),
            ) == Ok::<OptionSlots, Seq<char>>(vals@.map_values(|o: Option<String>| crate::text::opt_view(o))),
            Err(e) => read_options(
                views(tokens@),
                from as int,
                views(names@),
                no_slots(names@.len()),
            ) == Err::<OptionSlots, Seq<char>>(e@),
        },
{
    let ghost ts = views(tokens@);
    let ghost ns = views(names@);
    let ghost start: OptionSlots = no_slots(names@.len());
    let mut vals: Vec<Option<String>> = Vec::new();
    let mut j: usize = 0;
    while j < names.len()
        invariant
            j <= names@.len(),
            vals@.len() == j,
            forall|q: int| 0 <= q < j ==> #[trigger] vals@[q] is None,
        decreases names@.len() - j,
    {
        vals.push(None);
        j += 1;
    }
    assert(vals@.map_values(|o: Option<String>| crate::text::opt_view(o)) =~= start);
    let mut i: usize = from;
    while i < tokens.len()
        invariant
            ts == views(tokens@),
            ns == views(names@),
            start == no_slots(names@.len()),
            vals@.len() == names@.len(),
            read_options(ts, from as int, ns, start) == read_options(
                ts,
                i as int,
                ns,
                vals@.map_values(|o: Option<String>| crate::text::opt_view(o)),
            ),
        decreases tokens@.len() - i,
    {
        let ghost slots = vals@.map_values(|o: Option<String>| crate::text::opt_view(o));
        let t = tokens[i].as_str();
        assert(ts[i as int] == t@);
        assert(ns.len() == names@.len());
        assert(ts.len() == tokens@.len());
        let k = find_option(t, names);
        proof {
            lemma_option_index_bounds(t@, ns);
            if k < names.len() {
                assert(slots[k as int] == crate::text::opt_view(vals@[k as int]));
            }
        }
        if k >= names.len() {
            let e = join3("unexpected argument '", t, "' found");
            assert(read_options(ts, i as int, ns, slots) == Err::<OptionSlots, Seq<char>>(e@));
            return Err(e);
        }
        assert(ns[k as int] == names@[k as int]@);
        if vals[k].is_some() {
            return Err(join3("the argument '--", names[k].as_str(), "' cannot be used multiple times"));
        }
        let flag = crate::text::join2("--", names[k].as_str());
        let exact = match compare_text(t, flag.as_str()) {
            TextOrder::Equal => true,
            _ => false,
        };
        if exact {
            if i + 1 >= tokens.len() {
                return Err(join3("a value is required for '--", names[k].as_str(), "' but none was supplied"));
            }
            assert(ts[i + 1] == tokens@[i + 1]@);
            let value = tokens[i + 1].clone();
            vals.set(k, Some(value));
            proof {
                assert(vals@.map_values(|o: Option<String>| crate::text::opt_view(o)) =~= slots.update(
                    k as int,
                    Some(ts[i + 1]),
                ));
            }
            i += 2;
        } else {
            let cs = crate::text::chars_of(t);
            let total = cs.len();
            let n = crate::text::chars_of(names[k].as_str()).len();
            proof {
                reveal_strlit("--");
                reveal_strlit("=");
                assert(t@ != "--"@ + ns[k as int]);
                assert(has_prefix(t@, "--"@ + ns[k as int] + "="@));
                assert(("--"@ + ns[k as int] + "="@).len() == n + 3);
                assert(n + 3 <= cs@.len());
            }
            let value = crate::text::string_from(vstd::slice::slice_subrange(cs.as_slice(), n + 3, total));
            assert(value@ =~= t@.skip(ns[k as int].len() + 3int));
            vals.set(k, Some(value));
            proof {
                assert(vals@.map_values(|o: Option<String>| crate::text::opt_view(o)) =~= slots.update(
                    k as int,
                    Some(t@.skip(ns[k as int].len() + 3int)),
                ));
            }
            i += 1;
        }
    }
    Ok(vals)
}

// ---------------------------------------------------------------------------
// The organ commands
// ---------------------------------------------------------------------------

/// The options of `organ suggest`.
#[derive(Debug)]
pub struct OrganSuggestArgs {
    pub registry: String,
    pub promotions: String,
    pub generations: String,
    pub evidence_bundle: Option<String>,
}

/// An organ registry command.
#[derive(Debug)]
pub enum OrganCommand {
    List { path: String },
    Review { path: String, evidence_bundle: Option<String> },
    Suggest(OrganSuggestArgs),
}

fn value_or(v: &Option<String>, default: &str) -> (r: String)
    ensures
        r@ == match *v {
            Some(s) => s@,
            None => default@,
        },
{
    match v {
        Some(s) => s.clone(),
        None => default.to_owned(),
    }
}

fn names_of(a: &str, b: &str, c: &str, d: &str, count: usize) -> (r: Vec<String>)
    requires
        1 <= count <= 4,
    ensures
        views(r@) == seq![a@, b@, c@, d@].take(count as int),
{
    let mut r: Vec<String> = Vec::new();
    r.push(a.to_owned());
    if count > 1 {
        r.push(b.to_owned());
    }
    if count > 2 {
        r.push(c.to_owned());
    }
    if count > 3 {
        r.push(d.to_owned());
    }
    assert(views(r@) =~= seq![a@, b@, c@, d@].take(count as int));
    r
}

pub open spec fn slot_or(slots: OptionSlots, k: int, default: Seq<char>) -> Seq<char> {
    match slots[k] {
        Some(s) => s,
        None => default,
    }
}

/// What `organ suggest` with the options of `tokens[3..]` names.
pub open spec fn suggest_options(tokens: Seq<Seq<char>>) -> Result<OptionSlots, Seq<char>> {
    read_options(
        tokens,
        3,
        seq!["registry"@, "promotions"@, "generations"@, "evidence-bundle"@],
        no_slots(4),
    )
}

/// What `organ review` with the options of `tokens[3..]` names.
pub open spec fn review_options(tokens: Seq<Seq<char>>) -> Result<OptionSlots, Seq<char>> {
    read_options(tokens, 3, seq!["path"@, "evidence-bundle"@], no_slots(2))
}

/// What `organ list` with the options of `tokens[3..]` names.
pub open spec fn list_options(tokens: Seq<Seq<char>>) -> Result<OptionSlots, Seq<char>> {
    read_options(tokens, 3, seq!["path"@], no_slots(1))
}

/// Reads an organ registry command line: the program name, `organ`, the
/// subcommand and its options.
pub fn parse_organ_command(argv: &Vec<String>) -> (r: Result<OrganCommand, String>)
    ensures
        argv@.len() >= 3 && argv@[1]@ == "organ"@ && argv@[2]@ == "suggest"@ ==> match r {
            Ok(OrganCommand::Suggest(a)) => suggest_options(views(argv@)) matches Ok(slots) && a.registry@
                == slot_or(slots, 0, "memory/organs.jsonl"@) && a.promotions@ == slot_or(
                slots,
                1,
                "memory/mutation-promotions.jsonl"@,
            ) && a.generations@ == slot_or(slots, 2, "memory/generations.jsonl"@) && crate::text::opt_view(
                a.evidence_bundle,
            ) == slots[3],
            Ok(_) => false,
            Err(e) => suggest_options(views(argv@)) == Err::<OptionSlots, Seq<char>>(e@),
        },
        argv@.len() >= 3 && argv@[1]@ == "organ"@ && argv@[2]@ == "review"@ ==> match r {
            Ok(OrganCommand::Review { path, evidence_bundle }) => review_options(views(argv@)) matches Ok(slots)
                && path@ == slot_or(slots, 0, "memory/organs.jsonl"@) && crate::text::opt_view(evidence_bundle)
                == slots[1],
            Ok(_) => false,
            Err(e) => review_options(views(argv@)) == Err::<OptionSlots, Seq<char>>(e@),
        },
        argv@.len() >= 3 && argv@[1]@ == "organ"@ && argv@[2]@ == "list"@ ==> match r {
            Ok(OrganCommand::List { path }) => list_options(views(argv@)) matches Ok(slots) && path@ == slot_or(
                slots,
                0,
                "memory/organs.jsonl"@,
            ),
            Ok(_) => false,
            Err(e) => list_options(views(argv@)) == Err::<OptionSlots, Seq<char>>(e@),
        },
        argv@.len() >= 3 && argv@[1]@ == "organ"@ && argv@[2]@ != "suggest"@ && argv@[2]@ != "review"@
            && argv@[2]@ != "list"@ ==> (r matches Err(e) && e@ == "unrecognized subcommand '"@ + argv@[2]@ + "'"@),
        !(argv@.len() >= 3 && argv@[1]@ == "organ"@) ==> r is Err,
{
    if argv.len() < 3 {
        return Err("expected: organ <list|review|suggest> [options]".to_owned());
    }
    if let TextOrder::Equal = compare_text(argv[1].as_str(), "organ") {
    } else {
        return Err("expected: organ <list|review|suggest> [options]".to_owned());
    }
    let sub = argv[2].as_str();
    proof {
        reveal_strlit("suggest");
        reveal_strlit("review");
        reveal_strlit("list");
    }
    assert("review"@[0] != "suggest"@[0]);
    assert("list"@[0] != "suggest"@[0]);
    assert("list"@[0] != "review"@[0]);
    if let TextOrder::Equal = compare_text(sub, "suggest") {
        let names = names_of("registry", "promotions", "generations", "evidence-bundle", 4);
        proof {
            assert(views(names@) =~= seq!["registry"@, "promotions"@, "generations"@, "evidence-bundle"@]);
            assert(no_slots(names@.len()) =~= no_slots(4));
        }
        let vals = match parse_options(argv, 3, &names) {
            Ok(v) => v,
            Err(e) => {
                return Err(e);
            },
        };
        assert(vals@.len() == 4) by {
            lemma_read_options_len(views(argv@), 3, views(names@), no_slots(names@.len()));
            assert(vals@.map_values(|o: Option<String>| crate::text::opt_view(o)).len() == vals@.len());
        }
        proof {
            let sl = vals@.map_values(|o: Option<String>| crate::text::opt_view(o));
            assert(sl[0] == crate::text::opt_view(vals@[0]));
            assert(sl[1] == crate::text::opt_view(vals@[1]));
            assert(sl[2] == crate::text::opt_view(vals@[2]));
            assert(sl[3] == crate::text::opt_view(vals@[3]));
        }
        let evidence_bundle = match &vals[3] {
            Some(s) => Some(s.clone()),
            None => None,
        };
        return Ok(
            OrganCommand::Suggest(
                OrganSuggestArgs {
                    registry: value_or(&vals[0], "memory/organs.jsonl"),
                    promotions: value_or(&vals[1], "memory/mutation-promotions.jsonl"),
                    generations: value_or(&vals[2], "memory/generations.jsonl"),
                    evidence_bundle,
                },
            ),
        );
    }
    if let TextOrder::Equal = compare_text(sub, "review") {
        let names = names_of("path", "evidence-bundle", "", "", 2);
        proof {
            assert(views(names@) =~= seq!["path"@, "evidence-bundle"@]);
            assert(no_slots(names@.len()) =~= no_slots(2));
        }
        let vals = match parse_options(argv, 3, &names) {
            Ok(v) => v,
            Err(e) => {
                return Err(e);
            },
        };
        assert(vals@.len() == 2) by {
            lemma_read_options_len(views(argv@), 3, views(names@), no_slots(names@.len()));
            assert(vals@.map_values(|o: Option<String>| crate::text::opt_view(o)).len() == vals@.len());
        }
        proof {
            let sl = vals@.map_values(|o: Option<String>| crate::text::opt_view(o));
            assert(sl[0] == crate::text::opt_view(vals@[0]));
            assert(sl[1] == crate::text::opt_view(vals@[1]));
        }
        let evidence_bundle = match &vals[1] {
            Some(s) => Some(s.clone()),
            None => None,
        };
        assert("review"@[0] != "suggest"@[0]);
        return Ok(OrganCommand::Review { path: value_or(&vals[0], "memory/organs.jsonl"), evidence_bundle });
    }
    if let TextOrder::Equal = compare_text(sub, "list") {
        let names = names_of("path", "", "", "", 1);
        proof {
            assert(views(names@) =~= seq!["path"@]);
            assert(no_slots(names@.len()) =~= no_slots(1));
        }
        let vals = match parse_options(argv, 3, &names) {
            Ok(v) => v,
            Err(e) => {
                return Err(e);
            },
        };
        assert(vals@.len() == 1) by {
            lemma_read_options_len(views(argv@), 3, views(names@), no_slots(names@.len()));
            assert(vals@.map_values(|o: Option<String>| crate::text::opt_view(o)).len() == vals@.len());
        }
        proof {
            let sl = vals@.map_values(|o: Option<String>| crate::text::opt_view(o));
            assert(sl[0] == crate::text::opt_view(vals@[0]));
        }
        assert("list"@[0] != "suggest"@[0]);
        assert("list"@[0] != "review"@[0]);
        return Ok(OrganCommand::List { path: value_or(&vals[0], "memory/organs.jsonl") });
    }
    Err(join3("unrecognized subcommand '", sub, "'"))
}

} // verus!
