use autopoietic::cli::{parse_organ_command, OrganCommand};

fn argv(items: &[&str]) -> Vec<String> {
    items.iter().map(|s| s.to_string()).collect()
}

#[test]
fn organ_suggest_args_parse_paths() {
    let args = parse_organ_command(&argv(&[
        "mutation-journal",
        "organ",
        "suggest",
        "--registry",
        "custom/organs.jsonl",
        "--promotions",
        "custom/promotions.jsonl",
        "--generations",
        "custom/generations.jsonl",
        "--evidence-bundle",
        "custom/evidence.json",
    ]))
    .expect("organ suggest command should parse");

    let OrganCommand::Suggest(args) = args else {
        panic!("organ suggest command should parse");
    };
    assert_eq!(args.registry, "custom/organs.jsonl");
    assert_eq!(args.promotions, "custom/promotions.jsonl");
    assert_eq!(args.generations, "custom/generations.jsonl");
    assert_eq!(args.evidence_bundle, Some("custom/evidence.json".to_owned()));
}

#[test]
fn organ_suggest_defaults_paths() {
    let OrganCommand::Suggest(args) =
        parse_organ_command(&argv(&["mutation-journal", "organ", "suggest"])).unwrap()
    else {
        panic!("organ suggest command should parse");
    };
    assert_eq!(args.registry, "memory/organs.jsonl");
    assert_eq!(args.promotions, "memory/mutation-promotions.jsonl");
    assert_eq!(args.generations, "memory/generations.jsonl");
    assert_eq!(args.evidence_bundle, None);
}

#[test]
fn organ_suggest_accepts_equals_form() {
    let OrganCommand::Suggest(args) = parse_organ_command(&argv(&[
        "mutation-journal",
        "organ",
        "suggest",
        "--registry=r.jsonl",
    ]))
    .unwrap() else {
        panic!("organ suggest command should parse");
    };
    assert_eq!(args.registry, "r.jsonl");
}

#[test]
fn organ_suggest_rejects_repeated_and_unknown_options() {
    let repeated = parse_organ_command(&argv(&[
        "mutation-journal", "organ", "suggest", "--registry", "a", "--registry", "b",
    ]));
    assert_eq!(
        repeated.unwrap_err(),
        "the argument '--registry' cannot be used multiple times"
    );
    let unknown = parse_organ_command(&argv(&["mutation-journal", "organ", "suggest", "--bogus", "x"]));
    assert_eq!(unknown.unwrap_err(), "unexpected argument '--bogus' found");
    let missing = parse_organ_command(&argv(&["mutation-journal", "organ", "suggest", "--registry"]));
    assert_eq!(
        missing.unwrap_err(),
        "a value is required for '--registry' but none was supplied"
    );
}

#[test]
fn organ_review_and_list_read_their_paths() {
    let review = parse_organ_command(&argv(&[
        "mutation-journal",
        "organ",
        "review",
        "--evidence-bundle=out/review.json",
        "--path",
        "reg.jsonl",
    ]))
    .unwrap();
    let OrganCommand::Review { path, evidence_bundle } = review else {
        panic!("organ review command should parse");
    };
    assert_eq!(path, "reg.jsonl");
    assert_eq!(evidence_bundle, Some("out/review.json".to_owned()));

    let list = parse_organ_command(&argv(&["mutation-journal", "organ", "list"])).unwrap();
    let OrganCommand::List { path } = list else {
        panic!("organ list command should parse");
    };
    assert_eq!(path, "memory/organs.jsonl");

    assert_eq!(
        parse_organ_command(&argv(&["mutation-journal", "organ", "list", "--evidence-bundle", "x"])).unwrap_err(),
        "unexpected argument '--evidence-bundle' found"
    );
    assert_eq!(
        parse_organ_command(&argv(&["mutation-journal", "organ", "prune"])).unwrap_err(),
        "unrecognized subcommand 'prune'"
    );
}
