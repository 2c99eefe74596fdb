use autopoietic::introspect::{file_suffix, infer_pain_points, journal, summarize_project, systemd_units};
use autopoietic::journal::{append_mutation, ensure_sidecar_path, normalize_path, parse_metadata};
use autopoietic::records::MutationStatus;

#[test]
fn metadata_splits_at_first_equals() {
    let m = parse_metadata(&vec!["a=1".to_owned(), "b=x=y".to_owned(), "a=2".to_owned()]).unwrap();
    assert_eq!(m.get("a").map(String::as_str), Some("2"));
    assert_eq!(m.get("b").map(String::as_str), Some("x=y"));
    assert_eq!(m.len(), 2);
    assert_eq!(
        parse_metadata(&vec!["ok=1".to_owned(), "broken".to_owned()]).unwrap_err(),
        "metadata must be key=value, got: broken"
    );
}

#[test]
fn mutation_entry_uses_given_or_generated_id() {
    let r = append_mutation(
        None,
        "mut-generated".to_owned(),
        "now".to_owned(),
        "goal".to_owned(),
        MutationStatus::Pending,
        "P1".to_owned(),
        String::new(),
        vec!["README.md".to_owned()],
        String::new(),
        &vec!["k=v".to_owned()],
    )
    .unwrap();
    assert_eq!(r.mutation_id, "mut-generated");
    assert_eq!(r.metadata.get("k").map(String::as_str), Some("v"));
}

#[test]
fn organ_evidence_bundle_must_not_overwrite_input_sources() {
    let sources = vec!["/w/memory/organs.jsonl".to_owned()];
    assert_eq!(
        ensure_sidecar_path("/w/memory/organs.jsonl", &sources).unwrap_err(),
        "evidence bundle path must not overwrite input source /w/memory/organs.jsonl"
    );
    assert_eq!(ensure_sidecar_path("/w/memory/organs.jsonl/x.json", &sources).is_err(), true);
    assert_eq!(ensure_sidecar_path("/w/memory/review.json", &sources), Ok(()));
}

#[test]
fn paths_normalize_lexically() {
    assert_eq!(normalize_path("/a/./b/../c"), "/a/c");
    assert_eq!(normalize_path("a/b/.."), "a");
    assert_eq!(normalize_path("/.."), "/");
}

#[test]
fn normalizing_twice_is_normalizing_once() {
    for p in ["/a/./b/../c", "a/b/..", "/..", "./x//y/", "", "../..", "/"] {
        let once = normalize_path(p);
        assert_eq!(normalize_path(&once), once);
    }
    assert_eq!(normalize_path("./x//y/"), "x/y");
}

#[test]
fn systemd_lines_with_four_words_are_units() {
    let state = systemd_units(true, "a.service loaded active running Desc here\nshort line\n", String::new(), None);
    assert_eq!(state.units.len(), 1);
    assert_eq!(state.units[0].name, "a.service");
    assert_eq!(state.units[0].sub, "running");
    let failed = systemd_units(false, "", "boom".to_owned(), None);
    assert_eq!(failed.error.as_deref(), Some("boom"));
}

#[test]
fn journal_is_left_out_at_zero_limit() {
    assert!(!journal(0, true, "x", String::new(), None).included);
    let j = journal(5, true, "one\ntwo", String::new(), None);
    assert_eq!(j.entries, vec!["one".to_owned(), "two".to_owned()]);
}

#[test]
fn pain_points_come_from_history_tokens() {
    let points = infer_pain_points(&vec!["uv run pytest".to_owned(), "ffmpeg -i a b".to_owned()]);
    assert_eq!(points.len(), 2);
    assert_eq!(points[0].signal, "repeated Python project setup");
    assert_eq!(points[0].evidence, vec!["pytest".to_owned(), "uv".to_owned()]);
    assert_eq!(points[1].evidence, vec!["ffmpeg".to_owned()]);
    assert!(infer_pain_points(&vec!["ls".to_owned()]).is_empty());
}

#[test]
fn project_suffixes_rank_by_count_then_name() {
    assert_eq!(file_suffix("a.tar.gz"), ".gz");
    assert_eq!(file_suffix(".bashrc"), "<none>");
    assert_eq!(file_suffix("Makefile"), "<none>");
    assert_eq!(file_suffix("a."), ".");
    let names: Vec<String> = ["x.rs", "y.rs", "z.md", "w.nix", "v.md", "LICENSE", "u.rs"].iter().map(|s| s.to_string()).collect();
    let s = summarize_project("/p".to_owned(), true, &names);
    assert_eq!(s.sampled_files, Some(7));
    assert_eq!(
        s.top_suffixes,
        vec![(".rs".to_owned(), 3), (".md".to_owned(), 2), (".nix".to_owned(), 1), ("<none>".to_owned(), 1)]
    );
    let many: Vec<String> = (0..20).map(|i| format!("f.e{i:02}")).collect();
    assert_eq!(summarize_project("/p".to_owned(), true, &many).top_suffixes.len(), 12);
    assert!(summarize_project("/q".to_owned(), false, &names).sampled_files.is_none());
}
