use autopoietic::introspect::{
    flake_input_names, identity_from_host_config, shell_history, system_generations, system_link_generation,
};
use autopoietic::text::sort_texts;

fn strings(items: &[&str]) -> Vec<String> {
    items.iter().map(|s| s.to_string()).collect()
}

#[test]
fn host_config_names_host_and_roles() {
    let text = "{ host = \"aion\"; roles = [ \"research\" \"development\" \"media\" ]; }";
    let identity = identity_from_host_config(text, "box".to_owned());
    assert_eq!(identity.host, "aion");
    assert_eq!(identity.roles, strings(&["development", "research", "media"]));
}

#[test]
fn missing_host_config_keeps_hostname() {
    let identity = identity_from_host_config("", "box".to_owned());
    assert_eq!(identity.host, "box");
    assert!(identity.roles.is_empty());
    let other = identity_from_host_config("host = \"other\"; writing", "box".to_owned());
    assert_eq!(other.host, "box");
    assert!(other.roles.is_empty());
}

#[test]
fn profile_links_name_generations() {
    assert_eq!(system_link_generation("system-42-link"), Some("42".to_owned()));
    assert_eq!(system_link_generation("system--link"), Some(String::new()));
    assert_eq!(system_link_generation("system-42"), None);
    assert_eq!(system_link_generation("default-1-link"), None);
    assert_eq!(system_link_generation("system-link"), None);
}

#[test]
fn generations_are_ordered_by_name() {
    let entries = vec![
        ("system-9-link".to_owned(), "/p/system-9-link".to_owned()),
        ("default".to_owned(), "/p/default".to_owned()),
        ("system-10-link".to_owned(), "/p/system-10-link".to_owned()),
        ("system".to_owned(), "/p/system".to_owned()),
    ];
    let generations = system_generations(&entries);
    let found: Vec<(String, String)> =
        generations.into_iter().map(|g| (g.generation, g.path)).collect();
    assert_eq!(
        found,
        vec![
            ("10".to_owned(), "/p/system-10-link".to_owned()),
            ("9".to_owned(), "/p/system-9-link".to_owned()),
        ]
    );
}

#[test]
fn texts_sort_in_string_order_keeping_duplicates() {
    let sorted = sort_texts(&strings(&["b", "a", "B", "b", ""]));
    assert_eq!(sorted, strings(&["", "B", "a", "b", "b"]));
}

#[test]
fn flake_inputs_leave_out_root() {
    let names = flake_input_names(&strings(&["root", "nixpkgs", "home-manager", "flake-utils"]));
    assert_eq!(names, strings(&["flake-utils", "home-manager", "nixpkgs"]));
}

#[test]
fn shell_history_keeps_the_last_lines() {
    let off = shell_history(false, &strings(&["ls\n"]), 5);
    assert!(!off.included);
    assert_eq!(off.reason, Some("disabled".to_owned()));
    assert!(off.entries.is_empty());

    let texts = strings(&["z1\nz2\nz3\n", "b1\nb2\n"]);
    let history = shell_history(true, &texts, 2);
    assert!(history.included);
    assert_eq!(history.reason, None);
    assert_eq!(history.entries, strings(&["z2", "z3"]));

    let all = shell_history(true, &texts, 10);
    assert_eq!(all.entries, strings(&["b1", "b2", "z1", "z2", "z3"]));
}
