use flox_search::consolidate::{dedup_and_disambiguate_display_items, DisplayItem};
use flox_search::listing::{
    display_items, render_listing, render_search_results_user_facing, SearchError, SearchResult,
    Subtree,
};

fn item(package: &str, input: &str) -> DisplayItem {
    DisplayItem {
        input: input.to_string(),
        package: package.to_string(),
        description: None,
        render_with_input: false,
    }
}

fn result(input: &str, rel_path: &[&str], description: Option<&str>, version: Option<&str>) -> SearchResult {
    SearchResult {
        input: input.to_string(),
        abs_path: rel_path.iter().map(|s| s.to_string()).collect(),
        subtree: Subtree::LegacyPackages,
        rel_path: rel_path.iter().map(|s| s.to_string()).collect(),
        description: description.map(|s| s.to_string()),
        version: version.map(|s| s.to_string()),
    }
}

fn pairs(items: &[DisplayItem]) -> Vec<(String, String, bool)> {
    items
        .iter()
        .map(|d| (d.package.clone(), d.input.clone(), d.render_with_input))
        .collect()
}

#[test]
fn dedup_example_keeps_first_of_each_pair() {
    let out = dedup_and_disambiguate_display_items(vec![
        item("python", "flox"),
        item("python", "nixpkgs"),
        item("python", "flox"),
    ]);
    assert_eq!(
        pairs(&out),
        vec![
            ("python".to_string(), "flox".to_string(), true),
            ("python".to_string(), "nixpkgs".to_string(), true),
        ]
    );
}

#[test]
fn dedup_preserves_first_occurrence_order() {
    let out = dedup_and_disambiguate_display_items(vec![
        item("b", "x"),
        item("a", "x"),
        item("b", "x"),
        item("c", "y"),
        item("a", "x"),
    ]);
    assert_eq!(
        pairs(&out),
        vec![
            ("b".to_string(), "x".to_string(), false),
            ("a".to_string(), "x".to_string(), false),
            ("c".to_string(), "y".to_string(), false),
        ]
    );
}

#[test]
fn dedup_flags_only_packages_with_several_inputs() {
    let out = dedup_and_disambiguate_display_items(vec![
        item("hello", "nixpkgs"),
        item("python", "nixpkgs"),
        item("hello", "nixpkgs"),
        item("python", "flox"),
    ]);
    assert_eq!(
        pairs(&out),
        vec![
            ("hello".to_string(), "nixpkgs".to_string(), false),
            ("python".to_string(), "nixpkgs".to_string(), true),
            ("python".to_string(), "flox".to_string(), true),
        ]
    );
}

#[test]
fn dedup_empty_input() {
    assert!(dedup_and_disambiguate_display_items(vec![]).is_empty());
}

#[test]
fn display_items_join_path_and_flatten_description() {
    let items = display_items(&vec![result(
        "nixpkgs",
        &["python310Packages", "flask"],
        Some("a micro\nframework\n"),
        Some("2.2.2"),
    )]);
    assert_eq!(items.len(), 1);
    assert_eq!(items[0].package, "python310Packages.flask");
    assert_eq!(items[0].input, "nixpkgs");
    assert_eq!(items[0].description.as_deref(), Some("a micro framework "));
    assert!(!items[0].render_with_input);
}

#[test]
fn render_listing_pads_to_widest_label() {
    let mut a = item("python", "flox");
    a.render_with_input = true;
    a.description = Some("Python".to_string());
    let b = item("hello", "nixpkgs");
    let lines = render_listing(&vec![a, b]);
    assert_eq!(
        lines,
        vec![
            "flox:python  Python".to_string(),
            "hello        <no description provided>".to_string(),
        ]
    );
}

#[test]
fn render_search_results_no_matches() {
    match render_search_results_user_facing("nothing", &vec![]) {
        Err(SearchError::NoMatches(t)) => assert_eq!(t, "nothing"),
        _ => panic!("expected NoMatches"),
    }
}

#[test]
fn render_search_results_dedups_and_disambiguates() {
    let results = vec![
        result("flox", &["python"], Some("Python from flox"), Some("3.11")),
        result("nixpkgs", &["python"], Some("Python"), Some("3.10")),
        result("flox", &["python"], Some("older"), Some("3.9")),
        result("nixpkgs", &["hello"], None, Some("2.12")),
    ];
    let lines = match render_search_results_user_facing("python", &results) {
        Ok(lines) => lines,
        Err(_) => panic!("expected a listing"),
    };
    assert_eq!(
        lines,
        vec![
            "flox:python     Python from flox".to_string(),
            "nixpkgs:python  Python".to_string(),
            "hello           <no description provided>".to_string(),
        ]
    );
}
