use flox_search::listing::{SearchError, SearchResult, Subtree};
use flox_search::show::{render_show, show_results};

fn result(rel_path: &[&str], abs_last: &str, subtree: Subtree, version: Option<&str>, description: Option<&str>) -> SearchResult {
    let mut abs_path: Vec<String> = vec!["catalog".to_string()];
    abs_path.extend(rel_path.iter().map(|s| s.to_string()));
    abs_path.push(abs_last.to_string());
    SearchResult {
        input: "nixpkgs".to_string(),
        abs_path,
        subtree,
        rel_path: rel_path.iter().map(|s| s.to_string()).collect(),
        description: description.map(|s| s.to_string()),
        version: version.map(|s| s.to_string()),
    }
}

fn python_then_numpy() -> Vec<SearchResult> {
    vec![
        result(&["python"], "3_11_1", Subtree::Catalog, Some("3.11.1"), Some("A language\nfor all")),
        result(&["python"], "3_10_9", Subtree::Catalog, Some("3.10.9"), None),
        result(&["numpy"], "1_24_0", Subtree::Catalog, Some("1.24.0"), None),
    ]
}

fn lines(r: Result<Vec<String>, SearchError>) -> Vec<String> {
    match r {
        Ok(l) => l,
        Err(_) => panic!("expected output"),
    }
}

#[test]
fn show_all_aggregates_leading_run_only() {
    assert_eq!(
        lines(render_show(&python_then_numpy(), true)),
        vec![
            "python - A language for all".to_string(),
            "    python - python@3.11.1, python@3.10.9".to_string(),
        ]
    );
}

#[test]
fn show_top_version_only() {
    assert_eq!(
        lines(render_show(&python_then_numpy(), false)),
        vec![
            "python - A language for all".to_string(),
            "    python - python@3.11.1".to_string(),
        ]
    );
}

#[test]
fn show_run_stops_at_first_other_label() {
    let mut results = python_then_numpy();
    results.push(result(&["python"], "3_9_0", Subtree::Catalog, Some("3.9.0"), None));
    assert_eq!(
        lines(render_show(&results, true))[1],
        "    python - python@3.11.1, python@3.10.9"
    );
}

#[test]
fn show_all_skips_latest_alias() {
    let results = vec![
        result(&["hello"], "latest", Subtree::Catalog, Some("2.12.1"), None),
        result(&["hello"], "2_12_1", Subtree::Catalog, Some("2.12.1"), None),
        result(&["hello"], "2_10", Subtree::Catalog, None, None),
        result(&["hello"], "latest", Subtree::LegacyPackages, Some("2.9"), None),
    ];
    assert_eq!(
        lines(render_show(&results, true)),
        vec![
            "hello - <no description provided>".to_string(),
            "    hello - hello@2.12.1, hello@2.9".to_string(),
        ]
    );
}

#[test]
fn show_without_version_prints_name() {
    let results = vec![result(&["python3Packages", "flask"], "x", Subtree::Packages, None, Some("web"))];
    assert_eq!(
        lines(render_show(&results, false)),
        vec![
            "python3Packages.flask - web".to_string(),
            "    python3Packages.flask - python3Packages.flask".to_string(),
        ]
    );
}

#[test]
fn show_empty_is_an_invariant_violation() {
    assert!(matches!(render_show(&vec![], true), Err(SearchError::InternalInvariantViolation)));
}

#[test]
fn show_results_without_matches_names_the_term() {
    match show_results("nixpkgs:nothing", &vec![], false) {
        Err(SearchError::NoMatches(t)) => assert_eq!(t, "nixpkgs:nothing"),
        _ => panic!("expected NoMatches"),
    }
    assert_eq!(
        lines(show_results("python", &python_then_numpy(), false))[1],
        "    python - python@3.11.1"
    );
}
