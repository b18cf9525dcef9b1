use flox_search::listing::SearchError;
use flox_search::range_shape::unhandled_wildcard;
use flox_search::query::{construct_search_params, construct_show_params, exit_outcome, PathOrJson, Query};

fn path(s: &str) -> PathOrJson {
    PathOrJson::Path(s.to_string())
}

#[test]
fn query_without_range() {
    let q = match Query::from_str("hello", false) {
        Ok(q) => q,
        Err(_) => panic!("expected a query"),
    };
    assert_eq!(q.pattern, "hello");
    assert_eq!(q.semver, None);
    assert!(!q.match_name);
}

#[test]
fn query_splits_at_first_at() {
    let q = match Query::from_parts("node@>=16@x", true, true) {
        Ok(q) => q,
        Err(_) => panic!("expected a query"),
    };
    assert_eq!(q.pattern, "node");
    assert_eq!(q.semver.as_deref(), Some(">=16@x"));
    assert!(q.match_name);
}

#[test]
fn query_from_parts_rejects_range_that_does_not_parse() {
    match Query::from_parts("node@>=16", false, false) {
        Err(SearchError::InvalidQuery(t)) => assert_eq!(t, "node@>=16"),
        _ => panic!("expected InvalidQuery"),
    }
    assert!(Query::from_parts("node", false, false).is_ok());
}

#[test]
fn query_accepts_semver_ranges() {
    for (term, range) in [("node@>=16", ">=16"), ("coreutils@9.1", "9.1"), ("hello@^2.12", "^2.12")] {
        let q = match Query::from_str(term, false) {
            Ok(q) => q,
            Err(_) => panic!("expected a query for {term:?}"),
        };
        assert_eq!(q.semver.as_deref(), Some(range));
    }
}

#[test]
fn query_rejects_range_that_does_not_parse() {
    for term in ["node@%%%", "node@>=16@x", "node@1.2.3.4.5"] {
        match Query::from_str(term, false) {
            Err(SearchError::InvalidQuery(t)) => assert_eq!(t, term),
            _ => panic!("expected InvalidQuery for {term:?}"),
        }
    }
}

#[test]
fn query_rejects_empty_pattern_and_range() {
    for term in ["", "@1.0", "node@"] {
        match Query::from_str(term, false) {
            Err(SearchError::InvalidQuery(t)) => assert_eq!(t, term),
            _ => panic!("expected InvalidQuery for {term:?}"),
        }
    }
}

#[test]
fn search_params_carry_manifests_and_query() {
    let p = match construct_search_params("coreutils@9.1", path("m.toml"), path("g.toml"), None, false) {
        Ok(p) => p,
        Err(_) => panic!("expected params"),
    };
    assert_eq!(p.query.pattern, "coreutils");
    assert_eq!(p.query.semver.as_deref(), Some("9.1"));
    assert!(matches!(p.manifest, PathOrJson::Path(ref s) if s == "m.toml"));
    assert!(matches!(p.global_manifest, PathOrJson::Path(ref s) if s == "g.toml"));
    assert!(p.lockfile.is_none());
}

#[test]
fn show_params_take_package_after_input() {
    let p = match construct_show_params("nixpkgs:hello", path("m"), path("g"), Some(path("l")), true) {
        Ok(p) => p,
        Err(_) => panic!("expected params"),
    };
    assert_eq!(p.query.pattern, "hello");
    assert!(p.query.match_name);
    assert!(matches!(p.lockfile, Some(PathOrJson::Path(ref s)) if s == "l"));
    let p = match construct_show_params("hello", path("m"), path("g"), None, true) {
        Ok(p) => p,
        Err(_) => panic!("expected params"),
    };
    assert_eq!(p.query.pattern, "hello");
}

#[test]
fn show_params_reject_two_separators() {
    match construct_show_params("a:b:c", path("m"), path("g"), None, false) {
        Err(SearchError::InvalidSearchTerm(t)) => assert_eq!(t, "a:b:c"),
        _ => panic!("expected InvalidSearchTerm"),
    }
}

#[test]
fn show_params_reject_empty_package() {
    match construct_show_params("nixpkgs:", path("m"), path("g"), None, false) {
        Err(SearchError::InvalidQuery(t)) => assert_eq!(t, ""),
        _ => panic!("expected InvalidQuery"),
    }
}

#[test]
fn exit_outcome_reports_status_code() {
    assert!(exit_outcome(true, Some(0)).is_ok());
    assert!(matches!(exit_outcome(false, Some(3)), Err(SearchError::ExternalToolFailure(3))));
    assert!(matches!(exit_outcome(false, None), Err(SearchError::ExternalToolFailure(-1))));
}

#[test]
fn query_rejects_wildcards_the_range_parser_cannot_handle() {
    for term in ["node@=x", "node@= *", "node@~x", "node@~>X", "node@~1.x.3", "node@~> 1.*.x", "node@>=1 || =x"] {
        match Query::from_str(term, false) {
            Err(SearchError::InvalidQuery(t)) => assert_eq!(t, term),
            _ => panic!("expected InvalidQuery for {term:?}"),
        }
    }
}

#[test]
fn query_accepts_other_wildcards() {
    for term in ["node@>=*", "node@<=x", "node@~1.2.x", "node@^1.x", "node@1.x.3", "node@*"] {
        assert!(Query::from_str(term, false).is_ok(), "expected a query for {term:?}");
    }
}

#[test]
fn unhandled_wildcard_shapes() {
    assert!(unhandled_wildcard("=x"));
    assert!(unhandled_wildcard("~ > v 2.X.0"));
    assert!(unhandled_wildcard("1.2 ~*"));
    assert!(!unhandled_wildcard(">=x"));
    assert!(!unhandled_wildcard("<=*"));
    assert!(!unhandled_wildcard("~1.x"));
    assert!(!unhandled_wildcard("~1.2.3"));
    assert!(!unhandled_wildcard(""));
}
