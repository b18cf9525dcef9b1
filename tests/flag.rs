use flox_search::flag::FlagType;

fn strings(v: &[&str]) -> Vec<String> {
    v.iter().map(|s| s.to_string()).collect()
}

#[test]
fn bool_flag_false_gives_no_tokens() {
    assert!(FlagType::bool(false).to_args("--impure").is_empty());
}

#[test]
fn bool_flag_true_gives_the_flag_name() {
    assert_eq!(FlagType::bool(true).to_args("--impure"), strings(&["--impure"]));
}

#[test]
fn list_flag_empty_gives_no_tokens() {
    assert!(FlagType::list(vec![]).to_args("--extra-experimental-features").is_empty());
}

#[test]
fn list_flag_joins_elements_into_one_token() {
    let t = FlagType::list(strings(&["nix-command", "flakes", "ca"]));
    assert_eq!(
        t.to_args("--extra-experimental-features"),
        strings(&["--extra-experimental-features", "nix-command flakes ca"])
    );
}

#[test]
fn list_flag_single_element() {
    let t = FlagType::list(strings(&["flakes"]));
    assert_eq!(t.to_args("--features"), strings(&["--features", "flakes"]));
}

#[test]
fn args_flag_empty_gives_no_tokens() {
    assert!(FlagType::Args(vec![]).to_args("--override-input").is_empty());
}

#[test]
fn args_flag_gives_one_token_per_element() {
    let t = FlagType::Args(strings(&["nixpkgs", "github:nixos/nixpkgs"]));
    assert_eq!(
        t.to_args("--override-input"),
        strings(&["--override-input", "nixpkgs", "github:nixos/nixpkgs"])
    );
}

#[test]
fn arg_flag_always_two_tokens() {
    assert_eq!(FlagType::arg("3".to_string()).to_args("--max-jobs"), strings(&["--max-jobs", "3"]));
    assert_eq!(FlagType::arg(String::new()).to_args("--max-jobs"), strings(&["--max-jobs", ""]));
}

#[test]
fn custom_flag_gives_exactly_its_tokens() {
    let t = FlagType::Custom(strings(&["a", "b c"]));
    assert_eq!(t.to_args("--ignored"), strings(&["a", "b c"]));
    assert!(FlagType::Custom(vec![]).to_args("--ignored").is_empty());
}
