use srml_babe::chain_spec_builder::{authority_keystore_name, decimal_string, generate_seeds, seed_report, ChainSpecBuilder};

#[test]
fn chain_spec_path_of_either_command() {
    let new = ChainSpecBuilder::New {
        authority_seeds: vec!["alice".to_string()],
        endowed_accounts: vec![],
        sudo_account: "5Grw".to_string(),
        chain_spec_path: "./chain_spec.json".to_string(),
    };
    assert_eq!(new.chain_spec_path(), "./chain_spec.json");
    let generate = ChainSpecBuilder::Generate { authorities: 2, endowed: 0, chain_spec_path: "/tmp/spec.json".to_string(), keystore_path: None };
    assert_eq!(generate.chain_spec_path(), "/tmp/spec.json");
}

#[test]
fn decimal_strings() {
    assert_eq!(decimal_string(0), "0");
    assert_eq!(decimal_string(7), "7");
    assert_eq!(decimal_string(10), "10");
    assert_eq!(decimal_string(1234), "1234");
    assert_eq!(decimal_string(usize::MAX), usize::MAX.to_string());
    assert_eq!(authority_keystore_name(12), "auth-12");
}

#[test]
fn seed_report_without_endowed_accounts() {
    let lines = seed_report(&["a".to_string(), "b".to_string()], &[], "s");
    assert_eq!(
        lines,
        vec![
            "\x1b[1;4mAuthority seeds\x1b[0m".to_string(),
            "\x1b[1mauth-0:\x1b[0m //a".to_string(),
            "\x1b[1mauth-1:\x1b[0m //b".to_string(),
            String::new(),
            "\x1b[1;4mSudo seed\x1b[0m".to_string(),
            "//s".to_string(),
        ]
    );
}

#[test]
fn seed_report_with_endowed_accounts() {
    let lines = seed_report(&["a".to_string()], &["e".to_string()], "s");
    assert_eq!(
        lines,
        vec![
            "\x1b[1;4mAuthority seeds\x1b[0m".to_string(),
            "\x1b[1mauth-0:\x1b[0m //a".to_string(),
            String::new(),
            "\x1b[1;4mEndowed seeds\x1b[0m".to_string(),
            "\x1b[1mendowed-0:\x1b[0m //e".to_string(),
            String::new(),
            "\x1b[1;4mSudo seed\x1b[0m".to_string(),
            "//s".to_string(),
        ]
    );
}

#[test]
fn generated_seeds_are_alphanumeric() {
    let (authorities, endowed, sudo) = generate_seeds(0, 3);
    assert_eq!(authorities.len(), 1);
    assert_eq!(endowed.len(), 3);
    for seed in authorities.iter().chain(endowed.iter()).chain(std::iter::once(&sudo)) {
        assert_eq!(seed.len(), 32);
        assert!(seed.chars().all(|c| c.is_ascii_alphanumeric()));
    }
    let (authorities, _, _) = generate_seeds(4, 0);
    assert_eq!(authorities.len(), 4);
}
