use submig_lib::classify::{entry_conforms, split_by};
use submig_lib::naming::{conforms, conforms_to, same_text, UNRELEASED, VERSION_PATTERN};
use submig_lib::{check_naming, is_conforming, Migration};

fn named(names: &[&str]) -> Vec<Migration> {
    names.iter().map(|name| Migration::from(*name)).collect()
}

#[test]
fn unreleased_conforms() {
    assert!(is_conforming("Unreleased"));
}

#[test]
fn four_digit_version_conforms() {
    assert!(is_conforming("V0001"));
    assert!(is_conforming("V0042"));
    assert!(is_conforming("V9999"));
    assert!(is_conforming("V0000"));
}

#[test]
fn three_digit_version_does_not_conform() {
    assert!(!is_conforming("V001"));
    assert!(!is_conforming("V123"));
}

#[test]
fn five_digit_version_does_not_conform() {
    assert!(!is_conforming("V00001"));
}

#[test]
fn lower_case_version_does_not_conform() {
    assert!(!is_conforming("v0001"));
}

#[test]
fn digits_alone_do_not_conform() {
    assert!(!is_conforming("0001"));
}

#[test]
fn empty_name_does_not_conform() {
    assert!(!is_conforming(""));
}

#[test]
fn the_whole_name_is_judged() {
    assert!(!is_conforming(" V0001"));
    assert!(!is_conforming("V0001 "));
    assert!(!is_conforming("V0001\n"));
    assert!(!is_conforming("xV0001"));
    assert!(!is_conforming("V0001x"));
    assert!(!is_conforming("V00a1"));
    assert!(!is_conforming("Unreleased "));
    assert!(!is_conforming("unreleased"));
    assert!(!is_conforming("UNRELEASED"));
    assert!(!is_conforming("Unreleased2"));
    assert!(!is_conforming("err"));
}

#[test]
fn the_constants_of_the_convention() {
    assert_eq!(UNRELEASED, "Unreleased");
    assert_eq!(VERSION_PATTERN, r"^V\d{4}$");
}

#[test]
fn conforms_given_the_match() {
    assert!(conforms("Unreleased", false));
    assert!(conforms("Unreleased", true));
    assert!(conforms("V0001", true));
    assert!(!conforms("V0001", false));
    assert!(!conforms("", false));
}

#[test]
fn a_pattern_that_does_not_compile_matches_nothing() {
    let broken = regex::Regex::new("V(");
    assert!(broken.is_err());
    assert!(!conforms_to(&broken, "V0001"));
    assert!(conforms_to(&broken, "Unreleased"));
}

#[test]
fn a_compiled_pattern_decides() {
    let rule = regex::Regex::new(VERSION_PATTERN);
    assert!(rule.is_ok());
    assert!(conforms_to(&rule, "V1234"));
    assert!(!conforms_to(&rule, "V123"));
    assert!(conforms_to(&rule, "Unreleased"));
    let other = regex::Regex::new("^foo$");
    assert!(conforms_to(&other, "foo"));
    assert!(!conforms_to(&other, "V1234"));
}

#[test]
fn same_text_compares_whole_strings() {
    assert!(same_text("", ""));
    assert!(same_text("Migrations", "Migrations"));
    assert!(!same_text("Migrations", "Migration"));
    assert!(!same_text("Migration", "Migrations"));
    assert!(!same_text("Migrations", "migrations"));
    assert!(same_text("\u{e9}t\u{e9}", "\u{e9}t\u{e9}"));
    assert!(!same_text("\u{e9}", "e"));
}

#[test]
fn entries_without_a_name_do_not_conform() {
    let rule = regex::Regex::new(VERSION_PATTERN);
    assert!(!entry_conforms(&rule, &Migration::NotOk()));
    assert!(entry_conforms(&rule, &Migration::from("V0007")));
    assert!(!entry_conforms(&rule, &Migration::from("err")));
}

#[test]
fn classification_keeps_the_order() {
    let (valid, invalid) = check_naming(named(&["V0001", "Unreleased", "foo"]));
    assert_eq!(valid, named(&["V0001", "Unreleased"]));
    assert_eq!(invalid, named(&["foo"]));
}

#[test]
fn classification_of_nothing() {
    let (valid, invalid) = check_naming(Vec::new());
    assert!(valid.is_empty());
    assert!(invalid.is_empty());
}

#[test]
fn classification_is_a_stable_partition() {
    let input = vec![
        Migration::from("bar"),
        Migration::from("V0002"),
        Migration::NotOk(),
        Migration::from("V0001"),
        Migration::from("V1"),
        Migration::from("Unreleased"),
        Migration::from("V0002"),
        Migration::NotOk(),
    ];
    let (valid, invalid) = check_naming(input.clone());
    assert_eq!(valid, named(&["V0002", "V0001", "Unreleased", "V0002"]));
    assert_eq!(
        invalid,
        vec![
            Migration::from("bar"),
            Migration::NotOk(),
            Migration::from("V1"),
            Migration::NotOk(),
        ]
    );
    assert_eq!(valid.len() + invalid.len(), input.len());
}

#[test]
fn split_by_follows_the_verdicts() {
    let (valid, invalid) = split_by(named(&["a", "b", "c", "d"]), &vec![false, true, true, false]);
    assert_eq!(valid, named(&["b", "c"]));
    assert_eq!(invalid, named(&["a", "d"]));
}

#[test]
fn split_by_without_a_verdict_rejects() {
    let (valid, invalid) = split_by(named(&["a", "b", "c"]), &vec![true]);
    assert_eq!(valid, named(&["a"]));
    assert_eq!(invalid, named(&["b", "c"]));
    let (valid, invalid) = split_by(named(&["a"]), &vec![true, true, true]);
    assert_eq!(valid, named(&["a"]));
    assert_eq!(invalid, Vec::<Migration>::new());
}
