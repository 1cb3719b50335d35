use submig_lib::report::{contains_text, FAIL_MARK, PASS_MARK};
use submig_lib::{list_migrations, ListOpts, Listing, Migration, Opts, SearchResult, SubCommand};
use submig_lib::{Policy, ScanError, SubmigError};

fn named(names: &[&str]) -> Vec<Migration> {
    names.iter().map(|name| Migration::from(*name)).collect()
}

fn lines(list: &[&str]) -> Vec<String> {
    list.iter().map(|line| line.to_string()).collect()
}

fn sample() -> SearchResult {
    let mut found = SearchResult::new();
    found.insert(
        "/repo/runtime/a/lib.rs".to_string(),
        (named(&["V0001", "Unreleased"]), Vec::new()),
    );
    found.insert(
        "/repo/runtime/b/lib.rs".to_string(),
        (named(&["V0002"]), vec![Migration::from("foo"), Migration::NotOk()]),
    );
    found.insert("/repo/pallets/c/lib.rs".to_string(), (Vec::new(), Vec::new()));
    found
}

#[test]
fn the_marks() {
    assert_eq!(PASS_MARK, "  - \u{2705} ");
    assert_eq!(FAIL_MARK, "  - \u{274c} ");
}

#[test]
fn every_file_is_listed_without_a_pattern() {
    let listing = list_migrations(&sample(), &None);
    assert_eq!(
        listing,
        Listing {
            lines: lines(&[
                "/repo/runtime/a/lib.rs:",
                "  - \u{2705} V0001",
                "  - \u{2705} Unreleased",
                "/repo/runtime/b/lib.rs:",
                "  - \u{2705} V0002",
                "  - \u{274c} foo",
                "  - \u{274c} err",
                "/repo/pallets/c/lib.rs:",
            ]),
            overall_valid: false,
        }
    );
}

#[test]
fn a_pattern_selects_the_files() {
    let listing = list_migrations(&sample(), &Some("runtime/a".to_string()));
    assert_eq!(
        listing,
        Listing {
            lines: lines(&[
                "/repo/runtime/a/lib.rs:",
                "  - \u{2705} V0001",
                "  - \u{2705} Unreleased",
            ]),
            overall_valid: true,
        }
    );
    let listing = list_migrations(&sample(), &Some("runtime".to_string()));
    assert_eq!(listing.lines.len(), 7);
    assert!(!listing.overall_valid);
    let listing = list_migrations(&sample(), &Some("pallets".to_string()));
    assert_eq!(
        listing,
        Listing { lines: lines(&["/repo/pallets/c/lib.rs:"]), overall_valid: true }
    );
}

#[test]
fn a_pattern_that_selects_nothing() {
    let listing = list_migrations(&sample(), &Some("polkadot".to_string()));
    assert_eq!(listing, Listing { lines: Vec::new(), overall_valid: true });
}

#[test]
fn nothing_found_is_valid() {
    let listing = list_migrations(&SearchResult::new(), &None);
    assert_eq!(listing, Listing { lines: Vec::new(), overall_valid: true });
}

#[test]
fn the_empty_pattern_selects_every_file() {
    assert_eq!(list_migrations(&sample(), &Some(String::new())), list_migrations(&sample(), &None));
}

#[test]
fn text_is_searched_for_a_pattern() {
    assert!(contains_text("/repo/runtime/lib.rs", "runtime"));
    assert!(contains_text("/repo/runtime/lib.rs", "/repo"));
    assert!(contains_text("/repo/runtime/lib.rs", "lib.rs"));
    assert!(contains_text("/repo/runtime/lib.rs", "/repo/runtime/lib.rs"));
    assert!(contains_text("/repo/runtime/lib.rs", ""));
    assert!(contains_text("", ""));
    assert!(!contains_text("", "a"));
    assert!(!contains_text("/repo/runtime/lib.rs", "Runtime"));
    assert!(!contains_text("/repo/runtime/lib.rs", "lib.rss"));
    assert!(!contains_text("/repo/runtime/lib.rs", "x/repo/runtime/lib.rs"));
    assert!(contains_text("aaab", "aab"));
    assert!(!contains_text("aaab", "aba"));
    assert!(contains_text("p/\u{e9}t\u{e9}/x", "\u{e9}/x"));
    assert!(!contains_text("p/\u{e9}t\u{e9}/x", "e"));
}

#[test]
fn the_options_of_the_list_command_are_taken() {
    let opts = Opts {
        subcmd: Some(SubCommand::List(ListOpts {
            repo: "/repo".to_string(),
            pattern: Some("runtime".to_string()),
            strict: true,
        })),
    };
    let chosen = opts.list_opts(Some("/default".to_string())).unwrap();
    assert_eq!(chosen.repo, "/repo");
    assert_eq!(chosen.pattern, Some("runtime".to_string()));
    assert!(chosen.strict);
    assert_eq!(chosen.policy(), Policy::Strict);
}

#[test]
fn without_a_command_the_default_repository_is_listed() {
    let chosen = Opts { subcmd: None }.list_opts(Some("/default".to_string())).unwrap();
    assert_eq!(chosen.repo, "/default");
    assert_eq!(chosen.pattern, None);
    assert!(!chosen.strict);
    assert_eq!(chosen.policy(), Policy::Lenient);
}

#[test]
fn without_a_command_and_a_default_there_is_nothing_to_list() {
    assert!(Opts { subcmd: None }.list_opts(None).is_none());
}

#[test]
fn every_error_has_its_message() {
    assert_eq!(
        SubmigError::NonStandard.message(),
        "The migration do not seem to be following the standard"
    );
    assert_eq!(SubmigError::IO.message(), "I/O Error");
    assert_eq!(SubmigError::Parsing.message(), "Parsing Error");
    assert_eq!(SubmigError::Unknown.message(), "Unknown error");
    assert_eq!(SubmigError::Duplicate.message(), "More than one Migrations declaration");
    assert_eq!(SubmigError::Discovery.message(), "The candidate files could not be listed");
    let failure = ScanError { path: "a.rs".to_string(), kind: SubmigError::IO };
    assert_eq!(failure.kind.message(), "I/O Error");
}
