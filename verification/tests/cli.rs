use cargo_changelog::cli::kv_value_parser;
use cargo_changelog::cli::text_provider_parser;
use cargo_changelog::cli::Selector;
use cargo_changelog::cli::ShowFormat;
use cargo_changelog::cli::TextProvider;
use cargo_changelog::cli::VersionSpec;

#[test]
fn key_value_is_cut_at_the_equals_sign() {
    let kv = kv_value_parser("issue=123").unwrap();
    assert_eq!(kv.key(), "issue");
    assert_eq!(kv.value(), "123");
    let empty_value = kv_value_parser("issue=").unwrap();
    assert_eq!(empty_value.key(), "issue");
    assert_eq!(empty_value.value(), "");
    let empty_key = kv_value_parser("=x").unwrap();
    assert_eq!(empty_key.key(), "");
    assert_eq!(empty_key.value(), "x");
    let copy = kv.clone();
    assert_eq!((copy.key.as_str(), copy.value.as_str()), ("issue", "123"));
}

#[test]
fn key_value_needs_exactly_one_equals_sign() {
    assert_eq!(kv_value_parser("issue").unwrap_err(), "Cannot parse as key-value: 'issue'");
    assert_eq!(kv_value_parser("a=b=c").unwrap_err(), "Cannot parse as key-value: 'a=b=c'");
    assert_eq!(kv_value_parser("").unwrap_err(), "Cannot parse as key-value: ''");
    assert_eq!(kv_value_parser("==").unwrap_err(), "Cannot parse as key-value: '=='");
}

#[test]
fn hyphen_stands_for_the_standard_input() {
    assert!(matches!(text_provider_parser("-", false, false), Ok(TextProvider::Stdin)));
    assert!(matches!(text_provider_parser("-", true, true), Ok(TextProvider::Stdin)));
}

#[test]
fn path_must_exist_and_be_a_file() {
    assert!(matches!(text_provider_parser("notes.md", true, true), Ok(TextProvider::Path(p)) if p == "notes.md"));
    assert_eq!(text_provider_parser("notes.md", false, false).unwrap_err(), "Path does not exist: notes.md");
    assert_eq!(text_provider_parser("notes.md", false, true).unwrap_err(), "Path does not exist: notes.md");
    assert_eq!(text_provider_parser("notes", true, false).unwrap_err(), "Path is not a file: notes");
}

#[test]
fn plain_values_of_the_command_line() {
    assert!(matches!(TextProvider::Path("a".to_string()).clone(), TextProvider::Path(p) if p == "a"));
    assert!(matches!(TextProvider::Stdin.clone(), TextProvider::Stdin));
    assert_ne!(ShowFormat::Text, ShowFormat::Json);
    assert!(matches!(VersionSpec::Custom { custom: "1.0.0".to_string() }, VersionSpec::Custom { custom } if custom == "1.0.0"));
    let range = Selector::Range { from: "a".to_string(), until: "b".to_string() };
    assert!(matches!(range.clone(), Selector::Range { from, until } if from == "a" && until == "b"));
    assert!(matches!(Selector::Exact { exact: "x".to_string() }.clone(), Selector::Exact { exact } if exact == "x"));
    assert!(matches!(Selector::Unreleased.clone(), Selector::Unreleased));
}
