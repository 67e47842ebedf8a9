use cargo_changelog::command::release_command::bucket_of_path;
use cargo_changelog::error::Error;
use cargo_changelog::error::VersionError;
use cargo_changelog::path::last_is;
use cargo_changelog::path::sort_paths;
use cargo_changelog::path::EntryKind;
use cargo_changelog::path::PathPart;
use cargo_changelog::path::WalkEntry;
use cargo_changelog::path::Walked;
use cargo_changelog::selector::all_fragments;
use cargo_changelog::selector::SelectorExecutor;

fn texts(values: &[&str]) -> Vec<String> {
    values.iter().map(|v| v.to_string()).collect()
}

fn parts(path: &str) -> Vec<PathPart> {
    path.split('/').map(|n| PathPart::Normal(n.to_string())).collect()
}

fn file(path: &str) -> Walked {
    Walked::Entry(WalkEntry { path: path.to_string(), parts: parts(path), kind: EntryKind::File })
}

#[test]
fn paths_are_put_in_the_order_of_a_dictionary() {
    assert_eq!(
        sort_paths(texts(&["b/2", "a/10", "a/2", "a", "", "b", "a/1"])),
        texts(&["", "a", "a/1", "a/10", "a/2", "b", "b/2"])
    );
    assert_eq!(sort_paths(vec![]), Vec::<String>::new());
    assert_eq!(sort_paths(texts(&["x", "x", "a"])), texts(&["a", "x", "x"]));
}

#[test]
fn sorting_agrees_with_the_order_of_std() {
    let mixed = texts(&["é", "z", "Z", "a b", "a", "ab", "𝄞", "~", "0", "-"]);
    let mut expected = mixed.clone();
    expected.sort();
    assert_eq!(sort_paths(mixed), expected);
}

#[test]
fn selection_does_not_depend_on_the_order_of_the_walk() {
    let query = all_fragments(".changelogs");
    assert_eq!(query.segments, texts(&[".changelogs"]));
    let one_way = vec![
        file(".changelogs/0.2.0/b.md"),
        file(".changelogs/0.1.0/z.md"),
        file(".changelogs/0.2.0/a.md"),
        file(".changelogs/unreleased/.gitkeep"),
        file(".changelogs/template.md"),
    ];
    let other_way = vec![
        file(".changelogs/template.md"),
        file(".changelogs/0.2.0/a.md"),
        file(".changelogs/unreleased/.gitkeep"),
        file(".changelogs/0.2.0/b.md"),
        file(".changelogs/0.1.0/z.md"),
    ];
    let first = SelectorExecutor::run(&query, "template.md", &one_way).unwrap();
    let second = SelectorExecutor::run(&query, "template.md", &other_way).unwrap();
    assert_eq!(first, second);
    assert_eq!(
        first,
        texts(&[".changelogs/0.1.0/z.md", ".changelogs/0.2.0/a.md", ".changelogs/0.2.0/b.md"])
    );
}

#[test]
fn last_component_is_compared_whole() {
    assert!(last_is(&parts("a/.gitkeep"), ".gitkeep"));
    assert!(!last_is(&parts("a/x.gitkeep"), ".gitkeep"));
    assert!(!last_is(&parts(".gitkeep/a"), ".gitkeep"));
    assert!(!last_is(&vec![], ".gitkeep"));
    assert!(!last_is(&vec![PathPart::NotUtf8], ".gitkeep"));
    assert!(matches!(PathPart::Normal("x".to_string()).clone(), PathPart::Normal(n) if n == "x"));
}

#[test]
fn bucket_of_a_path_is_its_version_or_the_pending_one() {
    let released = bucket_of_path("c/0.1.0/a.md", &parts("c/0.1.0/a.md"), false).unwrap();
    assert!(matches!(released, Some(Some(v)) if v.to_text() == "0.1.0"));
    assert!(matches!(bucket_of_path("c/unreleased/a.md", &parts("c/unreleased/a.md"), false), Ok(None)));
    assert!(matches!(bucket_of_path("c/unreleased/a.md", &parts("c/unreleased/a.md"), true), Ok(Some(None))));
    assert!(matches!(
        bucket_of_path("c/?", &vec![PathPart::NotUtf8], true),
        Err(Error::Version(VersionError::Utf8(p))) if p == "c/?"
    ));
}
