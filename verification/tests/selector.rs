use cargo_changelog::cli::Selector;
use cargo_changelog::error::Error;
use cargo_changelog::path::EntryKind;
use cargo_changelog::path::PathPart;
use cargo_changelog::path::WalkEntry;
use cargo_changelog::path::Walked;
use cargo_changelog::selector::in_range;
use cargo_changelog::selector::QueryShape;
use cargo_changelog::selector::SelectorExecutor;
use cargo_changelog::version::Version;

fn entry(path: &str, kind: EntryKind) -> Walked {
    Walked::Entry(WalkEntry {
        path: path.to_string(),
        parts: path.split('/').map(|n| PathPart::Normal(n.to_string())).collect(),
        kind,
    })
}

fn tree() -> Vec<Walked> {
    vec![
        entry(".changelogs", EntryKind::Dir),
        entry(".changelogs/template.md", EntryKind::File),
        entry(".changelogs/unreleased", EntryKind::Dir),
        entry(".changelogs/unreleased/.gitkeep", EntryKind::File),
        entry(".changelogs/unreleased/pending.md", EntryKind::File),
        entry(".changelogs/0.1.0", EntryKind::Dir),
        entry(".changelogs/0.1.0/one.md", EntryKind::File),
        entry(".changelogs/0.2.0", EntryKind::Dir),
        entry(".changelogs/0.2.0/two_a.md", EntryKind::File),
        entry(".changelogs/0.2.0/two_b.md", EntryKind::File),
        entry(".changelogs/0.2.0/link", EntryKind::Other),
        entry(".changelogs/0.3.0", EntryKind::Dir),
        entry(".changelogs/0.3.0/three.md", EntryKind::File),
    ]
}

fn below(prefix: &str) -> Vec<Walked> {
    tree()
        .into_iter()
        .filter(|w| matches!(w, Walked::Entry(e) if e.path.starts_with(prefix)))
        .collect()
}

#[test]
fn range_selects_only_the_versions_strictly_between() {
    let selector = Selector::Range { from: "0.1.0".to_string(), until: "0.3.0".to_string() };
    let executor = SelectorExecutor::new(Some(&selector));
    let query = executor.plan(".changelogs").unwrap();
    assert_eq!(query.segments, vec![".changelogs".to_string()]);
    let found = SelectorExecutor::run(&query, "template.md", &tree()).unwrap();
    assert_eq!(found, vec![".changelogs/0.2.0/two_a.md", ".changelogs/0.2.0/two_b.md"]);
}

#[test]
fn range_leaves_both_of_its_ends_out() {
    let selector = Selector::Range { from: "0.2.0".to_string(), until: "0.2.0".to_string() };
    let executor = SelectorExecutor::new(Some(&selector));
    let query = executor.plan(".changelogs").unwrap();
    assert!(SelectorExecutor::run(&query, "template.md", &tree()).unwrap().is_empty());
    let wide = Selector::Range { from: "0.0.1".to_string(), until: "0.3.0".to_string() };
    let query = SelectorExecutor::new(Some(&wide)).plan(".changelogs").unwrap();
    assert_eq!(
        SelectorExecutor::run(&query, "template.md", &tree()).unwrap(),
        vec![".changelogs/0.1.0/one.md", ".changelogs/0.2.0/two_a.md", ".changelogs/0.2.0/two_b.md"]
    );
}

#[test]
fn range_with_nothing_between_selects_nothing() {
    let selector = Selector::Range { from: "0.2.0".to_string(), until: "0.3.0".to_string() };
    let executor = SelectorExecutor::new(Some(&selector));
    let query = executor.plan(".changelogs").unwrap();
    let found = SelectorExecutor::run(&query, "template.md", &tree()).unwrap();
    assert!(found.is_empty());
}

#[test]
fn range_needs_two_versions() {
    let bad_from = Selector::Range { from: "zero".to_string(), until: "0.3.0".to_string() };
    assert!(matches!(
        SelectorExecutor::new(Some(&bad_from)).plan(".changelogs"),
        Err(Error::SemVer(_))
    ));
    let bad_until = Selector::Range { from: "0.1.0".to_string(), until: "0.3".to_string() };
    assert!(matches!(
        SelectorExecutor::new(Some(&bad_until)).plan(".changelogs"),
        Err(Error::SemVer(_))
    ));
}

#[test]
fn exact_selects_the_fragments_of_its_directory() {
    let selector = Selector::Exact { exact: "0.2.0".to_string() };
    let executor = SelectorExecutor::new(Some(&selector));
    let query = executor.plan(".changelogs").unwrap();
    assert_eq!(query.segments, vec![".changelogs".to_string(), "0.2.0".to_string()]);
    assert!(query.bounds.is_none());
    let found = SelectorExecutor::run(&query, "template.md", &below(".changelogs/0.2.0")).unwrap();
    assert_eq!(found, vec![".changelogs/0.2.0/two_a.md", ".changelogs/0.2.0/two_b.md"]);
}

#[test]
fn unreleased_never_selects_released_fragments() {
    for selector in [None, Some(Selector::Unreleased)] {
        let executor = SelectorExecutor::new(selector.as_ref());
        let query = executor.plan(".changelogs").unwrap();
        assert_eq!(query.segments, vec![".changelogs".to_string(), "unreleased".to_string()]);
        let found =
            SelectorExecutor::run(&query, "template.md", &below(".changelogs/unreleased")).unwrap();
        assert_eq!(found, vec![".changelogs/unreleased/pending.md"]);
    }
}

#[test]
fn housekeeping_files_are_never_selected() {
    let executor = SelectorExecutor::new(None);
    let query = executor.plan("0.2.0").unwrap();
    let steps = vec![
        entry("0.2.0/unreleased/.gitkeep", EntryKind::File),
        entry("0.2.0/unreleased/template.md", EntryKind::File),
        entry("0.2.0/unreleased/.gitkeep.md", EntryKind::File),
        entry("0.2.0/unreleased/dir", EntryKind::Dir),
    ];
    let found = SelectorExecutor::run(&query, "template.md", &steps).unwrap();
    assert_eq!(found, vec!["0.2.0/unreleased/.gitkeep.md"]);
}

#[test]
fn failures_of_the_walk_are_collected() {
    let executor = SelectorExecutor::new(None);
    let query = executor.plan(".changelogs").unwrap();
    let steps = vec![
        Walked::Failed("first".to_string()),
        entry(".changelogs/unreleased/pending.md", EntryKind::File),
        Walked::Failed("second".to_string()),
    ];
    match SelectorExecutor::run(&query, "template.md", &steps) {
        Err(Error::Multiple { errors }) => {
            assert_eq!(errors.len(), 2);
            assert!(matches!(&errors[0], Error::WalkDir(m) if m == "first"));
            assert!(matches!(&errors[1], Error::WalkDir(m) if m == "second"));
        }
        other => panic!("expected the failures, found {:?}", other),
    }
}

#[test]
fn missing_directory_of_a_version_is_empty_or_a_failure() {
    let selector = Selector::Exact { exact: "9.9.9".to_string() };
    let executor = SelectorExecutor::new(Some(&selector));
    assert!(matches!(executor.on_missing_dir(QueryShape::Has), Some(Ok(paths)) if paths.is_empty()));
    match executor.on_missing_dir(QueryShape::Show) {
        Some(Err(Error::ExactVersionDoesNotExist { version })) => assert_eq!(version, "9.9.9"),
        other => panic!("expected a failure, found {:?}", other),
    }
    assert!(SelectorExecutor::new(None).on_missing_dir(QueryShape::Show).is_none());
    let range = Selector::Range { from: "0.1.0".to_string(), until: "0.2.0".to_string() };
    assert!(SelectorExecutor::new(Some(&range)).on_missing_dir(QueryShape::Has).is_none());
}

#[test]
fn in_range_looks_at_every_component() {
    let low = Version::new(0, 1, 0);
    let high = Version::new(1, 0, 0);
    let parts = |names: &[&str]| -> Vec<PathPart> {
        names.iter().map(|n| PathPart::Normal(n.to_string())).collect()
    };
    assert!(in_range(&parts(&["a", "0.5.0", "f.md"]), &low, &high));
    assert!(in_range(&parts(&["2.0.0", "0.5.0", "f.md"]), &low, &high));
    assert!(!in_range(&parts(&["a", "0.1.0", "f.md"]), &low, &high));
    assert!(!in_range(&parts(&["a", "1.0.0", "f.md"]), &low, &high));
    assert!(in_range(&parts(&["1.0.0-rc.1"]), &low, &high));
    assert!(!in_range(&parts(&["a", "b"]), &low, &high));
    assert!(!in_range(&vec![PathPart::NotUtf8, PathPart::Special], &low, &high));
}
