use cargo_changelog::cli::Selector;
use cargo_changelog::cli::ShowFormat;
use cargo_changelog::cli::VersionSpec;
use cargo_changelog::command::common::find_version_string;
use cargo_changelog::command::common::get_editor_command;
use cargo_changelog::command::common::needs_workspace_versions;
use cargo_changelog::command::common::plan_move;
use cargo_changelog::command::common::EnvLookup;
use cargo_changelog::command::create_release_command::CreateReleaseCommand;
use cargo_changelog::command::generate_command::GenerateCommand;
use cargo_changelog::command::has::HasAnswer;
use cargo_changelog::command::has::HasCommand;
use cargo_changelog::command::has::HasFormat;
use cargo_changelog::command::release_command::ReleaseCommand;
use cargo_changelog::command::show::Show;
use cargo_changelog::command::show::ShowLine;
use cargo_changelog::error::Error;
use cargo_changelog::fragment::Fragment;
use cargo_changelog::fragment::FragmentData;
use cargo_changelog::header::Header;
use cargo_changelog::path::PathPart;
use cargo_changelog::util::repo_is_dirty;

fn texts(values: &[&str]) -> Vec<String> {
    values.iter().map(|v| v.to_string()).collect()
}

#[test]
fn version_given_by_the_caller_counts() {
    let spec = VersionSpec::Custom { custom: "1.2.3".to_string() };
    assert!(!needs_workspace_versions(&spec));
    assert_eq!(find_version_string(&spec, &vec![]).unwrap(), "1.2.3");
    assert_eq!(find_version_string(&spec, &texts(&["0.1.0", "0.2.0"])).unwrap(), "1.2.3");
}

#[test]
fn version_of_the_workspace_must_be_one() {
    for spec in [VersionSpec::Patch, VersionSpec::Minor, VersionSpec::Major] {
        assert!(needs_workspace_versions(&spec));
        assert!(matches!(find_version_string(&spec, &vec![]), Err(Error::NoVersionInCargoToml)));
        assert_eq!(find_version_string(&spec, &texts(&["0.1.0"])).unwrap(), "0.1.0");
        assert_eq!(find_version_string(&spec, &texts(&["0.1.0", "0.1.0", "0.1.0"])).unwrap(), "0.1.0");
        assert!(matches!(
            find_version_string(&spec, &texts(&["0.1.0", "0.1.0", "0.2.0"])),
            Err(Error::WorkspaceVersionsNotEqual)
        ));
        assert!(matches!(
            find_version_string(&spec, &texts(&["0.1.0", "0.2.0", "0.1.0"])),
            Err(Error::WorkspaceVersionsNotEqual)
        ));
    }
}

#[test]
fn release_directory_is_named_by_the_version() {
    let custom = CreateReleaseCommand { version: VersionSpec::Custom { custom: "2.0.0".to_string() } };
    assert_eq!(custom.release_dir(".changelogs", &vec![]).unwrap(), texts(&[".changelogs", "2.0.0"]));
    let minor = CreateReleaseCommand { version: VersionSpec::Minor };
    assert_eq!(minor.release_dir("frag", &texts(&["0.3.0"])).unwrap(), texts(&["frag", "0.3.0"]));
    assert!(matches!(minor.release_dir("frag", &vec![]), Err(Error::NoVersionInCargoToml)));
    let generate = GenerateCommand { version: VersionSpec::Patch };
    assert_eq!(generate.version_string(&texts(&["0.3.1"])).unwrap(), "0.3.1");
    assert!(matches!(
        generate.version_string(&texts(&["0.3.1", "0.3.2"])),
        Err(Error::WorkspaceVersionsNotEqual)
    ));
}

#[test]
fn placeholder_stays_and_fragments_move() {
    let parts = |names: &[&str]| -> Vec<PathPart> {
        names.iter().map(|n| PathPart::Normal(n.to_string())).collect()
    };
    assert!(matches!(plan_move("u/.gitkeep", &parts(&["u", ".gitkeep"])), Ok(None)));
    assert!(matches!(plan_move("u/a.md", &parts(&["u", "a.md"])), Ok(Some(name)) if name == "a.md"));
    assert!(matches!(plan_move("", &vec![]), Err(Error::NotAFile(p)) if p.is_empty()));
    assert!(matches!(
        plan_move("u/..", &vec![PathPart::Normal("u".to_string()), PathPart::Special]),
        Err(Error::NotAFile(p)) if p == "u/.."
    ));
}

#[test]
fn editor_is_taken_from_the_environment() {
    let present = |s: &str| EnvLookup::Present(s.to_string());
    assert_eq!(get_editor_command(present("vi"), present("emacs")).unwrap(), "vi");
    assert_eq!(get_editor_command(present("vi"), EnvLookup::NotUnicode).unwrap(), "vi");
    assert_eq!(get_editor_command(EnvLookup::NotPresent, present("emacs")).unwrap(), "emacs");
    assert!(matches!(
        get_editor_command(EnvLookup::NotPresent, EnvLookup::NotPresent),
        Err(Error::EditorEnvNotSet)
    ));
    assert!(matches!(
        get_editor_command(EnvLookup::NotUnicode, present("emacs")),
        Err(Error::EnvNotUnicode(name)) if name == "EDITOR"
    ));
    assert!(matches!(
        get_editor_command(EnvLookup::NotPresent, EnvLookup::NotUnicode),
        Err(Error::EnvNotUnicode(name)) if name == "VISUAL"
    ));
}

#[test]
fn has_answers_by_exit_code_or_by_document() {
    let by_code = HasCommand { format: None, selector: Selector::Unreleased };
    assert!(matches!(by_code.answer(vec![], "1.0.0"), HasAnswer::Exit { success: false }));
    assert!(matches!(by_code.answer(texts(&["a.md"]), "1.0.0"), HasAnswer::Exit { success: true }));
    let explicit = HasCommand { format: Some(HasFormat::ExitCode), selector: Selector::Unreleased };
    assert!(matches!(explicit.answer(vec![], "1.0.0"), HasAnswer::Exit { success: false }));
    let by_document = HasCommand {
        format: Some(HasFormat::Json),
        selector: Selector::Exact { exact: "0.1.0".to_string() },
    };
    match by_document.answer(texts(&["a.md", "b.md"]), "1.0.0") {
        HasAnswer::Reply(reply) => {
            assert_eq!(reply.version, "1.0.0");
            assert!(matches!(reply.selector, Selector::Exact { exact } if exact == "0.1.0"));
            assert_eq!(reply.pathes, texts(&["a.md", "b.md"]));
        }
        other => panic!("expected a document, found {:?}", other),
    }
}

#[test]
fn show_lays_a_fragment_out_as_lines() {
    let mut header = Header::new();
    header.insert("issue".to_string(), FragmentData::Int(12));
    header.insert("type".to_string(), FragmentData::Str("Bugfix".to_string()));
    let fragment = Fragment::new(header, "the text".to_string());
    let lines = Show::pretty_print("0.1.0/a.md", &fragment);
    assert_eq!(lines.len(), 5);
    assert!(matches!(&lines[0], ShowLine::Path(p) if p == "0.1.0/a.md"));
    assert!(matches!(&lines[1], ShowLine::Field { key, value } if key == "issue" && value == "12"));
    assert!(matches!(&lines[2], ShowLine::Field { key, value } if key == "type" && value == "Bugfix"));
    assert!(matches!(&lines[3], ShowLine::Text(t) if t == "the text"));
    assert!(matches!(&lines[4], ShowLine::Blank));
    assert_eq!(Show::pretty_print("p", &Fragment::empty()).len(), 3);
}

#[test]
fn show_format_is_text_unless_asked_otherwise() {
    assert_eq!(Show { format: None, selector: None }.effective_format(), ShowFormat::Text);
    assert_eq!(Show { format: Some(ShowFormat::Text), selector: None }.effective_format(), ShowFormat::Text);
    assert_eq!(Show { format: Some(ShowFormat::Json), selector: None }.effective_format(), ShowFormat::Json);
}

#[test]
fn repository_is_dirty_in_an_operation_or_with_changes() {
    assert!(!repo_is_dirty(true, 0));
    assert!(repo_is_dirty(true, 1));
    assert!(repo_is_dirty(false, 0));
    assert!(repo_is_dirty(false, 3));
}

#[test]
fn changelog_is_not_generated_in_a_dirty_repository_unless_allowed() {
    let strict = ReleaseCommand { all: false, allow_dirty: false };
    assert!(strict.may_run(false).is_ok());
    assert!(matches!(strict.may_run(true), Err(Error::GitRepoDirty)));
    let lenient = ReleaseCommand { all: true, allow_dirty: true };
    assert!(lenient.may_run(false).is_ok());
    assert!(lenient.may_run(true).is_ok());
}
