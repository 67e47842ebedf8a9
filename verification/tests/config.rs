use cargo_changelog::config::changelog_default;
use cargo_changelog::config::choose_config_file;
use cargo_changelog::config::config_file_default_name;
use cargo_changelog::config::config_file_hidden_name;
use cargo_changelog::config::effective_git;
use cargo_changelog::config::fragment_dir_default;
use cargo_changelog::config::template_path_default;
use cargo_changelog::config::Configuration;
use cargo_changelog::config::EditFormat;
use cargo_changelog::config::GitSetting;
use cargo_changelog::error::Error;
use cargo_changelog::error::FragmentError;
use cargo_changelog::fragment::FragmentData;
use cargo_changelog::fragment::FragmentDataDesc;
use cargo_changelog::fragment::FragmentDataType;
use cargo_changelog::fragment::FragmentDataTypeDefinite;
use cargo_changelog::schema::check_schema;
use cargo_changelog::schema::declare_field;
use cargo_changelog::schema::empty_schema;
use cargo_changelog::schema::field_at;
use cargo_changelog::schema::field_count;

#[test]
fn defaults_of_the_three_paths() {
    assert_eq!(fragment_dir_default(), ".changelogs");
    assert_eq!(template_path_default(), "template.md");
    assert_eq!(changelog_default(), "CHANGELOG.md");
}

#[test]
fn edit_format_knows_toml_only() {
    assert_eq!(EditFormat::from_str("toml"), Ok(EditFormat::Toml));
    assert_eq!(EditFormat::from_str("yaml"), Err("Unknown edit format yaml".to_string()));
    assert_eq!(EditFormat::from_str("TOML"), Err("Unknown edit format TOML".to_string()));
    assert_eq!(EditFormat::from_str(""), Err("Unknown edit format ".to_string()));
}

#[test]
fn hidden_configuration_file_counts_first() {
    assert_eq!(config_file_hidden_name(), ".changelog.toml");
    assert_eq!(config_file_default_name(), "changelog.toml");
    assert_eq!(choose_config_file(true, true).unwrap(), ".changelog.toml");
    assert_eq!(choose_config_file(true, false).unwrap(), ".changelog.toml");
    assert_eq!(choose_config_file(false, true).unwrap(), "changelog.toml");
    assert!(matches!(choose_config_file(false, false), Err(Error::ConfigDoesNotExist)));
}

#[test]
fn git_setting_of_the_command_line_counts_first() {
    assert_eq!(effective_git(Some(GitSetting::Add), Some(GitSetting::Commit)), Some(GitSetting::Add));
    assert_eq!(effective_git(None, Some(GitSetting::Commit)), Some(GitSetting::Commit));
    assert_eq!(effective_git(Some(GitSetting::Commit), None), Some(GitSetting::Commit));
    assert_eq!(effective_git(None, None), None);
}

fn int_field(default: Option<FragmentData>) -> FragmentDataDesc {
    FragmentDataDesc::new(FragmentDataType::Ty(FragmentDataTypeDefinite::Int), default, true, None)
}

#[test]
fn schema_keeps_the_order_of_its_fields() {
    let mut schema = empty_schema();
    assert_eq!(field_count(&schema), 0);
    assert!(declare_field(&mut schema, "b".to_string(), int_field(None)).is_none());
    assert!(declare_field(&mut schema, "a".to_string(), int_field(None)).is_none());
    let old = declare_field(&mut schema, "b".to_string(), int_field(Some(FragmentData::Int(2))));
    assert!(matches!(old, Some(d) if d.default_value.is_none()));
    assert_eq!(field_count(&schema), 2);
    let (name, desc) = field_at(&schema, 0).unwrap();
    assert_eq!(name, "b");
    assert!(matches!(desc.default_value, Some(FragmentData::Int(2))));
    assert_eq!(field_at(&schema, 1).unwrap().0, "a");
    assert!(field_at(&schema, 2).is_none());
}

#[test]
fn schema_with_a_wrong_default_is_refused_at_load_time() {
    let mut schema = empty_schema();
    assert!(check_schema(&schema).is_ok());
    declare_field(&mut schema, "a".to_string(), int_field(Some(FragmentData::Int(1))));
    declare_field(&mut schema, "b".to_string(), int_field(None));
    assert!(check_schema(&schema).is_ok());
    declare_field(&mut schema, "c".to_string(), int_field(Some(FragmentData::Str("x".to_string()))));
    declare_field(&mut schema, "d".to_string(), int_field(Some(FragmentData::Bool(true))));
    match check_schema(&schema) {
        Err(FragmentError::DataType { exp, recv, field_name }) => {
            assert_eq!(exp, "int");
            assert_eq!(recv, "string");
            assert_eq!(field_name, "c");
        }
        other => panic!("expected a type error, found {:?}", other),
    }
}

#[test]
fn configuration_hands_its_parts_out() {
    let config = Configuration {
        add_version_date: true,
        fragment_dir: fragment_dir_default(),
        template_path: template_path_default(),
        changelog: changelog_default(),
        edit_data: false,
        edit_format: EditFormat::Toml,
        git: Some(GitSetting::Commit),
        git_commit_message: Some("Add fragment".to_string()),
        git_commit_signoff: true,
        header_fields: empty_schema(),
    };
    assert_eq!(config.fragment_dir(), ".changelogs");
    assert_eq!(config.template_path(), "template.md");
    assert_eq!(config.changelog(), "CHANGELOG.md");
    assert_eq!(*config.git(), Some(GitSetting::Commit));
    assert_eq!(config.git_commit_message().as_deref(), Some("Add fragment"));
    assert!(config.git_commit_signoff());
    assert_eq!(field_count(config.header_fields()), 0);
}
