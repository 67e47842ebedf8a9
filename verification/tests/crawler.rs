use cargo_changelog::crawler::field_name_variable;
use cargo_changelog::crawler::field_type_variable;
use cargo_changelog::crawler::judge_crawl;
use cargo_changelog::crawler::judge_output;
use cargo_changelog::crawler::plan_crawl;
use cargo_changelog::crawler::request_from_tokens;
use cargo_changelog::crawler::CrawlProgram;
use cargo_changelog::error::FragmentError;
use cargo_changelog::fragment::Crawler;
use cargo_changelog::fragment::FragmentData;
use cargo_changelog::fragment::FragmentDataType;
use cargo_changelog::fragment::FragmentDataTypeDefinite;

fn kinds() -> FragmentDataType {
    FragmentDataType::OneOf(vec!["Bugfix".to_string(), "Feature".to_string()])
}

#[test]
fn names_of_the_two_variables() {
    assert_eq!(field_name_variable(), "CARGO_CHANGELOG_CRAWLER_FIELD_NAME");
    assert_eq!(field_type_variable(), "CARGO_CHANGELOG_CRAWLER_FIELD_TYPE");
}

#[test]
fn request_tells_the_crawler_name_and_type_of_the_field() {
    let request = plan_crawl(&Crawler::Command("crawl --fast".to_string()), "type", &kinds()).unwrap();
    assert_eq!(request.field_name, "type");
    assert_eq!(request.field_type, "one of: 'Bugfix', 'Feature'");
    assert!(matches!(&request.program, CrawlProgram::Named(p) if p == "crawl"));
    assert_eq!(request.args, vec!["--fast"]);
}

#[test]
fn request_from_tokens_takes_the_first_as_program() {
    let int_type = FragmentDataType::Ty(FragmentDataTypeDefinite::Int);
    let tokens = Some(vec!["a".to_string(), "b".to_string(), "c".to_string()]);
    let request = request_from_tokens("a b c", tokens, "n", &int_type).unwrap();
    assert!(matches!(&request.program, CrawlProgram::Named(p) if p == "a"));
    assert_eq!(request.args, vec!["b", "c"]);
    assert_eq!(request.command, "a b c");
    assert!(matches!(
        request_from_tokens("", Some(vec![]), "n", &int_type),
        Err(FragmentError::NoValidCommand { command, field_name }) if command.is_empty() && field_name == "n"
    ));
    assert!(matches!(
        request_from_tokens("'", None, "n", &int_type),
        Err(FragmentError::NoValidCommand { command, field_name }) if command == "'" && field_name == "n"
    ));
}

#[test]
fn output_counts_without_the_white_space_at_its_ends() {
    let found = judge_crawl("type", &kinds(), "crawl", true, Some("  Bugfix\n".to_string())).unwrap();
    assert!(matches!(found, FragmentData::Str(s) if s == "Bugfix"));
    assert!(matches!(
        judge_output("type", &kinds(), "crawl", true, Some("  Bugfix\n".to_string())),
        Err(FragmentError::DataType { .. })
    ));
    let inner = judge_crawl(
        "t",
        &FragmentDataType::Ty(FragmentDataTypeDefinite::Str),
        "crawl",
        true,
        Some("\n a b \n".to_string()),
    )
    .unwrap();
    assert!(matches!(inner, FragmentData::Str(s) if s == "a b"));
}

#[test]
fn failed_run_counts_before_unreadable_output() {
    assert!(matches!(
        judge_crawl("type", &kinds(), "crawl", false, None),
        Err(FragmentError::CommandNoSuccess { command, field_name }) if command == "crawl" && field_name == "type"
    ));
    assert!(matches!(
        judge_crawl("type", &kinds(), "crawl", true, None),
        Err(FragmentError::NoUtf8Output { command, field_name }) if command == "crawl" && field_name == "type"
    ));
}
