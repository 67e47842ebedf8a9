use cargo_changelog::cli::kv_value_parser;
use cargo_changelog::cli::KV;
use cargo_changelog::command::new_command::Action;
use cargo_changelog::command::new_command::NewCommand;
use cargo_changelog::command::new_command::Pending;
use cargo_changelog::command::new_command::Step;
use cargo_changelog::crawler::CrawlProgram;
use cargo_changelog::error::FragmentError;
use cargo_changelog::error::InteractiveError;
use cargo_changelog::format::Format;
use cargo_changelog::fragment::Crawler;
use cargo_changelog::fragment::Fragment;
use cargo_changelog::fragment::FragmentData;
use cargo_changelog::fragment::FragmentDataDesc;
use cargo_changelog::fragment::FragmentDataType;
use cargo_changelog::fragment::FragmentDataTypeDefinite;
use cargo_changelog::interactive::Prompt;
use cargo_changelog::interactive::Reply;
use cargo_changelog::schema::declare_field;
use cargo_changelog::schema::empty_schema;
use indexmap::IndexMap;

fn command(interactive: bool, set: &[(&str, &str)]) -> NewCommand {
    NewCommand {
        interactive,
        edit: false,
        format: Format::Toml,
        set: set.iter().map(|(k, v)| KV { key: k.to_string(), value: v.to_string() }).collect(),
        text: None,
        git: None,
    }
}

fn text_type() -> FragmentDataType {
    FragmentDataType::Ty(FragmentDataTypeDefinite::Str)
}

fn int_type() -> FragmentDataType {
    FragmentDataType::Ty(FragmentDataTypeDefinite::Int)
}

fn kinds() -> FragmentDataType {
    FragmentDataType::OneOf(vec!["Bugfix".to_string(), "Feature".to_string()])
}

fn text_field(default: Option<&str>, crawler: bool, required: bool) -> FragmentDataDesc {
    FragmentDataDesc::new(
        text_type(),
        default.map(|d| FragmentData::Str(d.to_string())),
        required,
        if crawler { Some(Crawler::Command("emit C".to_string())) } else { None },
    )
}

fn done_text(step: Result<Step, FragmentError>) -> String {
    match step {
        Ok(Step::Done(Some(FragmentData::Str(s)))) => s,
        other => panic!("expected a text, found {:?}", other),
    }
}

#[test]
fn override_counts_before_default_and_crawler() {
    let field = text_field(Some("B"), true, true);
    assert_eq!(done_text(command(false, &[("f", "A")]).start_field("f", &field)), "A");
}

#[test]
fn default_counts_before_crawler() {
    let field = text_field(Some("B"), true, true);
    assert_eq!(done_text(command(false, &[]).start_field("f", &field)), "B");
    assert_eq!(done_text(command(false, &[("other", "A")]).start_field("f", &field)), "B");
}

#[test]
fn crawler_counts_where_nothing_else_gives_a_value() {
    let field = text_field(None, true, true);
    let request = match command(false, &[]).start_field("f", &field) {
        Ok(Step::Crawl(request)) => request,
        other => panic!("expected a crawl, found {:?}", other),
    };
    assert!(matches!(&request.program, CrawlProgram::Named(p) if p == "emit"));
    assert_eq!(request.args, vec!["C"]);
    assert_eq!(request.field_name, "f");
    assert_eq!(request.field_type, "string");
    assert_eq!(request.command, "emit C");
    let step = NewCommand::crawled("f", &field, &request.command, true, Some("C\n".to_string()));
    assert_eq!(done_text(step), "C");
}

#[test]
fn required_field_without_any_value_is_missing() {
    let field = text_field(None, false, true);
    match command(false, &[]).start_field("f", &field) {
        Err(FragmentError::RequiredValueMissing(name)) => assert_eq!(name, "f"),
        other => panic!("expected a missing value, found {:?}", other),
    }
}

#[test]
fn optional_field_without_any_value_is_left_out() {
    let field = text_field(None, false, false);
    assert!(matches!(command(false, &[]).start_field("f", &field), Ok(Step::Done(None))));
    assert!(matches!(command(true, &[]).start_field("f", &field), Ok(Step::Done(None))));
}

#[test]
fn first_of_two_overrides_for_a_field_counts() {
    let field = text_field(None, false, true);
    let cmd = command(false, &[("f", "first"), ("f", "second")]);
    assert_eq!(done_text(cmd.start_field("f", &field)), "first");
}

#[test]
fn override_of_another_type_fails() {
    let field = FragmentDataDesc::new(int_type(), Some(FragmentData::Int(1)), true, None);
    match command(false, &[("issue", "abc")]).start_field("issue", &field) {
        Err(FragmentError::DataType { exp, recv, field_name }) => {
            assert_eq!(exp, "int");
            assert_eq!(recv, "string");
            assert_eq!(field_name, "issue");
        }
        other => panic!("expected a type error, found {:?}", other),
    }
    let kind = FragmentDataDesc::new(kinds(), None, true, None);
    match command(false, &[("type", "Chore")]).start_field("type", &kind) {
        Err(FragmentError::DataType { exp, recv, field_name }) => {
            assert_eq!(exp, "one of: 'Bugfix', 'Feature'");
            assert_eq!(recv, "string");
            assert_eq!(field_name, "type");
        }
        other => panic!("expected a type error, found {:?}", other),
    }
}

#[test]
fn default_of_another_type_fails_where_it_would_count() {
    let field = FragmentDataDesc::new(int_type(), Some(FragmentData::Bool(true)), false, None);
    match command(false, &[]).start_field("issue", &field) {
        Err(FragmentError::DataType { exp, recv, field_name }) => {
            assert_eq!(exp, "int");
            assert_eq!(recv, "bool");
            assert_eq!(field_name, "issue");
        }
        other => panic!("expected a type error, found {:?}", other),
    }
    assert!(matches!(
        command(false, &[("issue", "5")]).start_field("issue", &field),
        Ok(Step::Done(Some(FragmentData::Int(5))))
    ));
}

#[test]
fn list_is_never_the_value_of_a_field() {
    let field = text_field(None, false, true);
    match command(false, &[("f", "a,b")]).start_field("f", &field) {
        Err(FragmentError::DataType { recv, .. }) => assert_eq!(recv, "list"),
        other => panic!("expected a type error, found {:?}", other),
    }
}

#[test]
fn crawler_that_fails_ends_the_field() {
    let field = text_field(None, true, true);
    match NewCommand::crawled("f", &field, "emit C", false, Some("C".to_string())) {
        Err(FragmentError::CommandNoSuccess { command, field_name }) => {
            assert_eq!(command, "emit C");
            assert_eq!(field_name, "f");
        }
        other => panic!("expected a failed run, found {:?}", other),
    }
    match NewCommand::crawled("f", &field, "emit C", true, None) {
        Err(FragmentError::NoUtf8Output { command, field_name }) => {
            assert_eq!(command, "emit C");
            assert_eq!(field_name, "f");
        }
        other => panic!("expected unreadable output, found {:?}", other),
    }
    let number = FragmentDataDesc::new(int_type(), None, true, Some(Crawler::Command("emit".to_string())));
    match NewCommand::crawled("n", &number, "emit", true, Some(" twelve \n".to_string())) {
        Err(FragmentError::DataType { exp, recv, field_name }) => {
            assert_eq!(exp, "int");
            assert_eq!(recv, "string");
            assert_eq!(field_name, "n");
        }
        other => panic!("expected a type error, found {:?}", other),
    }
    assert!(matches!(
        NewCommand::crawled("n", &number, "emit", true, Some("\t 12 \r\n".to_string())),
        Ok(Step::Done(Some(FragmentData::Int(12))))
    ));
}

#[test]
fn crawler_given_by_a_path_runs_in_the_working_directory() {
    let field = FragmentDataDesc::new(text_type(), None, false, Some(Crawler::Path("scripts/crawl.sh".to_string())));
    match command(true, &[]).start_field("f", &field) {
        Ok(Step::Crawl(request)) => {
            assert!(matches!(&request.program, CrawlProgram::InWorkdir(p) if p == "scripts/crawl.sh"));
            assert!(request.args.is_empty());
            assert_eq!(request.command, "scripts/crawl.sh");
        }
        other => panic!("expected a crawl, found {:?}", other),
    }
}

#[test]
fn command_line_without_a_program_is_no_command() {
    for line in ["", "   ", "echo 'unfinished"] {
        let field = FragmentDataDesc::new(text_type(), None, true, Some(Crawler::Command(line.to_string())));
        match command(false, &[]).start_field("f", &field) {
            Err(FragmentError::NoValidCommand { command, field_name }) => {
                assert_eq!(command, line);
                assert_eq!(field_name, "f");
            }
            other => panic!("expected no command for {:?}, found {:?}", line, other),
        }
    }
}

#[test]
fn command_line_is_cut_like_a_shell_does() {
    let field = FragmentDataDesc::new(
        text_type(),
        None,
        true,
        Some(Crawler::Command("git log  -1 '--format=%an <%ae>' \"a b\"".to_string())),
    );
    match command(false, &[]).start_field("author", &field) {
        Ok(Step::Crawl(request)) => {
            assert!(matches!(&request.program, CrawlProgram::Named(p) if p == "git"));
            assert_eq!(request.args, vec!["log", "-1", "--format=%an <%ae>", "a b"]);
        }
        other => panic!("expected a crawl, found {:?}", other),
    }
}

#[test]
fn interactive_run_asks_whether_a_value_is_to_stay() {
    let field = text_field(Some("B"), false, true);
    let (prompt, pending) = match command(true, &[]).start_field("f", &field) {
        Ok(Step::Ask(prompt, pending)) => (prompt, pending),
        other => panic!("expected a question, found {:?}", other),
    };
    assert!(matches!(&prompt, Prompt::Confirm { text } if text == "Edit 'f' = 'B' (string)?"));
    assert!(matches!(&pending, Pending::Edit(FragmentData::Str(s)) if s == "B"));
    assert_eq!(done_text(NewCommand::answered("f", &field, pending, Reply::Yes)), "B");
}

#[test]
fn interactive_run_asks_for_another_value_on_no() {
    let field = text_field(Some("B"), false, true);
    let step = NewCommand::answered("f", &field, Pending::Edit(FragmentData::Str("A".to_string())), Reply::No);
    let pending = match step {
        Ok(Step::Ask(Prompt::Text { text, default_text, .. }, pending)) => {
            assert_eq!(text, "Enter a text for 'f'");
            assert_eq!(default_text.as_deref(), Some("B"));
            pending
        }
        other => panic!("expected a question, found {:?}", other),
    };
    assert!(matches!(pending, Pending::Provide));
    assert_eq!(done_text(NewCommand::answered("f", &field, pending, Reply::Text("new".to_string()))), "new");
}

#[test]
fn interactive_run_asks_for_a_required_value() {
    let field = FragmentDataDesc::new(kinds(), None, true, None);
    match command(true, &[]).start_field("type", &field) {
        Ok(Step::Ask(Prompt::Select { text, items, default_place, .. }, Pending::Provide)) => {
            assert_eq!(text, "Select one");
            assert_eq!(items, vec!["Bugfix", "Feature"]);
            assert_eq!(default_place, None);
        }
        other => panic!("expected a question, found {:?}", other),
    }
    assert_eq!(done_text(NewCommand::answered("type", &field, Pending::Provide, Reply::Choice(1))), "Feature");
    match NewCommand::answered("type", &field, Pending::Provide, Reply::Choice(2)) {
        Err(FragmentError::Interactive(InteractiveError::IndexError(2, 2))) => {}
        other => panic!("expected an index error, found {:?}", other),
    }
}

#[test]
fn breaking_off_ends_the_field() {
    let field = text_field(None, false, true);
    for pending in [Pending::Provide, Pending::Edit(FragmentData::Str("x".to_string()))] {
        assert!(matches!(
            NewCommand::answered("f", &field, pending, Reply::Interrupted),
            Err(FragmentError::Interactive(InteractiveError::Interrupted))
        ));
    }
    assert!(matches!(
        NewCommand::answered("f", &field, Pending::Provide, Reply::Number(1)),
        Err(FragmentError::Interactive(InteractiveError::Interrupted))
    ));
}

fn issue_schema() -> IndexMap<String, FragmentDataDesc> {
    let mut schema = empty_schema();
    declare_field(&mut schema, "issue".to_string(), FragmentDataDesc::new(int_type(), None, true, None));
    declare_field(&mut schema, "type".to_string(), FragmentDataDesc::new(kinds(), None, true, None));
    schema
}

#[test]
fn header_of_a_new_fragment_reads_back_from_its_file() {
    let schema = issue_schema();
    let cmd = NewCommand {
        interactive: false,
        edit: false,
        format: Format::Toml,
        set: vec![kv_value_parser("issue=123").unwrap(), kv_value_parser("type=Bugfix").unwrap()],
        text: None,
        git: None,
    };
    let mut builder = NewCommand::begin();
    assert!(matches!(cmd.advance(&schema, &mut builder), Ok(Action::Finished)));
    assert_eq!(builder.next, 2);
    let mut fragment = Fragment::empty();
    fragment.set_header(builder.header);
    let file = fragment.write_to(cmd.format).unwrap();
    assert!(file.starts_with("+++\n"));
    let back = Fragment::from_reader(&file).unwrap();
    assert_eq!(back.header().len(), 2);
    assert!(matches!(back.header().get("issue"), Some(FragmentData::Int(123))));
    assert!(matches!(back.header().get("type"), Some(FragmentData::Str(s)) if s == "Bugfix"));
    assert!(back.text().is_empty());
}

#[test]
fn first_field_that_fails_ends_the_header() {
    let schema = issue_schema();
    let cmd = command(false, &[("type", "Chore")]);
    let mut builder = NewCommand::begin();
    match cmd.advance(&schema, &mut builder) {
        Err(FragmentError::RequiredValueMissing(name)) => assert_eq!(name, "issue"),
        other => panic!("expected a missing value, found {:?}", other),
    }
    let cmd = command(false, &[("issue", "1"), ("type", "Chore")]);
    let mut builder = NewCommand::begin();
    assert!(matches!(cmd.advance(&schema, &mut builder), Err(FragmentError::DataType { .. })));
}

#[test]
fn building_stops_for_outside_work_and_goes_on_after_it() {
    let mut schema = empty_schema();
    declare_field(&mut schema, "a".to_string(), text_field(Some("x"), false, true));
    declare_field(&mut schema, "b".to_string(), text_field(None, true, true));
    declare_field(&mut schema, "c".to_string(), text_field(None, false, false));
    declare_field(&mut schema, "d".to_string(), FragmentDataDesc::new(int_type(), Some(FragmentData::Int(4)), false, None));
    let cmd = command(false, &[]);
    let mut builder = NewCommand::begin();
    let request = match cmd.advance(&schema, &mut builder) {
        Ok(Action::Crawl(request)) => request,
        other => panic!("expected a crawl, found {:?}", other),
    };
    assert_eq!(builder.next, 1);
    assert_eq!(builder.header.len(), 1);
    let (name, desc) = cargo_changelog::schema::field_at(&schema, builder.next).unwrap();
    assert_eq!(name, "b");
    let step = NewCommand::crawled(name, desc, &request.command, true, Some("crawled".to_string())).unwrap();
    assert!(matches!(cmd.proceed(&schema, &mut builder, step), Ok(Action::Finished)));
    assert_eq!(builder.next, 4);
    let keys: Vec<&str> = (0..builder.header.len()).map(|i| builder.header.entry_at(i).unwrap().0.as_str()).collect();
    assert_eq!(keys, vec!["a", "b", "d"]);
    assert!(matches!(builder.header.get("b"), Some(FragmentData::Str(s)) if s == "crawled"));
    assert!(matches!(builder.header.get("d"), Some(FragmentData::Int(4))));
}

#[test]
fn proceeding_behind_the_last_field_finishes() {
    let schema = issue_schema();
    let cmd = command(false, &[]);
    let mut builder = NewCommand::begin();
    builder.next = 5;
    assert!(matches!(
        cmd.proceed(&schema, &mut builder, Step::Done(Some(FragmentData::Int(1)))),
        Ok(Action::Finished)
    ));
    assert_eq!(builder.next, 2);
    assert!(builder.header.is_empty());
}

#[test]
fn interactive_building_hands_every_question_out() {
    let mut schema = empty_schema();
    declare_field(&mut schema, "a".to_string(), text_field(Some("x"), false, true));
    declare_field(&mut schema, "b".to_string(), FragmentDataDesc::new(FragmentDataType::Ty(FragmentDataTypeDefinite::Bool), None, false, None));
    let cmd = command(true, &[("b", "true")]);
    let mut builder = NewCommand::begin();
    let pending = match cmd.advance(&schema, &mut builder) {
        Ok(Action::Ask(Prompt::Confirm { .. }, pending)) => pending,
        other => panic!("expected a question, found {:?}", other),
    };
    let (name, desc) = cargo_changelog::schema::field_at(&schema, builder.next).unwrap();
    let step = NewCommand::answered(name, desc, pending, Reply::No).unwrap();
    let pending = match cmd.proceed(&schema, &mut builder, step) {
        Ok(Action::Ask(Prompt::Text { .. }, pending)) => pending,
        other => panic!("expected a question, found {:?}", other),
    };
    assert_eq!(builder.next, 0);
    let step = NewCommand::answered(name, desc, pending, Reply::Text("y".to_string())).unwrap();
    let pending = match cmd.proceed(&schema, &mut builder, step) {
        Ok(Action::Ask(Prompt::Confirm { text }, pending)) => {
            assert_eq!(text, "Edit 'b' = 'true' (bool)?");
            pending
        }
        other => panic!("expected a question, found {:?}", other),
    };
    assert_eq!(builder.next, 1);
    let (name, desc) = cargo_changelog::schema::field_at(&schema, builder.next).unwrap();
    let step = NewCommand::answered(name, desc, pending, Reply::Yes).unwrap();
    assert!(matches!(cmd.proceed(&schema, &mut builder, step), Ok(Action::Finished)));
    assert!(matches!(builder.header.get("a"), Some(FragmentData::Str(s)) if s == "y"));
    assert!(matches!(builder.header.get("b"), Some(FragmentData::Bool(true))));
}
