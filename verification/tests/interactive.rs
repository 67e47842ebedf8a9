use cargo_changelog::error::InteractiveError;
use cargo_changelog::fragment::FragmentData;
use cargo_changelog::fragment::FragmentDataDesc;
use cargo_changelog::fragment::FragmentDataType;
use cargo_changelog::fragment::FragmentDataTypeDefinite;
use cargo_changelog::interactive::accept_edit;
use cargo_changelog::interactive::accept_provided;
use cargo_changelog::interactive::interactive_edit;
use cargo_changelog::interactive::interactive_provide;
use cargo_changelog::interactive::Prompt;
use cargo_changelog::interactive::Reply;

fn desc(t: FragmentDataType, default: Option<FragmentData>, required: bool) -> FragmentDataDesc {
    FragmentDataDesc::new(t, default, required, None)
}

fn bool_type() -> FragmentDataType {
    FragmentDataType::Ty(FragmentDataTypeDefinite::Bool)
}

fn int_type() -> FragmentDataType {
    FragmentDataType::Ty(FragmentDataTypeDefinite::Int)
}

fn str_type() -> FragmentDataType {
    FragmentDataType::Ty(FragmentDataTypeDefinite::Str)
}

fn kinds() -> FragmentDataType {
    FragmentDataType::OneOf(vec!["a".to_string(), "b".to_string(), "b".to_string()])
}

#[test]
fn edit_question_shows_key_value_and_type() {
    match interactive_edit("issue", &FragmentData::Int(12)) {
        Prompt::Confirm { text } => assert_eq!(text, "Edit 'issue' = '12' (int)?"),
        other => panic!("expected a confirmation, found {:?}", other),
    }
}

#[test]
fn question_for_a_boolean_field() {
    match interactive_provide("done", &desc(bool_type(), Some(FragmentData::Bool(true)), false)) {
        Ok(Prompt::Bool { text, default_answer, optional }) => {
            assert_eq!(text, "'done'?");
            assert_eq!(default_answer, Some(true));
            assert!(optional);
        }
        other => panic!("expected a yes or no, found {:?}", other),
    }
    assert!(matches!(
        interactive_provide("done", &desc(bool_type(), None, true)),
        Ok(Prompt::Bool { default_answer: None, optional: false, .. })
    ));
}

#[test]
fn question_for_a_number_and_a_text() {
    match interactive_provide("n", &desc(int_type(), Some(FragmentData::Int(5)), true)) {
        Ok(Prompt::Number { text, default_number, optional: false }) => {
            assert_eq!(text, "Enter a number for 'n'");
            assert_eq!(default_number, Some(5));
        }
        other => panic!("expected a number, found {:?}", other),
    }
    match interactive_provide("t", &desc(str_type(), None, true)) {
        Ok(Prompt::Text { text, default_text, optional: false }) => {
            assert_eq!(text, "Enter a text for 't'");
            assert_eq!(default_text, None);
        }
        other => panic!("expected a text, found {:?}", other),
    }
}

#[test]
fn question_for_a_choice_selects_the_default() {
    match interactive_provide("k", &desc(kinds(), Some(FragmentData::Str("b".to_string())), true)) {
        Ok(Prompt::Select { text, items, default_place, optional: false }) => {
            assert_eq!(text, "Select one");
            assert_eq!(items, vec!["a", "b", "b"]);
            assert_eq!(default_place, Some(1));
        }
        other => panic!("expected a choice, found {:?}", other),
    }
    assert!(matches!(
        interactive_provide("k", &desc(kinds(), Some(FragmentData::Str("z".to_string())), true)),
        Ok(Prompt::Select { default_place: None, .. })
    ));
}

#[test]
fn default_of_another_kind_is_a_type_error() {
    for field in [
        desc(bool_type(), Some(FragmentData::Int(1)), true),
        desc(int_type(), Some(FragmentData::Str("1".to_string())), true),
        desc(str_type(), Some(FragmentData::Bool(true)), true),
        desc(kinds(), Some(FragmentData::Int(0)), true),
    ] {
        assert!(matches!(
            interactive_provide("f", &field),
            Err(InteractiveError::TypeError(_, _))
        ));
    }
}

#[test]
fn answers_become_values() {
    assert!(matches!(accept_provided(&desc(bool_type(), None, true), Reply::Yes), Ok(Some(FragmentData::Bool(true)))));
    assert!(matches!(accept_provided(&desc(bool_type(), None, true), Reply::No), Ok(Some(FragmentData::Bool(false)))));
    assert!(matches!(accept_provided(&desc(bool_type(), None, false), Reply::Skipped), Ok(None)));
    assert!(matches!(accept_provided(&desc(bool_type(), None, true), Reply::Skipped), Err(InteractiveError::Interrupted)));
    assert!(matches!(accept_provided(&desc(int_type(), None, true), Reply::Number(9)), Ok(Some(FragmentData::Int(9)))));
    assert!(matches!(accept_provided(&desc(str_type(), None, true), Reply::Text("t".to_string())), Ok(Some(FragmentData::Str(s))) if s == "t"));
    assert!(matches!(accept_provided(&desc(kinds(), None, true), Reply::Choice(0)), Ok(Some(FragmentData::Str(s))) if s == "a"));
    assert!(matches!(accept_provided(&desc(kinds(), None, true), Reply::Choice(3)), Err(InteractiveError::IndexError(3, 3))));
    assert!(matches!(accept_provided(&desc(int_type(), None, false), Reply::Skipped), Ok(None)));
    assert!(matches!(accept_provided(&desc(str_type(), None, false), Reply::Skipped), Ok(None)));
    assert!(matches!(accept_provided(&desc(kinds(), None, false), Reply::Skipped), Ok(None)));
    assert!(matches!(accept_provided(&desc(kinds(), None, true), Reply::Skipped), Err(InteractiveError::Interrupted)));
    assert!(matches!(
        interactive_provide("k", &desc(kinds(), None, false)),
        Ok(Prompt::Select { optional: true, .. })
    ));
    assert!(matches!(accept_provided(&desc(str_type(), None, true), Reply::Yes), Err(InteractiveError::Interrupted)));
}

#[test]
fn answer_to_the_edit_question() {
    assert!(matches!(accept_edit(FragmentData::Int(1), Reply::Yes), Ok(Some(FragmentData::Int(1)))));
    assert!(matches!(accept_edit(FragmentData::Int(1), Reply::No), Ok(None)));
    assert!(matches!(accept_edit(FragmentData::Int(1), Reply::Interrupted), Err(InteractiveError::Interrupted)));
    assert!(matches!(accept_edit(FragmentData::Int(1), Reply::Skipped), Err(InteractiveError::Interrupted)));
}
