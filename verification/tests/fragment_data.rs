use cargo_changelog::fragment::Crawler;
use cargo_changelog::fragment::FragmentData;
use cargo_changelog::fragment::FragmentDataDesc;
use cargo_changelog::fragment::FragmentDataType;
use cargo_changelog::fragment::FragmentDataTypeDefinite;

fn one_of(values: &[&str]) -> FragmentDataType {
    FragmentDataType::OneOf(values.iter().map(|v| v.to_string()).collect())
}

#[test]
fn parse_reads_booleans_in_any_case_of_true() {
    assert!(matches!(FragmentData::parse("true"), Ok(FragmentData::Bool(true))));
    assert!(matches!(FragmentData::parse("TRUE"), Ok(FragmentData::Bool(true))));
    assert!(matches!(FragmentData::parse("tRuE"), Ok(FragmentData::Bool(true))));
    assert!(matches!(FragmentData::parse("false"), Ok(FragmentData::Bool(false))));
}

#[test]
fn parse_keeps_false_in_other_case_as_text() {
    match FragmentData::parse("False") {
        Ok(FragmentData::Str(s)) => assert_eq!(s, "False"),
        other => panic!("expected text, found {:?}", other),
    }
}

#[test]
fn parse_reads_unsigned_integers() {
    assert!(matches!(FragmentData::parse("0"), Ok(FragmentData::Int(0))));
    assert!(matches!(FragmentData::parse("123"), Ok(FragmentData::Int(123))));
    assert!(matches!(FragmentData::parse("007"), Ok(FragmentData::Int(7))));
    assert!(matches!(FragmentData::parse("+5"), Ok(FragmentData::Int(5))));
    assert!(matches!(
        FragmentData::parse("18446744073709551615"),
        Ok(FragmentData::Int(18446744073709551615))
    ));
}

#[test]
fn parse_agrees_with_std_on_unsigned_integers() {
    for text in ["", "+", "-1", "1 ", " 1", "18446744073709551616", "99999999999999999999999", "12a", "++1", "0x10", "1_000"] {
        let expected = text.parse::<u64>().ok();
        let found = match FragmentData::parse(text) {
            Ok(FragmentData::Int(n)) => Some(n),
            _ => None,
        };
        assert_eq!(found, expected, "for {:?}", text);
    }
}

#[test]
fn parse_falls_back_to_text() {
    for text in ["", "hello", "-1", "1.5", "18446744073709551616", "tru", "truee"] {
        match FragmentData::parse(text) {
            Ok(FragmentData::Str(s)) => assert_eq!(s, text),
            other => panic!("expected text for {:?}, found {:?}", text, other),
        }
    }
}

#[test]
fn parse_cuts_lists_at_unescaped_commas() {
    match FragmentData::parse("a,12,true,") {
        Ok(FragmentData::List(items)) => {
            assert_eq!(items.len(), 4);
            assert!(matches!(&items[0], FragmentData::Str(s) if s == "a"));
            assert!(matches!(&items[1], FragmentData::Int(12)));
            assert!(matches!(&items[2], FragmentData::Bool(true)));
            assert!(matches!(&items[3], FragmentData::Str(s) if s.is_empty()));
        }
        other => panic!("expected a list, found {:?}", other),
    }
}

#[test]
fn parse_leaves_escaped_commas_alone() {
    match FragmentData::parse("a\\,b") {
        Ok(FragmentData::Str(s)) => assert_eq!(s, "a\\,b"),
        other => panic!("expected text, found {:?}", other),
    }
    match FragmentData::parse("a\\,b,c") {
        Ok(FragmentData::List(items)) => {
            assert_eq!(items.len(), 2);
            assert!(matches!(&items[0], FragmentData::Str(s) if s == "a\\,b"));
            assert!(matches!(&items[1], FragmentData::Str(s) if s == "c"));
        }
        other => panic!("expected a list, found {:?}", other),
    }
}

#[test]
fn type_label_names_the_kind_of_a_value() {
    assert_eq!(FragmentData::Bool(true).type_label(), "bool");
    assert_eq!(FragmentData::Int(1).type_label(), "int");
    assert_eq!(FragmentData::Str("x".to_string()).type_label(), "string");
    assert_eq!(FragmentData::List(vec![]).type_label(), "list");
    assert_eq!(FragmentData::Mapping(vec![]).type_label(), "map");
}

#[test]
fn type_label_names_a_field_type() {
    assert_eq!(FragmentDataType::Ty(FragmentDataTypeDefinite::Bool).type_label(), "bool");
    assert_eq!(FragmentDataType::Ty(FragmentDataTypeDefinite::Int).type_label(), "int");
    assert_eq!(FragmentDataType::Ty(FragmentDataTypeDefinite::Str).type_label(), "string");
    assert_eq!(one_of(&["Bugfix", "Feature"]).type_label(), "one of: 'Bugfix', 'Feature'");
    assert_eq!(one_of(&["only"]).type_label(), "one of: 'only'");
    assert_eq!(one_of(&[]).type_label(), "one of: ");
}

#[test]
fn display_shows_values() {
    assert_eq!(FragmentData::Bool(true).display().to_text(), "true");
    assert_eq!(FragmentData::Bool(false).display().to_text(), "false");
    assert_eq!(FragmentData::Int(0).display().to_text(), "0");
    assert_eq!(FragmentData::Int(1203).display().to_text(), "1203");
    assert_eq!(FragmentData::Int(u64::MAX).display().to_text(), u64::MAX.to_string());
    assert_eq!(FragmentData::Str("some text".to_string()).display().to_text(), "some text");
    let list = FragmentData::List(vec![FragmentData::Int(1), FragmentData::Str("b".to_string())]);
    assert_eq!(list.display().to_text(), "1,b");
    let map = FragmentData::Mapping(vec![
        ("a".to_string(), FragmentData::Int(1)),
        ("b".to_string(), FragmentData::Bool(false)),
    ]);
    assert_eq!(map.display().to_text(), "{a: 1, b: false}");
}

#[test]
fn matches_follows_the_table_of_types_and_values() {
    let bool_type = FragmentDataType::Ty(FragmentDataTypeDefinite::Bool);
    let int_type = FragmentDataType::Ty(FragmentDataTypeDefinite::Int);
    let str_type = FragmentDataType::Ty(FragmentDataTypeDefinite::Str);
    let set_type = one_of(&["Bugfix", "Feature"]);
    let values = [
        FragmentData::Bool(true),
        FragmentData::Int(3),
        FragmentData::Str("Bugfix".to_string()),
        FragmentData::Str("Other".to_string()),
        FragmentData::List(vec![FragmentData::Str("Bugfix".to_string())]),
        FragmentData::Mapping(vec![("k".to_string(), FragmentData::Bool(true))]),
    ];
    let expected = [
        (&bool_type, [true, false, false, false, false, false]),
        (&int_type, [false, true, false, false, false, false]),
        (&str_type, [false, false, true, true, false, false]),
        (&set_type, [false, false, true, false, false, false]),
    ];
    for (field_type, row) in expected.iter() {
        for (value, want) in values.iter().zip(row.iter()) {
            assert_eq!(field_type.matches(value), *want, "{:?} against {:?}", field_type, value);
        }
    }
}

#[test]
fn clone_keeps_a_value() {
    let value = FragmentData::List(vec![
        FragmentData::Mapping(vec![("k".to_string(), FragmentData::Int(7))]),
        FragmentData::Str("x".to_string()),
    ]);
    let copy = value.clone();
    assert_eq!(copy.display().to_text(), "{k: 7},x");
}

#[test]
fn check_default_accepts_a_typed_default_and_names_a_wrong_one() {
    let good = FragmentDataDesc::new(
        FragmentDataType::Ty(FragmentDataTypeDefinite::Int),
        Some(FragmentData::Int(1)),
        true,
        None,
    );
    assert!(good.check_default("issue").is_ok());
    let none = FragmentDataDesc::new(one_of(&["a"]), None, false, Some(Crawler::Command("x".to_string())));
    assert!(none.check_default("kind").is_ok());
    assert!(!none.required());
    assert!(none.default_value().is_none());
    assert!(matches!(none.crawler(), Some(Crawler::Command(c)) if c == "x"));
    let bad = FragmentDataDesc::new(one_of(&["a", "b"]), Some(FragmentData::Int(1)), true, None);
    match bad.check_default("kind") {
        Err(cargo_changelog::error::FragmentError::DataType { exp, recv, field_name }) => {
            assert_eq!(exp, "one of: 'a', 'b'");
            assert_eq!(recv, "int");
            assert_eq!(field_name, "kind");
        }
        other => panic!("expected a type error, found {:?}", other),
    }
}
