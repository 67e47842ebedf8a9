use cargo_changelog::fragment::FragmentData;
use cargo_changelog::header::Header;

#[test]
fn insert_keeps_the_order_and_replaces_in_place() {
    let mut header = Header::new();
    assert!(header.is_empty());
    assert!(header.insert("b".to_string(), FragmentData::Int(1)).is_none());
    assert!(header.insert("a".to_string(), FragmentData::Int(2)).is_none());
    let old = header.insert("b".to_string(), FragmentData::Int(3));
    assert!(matches!(old, Some(FragmentData::Int(1))));
    assert_eq!(header.len(), 2);
    assert!(matches!(header.entry_at(0), Some((name, FragmentData::Int(3))) if name == "b"));
    assert!(matches!(header.entry_at(1), Some((name, FragmentData::Int(2))) if name == "a"));
    assert!(header.entry_at(2).is_none());
}

#[test]
fn get_and_position_find_a_field_by_name() {
    let mut header = Header::new();
    header.insert("x".to_string(), FragmentData::Bool(true));
    header.insert("y".to_string(), FragmentData::Str("v".to_string()));
    assert_eq!(header.position("x"), Some(0));
    assert_eq!(header.position("y"), Some(1));
    assert_eq!(header.position("z"), None);
    assert!(header.contains_key("y"));
    assert!(!header.contains_key("Y"));
    assert!(matches!(header.get("y"), Some(FragmentData::Str(s)) if s == "v"));
    assert!(header.get("").is_none());
}

#[test]
fn clone_keeps_a_header() {
    let mut header = Header::new();
    header.insert("x".to_string(), FragmentData::Int(9));
    let copy = header.clone();
    assert_eq!(copy.len(), 1);
    assert!(matches!(copy.get("x"), Some(FragmentData::Int(9))));
}
