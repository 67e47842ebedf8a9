use cargo_changelog::command::release_command::generate_template_data;
use cargo_changelog::error::Error;
use cargo_changelog::fragment::Fragment;
use cargo_changelog::fragment::FragmentData;
use cargo_changelog::header::Header;
use cargo_changelog::version::Version;

fn fragment(issue: u64, text: &str) -> Fragment {
    let mut hm = Header::new();
    hm.insert("issue".to_string(), FragmentData::Int(issue));
    Fragment::new(hm, text.to_string())
}

#[test]
fn test_template_data_is_sorted() {
    let result = generate_template_data(
        vec![
            Ok((
                Some(Version::new(0, 2, 0)),
                Fragment::new(
                    {
                        let mut hm = Header::new();
                        hm.insert("issue".to_string(), FragmentData::Int(123));
                        hm
                    },
                    "text of fragment for version 0.2.0".to_string(),
                ),
            )),
            Ok((
                Some(Version::new(0, 1, 0)),
                Fragment::new(
                    {
                        let mut hm = Header::new();
                        hm.insert("issue".to_string(), FragmentData::Int(345));
                        hm
                    },
                    "text of fragment for version 0.1.0".to_string(),
                ),
            )),
        ],
        None,
    );

    assert!(result.is_ok());
    let result = result.unwrap();

    let versions = result.versions;
    assert_eq!(versions[0].version, "0.1.0");
    assert_eq!(versions[1].version, "0.2.0");
}

#[test]
fn buckets_are_in_order_of_version_not_of_text() {
    let data = generate_template_data(
        vec![
            Ok((Some(Version::new(0, 10, 0)), fragment(1, "a"))),
            Ok((None, fragment(2, "b"))),
            Ok((Some(Version::new(0, 2, 0)), fragment(3, "c"))),
            Ok((Some(Version::parse("0.10.0-rc.1").unwrap()), fragment(4, "d"))),
            Ok((Some(Version::new(1, 0, 0)), fragment(5, "e"))),
        ],
        Some("the end".to_string()),
    )
    .unwrap();
    let labels: Vec<&str> = data.versions().iter().map(|v| v.version().as_str()).collect();
    assert_eq!(labels, vec!["0.2.0", "0.10.0-rc.1", "0.10.0", "1.0.0", "unreleased"]);
    assert_eq!(data.suffix().as_deref(), Some("the end"));
}

#[test]
fn fragments_of_a_bucket_keep_the_order_in_which_they_came() {
    let data = generate_template_data(
        vec![
            Ok((Some(Version::new(0, 2, 0)), fragment(1, "first of 0.2.0"))),
            Ok((Some(Version::new(0, 1, 0)), fragment(2, "first of 0.1.0"))),
            Ok((Some(Version::new(0, 2, 0)), fragment(3, "second of 0.2.0"))),
            Ok((None, fragment(4, "first pending"))),
            Ok((Some(Version::new(0, 1, 0)), fragment(5, "second of 0.1.0"))),
            Ok((None, fragment(6, "second pending"))),
        ],
        None,
    )
    .unwrap();
    let shape: Vec<(String, Vec<String>)> = data
        .versions()
        .iter()
        .map(|v| (v.version().clone(), v.entries().iter().map(|f| f.text().clone()).collect()))
        .collect();
    assert_eq!(
        shape,
        vec![
            ("0.1.0".to_string(), vec!["first of 0.1.0".to_string(), "second of 0.1.0".to_string()]),
            ("0.2.0".to_string(), vec!["first of 0.2.0".to_string(), "second of 0.2.0".to_string()]),
            ("unreleased".to_string(), vec!["first pending".to_string(), "second pending".to_string()]),
        ]
    );
}

#[test]
fn grouping_is_the_same_on_every_run() {
    let run = || {
        generate_template_data(
            vec![
                Ok((Some(Version::new(0, 2, 0)), fragment(1, "a"))),
                Ok((Some(Version::new(0, 1, 0)), fragment(2, "b"))),
                Ok((Some(Version::new(0, 2, 0)), fragment(3, "c"))),
            ],
            None,
        )
        .unwrap()
        .versions
        .iter()
        .map(|v| format!("{}:{}", v.version, v.entries.iter().map(|f| f.text().as_str()).collect::<Vec<_>>().join("|")))
        .collect::<Vec<_>>()
    };
    assert_eq!(run(), run());
    assert_eq!(run(), vec!["0.1.0:b", "0.2.0:a|c"]);
}

#[test]
fn failures_of_loading_are_reported_together() {
    let result = generate_template_data(
        vec![
            Ok((Some(Version::new(0, 2, 0)), fragment(1, "a"))),
            Err(Error::WalkDir("first".to_string())),
            Ok((None, fragment(2, "b"))),
            Err(Error::WalkDir("second".to_string())),
        ],
        None,
    );
    match result {
        Err(Error::Multiple { errors }) => {
            assert_eq!(errors.len(), 2);
            assert!(matches!(&errors[0], Error::WalkDir(m) if m == "first"));
            assert!(matches!(&errors[1], Error::WalkDir(m) if m == "second"));
        }
        other => panic!("expected the failures, found {:?}", other),
    }
}

#[test]
fn nothing_gives_no_bucket() {
    let data = generate_template_data(vec![], None).unwrap();
    assert!(data.versions().is_empty());
    assert!(data.suffix().is_none());
}
