use dumpx::error::Error;
use dumpx::naming::{
    file_stem_prefix, generated_file_name, parse_tag, parse_tags, sanitize_file_part, tags_json,
    tags_text, validate_file_name, Tag,
};

#[test]
fn parses_tags() {
    let tags = parse_tags(&["suite=smoke".to_string(), "owner=agent".to_string()]).unwrap();
    assert_eq!(tags[0].key, "suite");
    assert_eq!(tags[0].value, "smoke");
    assert_eq!(tags_text(&tags), "suite=smoke,owner=agent");
}

#[test]
fn rejects_invalid_tags() {
    assert!(parse_tag("suite").is_err());
    assert!(parse_tag("=smoke").is_err());
    assert!(parse_tag("suite=").is_err());
    assert!(parse_tag("bad key=value").is_err());
}

#[test]
fn builds_tagged_file_stem_prefix() {
    let tags = parse_tags(&["suite=smoke test".to_string(), "owner=agent".to_string()]).unwrap();
    assert_eq!(
        file_stem_prefix("sample files", &tags).unwrap(),
        "sample-files_suite-smoke-test_owner-agent"
    );
}

#[test]
fn renders_generated_file_name_templates() {
    assert_eq!(
        generated_file_name(
            Some("{format}-{size}.{extension}"),
            "sample",
            "csv",
            "1KiB",
            "csv",
            2
        )
        .unwrap(),
        "csv-1KiB.csv"
    );
    assert_eq!(
        generated_file_name(None, "sample", "txt", "1KiB", "txt", 1).unwrap(),
        "sample_1KiB.txt"
    );
}

#[test]
fn rejects_path_like_generated_file_names() {
    assert!(generated_file_name(Some("../x.txt"), "sample", "txt", "1KiB", "txt", 1).is_err());
    assert!(generated_file_name(Some("dir\\x.txt"), "sample", "txt", "1KiB", "txt", 1).is_err());
}

#[test]
fn serializes_tags_as_json() {
    let tags = parse_tags(&["suite=smoke".to_string()]).unwrap();
    assert_eq!(
        tags_json(&tags).unwrap(),
        r#"[{"key":"suite","value":"smoke"}]"#
    );
}

#[test]
fn tag_errors_name_their_cause() {
    assert!(matches!(parse_tag("suite"), Err(Error::TagMissingSeparator { .. })));
    assert!(matches!(parse_tag("=smoke"), Err(Error::TagEmptyPart { .. })));
    assert!(matches!(parse_tag("suite=  "), Err(Error::TagEmptyPart { .. })));
    match parse_tag("bad key=value") {
        Err(Error::TagInvalidKey { key }) => assert_eq!(key, "bad key"),
        other => panic!("unexpected {other:?}"),
    }
    assert_eq!(
        parse_tag("suite").unwrap_err().message(),
        "invalid tag `suite`; expected KEY=VALUE"
    );
    assert_eq!(
        parse_tag("suite=").unwrap_err().message(),
        "invalid tag `suite=`; key and value must be non-empty"
    );
    assert_eq!(
        parse_tag("bad key=value").unwrap_err().message(),
        "invalid tag key `bad key`; use letters, numbers, _, -, or ."
    );
}

#[test]
fn tags_are_trimmed_and_split_at_the_first_equals() {
    let tag = parse_tag("  run . id = a=b ").unwrap_err();
    assert!(matches!(tag, Error::TagInvalidKey { .. }));
    let tag = parse_tag(" run.id-1_x = a=b ").unwrap();
    assert_eq!(tag.key, "run.id-1_x");
    assert_eq!(tag.value, "a=b");
}

#[test]
fn tag_text_parses_back() {
    let tags = parse_tags(&["k.1=some value".to_string()]).unwrap();
    let text = tags_text(&tags);
    let again = parse_tag(&text).unwrap();
    assert_eq!(again.key, tags[0].key);
    assert_eq!(again.value, tags[0].value);
}

#[test]
fn no_tags_read_as_none() {
    assert_eq!(tags_text(&[]), "none");
    assert_eq!(tags_json(&[]).unwrap(), "[]");
}

#[test]
fn tags_json_escapes_quotes() {
    let tags = vec![Tag { key: "k".to_string(), value: "say \"hi\"".to_string() }];
    assert_eq!(tags_json(&tags).unwrap(), r#"[{"key":"k","value":"say \"hi\""}]"#);
}

#[test]
fn sanitizes_file_parts() {
    assert_eq!(sanitize_file_part("a b/c"), "a-b-c");
    assert_eq!(sanitize_file_part("  x  "), "x");
    assert_eq!(sanitize_file_part("Ünï.v_1"), "n-.v_1");
}

#[test]
fn prefix_without_safe_characters_is_refused() {
    match file_stem_prefix("///", &[]) {
        Err(e) => {
            assert!(matches!(e, Error::EmptyPrefix));
            assert_eq!(e.message(), "prefix must contain at least one filename-safe character");
        }
        Ok(s) => panic!("unexpected {s}"),
    }
    assert_eq!(file_stem_prefix("sample", &[]).unwrap(), "sample");
}

#[test]
fn file_name_checks() {
    assert!(matches!(validate_file_name("  "), Err(Error::FileNameEmpty)));
    assert!(matches!(validate_file_name("."), Err(Error::FileNameNotAFile)));
    assert!(matches!(validate_file_name(".."), Err(Error::FileNameNotAFile)));
    assert!(matches!(validate_file_name("a/b"), Err(Error::FileNamePathSeparator)));
    assert!(validate_file_name("users.csv").is_ok());
    assert_eq!(
        validate_file_name("../escape.txt").unwrap_err().message(),
        "custom file name must not contain path separators"
    );
}

#[test]
fn file_name_template_replaces_every_placeholder() {
    assert_eq!(
        generated_file_name(
            Some("{prefix}-{format}-{size}-{index}.{extension}"),
            "p",
            "jpeg",
            "2MiB",
            "jpg",
            12
        )
        .unwrap(),
        "p-jpeg-2MiB-12.jpg"
    );
    assert!(matches!(
        generated_file_name(Some("{index}"), "p", "csv", "1B", "csv", 0),
        Ok(ref s) if s == "0"
    ));
}

#[test]
fn tags_json_escapes_control_characters() {
    let tags = vec![Tag { key: "k".to_string(), value: "a\tb\u{1}\\/é".to_string() }];
    assert_eq!(tags_json(&tags).unwrap(), "[{\"key\":\"k\",\"value\":\"a\\tb\\u0001\\\\/é\"}]");
}
