use dumpx::error::{Error, TemplateError};
use dumpx::template::{fake_value, render_template, sanitize_value, Template, TemplateOptions};

#[test]
fn renders_known_placeholders() {
    let template = Template::new("{{id}},{{name}},{{email}}").unwrap();
    let rendered = template.render(7).unwrap();
    assert!(rendered.starts_with("7,"));
    assert_eq!(rendered.split(',').count(), 3);
}

#[test]
fn renders_extended_fake_placeholders() {
    let placeholders = [
        "uuid",
        "uuid_v7",
        "ipv4",
        "hex_color",
        "credit_card",
        "currency_code",
        "file_name",
        "image_url",
        "http_status",
        "datetime",
        "time_datetime",
        "markdown_bullets",
        "isbn13",
        "geohash",
    ];

    for placeholder in placeholders {
        let template = Template::new(&format!("{{{{{placeholder}}}}}")).unwrap();
        let rendered = template.render(1).unwrap();
        assert!(!rendered.is_empty(), "{placeholder} rendered empty");
        assert!(
            !rendered.contains("{{") && !rendered.contains("}}"),
            "{placeholder} left template markers behind"
        );
    }
}

#[test]
fn rejects_unknown_placeholders() {
    assert!(Template::new("{{wat}}").is_err());
}

#[test]
fn plain_text_renders_to_itself() {
    assert_eq!(render_template("no markers here, {single} braces", 3).unwrap(), "no markers here, {single} braces");
    assert_eq!(render_template("", 3).unwrap(), "");
}

#[test]
fn row_numbers_fill_id_and_row() {
    assert_eq!(render_template("{{ id }}/{{row}}", 42).unwrap(), "42/42");
}

#[test]
fn template_syntax_errors() {
    assert!(matches!(
        render_template("a {{id", 1),
        Err(Error::Template { kind: TemplateError::Unclosed, in_new: false })
    ));
    assert!(matches!(
        render_template("a {{  }} b", 1),
        Err(Error::Template { kind: TemplateError::EmptyPlaceholder, in_new: false })
    ));
    assert!(matches!(
        render_template("a }} b", 1),
        Err(Error::Template { kind: TemplateError::StrayClosing, in_new: false })
    ));
    let e = Template::new("x {{id").unwrap_err();
    assert_eq!(e.message(), "invalid template: template has an unclosed placeholder");
    let e = Template::new("{{wat}}").unwrap_err();
    assert_eq!(e.message(), "invalid template: unknown template placeholder `wat`");
    let e = render_template("{{wat}}", 1).unwrap_err();
    assert_eq!(e.message(), "unknown template placeholder `wat`");
    let e = Template::new("}}").unwrap_err();
    assert_eq!(e.message(), "invalid template: template has a closing placeholder without an opener");
    let e = Template::new("{{}}").unwrap_err();
    assert_eq!(e.message(), "invalid template: template placeholder cannot be empty");
}

#[test]
fn values_are_cleaned_of_line_breaks_and_markers() {
    assert_eq!(sanitize_value("a\nb\rc\t\"q\",x"), "a b c 'q' x");
    assert_eq!(sanitize_value("plain"), "plain");
}

#[test]
fn fake_values_have_no_line_breaks() {
    for key in ["name", "email", "paragraph", "markdown_bullets", "city", "user_agent"] {
        let v = fake_value(key, 5).unwrap();
        assert!(!v.contains('\n') && !v.contains('\r'), "{key} has a line break");
    }
    assert_eq!(fake_value("id", 9).unwrap(), "9");
    assert!(matches!(fake_value("nope", 1), Err(Error::UnknownPlaceholder { in_new: false, .. })));
}

#[test]
fn template_options_default_to_none() {
    let o = TemplateOptions::default();
    assert!(o.body.is_none());
    assert!(o.header.is_none());
}

#[test]
fn fake_values_have_the_shape_of_their_kind() {
    for _ in 0..20 {
        let d = fake_value("digit", 1).unwrap();
        assert!(d.len() == 1 && d.chars().all(|c| c.is_ascii_digit()));
        let ssn = fake_value("ssn", 1).unwrap();
        assert_eq!(ssn.len(), 11);
        assert!(ssn.chars().enumerate().all(|(i, c)| if i == 3 || i == 6 { c == '-' } else { c.is_ascii_digit() }));
        let e = fake_value("email", 1).unwrap();
        assert!(e.ends_with("@example.com") || e.ends_with("@example.net") || e.ends_with("@example.org"));
        assert!(fake_value("free_email", 1).unwrap().contains('@'));
        let p = fake_value("password", 1).unwrap();
        assert!(p.len() >= 10 && p.len() < 20 && p.chars().all(|c| c.is_ascii_alphanumeric()));
        let ip = fake_value("ipv4", 1).unwrap();
        assert_eq!(ip.split('.').count(), 4);
        assert!(fake_value("ipv6", 1).unwrap().split(':').count() == 8);
        let mac = fake_value("mac", 1).unwrap();
        assert_eq!(mac.len(), 17);
        assert_eq!(fake_value("geohash", 1).unwrap().len(), 9);
        let h = fake_value("hex_color", 1).unwrap();
        assert!(h.len() == 7 && h.starts_with('#'));
        for (key, v) in [("uuid_v1", '1'), ("uuid_v4", '4'), ("uuid_v7", '7'), ("uuid_v8", '8')] {
            let u = fake_value(key, 1).unwrap();
            assert_eq!(u.len(), 36);
            assert_eq!(u.chars().nth(14), Some(v));
        }
    }
}

#[test]
fn numbered_fake_values_have_their_format() {
    for _ in 0..20 {
        let z = fake_value("zip", 1).unwrap();
        assert!((3..=5).contains(&z.len()) && z.chars().all(|c| c.is_ascii_digit()));
        let b = fake_value("building_number", 1).unwrap();
        assert!((3..=5).contains(&b.len()) && b.chars().all(|c| c.is_ascii_digit()));
        let p = fake_value("postcode", 1).unwrap();
        assert!(p.len() == 5 || (p.len() == 10 && p.as_bytes()[5] == b'-'));
        let ph = fake_value("phone", 1).unwrap();
        assert!(ph.len() >= 12 && ph.chars().all(|c| c.is_ascii_digit() || "() -.x".contains(c)));
        let s = fake_value("http_status", 1).unwrap();
        assert!(s.len() >= 4 && s[..3].chars().all(|c| c.is_ascii_digit()) && s.as_bytes()[3] == b' ');
    }
}

#[test]
fn every_placeholder_renders_non_empty_without_markers() {
    let keys = [
        "id", "row", "bool", "boolean", "number", "digit", "number_format", "ssn", "name",
        "name_with_title", "first_name", "last_name", "title", "name_title", "prefix", "suffix",
        "name_suffix", "email", "safe_email", "free_email", "email_provider",
        "free_email_provider", "domain_suffix", "username", "password", "ipv4", "ipv6", "ip",
        "mac", "mac_address", "user_agent", "company", "company_name", "company_suffix",
        "buzzword", "buzzword_middle", "buzzword_tail", "catch_phrase", "bs", "bs_verb",
        "bs_adj", "bs_noun", "profession", "industry", "job", "job_title", "seniority", "field",
        "job_field", "position", "job_position", "phone", "phone_number", "cell", "cell_phone",
        "cell_number", "city_prefix", "city_suffix", "city", "country", "country_code",
        "street_suffix", "street", "street_name", "timezone", "time_zone", "state", "state_name",
        "state_abbr", "secondary_address_type", "secondary_address", "zip", "zip_code",
        "postcode", "post_code", "building_number", "latitude", "longitude", "geohash", "word",
        "words", "sentence", "sentences", "paragraph", "paragraphs", "markdown_italic",
        "italic_word", "markdown_bold", "bold_word", "markdown_link", "markdown_bullets",
        "bullet_points", "markdown_items", "list_items", "markdown_quote", "blockquote",
        "markdown_multiline_quote", "markdown_code", "code", "isbn", "isbn10", "isbn_10",
        "isbn13", "isbn_13", "credit_card", "credit_card_number", "currency_code",
        "currency_name", "currency_symbol", "bic", "isin", "file_path", "file_name",
        "file_extension", "dir_path", "mime_type", "semver", "semver_stable", "semver_unstable",
        "image_url", "picsum", "image_seed_url", "picsum_seed", "image_grayscale_url",
        "picsum_grayscale", "image_blur_url", "picsum_blur", "hex_color", "rgb_color",
        "rgba_color", "hsl_color", "hsla_color", "color", "http_status", "rfc_http_status",
        "valid_http_status", "date", "chrono_date", "time", "chrono_time", "datetime",
        "chrono_datetime", "time_date", "time_time", "time_datetime", "uuid", "uuid_v4",
        "uuid_v1", "uuid_v3", "uuid_v5", "uuid_v6", "uuid_v7", "uuid_v8"
    ];
    for key in keys {
        for row in 0..5u64 {
            let v = fake_value(key, row).unwrap();
            assert!(!v.is_empty(), "{key} gave an empty value");
            assert!(!v.contains("{{") && !v.contains("}}"), "{key} gave a placeholder mark");
            let rendered = Template::new(&format!("[{{{{ {key} }}}}]")).unwrap().render(row).unwrap();
            assert!(rendered.starts_with('[') && rendered.ends_with(']') && rendered.len() > 2, "{key}");
            assert!(!rendered.contains("{{") && !rendered.contains("}}"), "{key}");
        }
    }
}

#[test]
fn fake_values_carry_the_marks_of_their_faker() {
    for row in 0..5u64 {
        for key in ["name", "name_with_title", "company", "catch_phrase", "bs", "job_title", "street", "secondary_address"] {
            assert!(fake_value(key, row).unwrap().contains(' '), "{key}");
        }
        let italic = fake_value("markdown_italic", row).unwrap();
        assert!(italic.starts_with('*') && italic.ends_with('*'));
        let bold = fake_value("markdown_bold", row).unwrap();
        assert!(bold.starts_with("**") && bold.ends_with("**"));
        let link = fake_value("markdown_link", row).unwrap();
        assert!(link.starts_with('[') && link.ends_with(')'));
        assert!(fake_value("sentence", row).unwrap().ends_with('.'));
        assert!(fake_value("markdown_quote", row).unwrap().starts_with("> "));
        let code = fake_value("markdown_code", row).unwrap();
        assert!(code.starts_with("```") && code.ends_with("```") && !code.contains('\n'));
        let card = fake_value("credit_card", row).unwrap();
        assert!((13..=16).contains(&card.len()) && card.chars().all(|c| c.is_ascii_digit()));
        assert!(fake_value("isbn13", row).unwrap().starts_with("978-"));
        assert!(fake_value("file_name", row).unwrap().contains('.'));
        assert!(fake_value("semver_unstable", row).unwrap().contains('-'));
        assert!(fake_value("image_url", row).unwrap().starts_with("https://picsum.photos/"));
        assert!(fake_value("image_blur_url", row).unwrap().starts_with("https://picsum.photos/"));
        assert!(fake_value("image_seed_url", row).unwrap().starts_with("https://picsum.photos/seed/"));
        let gray = fake_value("image_grayscale_url", row).unwrap();
        assert!(gray.starts_with("https://picsum.photos/") && gray.ends_with("?grayscale"));
        let rgb = fake_value("rgb_color", row).unwrap();
        assert!(rgb.starts_with("rgb(") && rgb.ends_with(')') && !rgb.contains(','));
        let rgba = fake_value("rgba_color", row).unwrap();
        assert!(rgba.starts_with("rgba(") && rgba.ends_with(')'));
        for key in ["hsl_color", "hsla_color"] {
            let hsl = fake_value(key, row).unwrap();
            assert!(hsl.starts_with("hsl(") && hsl.ends_with(')'), "{key}");
        }
        assert!(fake_value("color", row).unwrap().starts_with('#'));
    }
}
