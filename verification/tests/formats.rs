use dumpx::error::Error;
use dumpx::formats::common::{csv_escape, pdf_escape, repeated_payload, rows_for_size};
use dumpx::formats::image::{extension_for_image, grow_side, image_bytes, initial_side, pattern_pixels, ImageKind};
use dumpx::formats::parquet::{
    parquet_bytes, parquet_encode, parquet_first_rows, parquet_ids, parquet_payloads, parquet_step,
    parquet_tags, ParquetStep,
};
use dumpx::formats::pdf::{build_pdf, write as pdf_write};
use dumpx::formats::stream::{StreamFormat, TextStream};
use dumpx::formats::{
    default_formats, extension, generate_file, is_supported_format, validate_format, Content,
};
use dumpx::naming::{parse_tags, Tag};
use dumpx::template::{Template, TemplateOptions};

fn no_templates() -> TemplateOptions {
    TemplateOptions { body: None, header: None }
}

fn collect(mut s: TextStream) -> String {
    let mut out = String::new();
    while let Some(c) = s.next_chunk().unwrap() {
        out.push_str(&c);
    }
    out
}

#[test]
fn escapes_csv_and_pdf_text() {
    assert_eq!(csv_escape(r#"say "hi""#), r#"say ""hi"""#);
    assert_eq!(pdf_escape(r"a\b(c)"), r"a\\b\(c\)");
}

#[test]
fn rows_for_size_rounds_past_the_target() {
    assert_eq!(rows_for_size(0, 180), 1);
    assert_eq!(rows_for_size(1024, 180), 6);
    assert_eq!(rows_for_size(360, 180), 3);
}

#[test]
fn payloads_follow_the_alphabet() {
    assert_eq!(repeated_payload(0, 6), "arI0hy");
    assert_eq!(repeated_payload(1, 3), "bsJ");
    assert_eq!(repeated_payload(5, 0), "");
}

#[test]
fn format_names() {
    assert!(is_supported_format("jpeg"));
    assert!(!is_supported_format("CSV"));
    assert_eq!(extension("jpeg"), "jpg");
    assert_eq!(extension("png"), "png");
    assert_eq!(
        default_formats(),
        vec!["csv", "parquet", "json", "jsonl", "txt", "md", "pdf", "jpg", "png"]
    );
    let e = validate_format("doc").unwrap_err();
    assert!(matches!(e, Error::UnsupportedFormat { .. }));
    assert_eq!(e.message(), "unsupported format: doc; run `dumpx --list-formats`");
    assert!(validate_format("md").is_ok());
}

#[test]
fn csv_stream_reaches_the_target() {
    let tags = parse_tags(&["suite=smoke".to_string()]).unwrap();
    let t = no_templates();
    let s = TextStream::new(StreamFormat::Csv, 1024, &tags, &t);
    let out = collect(s);
    assert!(out.len() >= 1024);
    assert!(out.starts_with("id,name,email,score,tags,notes\n0,User 0,user0@example.com,0,\"suite=smoke\","));
    assert!(out.ends_with('\n'));
}

#[test]
fn json_stream_is_an_array() {
    let tags = parse_tags(&["suite=smoke".to_string()]).unwrap();
    let t = no_templates();
    let out = collect(TextStream::new(StreamFormat::Json, 1024, &tags, &t));
    assert!(out.len() >= 1024);
    assert!(out.starts_with("[\n  {\"id\":0,\"name\":\"User 0\",\"active\":true,\"tags\":[{\"key\":\"suite\",\"value\":\"smoke\"}],\"payload\":\""));
    assert!(out.ends_with("}\n]\n"));
    assert!(out.contains("},\n  {\"id\":1,"));
}

#[test]
fn jsonl_text_and_markdown_streams() {
    let t = no_templates();
    let out = collect(TextStream::new(StreamFormat::Jsonl, 600, &[], &t));
    assert!(out.len() >= 600);
    assert!(out.starts_with("{\"id\":0,\"name\":\"User 0\",\"active\":true,\"tags\":[],\"payload\":\""));
    assert!(out.lines().all(|l| l.starts_with("{\"id\":") && l.ends_with("\"}")));
    let out = collect(TextStream::new(StreamFormat::Txt, 300, &[], &t));
    assert!(out.len() >= 300);
    assert!(out.starts_with("Tags: none\nLine 0: The quick brown fox jumps over generated payload "));
    let out = collect(TextStream::new(StreamFormat::Md, 300, &[], &t));
    assert!(out.len() >= 300);
    assert!(out.starts_with("# Generated Markdown sample\n\nTags: none\n\n- Line 0: "));
}

#[test]
fn templated_stream_uses_header_and_rows_from_one() {
    let t = TemplateOptions {
        body: Some(Template::new("{{id}},{{name}},{{email}}").unwrap()),
        header: Some("id,name,email".to_string()),
    };
    let out = collect(TextStream::new(StreamFormat::Csv, 200, &[], &t));
    assert!(out.len() >= 200);
    assert!(out.starts_with("id,name,email\n1,"));
    assert!(out.contains('@'));
}

#[test]
fn tiny_target_still_writes_the_start() {
    let t = no_templates();
    let out = collect(TextStream::new(StreamFormat::Txt, 1, &[], &t));
    assert_eq!(out, "Tags: none\n");
    let out = collect(TextStream::new(StreamFormat::Json, 1, &[], &t));
    assert_eq!(out, "[\n\n]\n");
}

#[test]
fn pdf_reaches_the_target() {
    let t = no_templates();
    let pdf = pdf_write(2048, &[], &t);
    assert!(pdf.len() >= 2048);
    assert!(pdf.starts_with(b"%PDF-1.4\n"));
    assert!(pdf.ends_with(b"%%EOF\n"));
    let text = String::from_utf8(pdf).unwrap();
    assert!(text.contains("(Generated PDF sample) Tj 0 -16 Td (Tags: none) Tj"));
    assert!(text.contains("(Line 0: "));
}

#[test]
fn pdf_xref_points_at_objects() {
    let pdf = String::from_utf8(build_pdf("BT ")).unwrap();
    let xref_at: usize = pdf
        .rsplit("startxref\n")
        .next()
        .unwrap()
        .lines()
        .next()
        .unwrap()
        .parse()
        .unwrap();
    assert!(pdf[xref_at..].starts_with("xref\n0 6\n"));
    let first = pdf.find("1 0 obj").unwrap();
    assert!(pdf.contains(&format!("{:010} 00000 n \n", first)));
}

#[test]
fn image_sides_grow_as_the_encoder_does() {
    assert_eq!(initial_side(0), 16);
    assert_eq!(initial_side(3 * 16 * 16), 16);
    assert_eq!(initial_side(3 * 16 * 16 + 1), 17);
    assert_eq!(initial_side(3 * 100 * 100), 100);
    assert_eq!(initial_side(u64::MAX), 8192);
    assert_eq!(grow_side(16), 22);
    assert_eq!(grow_side(20), 27);
    assert_eq!(grow_side(180), 244);
    assert_eq!(grow_side(200), 270);
}

#[test]
fn pattern_pixels_follow_the_formula() {
    let p = pattern_pixels(2);
    // (0,0): n = 0; (1,0): n = 73 + 31 = 104; (0,1): n = 151 + 31 = 182; (1,1): n = 224.
    assert_eq!(p, vec![0, 0, 0, 104, 13, 0, 182, 22, 1, 224, 28, 1]);
}

#[test]
fn images_reach_the_target() {
    let png = image_bytes(ImageKind::Png, 4096).unwrap();
    assert!(png.len() >= 4096);
    assert!(png.starts_with(&[0x89, b'P', b'N', b'G']));
    let jpg = image_bytes(ImageKind::Jpeg, 4096).unwrap();
    assert!(jpg.len() >= 4096);
    assert!(jpg.starts_with(&[0xFF, 0xD8]));
}

#[test]
fn parquet_rows_grow_until_done() {
    assert_eq!(parquet_first_rows(1024), 6);
    assert_eq!(parquet_first_rows(0), 1);
    assert_eq!(parquet_step(6, 100, 1024), ParquetStep::Retry(10));
    assert_eq!(parquet_step(5, 100, 1024), ParquetStep::Retry(8));
    assert_eq!(parquet_step(6, 2000, 1024), ParquetStep::Done);
    assert_eq!(parquet_ids(3), vec![0, 1, 2]);
    assert_eq!(parquet_tags(2, "none"), vec!["none", "none"]);
    let p = parquet_payloads(2);
    assert_eq!(p[0], repeated_payload(0, 128));
    assert_eq!(p[1], repeated_payload(1, 128));
}

#[test]
fn generate_file_dispatches_by_format() {
    let tags: Vec<Tag> = parse_tags(&["suite=smoke".to_string()]).unwrap();
    let t = no_templates();
    match generate_file("md", 100, &tags, &t).unwrap() {
        Content::Stream(s) => assert!(collect(s).starts_with("# Generated Markdown sample")),
        _ => panic!("md is a stream"),
    }
    match generate_file("pdf", 100, &tags, &t).unwrap() {
        Content::Bytes(b) => assert!(b.len() >= 100),
        _ => panic!("pdf is whole"),
    }
    match generate_file("jpeg", 100, &tags, &t).unwrap() {
        Content::Bytes(b) => assert!(b.len() >= 100 && b.starts_with(&[0xFF, 0xD8])),
        _ => panic!("jpeg is whole"),
    }
    match generate_file("parquet", 1024, &tags, &t).unwrap() {
        Content::Bytes(b) => {
            assert!(b.len() >= 1024);
            assert!(b.starts_with(b"PAR1") && b.ends_with(b"PAR1"));
            assert!(contains_bytes(&b, b"suite=smoke"));
        }
        _ => panic!("parquet is whole"),
    }
    match generate_file("doc", 1, &tags, &t) {
        Err(e) => assert_eq!(e.message(), "unsupported format: doc"),
        Ok(_) => panic!("doc is not a format"),
    }
}

#[test]
fn image_errors_report_the_kind_and_sizes() {
    assert_eq!(extension_for_image(ImageKind::Jpeg), "jpg");
    assert_eq!(extension_for_image(ImageKind::Png), "png");
    let e = Error::ImageTooSmall { image: ImageKind::Png, target: 1024, largest: 10 };
    assert_eq!(
        e.message(),
        "could not generate png image at requested size 1KiB; largest attempt was 10 bytes"
    );
    assert_eq!(Error::ImageEncoding.message(), "failed to encode image");
    assert_eq!(Error::RowLimit.message(), "row number ran past the supported limit");
    assert_eq!(Error::ParquetEncoding.message(), "failed to encode parquet file");
}

#[test]
fn built_in_content_is_deterministic() {
    let t = no_templates();
    assert_eq!(pdf_write(3000, &[], &t), pdf_write(3000, &[], &t));
    let a = collect(TextStream::new(StreamFormat::Csv, 900, &[], &t));
    let b = collect(TextStream::new(StreamFormat::Csv, 900, &[], &t));
    assert_eq!(a, b);
    assert_eq!(
        image_bytes(ImageKind::Png, 2000).unwrap(),
        image_bytes(ImageKind::Png, 2000).unwrap()
    );
}

#[test]
fn json_files_meet_every_small_target() {
    let t = no_templates();
    for target in 0..400u64 {
        let out = collect(TextStream::new(StreamFormat::Json, target, &[], &t));
        assert!(out.len() as u64 >= target, "json at {target} gave {} bytes", out.len());
        assert!(out.starts_with("[\n") && out.ends_with("\n]\n"));
    }
    let out = collect(TextStream::new(StreamFormat::Json, 6, &[], &t));
    assert!(out.starts_with("[\n  {\"id\":0,"));
}

fn contains_bytes(hay: &[u8], needle: &[u8]) -> bool {
    hay.windows(needle.len()).any(|w| w == needle)
}

#[test]
fn parquet_encoding_holds_the_rows() {
    let b = parquet_encode(3, "env=test").unwrap();
    assert!(b.starts_with(b"PAR1") && b.ends_with(b"PAR1"));
    assert!(contains_bytes(&b, b"env=test"));
    assert!(contains_bytes(&b, repeated_payload(2, 128).as_bytes()));
    assert!(!contains_bytes(&b, repeated_payload(3, 128).as_bytes()));
    let more = parquet_encode(30, "env=test").unwrap();
    assert!(more.len() > b.len());
}

#[test]
fn parquet_files_meet_every_target() {
    for target in [1u64, 100, 1024, 5000, 40_000, 200_000] {
        let b = parquet_bytes(target, "none").unwrap();
        assert!(b.len() as u64 >= target, "{target}");
        assert!(b.starts_with(b"PAR1") && b.ends_with(b"PAR1"));
    }
}
