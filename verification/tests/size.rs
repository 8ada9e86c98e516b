use dumpx::error::Error;
use dumpx::size::{default_sizes, parse_size, size_label, DEFAULT_MAX_SIZE};

#[test]
fn parses_byte_sizes() {
    assert_eq!(parse_size("1B").unwrap(), 1);
    assert_eq!(parse_size("1b").unwrap(), 1);
    assert_eq!(parse_size("8b").unwrap(), 1);
    assert_eq!(parse_size("9b").unwrap(), 2);
    assert_eq!(parse_size("1kB").unwrap(), 1_024);
    assert_eq!(parse_size("1kb").unwrap(), 128);
    assert_eq!(parse_size("1KB").unwrap(), 1_024);
    assert_eq!(parse_size("1Kb").unwrap(), 128);
    assert_eq!(parse_size("1KiB").unwrap(), 1_024);
    assert_eq!(parse_size("1Kib").unwrap(), 128);
    assert_eq!(parse_size("1.5MiB").unwrap(), 1_572_864);
    assert_eq!(parse_size("2GiB").unwrap(), 2_147_483_648);
}

#[test]
fn rejects_invalid_sizes() {
    assert!(parse_size("0KiB").is_err());
    assert!(parse_size("10tb").is_err());
    assert!(parse_size("abc").is_err());
}

#[test]
fn size_errors_name_their_cause() {
    match parse_size("abc") {
        Err(e @ Error::InvalidSize { .. }) => {
            assert_eq!(e.message(), "invalid size: abc: cannot parse float from empty string")
        }
        other => panic!("unexpected {other:?}"),
    }
    match parse_size("1.2.3MB") {
        Err(e @ Error::InvalidSize { .. }) => {
            assert_eq!(e.message(), "invalid size: 1.2.3MB: invalid float literal")
        }
        other => panic!("unexpected {other:?}"),
    }
    match parse_size("0KiB") {
        Err(e @ Error::SizeNotPositive { .. }) => {
            assert_eq!(e.message(), "size must be greater than zero: 0KiB")
        }
        other => panic!("unexpected {other:?}"),
    }
    match parse_size("10tb") {
        Err(e @ Error::UnsupportedSizeUnit { .. }) => assert_eq!(
            e.message(),
            "unsupported size unit in 10tb; use B, b, kB, kb, KiB, Kib, MB, Mb, MiB, Mib, GB, Gb, GiB, or Gib"
        ),
        other => panic!("unexpected {other:?}"),
    }
    match parse_size("99999999999GiB") {
        Err(e @ Error::SizeTooLarge { .. }) => {
            assert_eq!(e.message(), "size is too large: 99999999999GiB")
        }
        other => panic!("unexpected {other:?}"),
    }
}

#[test]
fn sizes_are_trimmed_and_rounded_up() {
    assert_eq!(parse_size("  3 KiB ").unwrap(), 3072);
    assert_eq!(parse_size("1.0001KiB").unwrap(), 1025);
    assert_eq!(parse_size(".5KiB").unwrap(), 512);
    assert_eq!(parse_size("7").unwrap(), 7);
    assert_eq!(parse_size("1Mb").unwrap(), 131_072);
    assert_eq!(parse_size("1Gib").unwrap(), 134_217_728);
}

#[test]
fn labels_use_the_largest_exact_unit() {
    assert_eq!(size_label(1024), "1KiB");
    assert_eq!(size_label(1_572_864), "1536KiB");
    assert_eq!(size_label(3 * 1024 * 1024), "3MiB");
    assert_eq!(size_label(DEFAULT_MAX_SIZE), "1GiB");
    assert_eq!(size_label(1000), "1000B");
    assert_eq!(size_label(0), "0GiB");
}

#[test]
fn labels_parse_back() {
    for n in [1u64, 1000, 1024, 5 * 1024 * 1024, 7 * 1024 * 1024 * 1024, 123_456_789] {
        assert_eq!(parse_size(&size_label(n)).unwrap(), n);
    }
}

#[test]
fn unit_spellings_agree() {
    for (a, b) in [("2kB", "2KiB"), ("2KB", "2KiB"), ("2kb", "2Kib"), ("2Kb", "2Kib"), ("3MB", "3MiB"), ("3GB", "3GiB")] {
        assert_eq!(parse_size(a).unwrap(), parse_size(b).unwrap());
    }
    assert_eq!(parse_size("16Kib").unwrap() * 8, parse_size("16KiB").unwrap());
}

#[test]
fn default_sizes_are_small() {
    assert_eq!(default_sizes(), vec!["10KiB", "100KiB", "1MiB"]);
}

#[test]
fn units_agree_after_numbers_with_spaces() {
    for d in ["1", "1 ", " 2.5 ", "3 4", "  ", "", "1 .5"] {
        let p = |x: &str| parse_size(&format!("{d}{x}")).ok();
        assert_eq!(p("kB"), p("KiB"));
        assert_eq!(p("KB"), p("KiB"));
        assert_eq!(p("Mb"), p("Mib"));
        assert_eq!(p("B"), p(""));
    }
    assert_eq!(parse_size("1 KiB").unwrap(), 1024);
    assert_eq!(parse_size("2 B").unwrap(), 2);
}
