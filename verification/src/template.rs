//! Template rendering with fake data.
//!
//! A template is text with `{{name}}` placeholders. Rendering replaces each
//! placeholder with a fake value of the named kind; the values are cleaned so
//! that they hold no line breaks, tabs, double quotes or commas.

use vstd::prelude::*;
use crate::error::{Error, TemplateError};
use crate::fakes::{
    fake_bic, fake_block_quote, fake_bold_word, fake_bool, fake_bs, fake_bs_adj, fake_bs_noun, fake_bs_verb, fake_building_number, fake_bullet_points, fake_buzzword, fake_buzzword_middle, fake_buzzword_tail, fake_catch_phrase, fake_cell_number, fake_chrono_date, fake_chrono_date_time, fake_chrono_time, fake_city_name, fake_city_prefix, fake_city_suffix, fake_code, fake_color, fake_company_name, fake_company_suffix, fake_country_code, fake_country_name, fake_credit_card, fake_currency_code, fake_currency_name, fake_currency_symbol, fake_digit, fake_dir_path, fake_domain_suffix, fake_file_extension, fake_file_name, fake_file_path, fake_first_name, fake_free_email, fake_free_email_provider, fake_geohash, fake_hex_color, fake_hsl_color, fake_hsla_color, fake_image, fake_image_blur, fake_image_grayscale, fake_image_with_seed, fake_industry, fake_ip, fake_ipv4, fake_ipv6, fake_isbn, fake_isbn10, fake_isbn13, fake_isin, fake_italic_word, fake_job_field, fake_job_position, fake_job_title, fake_last_name, fake_latitude, fake_link, fake_list_items, fake_longitude, fake_mac_address, fake_mime_type, fake_multiline_quote, fake_name, fake_name_suffix, fake_name_title, fake_name_with_title, fake_number_format, fake_paragraph, fake_paragraphs, fake_password, fake_phone_number, fake_post_code, fake_profession, fake_rfc_status_code, fake_rgb_color, fake_rgba_color, fake_safe_email, fake_secondary_address, fake_secondary_address_type, fake_semver, fake_semver_stable, fake_semver_unstable, fake_seniority, fake_sentence, fake_sentences, fake_state_abbr, fake_state_name, fake_street_name, fake_street_suffix, fake_time_date, fake_time_date_time, fake_time_time, fake_time_zone, fake_user_agent, fake_username, fake_uuid_v1, fake_uuid_v3, fake_uuid_v4, fake_uuid_v5, fake_uuid_v6, fake_uuid_v7, fake_uuid_v8, fake_valid_status_code, fake_word, fake_words, fake_zip_code
};
use crate::fakes::{
    ends_with, hex_color_text, ipv4_text, phone_text, post_code_text, short_number_text, status_text, ipv6_text, is_geohash_char, mac_text, numerified,
    safe_email_text, semver_text, uuid_text, no_braces, plain_text, is_lower_hex, is_upper_hex, starts_with,
    is_upper, is_lower, upper_code, name_word, lower_word, float_text, code_text, one_of, name_titles, name_suffixes,
    city_prefixes, city_suffixes, company_suffixes, secondary_address_types, free_email_providers, domain_suffixes,
    file_extensions, seniorities, currency_symbols, ends_with_one_of,
};
use crate::placeholders::{Placeholder, placeholder_named, placeholder_of};
use crate::text::{
    is_ascii_alnum, is_digit, chars_of, contains_seq, decimal, decimal_string, find, find_from, join, push_char, push_chars,
    push_str, slice_range, string_of, trim, trim_chars, lemma_find_some, lemma_join_push,
};

verus! {

// ---------------------------------------------------------------------------
// Values
// ---------------------------------------------------------------------------

/// Line breaks, tabs and commas become spaces; double quotes become single quotes.
pub open spec fn clean_char(c: char) -> char {
    if c == '\r' || c == '\n' || c == '\t' || c == ',' {
        ' '
    } else if c == '"' {
        '\''
    } else {
        c
    }
}

pub open spec fn clean(s: Seq<char>) -> Seq<char> {
    s.map_values(|c: char| clean_char(c))
}

/// Text with no line break, tab, double quote or comma.
pub open spec fn is_clean(s: Seq<char>) -> bool {
    forall|i: int|
        0 <= i < s.len() ==> #[trigger] s[i] != '\r' && s[i] != '\n' && s[i] != '\t' && s[i]
            != ',' && s[i] != '"'
}

/// The shape of every value that the faker behind a placeholder can give,
/// where the faker fixes one.
pub open spec fn kind_ok(p: Placeholder, v: Seq<char>) -> bool {
    match p {
        Placeholder::Digit => v.len() == 1 && is_digit(v[0]),
        Placeholder::NumberFormat => numerified("###-##-####"@, v),
        Placeholder::SafeEmail => safe_email_text(v),
        Placeholder::FreeEmail => v.contains('@'),
        Placeholder::Password => 10 <= v.len() < 20 && forall|i: int|
            0 <= i < v.len() ==> is_ascii_alnum(#[trigger] v[i]),
        Placeholder::IPv4 | Placeholder::Ip => ipv4_text(v),
        Placeholder::IPv6 => ipv6_text(v),
        Placeholder::MacAddress => mac_text(v),
        Placeholder::Geohash => v.len() == 9 && forall|i: int|
            0 <= i < v.len() ==> is_geohash_char(#[trigger] v[i]),
        Placeholder::HexColor => hex_color_text(v),
        Placeholder::SemverStable => semver_text(v),
        Placeholder::UuidV1 => uuid_text(v, '1'),
        Placeholder::UuidV3 => uuid_text(v, '3'),
        Placeholder::UuidV4 => uuid_text(v, '4'),
        Placeholder::UuidV5 => uuid_text(v, '5'),
        Placeholder::UuidV6 => uuid_text(v, '6'),
        Placeholder::UuidV7 => uuid_text(v, '7'),
        Placeholder::UuidV8 => uuid_text(v, '8'),
        Placeholder::BuildingNumber | Placeholder::ZipCode => short_number_text(v),
        Placeholder::PostCode => post_code_text(v),
        Placeholder::PhoneNumber | Placeholder::CellNumber => phone_text(v),
        Placeholder::RfcStatusCode | Placeholder::ValidStatusCode => status_text(v),
        Placeholder::Name | Placeholder::NameWithTitle | Placeholder::CompanyName
        | Placeholder::CatchPhrase | Placeholder::Bs | Placeholder::JobTitle
        | Placeholder::StreetName | Placeholder::SecondaryAddress => v.contains(' '),
        Placeholder::ItalicWord => starts_with(v, "*"@) && ends_with(v, "*"@),
        Placeholder::BoldWord => starts_with(v, "**"@) && ends_with(v, "**"@),
        Placeholder::Link => starts_with(v, "["@) && ends_with(v, ")"@),
        Placeholder::Sentence => ends_with(v, "."@),
        Placeholder::BlockQuote => starts_with(v, "> "@),
        Placeholder::Code => starts_with(v, "```"@) && ends_with(v, "```"@),
        Placeholder::CreditCard => 13 <= v.len() <= 16 && forall|i: int|
            0 <= i < v.len() ==> is_digit(#[trigger] v[i]),
        Placeholder::Isbn13 => starts_with(v, "978-"@) && v.len() == 17,
        Placeholder::NameTitle => one_of(v, name_titles()),
        Placeholder::NameSuffix => one_of(v, name_suffixes()),
        Placeholder::CityPrefix => one_of(v, city_prefixes()),
        Placeholder::CitySuffix => one_of(v, city_suffixes()),
        Placeholder::CompanySuffix => one_of(v, company_suffixes()),
        Placeholder::SecondaryAddressType => one_of(v, secondary_address_types()),
        Placeholder::FreeEmailProvider => one_of(v, free_email_providers()),
        Placeholder::DomainSuffix => one_of(v, domain_suffixes()),
        Placeholder::FileExtension => one_of(v, file_extensions()),
        Placeholder::Seniority => one_of(v, seniorities()),
        Placeholder::CurrencySymbol => one_of(v, currency_symbols()),
        Placeholder::FirstName | Placeholder::LastName | Placeholder::StreetSuffix
        | Placeholder::JobField | Placeholder::JobPosition => name_word(v),
        Placeholder::CountryCode | Placeholder::StateAbbr => upper_code(v, 2),
        Placeholder::CurrencyCode => upper_code(v, 3),
        Placeholder::Word => lower_word(v),
        Placeholder::TimeZone => v.len() > 0 && is_upper(v[0]) && v.contains('/'),
        Placeholder::MimeType => v.len() > 0 && is_lower(v[0]) && v.contains('/'),
        Placeholder::UserAgent => starts_with(v, "Mozilla/"@) || starts_with(v, "Opera/"@),
        Placeholder::FilePath | Placeholder::DirPath => starts_with(v, "/"@),
        Placeholder::Latitude | Placeholder::Longitude => float_text(v),
        Placeholder::Isbn10 => v.len() == 13 && v.contains('-'),
        Placeholder::Isbn => (v.len() == 13 || v.len() == 17) && v.contains('-'),
        Placeholder::Bic => code_text(v, 8) || code_text(v, 11),
        Placeholder::Isin => code_text(v, 12),
        Placeholder::ChronoDate | Placeholder::TimeDate => v.contains('-') && !v.contains(':'),
        Placeholder::ChronoTime | Placeholder::TimeTime => v.contains(':') && !v.contains('-'),
        Placeholder::ChronoDateTime | Placeholder::TimeDateTime => v.contains('T') && v.contains(':'),
        Placeholder::Semver => v.contains('.'),
        Placeholder::CountryName | Placeholder::StateName | Placeholder::Industry
        | Placeholder::CurrencyName | Placeholder::Buzzword => v.len() > 0 && is_upper(v[0]),
        Placeholder::BsVerb | Placeholder::Profession => v.len() > 0 && is_lower(v[0]),
        Placeholder::CityName => ends_with_one_of(v, city_suffixes()),
        Placeholder::Username => v.len() > 0 && is_lower(v[0]) && forall|i: int|
            0 <= i < v.len() ==> is_lower(#[trigger] v[i]) || is_digit(v[i]) || v[i] == '.' || v[i]
                == '_',
        Placeholder::Words => forall|i: int| 0 <= i < v.len() ==> is_lower(#[trigger] v[i]) || v[i] == ' ',
        Placeholder::Sentences | Placeholder::Paragraph | Placeholder::Paragraphs => ends_with(v, "."@),
        Placeholder::BulletPoints => starts_with(v, "- "@),
        Placeholder::ListItems => starts_with(v, "1. "@),
        Placeholder::MultilineQuote => starts_with(v, "> "@),
        Placeholder::FileName => v.contains('.'),
        Placeholder::SemverUnstable => v.contains('-'),
        Placeholder::Image | Placeholder::ImageBlur => starts_with(v, "https://picsum.photos/"@),
        Placeholder::ImageWithSeed => starts_with(v, "https://picsum.photos/seed/"@),
        Placeholder::ImageGrayscale => starts_with(v, "https://picsum.photos/"@) && ends_with(
            v,
            "?grayscale"@,
        ),
        Placeholder::RgbColor => starts_with(v, "rgb("@) && ends_with(v, ")"@),
        Placeholder::RgbaColor => starts_with(v, "rgba("@) && ends_with(v, ")"@),
        Placeholder::HslColor | Placeholder::HslaColor => starts_with(v, "hsl("@) && ends_with(
            v,
            ")"@,
        ),
        Placeholder::Color => starts_with(v, "#"@),
        _ => true,
    }
}

/// What holds of every value that a placeholder may render to: it is clean,
/// non-empty and free of braces; `id`, `row`, `number` and `bool` are fixed
/// by the row; and the values of the fakers with a fixed shape have that
/// shape.
pub open spec fn value_ok(p: Placeholder, row: u64, v: Seq<char>) -> bool {
    &&& is_clean(v)
    &&& plain_text(v)
    &&& kind_ok(p, v)
    &&& match p {
        Placeholder::Id => v == decimal(row as nat),
        Placeholder::Number => v == decimal(
            (((row as nat) * 7919) % 18446744073709551616 % 100000) as nat,
        ),
        Placeholder::Bool => v == "true"@ || v == "false"@,
        _ => true,
    }
}

proof fn lemma_clean_is_clean(s: Seq<char>)
    ensures
        is_clean(clean(s)),
{
}

proof fn lemma_clean_keeps_clean(s: Seq<char>)
    requires
        is_clean(s),
    ensures
        clean(s) == s,
{
    assert(clean(s) =~= s);
}

/// Cleaning keeps every character that it does not change, in place.
proof fn lemma_clean_at(s: Seq<char>, i: int)
    requires
        0 <= i < s.len(),
    ensures
        clean(s).len() == s.len(),
        clean(s)[i] == clean_char(s[i]),
{
}

/// Cleaning keeps a suffix that it does not change.
proof fn lemma_clean_suffix(s: Seq<char>, t: Seq<char>)
    requires
        ends_with(s, t),
        clean(t) == t,
    ensures
        ends_with(clean(s), t),
{
    let k = s.len() - t.len();
    assert(clean(s).skip(k) =~= clean(s.skip(k)));
}

/// Cleaning keeps text non-empty and free of braces.
proof fn lemma_clean_keeps_plain(s: Seq<char>)
    requires
        plain_text(s),
    ensures
        plain_text(clean(s)),
{
    assert forall|i: int| 0 <= i < clean(s).len() implies #[trigger] clean(s)[i] != '{' && clean(s)[i]
        != '}' by {
        lemma_clean_at(s, i);
    }
}

/// Two texts without braces make one without braces.
proof fn lemma_no_braces_concat(a: Seq<char>, b: Seq<char>)
    requires
        no_braces(a),
        no_braces(b),
    ensures
        no_braces(a + b),
{
    assert forall|i: int| 0 <= i < (a + b).len() implies #[trigger] (a + b)[i] != '{' && (a + b)[i]
        != '}' by {
        if i < a.len() {
            assert((a + b)[i] == a[i]);
        } else {
            assert((a + b)[i] == b[i - a.len()]);
        }
    }
}

/// Non-empty texts without braces, joined with spaces, make one such text.
proof fn lemma_join_plain(parts: Seq<Seq<char>>)
    requires
        parts.len() > 0,
        forall|i: int| 0 <= i < parts.len() ==> plain_text(#[trigger] parts[i]),
    ensures
        plain_text(join(parts, seq![' '])),
    decreases parts.len(),
{
    if parts.len() > 1 {
        let init = parts.drop_last();
        assert forall|i: int| 0 <= i < init.len() implies plain_text(#[trigger] init[i]) by {
            assert(init[i] == parts[i]);
        }
        lemma_join_plain(init);
        let head = join(init, seq![' ']);
        assert(plain_text(parts[parts.len() - 1]));
        lemma_no_braces_concat(head, seq![' ']);
        lemma_no_braces_concat(head + seq![' '], parts.last());
    }
}

/// The kinds whose faker fixes a shape of its values that leaves out braces.
pub open spec fn shaped(p: Placeholder) -> bool {
    match p {
        Placeholder::Digit | Placeholder::NumberFormat | Placeholder::Password | Placeholder::IPv4
        | Placeholder::Ip | Placeholder::IPv6 | Placeholder::MacAddress | Placeholder::Geohash
        | Placeholder::HexColor | Placeholder::SemverStable | Placeholder::UuidV1
        | Placeholder::UuidV3 | Placeholder::UuidV4 | Placeholder::UuidV5 | Placeholder::UuidV6
        | Placeholder::UuidV7 | Placeholder::UuidV8 | Placeholder::BuildingNumber
        | Placeholder::ZipCode | Placeholder::PostCode | Placeholder::PhoneNumber
        | Placeholder::CellNumber => true,
        _ => false,
    }
}

/// A value with one of those shapes is non-empty and free of braces.
proof fn lemma_shape_is_plain(p: Placeholder, raw: Seq<char>)
    requires
        shaped(p),
        kind_ok(p, raw),
    ensures
        plain_text(raw),
{
    match p {
        Placeholder::NumberFormat => {
            reveal_strlit("###-##-####");
            let f = "###-##-####"@;
            assert forall|i: int| 0 <= i < raw.len() implies #[trigger] raw[i] != '{' && raw[i]
                != '}' by {
                assert(f[i] == '#' || f[i] == '-');
            }
        },
        Placeholder::PostCode => {
            reveal_strlit("#####");
            reveal_strlit("#####-####");
            assert forall|i: int| 0 <= i < raw.len() implies #[trigger] raw[i] != '{' && raw[i]
                != '}' by {
                if numerified("#####"@, raw) {
                    assert("#####"@[i] == '#');
                } else {
                    assert("#####-####"@[i] == '#' || "#####-####"@[i] == '-');
                }
            }
        },
        Placeholder::MacAddress => {
            assert forall|i: int| 0 <= i < raw.len() implies #[trigger] raw[i] != '{' && raw[i]
                != '}' by {
                if i % 3 == 2 {
                    assert(raw[i] == ':');
                } else {
                    assert(is_upper_hex(raw[i]));
                }
            }
        },
        Placeholder::UuidV1 | Placeholder::UuidV3 | Placeholder::UuidV4 | Placeholder::UuidV5
        | Placeholder::UuidV6 | Placeholder::UuidV7 | Placeholder::UuidV8 => {
            assert forall|i: int| 0 <= i < raw.len() implies #[trigger] raw[i] != '{' && raw[i]
                != '}' by {
                if i == 8 || i == 13 || i == 18 || i == 23 {
                    assert(raw[i] == '-');
                } else {
                    assert(is_lower_hex(raw[i]));
                }
            }
        },
        Placeholder::HexColor => {
            assert forall|i: int| 0 <= i < raw.len() implies #[trigger] raw[i] != '{' && raw[i]
                != '}' by {
                if i > 0 {
                    assert(is_lower_hex(raw[i]));
                }
            }
        },
        _ => {},
    }
}

/// Cleaning keeps a prefix or a suffix that it does not change.
proof fn lemma_clean_keeps_ends(s: Seq<char>, t: Seq<char>)
    requires
        clean(t) == t,
    ensures
        starts_with(s, t) ==> starts_with(clean(s), t),
        ends_with(s, t) ==> ends_with(clean(s), t),
{
    if starts_with(s, t) {
        assert(clean(s).take(t.len() as int) =~= clean(s.take(t.len() as int)));
    }
    if ends_with(s, t) {
        lemma_clean_suffix(s, t);
    }
}

/// Cleaning keeps a character that it does not change.
proof fn lemma_clean_keeps_char(s: Seq<char>, c: char)
    requires
        s.contains(c),
        clean_char(c) == c,
    ensures
        clean(s).contains(c),
{
    let i = choose|i: int| 0 <= i < s.len() && s[i] == c;
    lemma_clean_at(s, i);
}

proof fn lemma_name_titles_clean()
    ensures
        forall|i: int| 0 <= i < name_titles().len() ==> is_clean(#[trigger] name_titles()[i]),
{
    reveal_strlit("Dr.");
    reveal_strlit("Miss");
    reveal_strlit("Mr.");
    reveal_strlit("Mrs.");
    reveal_strlit("Ms.");
}

proof fn lemma_name_suffixes_clean()
    ensures
        forall|i: int| 0 <= i < name_suffixes().len() ==> is_clean(#[trigger] name_suffixes()[i]),
{
    reveal_strlit("DDS");
    reveal_strlit("DVM");
    reveal_strlit("I");
    reveal_strlit("II");
    reveal_strlit("III");
    reveal_strlit("IV");
    reveal_strlit("Jr.");
    reveal_strlit("MD");
    reveal_strlit("PhD");
    reveal_strlit("Sr.");
    reveal_strlit("V");
}

proof fn lemma_city_prefixes_clean()
    ensures
        forall|i: int| 0 <= i < city_prefixes().len() ==> is_clean(#[trigger] city_prefixes()[i]),
{
    reveal_strlit("East");
    reveal_strlit("Lake");
    reveal_strlit("New");
    reveal_strlit("North");
    reveal_strlit("Port");
    reveal_strlit("South");
    reveal_strlit("West");
}

proof fn lemma_city_suffixes_clean()
    ensures
        forall|i: int| 0 <= i < city_suffixes().len() ==> is_clean(#[trigger] city_suffixes()[i]),
{
    reveal_strlit("berg");
    reveal_strlit("borough");
    reveal_strlit("burgh");
    reveal_strlit("bury");
    reveal_strlit("chester");
    reveal_strlit("fort");
    reveal_strlit("furt");
    reveal_strlit("haven");
    reveal_strlit("land");
    reveal_strlit("mouth");
    reveal_strlit("port");
    reveal_strlit("shire");
    reveal_strlit("side");
    reveal_strlit("stad");
    reveal_strlit("ton");
    reveal_strlit("town");
    reveal_strlit("view");
    reveal_strlit("ville");
}

proof fn lemma_company_suffixes_clean()
    ensures
        forall|i: int| 0 <= i < company_suffixes().len() ==> is_clean(#[trigger] company_suffixes()[i]),
{
    reveal_strlit("Group");
    reveal_strlit("Inc");
    reveal_strlit("LLC");
    reveal_strlit("and Sons");
}

proof fn lemma_secondary_address_types_clean()
    ensures
        forall|i: int| 0 <= i < secondary_address_types().len() ==> is_clean(#[trigger] secondary_address_types()[i]),
{
    reveal_strlit("Apt.");
    reveal_strlit("Suit.");
}

proof fn lemma_free_email_providers_clean()
    ensures
        forall|i: int| 0 <= i < free_email_providers().len() ==> is_clean(#[trigger] free_email_providers()[i]),
{
    reveal_strlit("gmail.com");
    reveal_strlit("hotmail.com");
    reveal_strlit("yahoo.com");
}

proof fn lemma_domain_suffixes_clean()
    ensures
        forall|i: int| 0 <= i < domain_suffixes().len() ==> is_clean(#[trigger] domain_suffixes()[i]),
{
    reveal_strlit("biz");
    reveal_strlit("co");
    reveal_strlit("com");
    reveal_strlit("info");
    reveal_strlit("io");
    reveal_strlit("name");
    reveal_strlit("net");
    reveal_strlit("org");
}

proof fn lemma_file_extensions_clean()
    ensures
        forall|i: int| 0 <= i < file_extensions().len() ==> is_clean(#[trigger] file_extensions()[i]),
{
    reveal_strlit("7z");
    reveal_strlit("csv");
    reveal_strlit("doc");
    reveal_strlit("flv");
    reveal_strlit("jpg");
    reveal_strlit("mp3");
    reveal_strlit("mp4");
    reveal_strlit("png");
    reveal_strlit("ppt");
    reveal_strlit("rar");
    reveal_strlit("so");
    reveal_strlit("tar");
    reveal_strlit("txt");
    reveal_strlit("xls");
    reveal_strlit("zip");
}

proof fn lemma_seniorities_clean()
    ensures
        forall|i: int| 0 <= i < seniorities().len() ==> is_clean(#[trigger] seniorities()[i]),
{
    reveal_strlit("Central");
    reveal_strlit("Chief");
    reveal_strlit("Corporate");
    reveal_strlit("District");
    reveal_strlit("Global");
    reveal_strlit("International");
    reveal_strlit("Junior");
    reveal_strlit("Lead");
    reveal_strlit("National");
    reveal_strlit("Principal");
    reveal_strlit("Regional");
    reveal_strlit("Senior");
}

proof fn lemma_currency_symbols_clean()
    ensures
        forall|i: int| 0 <= i < currency_symbols().len() ==> is_clean(#[trigger] currency_symbols()[i]),
{
    reveal_strlit("$");
    reveal_strlit("CHF");
    reveal_strlit("Ft");
    reveal_strlit("HK$");
    reveal_strlit("NT$");
    reveal_strlit("PhP");
    reveal_strlit("Rp");
    reveal_strlit("kr");
    reveal_strlit("zł");
    reveal_strlit("¢");
    reveal_strlit("£");
    reveal_strlit("¥");
    reveal_strlit("ƒ");
    reveal_strlit("रू");
    reveal_strlit("฿");
    reveal_strlit("₪");
    reveal_strlit("€");
}

/// Cleaning keeps a value that is an entry of a list of clean entries.
proof fn lemma_clean_keeps_one_of(v: Seq<char>, list: Seq<Seq<char>>)
    requires
        one_of(v, list),
        forall|i: int| 0 <= i < list.len() ==> is_clean(#[trigger] list[i]),
    ensures
        one_of(clean(v), list),
{
    let i = choose|i: int| 0 <= i < list.len() && v == list[i];
    assert(is_clean(list[i]));
    lemma_clean_keeps_clean(v);
}

/// Cleaning brings in no character that it does not make.
proof fn lemma_clean_lacks_char(s: Seq<char>, c: char)
    requires
        !s.contains(c),
        c != ' ',
        c != '\'',
    ensures
        !clean(s).contains(c),
{
    if clean(s).contains(c) {
        let i = choose|i: int| 0 <= i < clean(s).len() && clean(s)[i] == c;
        lemma_clean_at(s, i);
        assert(s[i] == c);
    }
}

/// A value with the shape its faker fixes keeps that shape when cleaned.
proof fn lemma_clean_keeps_kind(p: Placeholder, raw: Seq<char>)
    requires
        kind_ok(p, raw),
    ensures
        kind_ok(p, clean(raw)),
{
    match p {
        Placeholder::SafeEmail => {
            reveal_strlit("@example.com");
            reveal_strlit("@example.net");
            reveal_strlit("@example.org");
            assert(clean("@example.com"@) =~= "@example.com"@);
            assert(clean("@example.net"@) =~= "@example.net"@);
            assert(clean("@example.org"@) =~= "@example.org"@);
            if ends_with(raw, "@example.com"@) {
                lemma_clean_suffix(raw, "@example.com"@);
            } else if ends_with(raw, "@example.net"@) {
                lemma_clean_suffix(raw, "@example.net"@);
            } else {
                lemma_clean_suffix(raw, "@example.org"@);
            }
        },
        Placeholder::FreeEmail => {
            let i = choose|i: int| 0 <= i < raw.len() && raw[i] == '@';
            lemma_clean_at(raw, i);
            assert(clean(raw).contains('@'));
        },
        Placeholder::Name | Placeholder::NameWithTitle | Placeholder::CompanyName
        | Placeholder::CatchPhrase | Placeholder::Bs | Placeholder::JobTitle
        | Placeholder::StreetName | Placeholder::SecondaryAddress => {
            lemma_clean_keeps_char(raw, ' ');
        },
        Placeholder::FileName => {
            lemma_clean_keeps_char(raw, '.');
        },
        Placeholder::NameTitle => {
            lemma_name_titles_clean();
            lemma_clean_keeps_one_of(raw, name_titles());
        },
        Placeholder::NameSuffix => {
            lemma_name_suffixes_clean();
            lemma_clean_keeps_one_of(raw, name_suffixes());
        },
        Placeholder::CityPrefix => {
            lemma_city_prefixes_clean();
            lemma_clean_keeps_one_of(raw, city_prefixes());
        },
        Placeholder::CitySuffix => {
            lemma_city_suffixes_clean();
            lemma_clean_keeps_one_of(raw, city_suffixes());
        },
        Placeholder::CompanySuffix => {
            lemma_company_suffixes_clean();
            lemma_clean_keeps_one_of(raw, company_suffixes());
        },
        Placeholder::SecondaryAddressType => {
            lemma_secondary_address_types_clean();
            lemma_clean_keeps_one_of(raw, secondary_address_types());
        },
        Placeholder::FreeEmailProvider => {
            lemma_free_email_providers_clean();
            lemma_clean_keeps_one_of(raw, free_email_providers());
        },
        Placeholder::DomainSuffix => {
            lemma_domain_suffixes_clean();
            lemma_clean_keeps_one_of(raw, domain_suffixes());
        },
        Placeholder::FileExtension => {
            lemma_file_extensions_clean();
            lemma_clean_keeps_one_of(raw, file_extensions());
        },
        Placeholder::Seniority => {
            lemma_seniorities_clean();
            lemma_clean_keeps_one_of(raw, seniorities());
        },
        Placeholder::CurrencySymbol => {
            lemma_currency_symbols_clean();
            lemma_clean_keeps_one_of(raw, currency_symbols());
        },
        Placeholder::TimeZone | Placeholder::MimeType => {
            lemma_clean_at(raw, 0);
            lemma_clean_keeps_char(raw, '/');
        },
        Placeholder::UserAgent => {
            reveal_strlit("Mozilla/");
            reveal_strlit("Opera/");
            assert(clean("Mozilla/"@) =~= "Mozilla/"@);
            assert(clean("Opera/"@) =~= "Opera/"@);
            lemma_clean_keeps_ends(raw, "Mozilla/"@);
            lemma_clean_keeps_ends(raw, "Opera/"@);
        },
        Placeholder::FilePath | Placeholder::DirPath => {
            reveal_strlit("/");
            assert(clean("/"@) =~= "/"@);
            lemma_clean_keeps_ends(raw, "/"@);
        },
        Placeholder::Isbn10 | Placeholder::Isbn => {
            lemma_clean_keeps_char(raw, '-');
        },
        Placeholder::ChronoDate | Placeholder::TimeDate => {
            lemma_clean_keeps_char(raw, '-');
            lemma_clean_lacks_char(raw, ':');
        },
        Placeholder::ChronoTime | Placeholder::TimeTime => {
            lemma_clean_keeps_char(raw, ':');
            lemma_clean_lacks_char(raw, '-');
        },
        Placeholder::ChronoDateTime | Placeholder::TimeDateTime => {
            lemma_clean_keeps_char(raw, 'T');
            lemma_clean_keeps_char(raw, ':');
        },
        Placeholder::Semver => {
            lemma_clean_keeps_char(raw, '.');
        },
        Placeholder::CountryName | Placeholder::StateName | Placeholder::Industry
        | Placeholder::CurrencyName | Placeholder::Buzzword | Placeholder::BsVerb
        | Placeholder::Profession => {
            lemma_clean_at(raw, 0);
        },
        Placeholder::CityName => {
            lemma_city_suffixes_clean();
            let i = choose|i: int| 0 <= i < city_suffixes().len() && ends_with(raw, #[trigger] city_suffixes()[i]);
            lemma_clean_keeps_clean(city_suffixes()[i]);
            lemma_clean_keeps_ends(raw, city_suffixes()[i]);
        },
        Placeholder::Sentences | Placeholder::Paragraph | Placeholder::Paragraphs => {
            reveal_strlit(".");
            assert(clean("."@) =~= "."@);
            lemma_clean_keeps_ends(raw, "."@);
        },
        Placeholder::BulletPoints => {
            reveal_strlit("- ");
            assert(clean("- "@) =~= "- "@);
            lemma_clean_keeps_ends(raw, "- "@);
        },
        Placeholder::ListItems => {
            reveal_strlit("1. ");
            assert(clean("1. "@) =~= "1. "@);
            lemma_clean_keeps_ends(raw, "1. "@);
        },
        Placeholder::MultilineQuote => {
            reveal_strlit("> ");
            assert(clean("> "@) =~= "> "@);
            lemma_clean_keeps_ends(raw, "> "@);
        },
        Placeholder::SemverUnstable => {
            lemma_clean_keeps_char(raw, '-');
        },
        Placeholder::ItalicWord => {
            reveal_strlit("*");
            assert(clean("*"@) =~= "*"@);
            lemma_clean_keeps_ends(raw, "*"@);
        },
        Placeholder::BoldWord => {
            reveal_strlit("**");
            assert(clean("**"@) =~= "**"@);
            lemma_clean_keeps_ends(raw, "**"@);
        },
        Placeholder::Link => {
            reveal_strlit("[");
            assert(clean("["@) =~= "["@);
            lemma_clean_keeps_ends(raw, "["@);
            reveal_strlit(")");
            assert(clean(")"@) =~= ")"@);
            lemma_clean_keeps_ends(raw, ")"@);
        },
        Placeholder::Sentence => {
            reveal_strlit(".");
            assert(clean("."@) =~= "."@);
            lemma_clean_keeps_ends(raw, "."@);
        },
        Placeholder::BlockQuote => {
            reveal_strlit("> ");
            assert(clean("> "@) =~= "> "@);
            lemma_clean_keeps_ends(raw, "> "@);
        },
        Placeholder::Code => {
            reveal_strlit("```");
            assert(clean("```"@) =~= "```"@);
            lemma_clean_keeps_ends(raw, "```"@);
        },
        Placeholder::Isbn13 => {
            reveal_strlit("978-");
            assert(clean("978-"@) =~= "978-"@);
            lemma_clean_keeps_ends(raw, "978-"@);
        },
        Placeholder::Image | Placeholder::ImageBlur => {
            reveal_strlit("https://picsum.photos/");
            assert(clean("https://picsum.photos/"@) =~= "https://picsum.photos/"@);
            lemma_clean_keeps_ends(raw, "https://picsum.photos/"@);
        },
        Placeholder::ImageWithSeed => {
            reveal_strlit("https://picsum.photos/seed/");
            assert(clean("https://picsum.photos/seed/"@) =~= "https://picsum.photos/seed/"@);
            lemma_clean_keeps_ends(raw, "https://picsum.photos/seed/"@);
        },
        Placeholder::ImageGrayscale => {
            reveal_strlit("https://picsum.photos/");
            assert(clean("https://picsum.photos/"@) =~= "https://picsum.photos/"@);
            lemma_clean_keeps_ends(raw, "https://picsum.photos/"@);
            reveal_strlit("?grayscale");
            assert(clean("?grayscale"@) =~= "?grayscale"@);
            lemma_clean_keeps_ends(raw, "?grayscale"@);
        },
        Placeholder::RgbColor => {
            reveal_strlit("rgb(");
            assert(clean("rgb("@) =~= "rgb("@);
            lemma_clean_keeps_ends(raw, "rgb("@);
            reveal_strlit(")");
            assert(clean(")"@) =~= ")"@);
            lemma_clean_keeps_ends(raw, ")"@);
        },
        Placeholder::RgbaColor => {
            reveal_strlit("rgba(");
            assert(clean("rgba("@) =~= "rgba("@);
            lemma_clean_keeps_ends(raw, "rgba("@);
            reveal_strlit(")");
            assert(clean(")"@) =~= ")"@);
            lemma_clean_keeps_ends(raw, ")"@);
        },
        Placeholder::HslColor | Placeholder::HslaColor => {
            reveal_strlit("hsl(");
            assert(clean("hsl("@) =~= "hsl("@);
            lemma_clean_keeps_ends(raw, "hsl("@);
            reveal_strlit(")");
            assert(clean(")"@) =~= ")"@);
            lemma_clean_keeps_ends(raw, ")"@);
        },
        Placeholder::Color => {
            reveal_strlit("#");
            assert(clean("#"@) =~= "#"@);
            lemma_clean_keeps_ends(raw, "#"@);
        },
        Placeholder::NumberFormat => {
            reveal_strlit("###-##-####");
            let f = "###-##-####"@;
            assert forall|i: int| 0 <= i < raw.len() implies #[trigger] raw[i] != '\r' && raw[i]
                != '\n' && raw[i] != '\t' && raw[i] != ',' && raw[i] != '"' by {
                assert(f[i] == '#' || f[i] == '-');
            }
            lemma_clean_keeps_clean(raw);
        },
        Placeholder::PostCode => {
            reveal_strlit("#####");
            reveal_strlit("#####-####");
            assert forall|i: int| 0 <= i < raw.len() implies #[trigger] raw[i] != '\r' && raw[i]
                != '\n' && raw[i] != '\t' && raw[i] != ',' && raw[i] != '"' by {
                if numerified("#####"@, raw) {
                    assert("#####"@[i] == '#');
                } else {
                    assert("#####-####"@[i] == '#' || "#####-####"@[i] == '-');
                }
            }
            lemma_clean_keeps_clean(raw);
        },
        Placeholder::RfcStatusCode | Placeholder::ValidStatusCode => {
            lemma_clean_at(raw, 0);
            lemma_clean_at(raw, 1);
            lemma_clean_at(raw, 2);
            lemma_clean_at(raw, 3);
        },
        Placeholder::BuildingNumber | Placeholder::ZipCode | Placeholder::PhoneNumber
        | Placeholder::CellNumber | Placeholder::Digit | Placeholder::Password | Placeholder::IPv4 | Placeholder::Ip
        | Placeholder::IPv6 | Placeholder::MacAddress | Placeholder::Geohash
        | Placeholder::HexColor | Placeholder::SemverStable | Placeholder::UuidV1
        | Placeholder::UuidV3 | Placeholder::UuidV4 | Placeholder::UuidV5 | Placeholder::UuidV6
        | Placeholder::UuidV7 | Placeholder::UuidV8 | Placeholder::CreditCard | Placeholder::FirstName
        | Placeholder::LastName | Placeholder::StreetSuffix | Placeholder::JobField
        | Placeholder::JobPosition | Placeholder::CountryCode | Placeholder::StateAbbr
        | Placeholder::CurrencyCode | Placeholder::Word | Placeholder::Latitude
        | Placeholder::Longitude | Placeholder::Bic | Placeholder::Isin | Placeholder::Username
        | Placeholder::Words => {
            assert(is_clean(raw));
            lemma_clean_keeps_clean(raw);
        },
        _ => {},
    }
}

/// A decimal numeral is clean, non-empty and free of braces.
proof fn lemma_decimal_is_clean(n: nat)
    ensures
        is_clean(decimal(n)),
        plain_text(decimal(n)),
{
    crate::text::lemma_decimal_digits(n);
    let d = decimal(n);
    assert forall|i: int| 0 <= i < d.len() implies #[trigger] d[i] != '\r' && d[i] != '\n'
        && d[i] != '\t' && d[i] != ',' && d[i] != '"' && d[i] != '{' && d[i] != '}' by {
        assert(crate::text::is_digit(d[i]));
    }
}

/// Cleans a fake value: `\r`, `\n`, `\t` and `,` become spaces, `"` becomes `'`.
pub fn sanitize_value(value: &str) -> (r: String)
    ensures
        r@ == clean(value@),
{
    let v = chars_of(value);
    let mut s = String::new();
    let mut i: usize = 0;
    while i < v.len()
        invariant
            i <= v.len(),
            s@ == clean(v@.take(i as int)),
        decreases v.len() - i,
    {
        let c = v[i];
        let d = if c == '\r' || c == '\n' || c == '\t' || c == ',' {
            ' '
        } else if c == '"' {
            '\''
        } else {
            c
        };
        push_char(&mut s, d);
        assert(clean(v@.take(i + 1)) =~= clean(v@.take(i as int)).push(clean_char(c)));
        i += 1;
    }
    assert(v@.take(v.len() as int) =~= v@);
    s
}

/// A joined text begins with its first part.
proof fn lemma_join_starts(parts: Seq<Seq<char>>, sep: Seq<char>)
    requires
        parts.len() > 0,
    ensures
        starts_with(join(parts, sep), parts[0]),
    decreases parts.len(),
{
    if parts.len() > 1 {
        let init = parts.drop_last();
        lemma_join_starts(init, sep);
        assert(init[0] == parts[0]);
        let head = join(init, sep);
        assert((head + sep + parts.last()).take(parts[0].len() as int) =~= head.take(parts[0].len() as int));
    } else {
        assert(parts[0].take(parts[0].len() as int) =~= parts[0]);
    }
}

/// A joined text ends with its last part.
proof fn lemma_join_ends(parts: Seq<Seq<char>>, sep: Seq<char>)
    requires
        parts.len() > 0,
    ensures
        ends_with(join(parts, sep), parts.last()),
{
    let j = join(parts, sep);
    if parts.len() > 1 {
        assert(j == join(parts.drop_last(), sep) + sep + parts.last());
        assert(j.skip(j.len() - parts.last().len()) =~= parts.last());
    } else {
        assert(j.skip(0) =~= j);
    }
}

/// Lower-case words joined with spaces hold only lower-case letters and spaces.
proof fn lemma_join_lower(parts: Seq<Seq<char>>)
    requires
        forall|i: int| 0 <= i < parts.len() ==> lower_word(#[trigger] parts[i]),
    ensures
        forall|j: int|
            0 <= j < join(parts, seq![' ']).len() ==> is_lower(#[trigger] join(parts, seq![' '])[j])
                || join(parts, seq![' '])[j] == ' ',
    decreases parts.len(),
{
    if parts.len() > 1 {
        let init = parts.drop_last();
        assert forall|i: int| 0 <= i < init.len() implies lower_word(#[trigger] init[i]) by {
            assert(init[i] == parts[i]);
        }
        lemma_join_lower(init);
        let head = join(init, seq![' ']);
        let last = parts.last();
        assert(lower_word(parts[parts.len() - 1]));
        let j = join(parts, seq![' ']);
        assert(j == head + seq![' '] + last);
        assert forall|k: int| 0 <= k < j.len() implies is_lower(#[trigger] j[k]) || j[k] == ' ' by {
            if k < head.len() {
                assert(j[k] == head[k]);
            } else if k == head.len() {
                assert(j[k] == ' ');
            } else {
                assert(j[k] == last[k - head.len() - 1]);
            }
        }
    } else if parts.len() == 1 {
        assert(lower_word(parts[0]));
    }
}

/// A text that begins with `b` begins with every text that `b` begins with.
proof fn lemma_starts_with_trans(a: Seq<char>, b: Seq<char>, p: Seq<char>)
    requires
        starts_with(a, b),
        starts_with(b, p),
    ensures
        starts_with(a, p),
{
    assert(a.take(p.len() as int) =~= b.take(p.len() as int));
}

/// A text that ends with `b` ends with every text that `b` ends with.
proof fn lemma_ends_with_trans(a: Seq<char>, b: Seq<char>, p: Seq<char>)
    requires
        ends_with(a, b),
        ends_with(b, p),
    ensures
        ends_with(a, p),
{
    assert(a.skip(a.len() - p.len()) =~= b.skip(b.len() - p.len()));
}

/// The items of a fake list joined with single spaces.
fn join_with_spaces(items: &[String]) -> (s: String)
    ensures
        s@ == join(items@.map_values(|t: String| t@), seq![' ']),
        items@.len() > 0 && (forall|i: int| 0 <= i < items@.len() ==> plain_text(#[trigger] items@[i]@))
            ==> plain_text(s@),
        items@.len() > 0 ==> starts_with(s@, items@[0]@) && ends_with(s@, items@.last()@),
        (forall|i: int| 0 <= i < items@.len() ==> lower_word(#[trigger] items@[i]@)) ==> forall|j: int|
            0 <= j < s@.len() ==> is_lower(#[trigger] s@[j]) || s@[j] == ' ',
{
    let ghost texts = items@.map_values(|t: String| t@);
    let mut s = String::new();
    let mut i: usize = 0;
    while i < items.len()
        invariant
            i <= items@.len(),
            texts == items@.map_values(|t: String| t@),
            s@ == join(texts.take(i as int), seq![' ']),
        decreases items.len() - i,
    {
        let ghost before = s@;
        if i > 0 {
            push_char(&mut s, ' ');
        }
        push_str(&mut s, items[i].as_str());
        proof {
            assert(texts.take(i + 1) =~= texts.take(i as int).push(texts[i as int]));
            lemma_join_push(texts.take(i as int), seq![' '], texts[i as int]);
            if i > 0 {
                assert(s@ =~= before + seq![' '] + texts[i as int]);
            } else {
                assert(s@ =~= texts[i as int]);
            }
        }
        i += 1;
    }
    assert(texts.take(items.len() as int) =~= texts);
    proof {
        if items@.len() > 0 && (forall|i: int| 0 <= i < items@.len() ==> plain_text(#[trigger] items@[i]@)) {
            assert forall|i: int| 0 <= i < texts.len() implies plain_text(#[trigger] texts[i]) by {
                assert(texts[i] == items@[i]@);
            }
            lemma_join_plain(texts);
        }
        if items@.len() > 0 {
            lemma_join_starts(texts, seq![' ']);
            lemma_join_ends(texts, seq![' ']);
            assert(texts[0] == items@[0]@);
            assert(texts.last() == items@.last()@);
        }
        if forall|i: int| 0 <= i < items@.len() ==> lower_word(#[trigger] items@[i]@) {
            assert forall|i: int| 0 <= i < texts.len() implies lower_word(#[trigger] texts[i]) by {
                assert(texts[i] == items@[i]@);
            }
            lemma_join_lower(texts);
        }
    }
    s
}

/// A fake value of kind `p` for row `row`, cleaned.
pub fn placeholder_value(p: Placeholder, row: u64) -> (v: String)
    ensures
        value_ok(p, row, v@),
{
    let raw: String = match p {
        Placeholder::Id => decimal_string(row),
        Placeholder::Bool => if fake_bool(50) {
            string_of("true")
        } else {
            string_of("false")
        },
        Placeholder::Number => decimal_string(row.wrapping_mul(7919) % 100000),
        Placeholder::Digit => fake_digit(),
        Placeholder::NumberFormat => fake_number_format("###-##-####"),
        Placeholder::Name => fake_name(),
        Placeholder::NameWithTitle => fake_name_with_title(),
        Placeholder::FirstName => fake_first_name(),
        Placeholder::LastName => fake_last_name(),
        Placeholder::NameTitle => fake_name_title(),
        Placeholder::NameSuffix => fake_name_suffix(),
        Placeholder::SafeEmail => fake_safe_email(),
        Placeholder::FreeEmail => fake_free_email(),
        Placeholder::FreeEmailProvider => fake_free_email_provider(),
        Placeholder::DomainSuffix => fake_domain_suffix(),
        Placeholder::Username => fake_username(),
        Placeholder::Password => fake_password(10, 20),
        Placeholder::IPv4 => fake_ipv4(),
        Placeholder::IPv6 => fake_ipv6(),
        Placeholder::Ip => fake_ip(),
        Placeholder::MacAddress => fake_mac_address(),
        Placeholder::UserAgent => fake_user_agent(),
        Placeholder::CompanyName => fake_company_name(),
        Placeholder::CompanySuffix => fake_company_suffix(),
        Placeholder::Buzzword => fake_buzzword(),
        Placeholder::BuzzwordMiddle => fake_buzzword_middle(),
        Placeholder::BuzzwordTail => fake_buzzword_tail(),
        Placeholder::CatchPhrase => fake_catch_phrase(),
        Placeholder::Bs => fake_bs(),
        Placeholder::BsVerb => fake_bs_verb(),
        Placeholder::BsAdj => fake_bs_adj(),
        Placeholder::BsNoun => fake_bs_noun(),
        Placeholder::Profession => fake_profession(),
        Placeholder::Industry => fake_industry(),
        Placeholder::JobTitle => fake_job_title(),
        Placeholder::Seniority => fake_seniority(),
        Placeholder::JobField => fake_job_field(),
        Placeholder::JobPosition => fake_job_position(),
        Placeholder::PhoneNumber => fake_phone_number(),
        Placeholder::CellNumber => fake_cell_number(),
        Placeholder::CityPrefix => fake_city_prefix(),
        Placeholder::CitySuffix => fake_city_suffix(),
        Placeholder::CityName => fake_city_name(),
        Placeholder::CountryName => fake_country_name(),
        Placeholder::CountryCode => fake_country_code(),
        Placeholder::StreetSuffix => fake_street_suffix(),
        Placeholder::StreetName => fake_street_name(),
        Placeholder::TimeZone => fake_time_zone(),
        Placeholder::StateName => fake_state_name(),
        Placeholder::StateAbbr => fake_state_abbr(),
        Placeholder::SecondaryAddressType => fake_secondary_address_type(),
        Placeholder::SecondaryAddress => fake_secondary_address(),
        Placeholder::ZipCode => fake_zip_code(),
        Placeholder::PostCode => fake_post_code(),
        Placeholder::BuildingNumber => fake_building_number(),
        Placeholder::Latitude => fake_latitude(),
        Placeholder::Longitude => fake_longitude(),
        Placeholder::Geohash => fake_geohash(9),
        Placeholder::Word => fake_word(),
        Placeholder::Words => join_with_spaces(fake_words(3, 7).as_slice()),
        Placeholder::Sentence => fake_sentence(4, 10),
        Placeholder::Sentences => {
            let items = fake_sentences(2, 4);
            let s = join_with_spaces(items.as_slice());
            proof {
                lemma_ends_with_trans(s@, items@.last()@, "."@);
            }
            s
        },
        Placeholder::Paragraph => fake_paragraph(1, 3),
        Placeholder::Paragraphs => {
            let items = fake_paragraphs(2, 4);
            let s = join_with_spaces(items.as_slice());
            proof {
                lemma_ends_with_trans(s@, items@.last()@, "."@);
            }
            s
        },
        Placeholder::ItalicWord => fake_italic_word(),
        Placeholder::BoldWord => fake_bold_word(),
        Placeholder::Link => fake_link(),
        Placeholder::BulletPoints => {
            let items = fake_bullet_points(2, 5);
            let s = join_with_spaces(items.as_slice());
            proof {
                lemma_starts_with_trans(s@, items@[0]@, "- "@);
            }
            s
        },
        Placeholder::ListItems => {
            let items = fake_list_items(2, 5);
            let s = join_with_spaces(items.as_slice());
            proof {
                reveal_strlit("1. ");
                reveal_strlit(". ");
                assert(crate::text::decimal(1) =~= seq!['1']);
                assert(crate::text::decimal(1) + ". "@ =~= "1. "@);
                lemma_starts_with_trans(s@, items@[0]@, "1. "@);
            }
            s
        },
        Placeholder::BlockQuote => fake_block_quote(1, 2),
        Placeholder::MultilineQuote => {
            let items = fake_multiline_quote(2, 4);
            let s = join_with_spaces(items.as_slice());
            proof {
                lemma_starts_with_trans(s@, items@[0]@, "> "@);
            }
            s
        },
        Placeholder::Code => fake_code(1, 2),
        Placeholder::Isbn => fake_isbn(),
        Placeholder::Isbn10 => fake_isbn10(),
        Placeholder::Isbn13 => fake_isbn13(),
        Placeholder::CreditCard => fake_credit_card(),
        Placeholder::CurrencyCode => fake_currency_code(),
        Placeholder::CurrencyName => fake_currency_name(),
        Placeholder::CurrencySymbol => fake_currency_symbol(),
        Placeholder::Bic => fake_bic(),
        Placeholder::Isin => fake_isin(),
        Placeholder::FilePath => fake_file_path(),
        Placeholder::FileName => fake_file_name(),
        Placeholder::FileExtension => fake_file_extension(),
        Placeholder::DirPath => fake_dir_path(),
        Placeholder::MimeType => fake_mime_type(),
        Placeholder::Semver => fake_semver(),
        Placeholder::SemverStable => fake_semver_stable(),
        Placeholder::SemverUnstable => fake_semver_unstable(),
        Placeholder::Image => fake_image(),
        Placeholder::ImageWithSeed => fake_image_with_seed(),
        Placeholder::ImageGrayscale => fake_image_grayscale(),
        Placeholder::ImageBlur => fake_image_blur(),
        Placeholder::HexColor => fake_hex_color(),
        Placeholder::RgbColor => fake_rgb_color(),
        Placeholder::RgbaColor => fake_rgba_color(),
        Placeholder::HslColor => fake_hsl_color(),
        Placeholder::HslaColor => fake_hsla_color(),
        Placeholder::Color => fake_color(),
        Placeholder::RfcStatusCode => fake_rfc_status_code(),
        Placeholder::ValidStatusCode => fake_valid_status_code(),
        Placeholder::ChronoDate => fake_chrono_date(),
        Placeholder::ChronoTime => fake_chrono_time(),
        Placeholder::ChronoDateTime => fake_chrono_date_time(),
        Placeholder::TimeDate => fake_time_date(),
        Placeholder::TimeTime => fake_time_time(),
        Placeholder::TimeDateTime => fake_time_date_time(),
        Placeholder::UuidV4 => fake_uuid_v4(),
        Placeholder::UuidV1 => fake_uuid_v1(),
        Placeholder::UuidV3 => fake_uuid_v3(),
        Placeholder::UuidV5 => fake_uuid_v5(),
        Placeholder::UuidV6 => fake_uuid_v6(),
        Placeholder::UuidV7 => fake_uuid_v7(),
        Placeholder::UuidV8 => fake_uuid_v8(),
    };
    let v = sanitize_value(raw.as_str());
    proof {
        lemma_clean_is_clean(raw@);
        lemma_clean_keeps_kind(p, raw@);
        if shaped(p) {
            lemma_shape_is_plain(p, raw@);
        }
        match p {
            Placeholder::Id => {
                lemma_decimal_is_clean(row as nat);
                lemma_clean_keeps_clean(raw@);
            },
            Placeholder::Number => {
                lemma_decimal_is_clean((((row as nat) * 7919) % 18446744073709551616 % 100000) as nat);
                lemma_clean_keeps_clean(raw@);
            },
            Placeholder::Bool => {
                reveal_strlit("true");
                reveal_strlit("false");
                assert(is_clean(raw@));
                lemma_clean_keeps_clean(raw@);
            },
            _ => {},
        }
        lemma_clean_keeps_plain(raw@);
    }
    v
}

/// A fake value for the placeholder named `key`, or an error naming the key.
pub fn fake_value(key: &str, row: u64) -> (r: Result<String, Error>)
    ensures
        match placeholder_of(key@) {
            Some(p) => r matches Ok(v) && value_ok(p, row, v@),
            None => r matches Err(Error::UnknownPlaceholder { key: k, in_new: false }) && k@
                == key@,
        },
{
    let k = chars_of(key);
    match placeholder_named(k.as_slice()) {
        Some(p) => Ok(placeholder_value(p, row)),
        None => Err(Error::UnknownPlaceholder { key: string_of(key), in_new: false }),
    }
}

// ---------------------------------------------------------------------------
// Parsing and rendering
// ---------------------------------------------------------------------------

/// A piece of a parsed template.
pub enum Piece {
    Text(Seq<char>),
    Hole(Placeholder),
}

/// Why a template does not parse.
pub enum TemplateFault {
    Syntax(TemplateError),
    Unknown(Seq<char>),
}

pub open spec fn open_mark() -> Seq<char> {
    seq!['{', '{']
}

pub open spec fn close_mark() -> Seq<char> {
    seq!['}', '}']
}

/// The pieces of a template, read left to right: text up to `{{`, then the
/// trimmed name up to the next `}}`, and so on; or the first fault met.
pub open spec fn parse_template(s: Seq<char>) -> Result<Seq<Piece>, TemplateFault>
    decreases s.len(),
{
    match find(s, open_mark()) {
        None => if contains_seq(s, close_mark()) {
            Err(TemplateFault::Syntax(TemplateError::StrayClosing))
        } else {
            Ok(seq![Piece::Text(s)])
        },
        Some(i) => {
            proof {
                lemma_find_some(s, open_mark());
            }
            let after = s.skip(i as int + 2);
            match find(after, close_mark()) {
                None => Err(TemplateFault::Syntax(TemplateError::Unclosed)),
                Some(j) => {
                    proof {
                        lemma_find_some(after, close_mark());
                    }
                    let key = trim(after.take(j as int));
                    if key.len() == 0 {
                        Err(TemplateFault::Syntax(TemplateError::EmptyPlaceholder))
                    } else {
                        match placeholder_of(key) {
                            None => Err(TemplateFault::Unknown(key)),
                            Some(p) => match parse_template(after.skip(j as int + 2)) {
                                Ok(rest) => Ok(seq![Piece::Text(s.take(i as int)), Piece::Hole(p)]
                                    + rest),
                                Err(e) => Err(e),
                            },
                        }
                    }
                },
            }
        },
    }
}

pub open spec fn piece_text(p: Piece, v: Seq<char>) -> Seq<char> {
    match p {
        Piece::Text(t) => t,
        Piece::Hole(_) => v,
    }
}

/// The text of the pieces, each placeholder replaced by its value in `vs`.
pub open spec fn rendered(ps: Seq<Piece>, vs: Seq<Seq<char>>) -> Seq<char>
    decreases ps.len(),
{
    if ps.len() == 0 || vs.len() == 0 {
        Seq::empty()
    } else {
        rendered(ps.drop_last(), vs.drop_last()) + piece_text(ps.last(), vs.last())
    }
}

/// `vs` holds one acceptable value per placeholder of `ps`.
pub open spec fn values_fit(ps: Seq<Piece>, row: u64, vs: Seq<Seq<char>>) -> bool {
    &&& vs.len() == ps.len()
    &&& forall|i: int|
        0 <= i < ps.len() ==> (#[trigger] ps[i] matches Piece::Hole(p) ==> value_ok(
            p,
            row,
            vs[i],
        ))
}

/// `out` is a rendering of the template `s` for row `row`: its text with every
/// placeholder replaced by an acceptable value.
pub open spec fn is_rendering(s: Seq<char>, row: u64, out: Seq<char>) -> bool {
    match parse_template(s) {
        Ok(ps) => exists|vs: Seq<Seq<char>>|
            #![trigger values_fit(ps, row, vs)]
            values_fit(ps, row, vs) && out == rendered(ps, vs),
        Err(_) => false,
    }
}

/// Whether `e` is the error reported for `f`; `in_new` when found while building a template.
pub open spec fn is_fault_error(f: TemplateFault, in_new: bool, e: Error) -> bool {
    match f {
        TemplateFault::Syntax(k) => e == Error::Template { kind: k, in_new },
        TemplateFault::Unknown(key) => e matches Error::UnknownPlaceholder { key: k, in_new: n }
            && k@ == key && n == in_new,
    }
}

pub open spec fn after_pieces(
    done: Seq<Piece>,
    r: Result<Seq<Piece>, TemplateFault>,
) -> Result<Seq<Piece>, TemplateFault> {
    match r {
        Ok(x) => Ok(done + x),
        Err(e) => Err(e),
    }
}

proof fn lemma_is_rendering_intro(
    s: Seq<char>,
    row: u64,
    out: Seq<char>,
    ps: Seq<Piece>,
    vs: Seq<Seq<char>>,
)
    requires
        parse_template(s) == Ok::<Seq<Piece>, TemplateFault>(ps),
        values_fit(ps, row, vs),
        out == rendered(ps, vs),
    ensures
        is_rendering(s, row, out),
{
    assert(exists|v2: Seq<Seq<char>>|
        #![trigger values_fit(ps, row, v2)]
        values_fit(ps, row, v2) && out == rendered(ps, v2));
    let r = parse_template(s);
    assert(r is Ok);
    assert(r->Ok_0 == ps);
}

proof fn lemma_rendered_push(ps: Seq<Piece>, vs: Seq<Seq<char>>, p: Piece, v: Seq<char>)
    requires
        ps.len() == vs.len(),
    ensures
        rendered(ps.push(p), vs.push(v)) == rendered(ps, vs) + piece_text(p, v),
{
    assert(ps.push(p).drop_last() =~= ps);
    assert(vs.push(v).drop_last() =~= vs);
}

/// Renders `source` for row `row`: the text around placeholders is kept and
/// each `{{name}}` becomes a fresh fake value of that kind.
pub fn render_template(source: &str, row: u64) -> (r: Result<String, Error>)
    ensures
        match parse_template(source@) {
            Ok(_) => r matches Ok(out) && is_rendering(source@, row, out@),
            Err(f) => r matches Err(e) && is_fault_error(f, false, e),
        },
{
    let v = chars_of(source);
    let open = vec!['{', '{'];
    let close = vec!['}', '}'];
    assert(open@ =~= open_mark());
    assert(close@ =~= close_mark());
    let mut out = String::new();
    let mut pos: usize = 0;
    let ghost mut done: Seq<Piece> = Seq::empty();
    let ghost mut vals: Seq<Seq<char>> = Seq::empty();
    assert(v@.skip(0) =~= v@);
    proof {
        match parse_template(v@) {
            Ok(x) => {
                assert(done + x =~= x);
            },
            Err(_) => {},
        }
    }
    loop
        invariant
            pos <= v.len(),
            v@ == source@,
            open@ == open_mark(),
            close@ == close_mark(),
            parse_template(v@) == after_pieces(done, parse_template(v@.skip(pos as int))),
            values_fit(done, row, vals),
            out@ == rendered(done, vals),
        decreases v.len() - pos,
    {
        let ghost rest = v@.skip(pos as int);
        let found = find_from(v.as_slice(), open.as_slice(), pos);
        proof {
            lemma_find_some(rest, open_mark());
        }
        match found {
            None => {
                let stray = find_from(v.as_slice(), close.as_slice(), pos);
                if stray.is_some() {
                    return Err(Error::Template { kind: TemplateError::StrayClosing, in_new: false });
                }
                let lit = slice_range(v.as_slice(), pos, v.len());
                assert(lit@ =~= rest);
                push_chars(&mut out, lit.as_slice());
                proof {
                    lemma_rendered_push(done, vals, Piece::Text(rest), rest);
                    let d2 = done.push(Piece::Text(rest));
                    let v2 = vals.push(rest);
                    assert(d2 =~= done + seq![Piece::Text(rest)]);
                    assert(values_fit(d2, row, v2)) by {
                        assert forall|i: int| 0 <= i < d2.len() implies (#[trigger] d2[i] matches Piece::Hole(p) ==> value_ok(p, row, v2[i])) by {
                            if i < done.len() {
                                assert(d2[i] == done[i]);
                                assert(v2[i] == vals[i]);
                            }
                        }
                    }
                    assert(find(rest, open_mark()) is None);
                    assert(!contains_seq(rest, close_mark()));
                    assert(parse_template(rest) == Ok::<Seq<Piece>, TemplateFault>(
                        seq![Piece::Text(rest)],
                    ));
                    assert(parse_template(v@) == Ok::<Seq<Piece>, TemplateFault>(d2));
                    assert(out@ == rendered(d2, v2));
                    assert(values_fit(d2, row, v2));
                    assert(exists|vs: Seq<Seq<char>>|
                        #![trigger values_fit(d2, row, vs)]
                        values_fit(d2, row, vs) && out@ == rendered(d2, vs));
                    assert(parse_template(source@) == Ok::<Seq<Piece>, TemplateFault>(d2));
                    lemma_is_rendering_intro(source@, row, out@, d2, v2);
                }
                return Ok(out);
            },
            Some(i) => {
                let start = i + 2;
                let ghost after = rest.skip(i - pos + 2);
                assert(after =~= v@.skip(start as int));
                let endf = find_from(v.as_slice(), close.as_slice(), start);
                proof {
                    lemma_find_some(after, close_mark());
                }
                let j = match endf {
                    None => {
                        return Err(Error::Template { kind: TemplateError::Unclosed, in_new: false });
                    },
                    Some(j) => j,
                };
                let raw = slice_range(v.as_slice(), start, j);
                assert(raw@ =~= after.take(j - start));
                let key = trim_chars(raw.as_slice());
                if key.len() == 0 {
                    return Err(Error::Template { kind: TemplateError::EmptyPlaceholder, in_new: false });
                }
                let p = match placeholder_named(key.as_slice()) {
                    None => {
                        return Err(Error::UnknownPlaceholder { key: crate::text::string_from_chars(key.as_slice()), in_new: false });
                    },
                    Some(p) => p,
                };
                let lit = slice_range(v.as_slice(), pos, i);
                assert(lit@ =~= rest.take(i - pos));
                let value = placeholder_value(p, row);
                push_chars(&mut out, lit.as_slice());
                push_str(&mut out, value.as_str());
                proof {
                    let t = Piece::Text(lit@);
                    let h = Piece::Hole(p);
                    lemma_rendered_push(done, vals, t, lit@);
                    lemma_rendered_push(done.push(t), vals.push(lit@), h, value@);
                    let d2 = done.push(t).push(h);
                    let v2 = vals.push(lit@).push(value@);
                    assert(after.skip(j - start + 2) =~= v@.skip(j + 2));
                    assert(d2 =~= done + seq![t, h]);
                    assert forall|k: int| 0 <= k < d2.len() implies (#[trigger] d2[k] matches Piece::Hole(q) ==> value_ok(q, row, v2[k])) by {
                        if k < done.len() {
                            assert(d2[k] == done[k]);
                            assert(v2[k] == vals[k]);
                        }
                    }
                    match parse_template(v@.skip(j + 2)) {
                        Ok(x) => {
                            assert(seq![t, h] + x =~= seq![t, h] + x);
                            assert(done + (seq![t, h] + x) =~= d2 + x);
                        },
                        Err(_) => {},
                    }
                    done = d2;
                    vals = v2;
                }
                pos = j + 2;
            },
        }
    }
}

// ---------------------------------------------------------------------------
// Templates
// ---------------------------------------------------------------------------

/// Checks a template by rendering it once for row 1.
fn validate_template(source: &str) -> (r: Result<(), Error>)
    ensures
        match parse_template(source@) {
            Ok(_) => r is Ok,
            Err(f) => r matches Err(e) && is_fault_error(f, true, e),
        },
{
    match render_template(source, 1) {
        Ok(_) => Ok(()),
        Err(Error::Template { kind, in_new: _ }) => Err(Error::Template { kind, in_new: true }),
        Err(Error::UnknownPlaceholder { key, in_new: _ }) => Err(
            Error::UnknownPlaceholder { key, in_new: true },
        ),
        Err(e) => Err(e),
    }
}

/// A row template whose text parses.
#[derive(Debug)]
pub struct Template {
    source: String,
}

impl View for Template {
    type V = Seq<char>;

    closed spec fn view(&self) -> Seq<char> {
        self.source@
    }
}

impl Template {
    #[verifier::type_invariant]
    closed spec fn parses(&self) -> bool {
        parse_template(self.source@) is Ok
    }

    /// A template with the text `source`, when it parses.
    pub fn new(source: &str) -> (r: Result<Template, Error>)
        ensures
            match parse_template(source@) {
                Ok(_) => r matches Ok(t) && t@ == source@,
                Err(f) => r matches Err(e) && is_fault_error(f, true, e),
            },
    {
        match validate_template(source) {
            Ok(()) => Ok(Template { source: string_of(source) }),
            Err(e) => Err(e),
        }
    }

    /// Renders the template for row `row`.
    pub fn render(&self, row: u64) -> (r: Result<String, Error>)
        ensures
            r matches Ok(out) && is_rendering(self@, row, out@),
    {
        proof {
            use_type_invariant(self);
        }
        render_template(self.source.as_str(), row)
    }
}

/// The optional row template and header line for text formats.
#[derive(Debug)]
pub struct TemplateOptions {
    pub body: Option<Template>,
    pub header: Option<String>,
}

impl TemplateOptions {
    /// The text of the row template, if any.
    pub open spec fn body_text(&self) -> Option<Seq<char>> {
        match self.body {
            Some(t) => Some(t@),
            None => None,
        }
    }

    /// The header line, if any.
    pub open spec fn header_text(&self) -> Option<Seq<char>> {
        match self.header {
            Some(h) => Some(h@),
            None => None,
        }
    }
}

impl Default for TemplateOptions {
    fn default() -> (r: Self)
        ensures
            r.body is None,
            r.header is None,
    {
        TemplateOptions { body: None, header: None }
    }
}

// ---------------------------------------------------------------------------
// Laws
// ---------------------------------------------------------------------------

/// A template without `{{` and `}}` renders to itself.
pub proof fn law_plain_text_renders_to_itself(s: Seq<char>, row: u64, out: Seq<char>)
    requires
        !contains_seq(s, open_mark()),
        !contains_seq(s, close_mark()),
    ensures
        parse_template(s) is Ok,
        is_rendering(s, row, out) <==> out == s,
{
    let ps = seq![Piece::Text(s)];
    assert(parse_template(s) == Ok::<Seq<Piece>, TemplateFault>(ps));
    let vs = seq![s];
    assert(ps.drop_last() =~= Seq::<Piece>::empty());
    assert(vs.drop_last() =~= Seq::<Seq<char>>::empty());
    assert(rendered(ps.drop_last(), vs.drop_last()) == Seq::<char>::empty());
    assert(ps.last() == Piece::Text(s));
    assert(rendered(ps, vs) =~= s);
    if out == s {
        assert(values_fit(ps, row, vs));
        lemma_is_rendering_intro(s, row, out, ps, vs);
    }
    if is_rendering(s, row, out) {
        let r = parse_template(s);
        assert(r->Ok_0 == ps);
        let ws = choose|ws: Seq<Seq<char>>| #![trigger values_fit(ps, row, ws)] values_fit(ps, row, ws) && out == rendered(ps, ws);
        assert(ws.drop_last() =~= Seq::<Seq<char>>::empty());
        assert(rendered(ps.drop_last(), ws.drop_last()) == Seq::<char>::empty());
        assert(ps.last() == Piece::Text(s));
        assert(rendered(ps, ws) =~= s);
    }
}

/// A value that a placeholder renders to never holds a comma, a double quote,
/// a tab or a line break, so it cannot split a CSV field or a line.
pub proof fn law_values_are_clean(p: Placeholder, row: u64, v: Seq<char>)
    requires
        value_ok(p, row, v),
    ensures
        !v.contains(','),
        !v.contains('"'),
        !v.contains('\n'),
        !v.contains('\r'),
        !v.contains('\t'),
{
}

/// A value that a placeholder renders to is never empty and never holds `{{`
/// or `}}`, so it cannot be mistaken for a placeholder.
pub proof fn law_values_are_plain(p: Placeholder, row: u64, v: Seq<char>)
    requires
        value_ok(p, row, v),
    ensures
        v.len() > 0,
        !contains_seq(v, open_mark()),
        !contains_seq(v, close_mark()),
{
    lemma_find_some(v, open_mark());
    lemma_find_some(v, close_mark());
    if let Some(i) = find(v, open_mark()) {
        assert(v.subrange(i as int, (i + 2) as int)[0] == v[i as int]);
    }
    if let Some(i) = find(v, close_mark()) {
        assert(v.subrange(i as int, (i + 2) as int)[0] == v[i as int]);
    }
}

/// Text without `}` followed by `}}` has its first `}}` at the end.
proof fn lemma_find_close_at_end(t: Seq<char>)
    requires
        forall|i: int| 0 <= i < t.len() ==> t[i] != '}',
    ensures
        find(t + close_mark(), close_mark()) == Some(t.len()),
    decreases t.len(),
{
    let u = t + close_mark();
    if t.len() == 0 {
        assert(u.take(2) =~= close_mark());
    } else {
        assert(u[0] == t[0]);
        assert(u.take(2)[0] != close_mark()[0]);
        assert(u.skip(1) =~= t.skip(1) + close_mark());
        lemma_find_close_at_end(t.skip(1));
    }
}

/// A template that is one placeholder, `{{key}}`, renders to one value of
/// that placeholder, which is never empty and never holds `{{` or `}}`.
pub proof fn law_lone_placeholder_renders_one_value(key: Seq<char>, row: u64, out: Seq<char>)
    requires
        forall|i: int| 0 <= i < key.len() ==> key[i] != '}',
        trim(key).len() > 0,
        placeholder_of(trim(key)) is Some,
        is_rendering(open_mark() + key + close_mark(), row, out),
    ensures
        value_ok(placeholder_of(trim(key))->Some_0, row, out),
        out.len() > 0,
        !contains_seq(out, open_mark()),
        !contains_seq(out, close_mark()),
{
    let p = placeholder_of(trim(key))->Some_0;
    let s = open_mark() + key + close_mark();
    assert(s.take(2) =~= open_mark());
    assert(find(s, open_mark()) == Some(0nat));
    let after = s.skip(2);
    assert(after =~= key + close_mark());
    lemma_find_close_at_end(key);
    assert(after.take(key.len() as int) =~= key);
    let rest = after.skip(key.len() + 2 as int);
    assert(rest =~= Seq::<char>::empty());
    assert(find(rest, open_mark()) is None);
    assert(find(rest, close_mark()) is None);
    assert(parse_template(rest) == Ok::<Seq<Piece>, TemplateFault>(seq![Piece::Text(rest)]));
    let ps = seq![Piece::Text(s.take(0)), Piece::Hole(p)] + seq![Piece::Text(rest)];
    assert(parse_template(s) == Ok::<Seq<Piece>, TemplateFault>(ps));
    let vs = choose|vs: Seq<Seq<char>>| #![trigger values_fit(ps, row, vs)] values_fit(ps, row, vs) && out == rendered(ps, vs);
    assert(ps[1] == Piece::Hole(p));
    assert(value_ok(p, row, vs[1]));
    let ps1 = ps.drop_last().drop_last();
    let vs1 = vs.drop_last().drop_last();
    assert(ps1.drop_last() =~= Seq::<Piece>::empty());
    assert(rendered(ps1.drop_last(), vs1.drop_last()) == Seq::<char>::empty());
    assert(ps1.last() == Piece::Text(s.take(0)));
    assert(rendered(ps1, vs1) =~= s.take(0));
    assert(rendered(ps.drop_last(), vs.drop_last()) =~= vs[1]);
    assert(rendered(ps, vs) =~= vs[1]);
    law_values_are_plain(p, row, out);
}


/// The values of code-like placeholders have the shape of a code: a country
/// code or a state abbreviation is two upper-case ASCII letters, a currency
/// code three; a date holds `-` and no `:`, a time `:` and no `-`; a title is
/// one of the locale's titles.
pub proof fn law_codes_render_as_codes(p: Placeholder, row: u64, v: Seq<char>)
    requires
        value_ok(p, row, v),
    ensures
        p == Placeholder::CountryCode || p == Placeholder::StateAbbr ==> v.len() == 2 && forall|i: int|
            0 <= i < 2 ==> is_upper(#[trigger] v[i]),
        p == Placeholder::CurrencyCode ==> v.len() == 3 && forall|i: int|
            0 <= i < 3 ==> is_upper(#[trigger] v[i]),
        p == Placeholder::ChronoDate || p == Placeholder::TimeDate ==> v.contains('-') && !v.contains(
            ':',
        ),
        p == Placeholder::ChronoTime || p == Placeholder::TimeTime ==> v.contains(':') && !v.contains(
            '-',
        ),
        p == Placeholder::NameTitle ==> name_titles().contains(v),
{
    if p == Placeholder::NameTitle {
        let i = choose|i: int| 0 <= i < name_titles().len() && v == name_titles()[i];
        assert(name_titles()[i] == v);
    }
}

} // verus!
