//! Calls into the `fake` crate. Each function makes one faker produce one
//! random value. Every text value that these fakers can produce is non-empty
//! and holds no brace; where the faker's source fixes more of its shape
//! (digits, lengths, separators, an `@`), the function says that too.

use fake::Fake;
use vstd::prelude::*;
use crate::text::{decimal, is_ascii_alnum, is_digit};

verus! {

// ---------------------------------------------------------------------------
// Shapes of fake values
// ---------------------------------------------------------------------------

/// Text with no brace, neither `{` nor `}`.
pub open spec fn no_braces(s: Seq<char>) -> bool {
    forall|i: int| 0 <= i < s.len() ==> #[trigger] s[i] != '{' && s[i] != '}'
}

/// Non-empty text with no brace.
pub open spec fn plain_text(s: Seq<char>) -> bool {
    s.len() > 0 && no_braces(s)
}

/// An upper-case ASCII letter.
pub open spec fn is_upper(c: char) -> bool {
    'A' <= c && c <= 'Z'
}

/// A lower-case ASCII letter.
pub open spec fn is_lower(c: char) -> bool {
    'a' <= c && c <= 'z'
}

/// Exactly `n` upper-case ASCII letters.
pub open spec fn upper_code(s: Seq<char>, n: nat) -> bool {
    s.len() == n && forall|i: int| 0 <= i < s.len() ==> is_upper(#[trigger] s[i])
}

/// A capitalised word: an upper-case ASCII letter, then ASCII letters,
/// apostrophes and hyphens.
pub open spec fn name_word(s: Seq<char>) -> bool {
    &&& s.len() > 0
    &&& is_upper(s[0])
    &&& forall|i: int|
        0 <= i < s.len() ==> is_upper(#[trigger] s[i]) || is_lower(s[i]) || s[i] == '\'' || s[i]
            == '-'
}

/// One or more lower-case ASCII letters.
pub open spec fn lower_word(s: Seq<char>) -> bool {
    s.len() > 0 && forall|i: int| 0 <= i < s.len() ==> is_lower(#[trigger] s[i])
}

/// A finite float as Rust displays it: digits, `-` and `.`, never an exponent.
pub open spec fn float_text(s: Seq<char>) -> bool {
    s.len() > 0 && forall|i: int| 0 <= i < s.len() ==> is_digit(#[trigger] s[i]) || s[i] == '-' || s[i] == '.'
}

/// Upper-case ASCII letters and digits, `n` of them.
pub open spec fn code_text(s: Seq<char>, n: nat) -> bool {
    s.len() == n && forall|i: int| 0 <= i < s.len() ==> is_upper(#[trigger] s[i]) || is_digit(s[i])
}

/// `s` is one of the entries of `list`.
pub open spec fn one_of(s: Seq<char>, list: Seq<Seq<char>>) -> bool {
    exists|i: int| 0 <= i < list.len() && s == #[trigger] list[i]
}

/// `s` ends with one of the entries of `list`.
pub open spec fn ends_with_one_of(s: Seq<char>, list: Seq<Seq<char>>) -> bool {
    exists|i: int| 0 <= i < list.len() && ends_with(s, #[trigger] list[i])
}

/// The locale's name titles.
pub open spec fn name_titles() -> Seq<Seq<char>> {
    seq!["Mr."@, "Mrs."@, "Ms."@, "Miss"@, "Dr."@]
}

/// The locale's name suffixes.
pub open spec fn name_suffixes() -> Seq<Seq<char>> {
    seq!["Jr."@, "Sr."@, "I"@, "II"@, "III"@, "IV"@, "V"@, "MD"@, "DDS"@, "PhD"@, "DVM"@]
}

/// The locale's city prefixes.
pub open spec fn city_prefixes() -> Seq<Seq<char>> {
    seq!["North"@, "East"@, "West"@, "South"@, "New"@, "Lake"@, "Port"@]
}

/// The locale's city suffixes.
pub open spec fn city_suffixes() -> Seq<Seq<char>> {
    seq![
        "town"@, "ton"@, "land"@, "ville"@, "berg"@, "burgh"@, "borough"@, "bury"@, "view"@,
        "port"@, "mouth"@, "stad"@, "furt"@, "chester"@, "mouth"@, "fort"@, "haven"@, "side"@,
        "shire"@,
    ]
}

/// The locale's company suffixes.
pub open spec fn company_suffixes() -> Seq<Seq<char>> {
    seq!["Inc"@, "and Sons"@, "LLC"@, "Group"@]
}

/// The locale's secondary address types.
pub open spec fn secondary_address_types() -> Seq<Seq<char>> {
    seq!["Apt."@, "Suit."@]
}

/// The locale's free e-mail providers.
pub open spec fn free_email_providers() -> Seq<Seq<char>> {
    seq!["gmail.com"@, "yahoo.com"@, "hotmail.com"@]
}

/// The locale's domain suffixes.
pub open spec fn domain_suffixes() -> Seq<Seq<char>> {
    seq!["com"@, "biz"@, "info"@, "name"@, "net"@, "org"@, "io"@, "co"@]
}

/// The locale's file extensions.
pub open spec fn file_extensions() -> Seq<Seq<char>> {
    seq![
        "so"@, "mp3"@, "mp4"@, "flv"@, "jpg"@, "png"@, "txt"@, "csv"@, "doc"@, "xls"@, "ppt"@,
        "zip"@, "rar"@, "7z"@, "tar"@,
    ]
}

/// The locale's job seniorities.
pub open spec fn seniorities() -> Seq<Seq<char>> {
    seq![
        "Lead"@, "Senior"@, "Junior"@, "Corporate"@, "National"@, "Regional"@, "District"@,
        "Central"@, "Global"@, "International"@, "Chief"@, "Principal"@,
    ]
}

/// The locale's currency symbols.
pub open spec fn currency_symbols() -> Seq<Seq<char>> {
    seq![
        "HK$"@, "Ft"@, "₪"@, "¥"@, "$"@, "kr"@, "PhP"@, "zł"@, "CHF"@, "NT$"@, "฿"@, "£"@, "¢"@,
        "Rp"@, "ƒ"@, "€"@, "रू"@,
    ]
}

/// A lower-case hexadecimal digit.
pub open spec fn is_lower_hex(c: char) -> bool {
    is_digit(c) || ('a' <= c && c <= 'f')
}

/// An upper-case hexadecimal digit.
pub open spec fn is_upper_hex(c: char) -> bool {
    is_digit(c) || ('A' <= c && c <= 'F')
}

/// Whether `s` begins with `t`.
pub open spec fn starts_with(s: Seq<char>, t: Seq<char>) -> bool {
    s.len() >= t.len() && s.take(t.len() as int) == t
}

/// Whether `s` ends with `t`.
pub open spec fn ends_with(s: Seq<char>, t: Seq<char>) -> bool {
    s.len() >= t.len() && s.skip(s.len() - t.len()) == t
}

/// `s` is `format` with each `#` replaced by a digit and each `^` by a digit
/// other than `0`.
pub open spec fn numerified(format: Seq<char>, s: Seq<char>) -> bool {
    &&& s.len() == format.len()
    &&& forall|i: int|
        0 <= i < s.len() ==> if format[i] == '#' {
            is_digit(#[trigger] s[i])
        } else if format[i] == '^' {
            is_digit(s[i]) && s[i] != '0'
        } else {
            s[i] == format[i]
        }
}

/// A hyphenated lower-case UUID of version `v`: 36 characters, `-` at 8, 13, 18
/// and 23, hexadecimal digits elsewhere, and the version digit at 14.
pub open spec fn uuid_text(s: Seq<char>, v: char) -> bool {
    &&& s.len() == 36
    &&& forall|i: int|
        0 <= i < 36 ==> if i == 8 || i == 13 || i == 18 || i == 23 {
            #[trigger] s[i] == '-'
        } else {
            is_lower_hex(s[i])
        }
    &&& s[14] == v
}

/// A MAC address: six pairs of upper-case hexadecimal digits joined by `:`.
pub open spec fn mac_text(s: Seq<char>) -> bool {
    &&& s.len() == 17
    &&& forall|i: int|
        0 <= i < 17 ==> if i % 3 == 2 {
            #[trigger] s[i] == ':'
        } else {
            is_upper_hex(s[i])
        }
}

/// A dotted IPv4 address: four decimal numbers of one to three digits.
pub open spec fn ipv4_text(s: Seq<char>) -> bool {
    &&& 7 <= s.len() <= 15
    &&& forall|i: int| 0 <= i < s.len() ==> is_digit(#[trigger] s[i]) || s[i] == '.'
}

/// An IPv6 address: eight groups of one to four upper-case hexadecimal digits
/// joined by `:`.
pub open spec fn ipv6_text(s: Seq<char>) -> bool {
    &&& 15 <= s.len() <= 39
    &&& forall|i: int| 0 <= i < s.len() ==> is_upper_hex(#[trigger] s[i]) || s[i] == ':'
}

/// A character of the geohash alphabet.
pub open spec fn is_geohash_char(c: char) -> bool {
    is_digit(c) || ('b' <= c && c <= 'z' && c != 'i' && c != 'l' && c != 'o')
}

/// An e-mail address at one of the example domains.
pub open spec fn safe_email_text(s: Seq<char>) -> bool {
    ||| ends_with(s, "@example.com"@)
    ||| ends_with(s, "@example.net"@)
    ||| ends_with(s, "@example.org"@)
}

/// A colour as `#rrggbb` in lower-case hexadecimal.
pub open spec fn hex_color_text(s: Seq<char>) -> bool {
    &&& s.len() == 7
    &&& s[0] == '#'
    &&& forall|i: int| 1 <= i < 7 ==> is_lower_hex(#[trigger] s[i])
}

/// A stable version `major.minor.patch`: digits and dots, five to eight
/// characters.
pub open spec fn semver_text(s: Seq<char>) -> bool {
    &&& 5 <= s.len() <= 8
    &&& forall|i: int| 0 <= i < s.len() ==> is_digit(#[trigger] s[i]) || s[i] == '.'
}

/// Three to five decimal digits (the formats `###`, `####`, `#####`).
pub open spec fn short_number_text(s: Seq<char>) -> bool {
    &&& 3 <= s.len() <= 5
    &&& forall|i: int| 0 <= i < s.len() ==> is_digit(#[trigger] s[i])
}

/// A post code: `#####` or `#####-####` with digits.
pub open spec fn post_code_text(s: Seq<char>) -> bool {
    numerified("#####"@, s) || numerified("#####-####"@, s)
}

/// A character of the phone number formats: a digit, `(`, `)`, a space, `-`,
/// `.` or `x`.
pub open spec fn is_phone_char(c: char) -> bool {
    is_digit(c) || c == '(' || c == ')' || c == ' ' || c == '-' || c == '.' || c == 'x'
}

/// A phone number written with the characters of the phone number formats.
pub open spec fn phone_text(s: Seq<char>) -> bool {
    &&& s.len() >= 12
    &&& forall|i: int| 0 <= i < s.len() ==> is_phone_char(#[trigger] s[i])
}

/// An HTTP status line as `StatusCode` displays it: a three-digit code, a space
/// and the reason.
pub open spec fn status_text(s: Seq<char>) -> bool {
    &&& s.len() >= 4
    &&& is_digit(s[0]) && is_digit(s[1]) && is_digit(s[2])
    &&& s[3] == ' '
}

// ---------------------------------------------------------------------------
// Fakers
// ---------------------------------------------------------------------------

/// Calls `fake::faker::boolean::en::Boolean` through `Fake::fake`; the result
/// is random and nothing is claimed of it.
#[verifier::external_body]
pub(crate) fn fake_bool(ratio: u8) -> bool {
    fake::faker::boolean::en::Boolean(ratio).fake::<bool>()
}

/// Calls `fake::faker::number::en::Digit` through `Fake::fake`. Trusted: the
/// value is one of the locale's digit strings `"0"` to `"9"`.
#[verifier::external_body]
pub(crate) fn fake_digit() -> (r: String)
    ensures
        r@.len() == 1 && is_digit(r@[0]),
{
    fake::faker::number::en::Digit().fake::<String>()
}

/// Calls `fake::faker::number::en::NumberWithFormat` through `Fake::fake`.
/// Trusted: the value is `format` with `#` replaced by a random digit and `^`
/// by a random digit from 1 to 9 (`numerify_sym`).
#[verifier::external_body]
pub(crate) fn fake_number_format(format: &str) -> (r: String)
    ensures
        numerified(format@, r@),
{
    fake::faker::number::en::NumberWithFormat(format).fake::<String>()
}

/// Calls `fake::faker::name::en::Name` through `Fake::fake`. Trusted: the value
/// is a locale template whose `{..}` fields are all replaced by list entries or
/// numbers, so it is non-empty and holds no brace. It joins its fields with a
/// space, so it holds one.
#[verifier::external_body]
pub(crate) fn fake_name() -> (r: String)
    ensures
        plain_text(r@),
        r@.contains(' '),
{
    fake::faker::name::en::Name().fake::<String>()
}

/// Calls `fake::faker::name::en::NameWithTitle` through `Fake::fake`. Trusted:
/// the value is a locale template whose `{..}` fields are all replaced by list
/// entries or numbers, so it is non-empty and holds no brace. It joins its
/// fields with spaces, so it holds one.
#[verifier::external_body]
pub(crate) fn fake_name_with_title() -> (r: String)
    ensures
        plain_text(r@),
        r@.contains(' '),
{
    fake::faker::name::en::NameWithTitle().fake::<String>()
}

/// Calls `fake::faker::name::en::FirstName` through `Fake::fake`. Trusted: the
/// value is an entry of the locale's list, and no entry is empty or holds a
/// brace. Every first name of the locale is a capitalised ASCII word.
#[verifier::external_body]
pub(crate) fn fake_first_name() -> (r: String)
    ensures
        plain_text(r@),
        name_word(r@),
{
    fake::faker::name::en::FirstName().fake::<String>()
}

/// Calls `fake::faker::name::en::LastName` through `Fake::fake`. Trusted: the
/// value is an entry of the locale's list, and no entry is empty or holds a
/// brace. Every last name of the locale is a capitalised ASCII word,
/// apostrophes allowed.
#[verifier::external_body]
pub(crate) fn fake_last_name() -> (r: String)
    ensures
        plain_text(r@),
        name_word(r@),
{
    fake::faker::name::en::LastName().fake::<String>()
}

/// Calls `fake::faker::name::en::Title` through `Fake::fake`. Trusted: the
/// value is an entry of the locale's list, and no entry is empty or holds a
/// brace. It is one of the locale's titles.
#[verifier::external_body]
pub(crate) fn fake_name_title() -> (r: String)
    ensures
        plain_text(r@),
        one_of(r@, name_titles()),
{
    fake::faker::name::en::Title().fake::<String>()
}

/// Calls `fake::faker::name::en::Suffix` through `Fake::fake`. Trusted: the
/// value is an entry of the locale's list, and no entry is empty or holds a
/// brace. It is one of the locale's suffixes.
#[verifier::external_body]
pub(crate) fn fake_name_suffix() -> (r: String)
    ensures
        plain_text(r@),
        one_of(r@, name_suffixes()),
{
    fake::faker::name::en::Suffix().fake::<String>()
}

/// Calls `fake::faker::internet::en::SafeEmail` through `Fake::fake`. Trusted:
/// the value is a lower-cased first name, `@example.` and one of `com`, `net`,
/// `org`, so it holds no brace.
#[verifier::external_body]
pub(crate) fn fake_safe_email() -> (r: String)
    ensures
        safe_email_text(r@),
        plain_text(r@),
{
    fake::faker::internet::en::SafeEmail().fake::<String>()
}

/// Calls `fake::faker::internet::en::FreeEmail` through `Fake::fake`. Trusted:
/// the value is a user name, `@` and a provider, so it holds an `@` and no
/// brace.
#[verifier::external_body]
pub(crate) fn fake_free_email() -> (r: String)
    ensures
        r@.contains('@'),
        plain_text(r@),
{
    fake::faker::internet::en::FreeEmail().fake::<String>()
}

/// Calls `fake::faker::internet::en::FreeEmailProvider` through `Fake::fake`.
/// Trusted: the value is an entry of the locale's list, and no entry is empty
/// or holds a brace. It is one of the locale's providers.
#[verifier::external_body]
pub(crate) fn fake_free_email_provider() -> (r: String)
    ensures
        plain_text(r@),
        one_of(r@, free_email_providers()),
{
    fake::faker::internet::en::FreeEmailProvider().fake::<String>()
}

/// Calls `fake::faker::internet::en::DomainSuffix` through `Fake::fake`.
/// Trusted: the value is an entry of the locale's list, and no entry is empty
/// or holds a brace. It is one of the locale's domain suffixes.
#[verifier::external_body]
pub(crate) fn fake_domain_suffix() -> (r: String)
    ensures
        plain_text(r@),
        one_of(r@, domain_suffixes()),
{
    fake::faker::internet::en::DomainSuffix().fake::<String>()
}

/// Calls `fake::faker::internet::en::Username` through `Fake::fake`. Trusted:
/// the value is formatted from random numbers and list entries by a format with
/// no brace in its output, so it is non-empty and holds no brace. It is a
/// lower-cased first name, alone or with a lorem word or a number, joined by
/// `.` or `_` or nothing, so it begins with a lower-case letter and holds only
/// lower-case letters, digits, `.` and `_`.
#[verifier::external_body]
pub(crate) fn fake_username() -> (r: String)
    ensures
        plain_text(r@),
        r@.len() > 0 && is_lower(r@[0]) && forall|i: int| 0 <= i < r@.len() ==> is_lower(#[trigger] r@[i]) || is_digit(r@[i]) || r@[i] == '.' || r@[i] == '_',
{
    fake::faker::internet::en::Username().fake::<String>()
}

/// Calls `fake::faker::internet::en::Password` with the range `min..max`
/// through `Fake::fake`; the range must not be empty. Trusted: the length is
/// drawn from the range and each character from the locale's letters and
/// digits.
#[verifier::external_body]
pub(crate) fn fake_password(min: usize, max: usize) -> (r: String)
    requires
        min < max,
    ensures
        min <= r@.len() < max,
        forall|i: int| 0 <= i < r@.len() ==> is_ascii_alnum(#[trigger] r@[i]),
{
    fake::faker::internet::en::Password(min..max).fake::<String>()
}

/// Calls `fake::faker::internet::en::IPv4` through `Fake::fake`. Trusted: the
/// value is four random `u8` in decimal joined by `.`.
#[verifier::external_body]
pub(crate) fn fake_ipv4() -> (r: String)
    ensures
        ipv4_text(r@),
{
    fake::faker::internet::en::IPv4().fake::<String>()
}

/// Calls `fake::faker::internet::en::IPv6` through `Fake::fake`. Trusted: the
/// value is eight random `u16` in upper-case hexadecimal (`{:X}`) joined by
/// `:`.
#[verifier::external_body]
pub(crate) fn fake_ipv6() -> (r: String)
    ensures
        ipv6_text(r@),
{
    fake::faker::internet::en::IPv6().fake::<String>()
}

/// Calls `fake::faker::internet::en::IP` through `Fake::fake`. Trusted: it
/// makes an IPv4 address, four random `u8` in decimal joined by `.`.
#[verifier::external_body]
pub(crate) fn fake_ip() -> (r: String)
    ensures
        ipv4_text(r@),
{
    fake::faker::internet::en::IP().fake::<String>()
}

/// Calls `fake::faker::internet::en::MACAddress` through `Fake::fake`. Trusted:
/// the value is six random bytes as `{:02X}` joined by `:`.
#[verifier::external_body]
pub(crate) fn fake_mac_address() -> (r: String)
    ensures
        mac_text(r@),
{
    fake::faker::internet::en::MACAddress().fake::<String>()
}

/// Calls `fake::faker::internet::en::UserAgent` through `Fake::fake`. Trusted:
/// the value is an entry of the locale's list, and no entry is empty or holds a
/// brace. Every user agent of the locale begins with `Mozilla/` or `Opera/`.
#[verifier::external_body]
pub(crate) fn fake_user_agent() -> (r: String)
    ensures
        plain_text(r@),
        starts_with(r@, "Mozilla/"@) || starts_with(r@, "Opera/"@),
{
    fake::faker::internet::en::UserAgent().fake::<String>()
}

/// Calls `fake::faker::company::en::CompanyName` through `Fake::fake`. Trusted:
/// the value is a locale template whose `{..}` fields are all replaced by list
/// entries or numbers, so it is non-empty and holds no brace. Both templates
/// hold a space.
#[verifier::external_body]
pub(crate) fn fake_company_name() -> (r: String)
    ensures
        plain_text(r@),
        r@.contains(' '),
{
    fake::faker::company::en::CompanyName().fake::<String>()
}

/// Calls `fake::faker::company::en::CompanySuffix` through `Fake::fake`.
/// Trusted: the value is an entry of the locale's list, and no entry is empty
/// or holds a brace. It is one of the locale's company suffixes.
#[verifier::external_body]
pub(crate) fn fake_company_suffix() -> (r: String)
    ensures
        plain_text(r@),
        one_of(r@, company_suffixes()),
{
    fake::faker::company::en::CompanySuffix().fake::<String>()
}

/// Calls `fake::faker::company::en::Buzzword` through `Fake::fake`. Trusted:
/// the value is an entry of the locale's list, and no entry is empty or holds a
/// brace. All the locale's leading buzzwords begin with an upper-case ASCII
/// letter.
#[verifier::external_body]
pub(crate) fn fake_buzzword() -> (r: String)
    ensures
        plain_text(r@),
        is_upper(r@[0]),
{
    fake::faker::company::en::Buzzword().fake::<String>()
}

/// Calls `fake::faker::company::en::BuzzwordMiddle` through `Fake::fake`.
/// Trusted: the value is an entry of the locale's list, and no entry is empty
/// or holds a brace.
#[verifier::external_body]
pub(crate) fn fake_buzzword_middle() -> (r: String)
    ensures
        plain_text(r@),
{
    fake::faker::company::en::BuzzwordMiddle().fake::<String>()
}

/// Calls `fake::faker::company::en::BuzzwordTail` through `Fake::fake`.
/// Trusted: the value is an entry of the locale's list, and no entry is empty
/// or holds a brace.
#[verifier::external_body]
pub(crate) fn fake_buzzword_tail() -> (r: String)
    ensures
        plain_text(r@),
{
    fake::faker::company::en::BuzzwordTail().fake::<String>()
}

/// Calls `fake::faker::company::en::CatchPhrase` through `Fake::fake`. Trusted:
/// the value is a locale template whose `{..}` fields are all replaced by list
/// entries or numbers, so it is non-empty and holds no brace. It joins its
/// fields with spaces, so it holds one.
#[verifier::external_body]
pub(crate) fn fake_catch_phrase() -> (r: String)
    ensures
        plain_text(r@),
        r@.contains(' '),
{
    fake::faker::company::en::CatchPhrase().fake::<String>()
}

/// Calls `fake::faker::company::en::Bs` through `Fake::fake`. Trusted: the
/// value is a locale template whose `{..}` fields are all replaced by list
/// entries or numbers, so it is non-empty and holds no brace. It joins its
/// fields with spaces, so it holds one.
#[verifier::external_body]
pub(crate) fn fake_bs() -> (r: String)
    ensures
        plain_text(r@),
        r@.contains(' '),
{
    fake::faker::company::en::Bs().fake::<String>()
}

/// Calls `fake::faker::company::en::BsVerb` through `Fake::fake`. Trusted: the
/// value is an entry of the locale's list, and no entry is empty or holds a
/// brace. All the locale's bs verbs begin with a lower-case ASCII letter.
#[verifier::external_body]
pub(crate) fn fake_bs_verb() -> (r: String)
    ensures
        plain_text(r@),
        is_lower(r@[0]),
{
    fake::faker::company::en::BsVerb().fake::<String>()
}

/// Calls `fake::faker::company::en::BsAdj` through `Fake::fake`. Trusted: the
/// value is an entry of the locale's list, and no entry is empty or holds a
/// brace.
#[verifier::external_body]
pub(crate) fn fake_bs_adj() -> (r: String)
    ensures
        plain_text(r@),
{
    fake::faker::company::en::BsAdj().fake::<String>()
}

/// Calls `fake::faker::company::en::BsNoun` through `Fake::fake`. Trusted: the
/// value is an entry of the locale's list, and no entry is empty or holds a
/// brace.
#[verifier::external_body]
pub(crate) fn fake_bs_noun() -> (r: String)
    ensures
        plain_text(r@),
{
    fake::faker::company::en::BsNoun().fake::<String>()
}

/// Calls `fake::faker::company::en::Profession` through `Fake::fake`. Trusted:
/// the value is an entry of the locale's list, and no entry is empty or holds a
/// brace. All the locale's professions begin with a lower-case ASCII letter.
#[verifier::external_body]
pub(crate) fn fake_profession() -> (r: String)
    ensures
        plain_text(r@),
        is_lower(r@[0]),
{
    fake::faker::company::en::Profession().fake::<String>()
}

/// Calls `fake::faker::company::en::Industry` through `Fake::fake`. Trusted:
/// the value is an entry of the locale's list, and no entry is empty or holds a
/// brace. All the locale's industries begin with an upper-case ASCII letter.
#[verifier::external_body]
pub(crate) fn fake_industry() -> (r: String)
    ensures
        plain_text(r@),
        is_upper(r@[0]),
{
    fake::faker::company::en::Industry().fake::<String>()
}

/// Calls `fake::faker::job::en::Title` through `Fake::fake`. Trusted: the value
/// is a locale template whose `{..}` fields are all replaced by list entries or
/// numbers, so it is non-empty and holds no brace. It joins its fields with
/// spaces, so it holds one.
#[verifier::external_body]
pub(crate) fn fake_job_title() -> (r: String)
    ensures
        plain_text(r@),
        r@.contains(' '),
{
    fake::faker::job::en::Title().fake::<String>()
}

/// Calls `fake::faker::job::en::Seniority` through `Fake::fake`. Trusted: the
/// value is an entry of the locale's list, and no entry is empty or holds a
/// brace. It is one of the locale's seniorities.
#[verifier::external_body]
pub(crate) fn fake_seniority() -> (r: String)
    ensures
        plain_text(r@),
        one_of(r@, seniorities()),
{
    fake::faker::job::en::Seniority().fake::<String>()
}

/// Calls `fake::faker::job::en::Field` through `Fake::fake`. Trusted: the value
/// is an entry of the locale's list, and no entry is empty or holds a brace.
/// Every job field of the locale is a capitalised ASCII word, hyphens allowed.
#[verifier::external_body]
pub(crate) fn fake_job_field() -> (r: String)
    ensures
        plain_text(r@),
        name_word(r@),
{
    fake::faker::job::en::Field().fake::<String>()
}

/// Calls `fake::faker::job::en::Position` through `Fake::fake`. Trusted: the
/// value is an entry of the locale's list, and no entry is empty or holds a
/// brace. Every job position of the locale is a capitalised ASCII word.
#[verifier::external_body]
pub(crate) fn fake_job_position() -> (r: String)
    ensures
        plain_text(r@),
        name_word(r@),
{
    fake::faker::job::en::Position().fake::<String>()
}

/// Calls `fake::faker::phone_number::en::PhoneNumber` through `Fake::fake`.
/// Trusted: the value numerifies one of the locale's phone number formats, made
/// of digits, `(`, `)`, spaces, `-`, `.` and `x`, twelve characters or more.
#[verifier::external_body]
pub(crate) fn fake_phone_number() -> (r: String)
    ensures
        phone_text(r@),
{
    fake::faker::phone_number::en::PhoneNumber().fake::<String>()
}

/// Calls `fake::faker::phone_number::en::CellNumber` through `Fake::fake`.
/// Trusted: the value numerifies one of the locale's cell number formats, made
/// of digits, `(`, `)`, spaces, `-` and `.`, twelve characters or more.
#[verifier::external_body]
pub(crate) fn fake_cell_number() -> (r: String)
    ensures
        phone_text(r@),
{
    fake::faker::phone_number::en::CellNumber().fake::<String>()
}

/// Calls `fake::faker::address::en::CityPrefix` through `Fake::fake`. Trusted:
/// the value is an entry of the locale's list, and no entry is empty or holds a
/// brace. It is one of the locale's city prefixes.
#[verifier::external_body]
pub(crate) fn fake_city_prefix() -> (r: String)
    ensures
        plain_text(r@),
        one_of(r@, city_prefixes()),
{
    fake::faker::address::en::CityPrefix().fake::<String>()
}

/// Calls `fake::faker::address::en::CitySuffix` through `Fake::fake`. Trusted:
/// the value is an entry of the locale's list, and no entry is empty or holds a
/// brace. It is one of the locale's city suffixes.
#[verifier::external_body]
pub(crate) fn fake_city_suffix() -> (r: String)
    ensures
        plain_text(r@),
        one_of(r@, city_suffixes()),
{
    fake::faker::address::en::CitySuffix().fake::<String>()
}

/// Calls `fake::faker::address::en::CityName` through `Fake::fake`. Trusted:
/// the value is a locale template whose `{..}` fields are all replaced by list
/// entries or numbers, so it is non-empty and holds no brace. Every city
/// template of the locale ends with `{CitySuffix}`, so it ends with one of the
/// locale's city suffixes.
#[verifier::external_body]
pub(crate) fn fake_city_name() -> (r: String)
    ensures
        plain_text(r@),
        ends_with_one_of(r@, city_suffixes()),
{
    fake::faker::address::en::CityName().fake::<String>()
}

/// Calls `fake::faker::address::en::CountryName` through `Fake::fake`. Trusted:
/// the value is an entry of the locale's list, and no entry is empty or holds a
/// brace. All the locale's country names begin with an upper-case ASCII letter.
#[verifier::external_body]
pub(crate) fn fake_country_name() -> (r: String)
    ensures
        plain_text(r@),
        is_upper(r@[0]),
{
    fake::faker::address::en::CountryName().fake::<String>()
}

/// Calls `fake::faker::address::en::CountryCode` through `Fake::fake`. Trusted:
/// the value is an entry of the locale's list, and no entry is empty or holds a
/// brace. Every country code of the locale is two upper-case ASCII letters.
#[verifier::external_body]
pub(crate) fn fake_country_code() -> (r: String)
    ensures
        plain_text(r@),
        upper_code(r@, 2),
{
    fake::faker::address::en::CountryCode().fake::<String>()
}

/// Calls `fake::faker::address::en::StreetSuffix` through `Fake::fake`.
/// Trusted: the value is an entry of the locale's list, and no entry is empty
/// or holds a brace. Every street suffix of the locale is a capitalised ASCII
/// word.
#[verifier::external_body]
pub(crate) fn fake_street_suffix() -> (r: String)
    ensures
        plain_text(r@),
        name_word(r@),
{
    fake::faker::address::en::StreetSuffix().fake::<String>()
}

/// Calls `fake::faker::address::en::StreetName` through `Fake::fake`. Trusted:
/// the value is a locale template whose `{..}` fields are all replaced by list
/// entries or numbers, so it is non-empty and holds no brace. It joins its
/// fields with a space, so it holds one.
#[verifier::external_body]
pub(crate) fn fake_street_name() -> (r: String)
    ensures
        plain_text(r@),
        r@.contains(' '),
{
    fake::faker::address::en::StreetName().fake::<String>()
}

/// Calls `fake::faker::address::en::TimeZone` through `Fake::fake`. Trusted:
/// the value is an entry of the locale's list, and no entry is empty or holds a
/// brace. Every time zone of the locale is a capitalised area, `/` and a place.
#[verifier::external_body]
pub(crate) fn fake_time_zone() -> (r: String)
    ensures
        plain_text(r@),
        is_upper(r@[0]),
        r@.contains('/'),
{
    fake::faker::address::en::TimeZone().fake::<String>()
}

/// Calls `fake::faker::address::en::StateName` through `Fake::fake`. Trusted:
/// the value is an entry of the locale's list, and no entry is empty or holds a
/// brace. All the locale's state names begin with an upper-case ASCII letter.
#[verifier::external_body]
pub(crate) fn fake_state_name() -> (r: String)
    ensures
        plain_text(r@),
        is_upper(r@[0]),
{
    fake::faker::address::en::StateName().fake::<String>()
}

/// Calls `fake::faker::address::en::StateAbbr` through `Fake::fake`. Trusted:
/// the value is an entry of the locale's list, and no entry is empty or holds a
/// brace. Every state abbreviation of the locale is two upper-case ASCII
/// letters.
#[verifier::external_body]
pub(crate) fn fake_state_abbr() -> (r: String)
    ensures
        plain_text(r@),
        upper_code(r@, 2),
{
    fake::faker::address::en::StateAbbr().fake::<String>()
}

/// Calls `fake::faker::address::en::SecondaryAddressType` through `Fake::fake`.
/// Trusted: the value is an entry of the locale's list, and no entry is empty
/// or holds a brace. It is one of the locale's secondary address types.
#[verifier::external_body]
pub(crate) fn fake_secondary_address_type() -> (r: String)
    ensures
        plain_text(r@),
        one_of(r@, secondary_address_types()),
{
    fake::faker::address::en::SecondaryAddressType().fake::<String>()
}

/// Calls `fake::faker::address::en::SecondaryAddress` through `Fake::fake`.
/// Trusted: the value is a locale template whose `{..}` fields are all replaced
/// by list entries or numbers, so it is non-empty and holds no brace. It joins
/// its fields with a space, so it holds one.
#[verifier::external_body]
pub(crate) fn fake_secondary_address() -> (r: String)
    ensures
        plain_text(r@),
        r@.contains(' '),
{
    fake::faker::address::en::SecondaryAddress().fake::<String>()
}

/// Calls `fake::faker::address::en::ZipCode` through `Fake::fake`. Trusted: the
/// value numerifies one of `#####`, `####`, `###`.
#[verifier::external_body]
pub(crate) fn fake_zip_code() -> (r: String)
    ensures
        short_number_text(r@),
{
    fake::faker::address::en::ZipCode().fake::<String>()
}

/// Calls `fake::faker::address::en::PostCode` through `Fake::fake`. Trusted:
/// the value numerifies `#####` or `#####-####`.
#[verifier::external_body]
pub(crate) fn fake_post_code() -> (r: String)
    ensures
        post_code_text(r@),
{
    fake::faker::address::en::PostCode().fake::<String>()
}

/// Calls `fake::faker::address::en::BuildingNumber` through `Fake::fake`.
/// Trusted: the value numerifies one of `#####`, `####`, `###`.
#[verifier::external_body]
pub(crate) fn fake_building_number() -> (r: String)
    ensures
        short_number_text(r@),
{
    fake::faker::address::en::BuildingNumber().fake::<String>()
}

/// Calls `fake::faker::address::en::Latitude` through `Fake::fake`. Trusted:
/// the value is formatted from random numbers and list entries by a format with
/// no brace in its output, so it is non-empty and holds no brace. It is a
/// finite `f64` displayed by `to_string`.
#[verifier::external_body]
pub(crate) fn fake_latitude() -> (r: String)
    ensures
        plain_text(r@),
        float_text(r@),
{
    fake::faker::address::en::Latitude().fake::<String>()
}

/// Calls `fake::faker::address::en::Longitude` through `Fake::fake`. Trusted:
/// the value is formatted from random numbers and list entries by a format with
/// no brace in its output, so it is non-empty and holds no brace. It is a
/// finite `f32` displayed by `to_string`.
#[verifier::external_body]
pub(crate) fn fake_longitude() -> (r: String)
    ensures
        plain_text(r@),
        float_text(r@),
{
    fake::faker::address::en::Longitude().fake::<String>()
}

/// Calls `fake::faker::address::en::Geohash` through `Fake::fake`. Trusted: the
/// value is `precision` characters sampled from the 32-character geohash
/// alphabet.
#[verifier::external_body]
pub(crate) fn fake_geohash(precision: u8) -> (r: String)
    ensures
        precision <= 32 ==> r@.len() == precision,
        forall|i: int| 0 <= i < r@.len() ==> is_geohash_char(#[trigger] r@[i]),
{
    fake::faker::address::en::Geohash(precision).fake::<String>()
}

/// Calls `fake::faker::lorem::en::Word` through `Fake::fake`. Trusted: the
/// value is an entry of the locale's list, and no entry is empty or holds a
/// brace. Every lorem word of the locale is lower-case ASCII letters.
#[verifier::external_body]
pub(crate) fn fake_word() -> (r: String)
    ensures
        plain_text(r@),
        lower_word(r@),
{
    fake::faker::lorem::en::Word().fake::<String>()
}

/// Calls `fake::faker::lorem::en::Words` with the range `min..max` through
/// `Fake::fake`, asking for a list; the range must not be empty. Trusted: the
/// number of items is drawn from the range, and each item is a word of the
/// locale's list, so it is non-empty and holds no brace. Each item is
/// lower-case ASCII letters.
#[verifier::external_body]
pub(crate) fn fake_words(min: usize, max: usize) -> (r: Vec<String>)
    requires
        min < max,
    ensures
        min <= r@.len() < max,
        forall|i: int| 0 <= i < r@.len() ==> plain_text(#[trigger] r@[i]@),
        forall|i: int| 0 <= i < r@.len() ==> lower_word(#[trigger] r@[i]@),
{
    fake::faker::lorem::en::Words(min..max).fake::<Vec<String>>()
}

/// Calls `fake::faker::lorem::en::Sentence` with the range `min..max` through
/// `Fake::fake`; the range must not be empty. Trusted: the value is as many
/// words of the locale's list as drawn from the range, joined by spaces, and a
/// full stop, so it is non-empty and holds no brace. It ends with a full stop.
#[verifier::external_body]
pub(crate) fn fake_sentence(min: usize, max: usize) -> (r: String)
    requires
        min < max,
    ensures
        plain_text(r@),
        ends_with(r@, "."@),
{
    fake::faker::lorem::en::Sentence(min..max).fake::<String>()
}

/// Calls `fake::faker::lorem::en::Sentences` with the range `min..max` through
/// `Fake::fake`, asking for a list; the range must not be empty. Trusted: the
/// number of items is drawn from the range, and each item is a sentence of four
/// to nine words and a full stop, so it is non-empty and holds no brace. Each
/// item ends with a full stop.
#[verifier::external_body]
pub(crate) fn fake_sentences(min: usize, max: usize) -> (r: Vec<String>)
    requires
        min < max,
    ensures
        min <= r@.len() < max,
        forall|i: int| 0 <= i < r@.len() ==> plain_text(#[trigger] r@[i]@),
        forall|i: int| 0 <= i < r@.len() ==> ends_with(#[trigger] r@[i]@, "."@),
{
    fake::faker::lorem::en::Sentences(min..max).fake::<Vec<String>>()
}

/// Calls `fake::faker::lorem::en::Paragraph` with the range `min..max` through
/// `Fake::fake`; the range must not be empty. Trusted: the value is as many
/// sentences as drawn from the range, joined by line breaks: it holds no brace,
/// and it is non-empty when the range starts above zero. When the range starts
/// above zero it ends with the full stop of its last sentence.
#[verifier::external_body]
pub(crate) fn fake_paragraph(min: usize, max: usize) -> (r: String)
    requires
        min < max,
    ensures
        min > 0 ==> r@.len() > 0,
        no_braces(r@),
        min > 0 ==> ends_with(r@, "."@),
{
    fake::faker::lorem::en::Paragraph(min..max).fake::<String>()
}

/// Calls `fake::faker::lorem::en::Paragraphs` with the range `min..max` through
/// `Fake::fake`, asking for a list; the range must not be empty. Trusted: the
/// number of items is drawn from the range, and each item is four to six
/// sentences joined by line breaks, so it is non-empty and holds no brace. Each
/// item ends with the full stop of its last sentence.
#[verifier::external_body]
pub(crate) fn fake_paragraphs(min: usize, max: usize) -> (r: Vec<String>)
    requires
        min < max,
    ensures
        min <= r@.len() < max,
        forall|i: int| 0 <= i < r@.len() ==> plain_text(#[trigger] r@[i]@),
        forall|i: int| 0 <= i < r@.len() ==> ends_with(#[trigger] r@[i]@, "."@),
{
    fake::faker::lorem::en::Paragraphs(min..max).fake::<Vec<String>>()
}

/// Calls `fake::faker::markdown::en::ItalicWord` through `Fake::fake`. Trusted:
/// the value is formatted from random numbers and list entries by a format with
/// no brace in its output, so it is non-empty and holds no brace. It is a word
/// between two `*`.
#[verifier::external_body]
pub(crate) fn fake_italic_word() -> (r: String)
    ensures
        plain_text(r@),
        starts_with(r@, "*"@),
        ends_with(r@, "*"@),
{
    fake::faker::markdown::en::ItalicWord().fake::<String>()
}

/// Calls `fake::faker::markdown::en::BoldWord` through `Fake::fake`. Trusted:
/// the value is formatted from random numbers and list entries by a format with
/// no brace in its output, so it is non-empty and holds no brace. It is a word
/// between two `**`.
#[verifier::external_body]
pub(crate) fn fake_bold_word() -> (r: String)
    ensures
        plain_text(r@),
        starts_with(r@, "**"@),
        ends_with(r@, "**"@),
{
    fake::faker::markdown::en::BoldWord().fake::<String>()
}

/// Calls `fake::faker::markdown::en::Link` through `Fake::fake`. Trusted: the
/// value is formatted from random numbers and list entries by a format with no
/// brace in its output, so it is non-empty and holds no brace. It is
/// `[word](https://word)`.
#[verifier::external_body]
pub(crate) fn fake_link() -> (r: String)
    ensures
        plain_text(r@),
        starts_with(r@, "["@),
        ends_with(r@, ")"@),
{
    fake::faker::markdown::en::Link().fake::<String>()
}

/// Calls `fake::faker::markdown::en::BulletPoints` with the range `min..max`
/// through `Fake::fake`, asking for a list; the range must not be empty.
/// Trusted: the number of items is drawn from the range, and each item is `- `
/// and a word, so it is non-empty and holds no brace. Each item begins with `-
/// `.
#[verifier::external_body]
pub(crate) fn fake_bullet_points(min: usize, max: usize) -> (r: Vec<String>)
    requires
        min < max,
    ensures
        min <= r@.len() < max,
        forall|i: int| 0 <= i < r@.len() ==> plain_text(#[trigger] r@[i]@),
        forall|i: int| 0 <= i < r@.len() ==> starts_with(#[trigger] r@[i]@, "- "@),
{
    fake::faker::markdown::en::BulletPoints(min..max).fake::<Vec<String>>()
}

/// Calls `fake::faker::markdown::en::ListItems` with the range `min..max`
/// through `Fake::fake`, asking for a list; the range must not be empty.
/// Trusted: the number of items is drawn from the range, and each item is its
/// number, `. ` and a word, so it is non-empty and holds no brace. Item `i`
/// begins with `i + 1` in decimal and `. `.
#[verifier::external_body]
pub(crate) fn fake_list_items(min: usize, max: usize) -> (r: Vec<String>)
    requires
        min < max,
    ensures
        min <= r@.len() < max,
        forall|i: int| 0 <= i < r@.len() ==> plain_text(#[trigger] r@[i]@),
        forall|i: int| 0 <= i < r@.len() ==> starts_with(#[trigger] r@[i]@, decimal((i + 1) as nat) + ". "@),
{
    fake::faker::markdown::en::ListItems(min..max).fake::<Vec<String>>()
}

/// Calls `fake::faker::markdown::en::BlockQuoteSingleLine` with the range
/// `min..max` through `Fake::fake`; the range must not be empty. Trusted: the
/// value is `> ` and a sentence, so it is non-empty and holds no brace. It
/// begins with `> `.
#[verifier::external_body]
pub(crate) fn fake_block_quote(min: usize, max: usize) -> (r: String)
    requires
        min < max,
    ensures
        plain_text(r@),
        starts_with(r@, "> "@),
{
    fake::faker::markdown::en::BlockQuoteSingleLine(min..max).fake::<String>()
}

/// Calls `fake::faker::markdown::en::BlockQuoteMultiLine` with the range
/// `min..max` through `Fake::fake`, asking for a list; the range must not be
/// empty. Trusted: the number of items is drawn from the range, and each item
/// is `> ` and a sentence, so it is non-empty and holds no brace. Each item
/// begins with `> `.
#[verifier::external_body]
pub(crate) fn fake_multiline_quote(min: usize, max: usize) -> (r: Vec<String>)
    requires
        min < max,
    ensures
        min <= r@.len() < max,
        forall|i: int| 0 <= i < r@.len() ==> plain_text(#[trigger] r@[i]@),
        forall|i: int| 0 <= i < r@.len() ==> starts_with(#[trigger] r@[i]@, "> "@),
{
    fake::faker::markdown::en::BlockQuoteMultiLine(min..max).fake::<Vec<String>>()
}

/// Calls `fake::faker::markdown::en::Code` with the range `min..max` through
/// `Fake::fake`; the range must not be empty. Trusted: the value is a sentence
/// between two lines of three backticks, so it is non-empty and holds no brace.
/// It begins and ends with three backticks.
#[verifier::external_body]
pub(crate) fn fake_code(min: usize, max: usize) -> (r: String)
    requires
        min < max,
    ensures
        plain_text(r@),
        starts_with(r@, "```"@),
        ends_with(r@, "```"@),
{
    fake::faker::markdown::en::Code(min..max).fake::<String>()
}

/// Calls `fake::faker::barcode::en::Isbn` through `Fake::fake`. Trusted: the
/// value is formatted from random numbers and list entries by a format with no
/// brace in its output, so it is non-empty and holds no brace. It is an ISBN-10
/// or an ISBN-13.
#[verifier::external_body]
pub(crate) fn fake_isbn() -> (r: String)
    ensures
        plain_text(r@),
        r@.len() == 13 || r@.len() == 17,
        r@.contains('-'),
{
    fake::faker::barcode::en::Isbn().fake::<String>()
}

/// Calls `fake::faker::barcode::en::Isbn10` through `Fake::fake`. Trusted: the
/// value is formatted from random numbers and list entries by a format with no
/// brace in its output, so it is non-empty and holds no brace. It is the group,
/// registrant and publication (eight digits between them) and the check
/// character, joined by three `-`.
#[verifier::external_body]
pub(crate) fn fake_isbn10() -> (r: String)
    ensures
        plain_text(r@),
        r@.len() == 13,
        r@.contains('-'),
{
    fake::faker::barcode::en::Isbn10().fake::<String>()
}

/// Calls `fake::faker::barcode::en::Isbn13` through `Fake::fake`. Trusted: the
/// value is formatted from random numbers and list entries by a format with no
/// brace in its output, so it is non-empty and holds no brace. It begins with
/// the EAN prefix `978` and a `-`. Its 17 characters are `978-`, the group
/// digit, the eight registrant and publication digits and the check digit, the
/// last four parts joined by `-`.
#[verifier::external_body]
pub(crate) fn fake_isbn13() -> (r: String)
    ensures
        plain_text(r@),
        starts_with(r@, "978-"@),
        r@.len() == 17,
{
    fake::faker::barcode::en::Isbn13().fake::<String>()
}

/// Calls `fake::faker::creditcard::en::CreditCardNumber` through `Fake::fake`.
/// Trusted: the value is formatted from random numbers and list entries by a
/// format with no brace in its output, so it is non-empty and holds no brace.
/// It is 13, 15 or 16 digits: a prefix digit or two, random digits and a check
/// digit.
#[verifier::external_body]
pub(crate) fn fake_credit_card() -> (r: String)
    ensures
        plain_text(r@),
        13 <= r@.len() <= 16,
        forall|i: int| 0 <= i < r@.len() ==> is_digit(#[trigger] r@[i]),
{
    fake::faker::creditcard::en::CreditCardNumber().fake::<String>()
}

/// Calls `fake::faker::currency::en::CurrencyCode` through `Fake::fake`.
/// Trusted: the value is an entry of the locale's list, and no entry is empty
/// or holds a brace. Every currency code of the locale is three upper-case
/// ASCII letters.
#[verifier::external_body]
pub(crate) fn fake_currency_code() -> (r: String)
    ensures
        plain_text(r@),
        upper_code(r@, 3),
{
    fake::faker::currency::en::CurrencyCode().fake::<String>()
}

/// Calls `fake::faker::currency::en::CurrencyName` through `Fake::fake`.
/// Trusted: the value is an entry of the locale's list, and no entry is empty
/// or holds a brace. All the locale's currency names begin with an upper-case
/// ASCII letter.
#[verifier::external_body]
pub(crate) fn fake_currency_name() -> (r: String)
    ensures
        plain_text(r@),
        is_upper(r@[0]),
{
    fake::faker::currency::en::CurrencyName().fake::<String>()
}

/// Calls `fake::faker::currency::en::CurrencySymbol` through `Fake::fake`.
/// Trusted: the value is an entry of the locale's list, and no entry is empty
/// or holds a brace. It is one of the locale's currency symbols.
#[verifier::external_body]
pub(crate) fn fake_currency_symbol() -> (r: String)
    ensures
        plain_text(r@),
        one_of(r@, currency_symbols()),
{
    fake::faker::currency::en::CurrencySymbol().fake::<String>()
}

/// Calls `fake::faker::finance::en::Bic` through `Fake::fake`. Trusted: the
/// value is formatted from random numbers and list entries by a format with no
/// brace in its output, so it is non-empty and holds no brace. It is eight or
/// eleven upper-case letters and digits.
#[verifier::external_body]
pub(crate) fn fake_bic() -> (r: String)
    ensures
        plain_text(r@),
        code_text(r@, 8) || code_text(r@, 11),
{
    fake::faker::finance::en::Bic().fake::<String>()
}

/// Calls `fake::faker::finance::en::Isin` through `Fake::fake`. Trusted: the
/// value is formatted from random numbers and list entries by a format with no
/// brace in its output, so it is non-empty and holds no brace. It is a
/// two-letter country code, nine upper-case letters or digits and a check
/// digit.
#[verifier::external_body]
pub(crate) fn fake_isin() -> (r: String)
    ensures
        plain_text(r@),
        code_text(r@, 12),
{
    fake::faker::finance::en::Isin().fake::<String>()
}

/// Calls `fake::faker::filesystem::en::FilePath` through `Fake::fake`. Trusted:
/// the value is formatted from random numbers and list entries by a format with
/// no brace in its output, so it is non-empty and holds no brace. It starts
/// from one of the locale's root directories, each beginning with `/`.
#[verifier::external_body]
pub(crate) fn fake_file_path() -> (r: String)
    ensures
        plain_text(r@),
        starts_with(r@, "/"@),
{
    fake::faker::filesystem::en::FilePath().fake::<String>()
}

/// Calls `fake::faker::filesystem::en::FileName` through `Fake::fake`. Trusted:
/// the value is formatted from random numbers and list entries by a format with
/// no brace in its output, so it is non-empty and holds no brace. It is a path
/// segment, `.` and an extension.
#[verifier::external_body]
pub(crate) fn fake_file_name() -> (r: String)
    ensures
        plain_text(r@),
        r@.contains('.'),
{
    fake::faker::filesystem::en::FileName().fake::<String>()
}

/// Calls `fake::faker::filesystem::en::FileExtension` through `Fake::fake`.
/// Trusted: the value is an entry of the locale's list, and no entry is empty
/// or holds a brace. It is one of the locale's file extensions.
#[verifier::external_body]
pub(crate) fn fake_file_extension() -> (r: String)
    ensures
        plain_text(r@),
        one_of(r@, file_extensions()),
{
    fake::faker::filesystem::en::FileExtension().fake::<String>()
}

/// Calls `fake::faker::filesystem::en::DirPath` through `Fake::fake`. Trusted:
/// the value is formatted from random numbers and list entries by a format with
/// no brace in its output, so it is non-empty and holds no brace. It starts
/// from one of the locale's root directories, each beginning with `/`.
#[verifier::external_body]
pub(crate) fn fake_dir_path() -> (r: String)
    ensures
        plain_text(r@),
        starts_with(r@, "/"@),
{
    fake::faker::filesystem::en::DirPath().fake::<String>()
}

/// Calls `fake::faker::filesystem::en::MimeType` through `Fake::fake`. Trusted:
/// the value is an entry of the locale's list, and no entry is empty or holds a
/// brace. Every MIME type of the list begins with a lower-case letter and holds
/// `/`.
#[verifier::external_body]
pub(crate) fn fake_mime_type() -> (r: String)
    ensures
        plain_text(r@),
        is_lower(r@[0]),
        r@.contains('/'),
{
    fake::faker::filesystem::en::MimeType().fake::<String>()
}

/// Calls `fake::faker::filesystem::en::Semver` through `Fake::fake`. Trusted:
/// the value is formatted from random numbers and list entries by a format with
/// no brace in its output, so it is non-empty and holds no brace. It is a
/// stable or an unstable version, three numbers joined by `.`.
#[verifier::external_body]
pub(crate) fn fake_semver() -> (r: String)
    ensures
        plain_text(r@),
        r@.contains('.'),
{
    fake::faker::filesystem::en::Semver().fake::<String>()
}

/// Calls `fake::faker::filesystem::en::SemverStable` through `Fake::fake`.
/// Trusted: the value is three small numbers (below 9, 20 and 20) in decimal
/// joined by `.`.
#[verifier::external_body]
pub(crate) fn fake_semver_stable() -> (r: String)
    ensures
        semver_text(r@),
{
    fake::faker::filesystem::en::SemverStable().fake::<String>()
}

/// Calls `fake::faker::filesystem::en::SemverUnstable` through `Fake::fake`.
/// Trusted: the value is formatted from random numbers and list entries by a
/// format with no brace in its output, so it is non-empty and holds no brace.
/// Its patch part carries `-` and a pre-release label.
#[verifier::external_body]
pub(crate) fn fake_semver_unstable() -> (r: String)
    ensures
        plain_text(r@),
        r@.contains('-'),
{
    fake::faker::filesystem::en::SemverUnstable().fake::<String>()
}

/// Calls `fake::faker::picsum::en::Image` through `Fake::fake`. Trusted: the
/// value is formatted from random numbers and list entries by a format with no
/// brace in its output, so it is non-empty and holds no brace. It is a
/// `https://picsum.photos/` URL.
#[verifier::external_body]
pub(crate) fn fake_image() -> (r: String)
    ensures
        plain_text(r@),
        starts_with(r@, "https://picsum.photos/"@),
{
    fake::faker::picsum::en::Image().fake::<String>()
}

/// Calls `fake::faker::picsum::en::ImageWithSeed` through `Fake::fake`.
/// Trusted: the value is formatted from random numbers and list entries by a
/// format with no brace in its output, so it is non-empty and holds no brace.
/// It is a `https://picsum.photos/seed/` URL.
#[verifier::external_body]
pub(crate) fn fake_image_with_seed() -> (r: String)
    ensures
        plain_text(r@),
        starts_with(r@, "https://picsum.photos/seed/"@),
{
    fake::faker::picsum::en::ImageWithSeed().fake::<String>()
}

/// Calls `fake::faker::picsum::en::ImageGrayscale` through `Fake::fake`.
/// Trusted: the value is formatted from random numbers and list entries by a
/// format with no brace in its output, so it is non-empty and holds no brace.
/// It is a `https://picsum.photos/` URL ending in `?grayscale`.
#[verifier::external_body]
pub(crate) fn fake_image_grayscale() -> (r: String)
    ensures
        plain_text(r@),
        starts_with(r@, "https://picsum.photos/"@),
        ends_with(r@, "?grayscale"@),
{
    fake::faker::picsum::en::ImageGrayscale().fake::<String>()
}

/// Calls `fake::faker::picsum::en::ImageBlur` through `Fake::fake`. Trusted:
/// the value is formatted from random numbers and list entries by a format with
/// no brace in its output, so it is non-empty and holds no brace. It is a
/// `https://picsum.photos/` URL.
#[verifier::external_body]
pub(crate) fn fake_image_blur() -> (r: String)
    ensures
        plain_text(r@),
        starts_with(r@, "https://picsum.photos/"@),
{
    fake::faker::picsum::en::ImageBlur().fake::<String>()
}

/// Calls `fake::faker::color::en::HexColor` through `Fake::fake`. Trusted: the
/// value is `random_color`'s `to_hex`, `#` and three bytes as `{:02x}`.
#[verifier::external_body]
pub(crate) fn fake_hex_color() -> (r: String)
    ensures
        hex_color_text(r@),
{
    fake::faker::color::en::HexColor().fake::<String>()
}

/// Calls `fake::faker::color::en::RgbColor` through `Fake::fake`. Trusted: the
/// value is formatted from random numbers and list entries by a format with no
/// brace in its output, so it is non-empty and holds no brace. It is
/// `random_color`'s `to_rgb_string`, `rgb(..)`.
#[verifier::external_body]
pub(crate) fn fake_rgb_color() -> (r: String)
    ensures
        plain_text(r@),
        starts_with(r@, "rgb("@),
        ends_with(r@, ")"@),
{
    fake::faker::color::en::RgbColor().fake::<String>()
}

/// Calls `fake::faker::color::en::RgbaColor` through `Fake::fake`. Trusted: the
/// value is formatted from random numbers and list entries by a format with no
/// brace in its output, so it is non-empty and holds no brace. It is
/// `random_color`'s `to_rgba_string`, `rgba(..)`.
#[verifier::external_body]
pub(crate) fn fake_rgba_color() -> (r: String)
    ensures
        plain_text(r@),
        starts_with(r@, "rgba("@),
        ends_with(r@, ")"@),
{
    fake::faker::color::en::RgbaColor().fake::<String>()
}

/// Calls `fake::faker::color::en::HslColor` through `Fake::fake`. Trusted: the
/// value is formatted from random numbers and list entries by a format with no
/// brace in its output, so it is non-empty and holds no brace. It is
/// `random_color`'s `to_hsl_string`, `hsl(..)`.
#[verifier::external_body]
pub(crate) fn fake_hsl_color() -> (r: String)
    ensures
        plain_text(r@),
        starts_with(r@, "hsl("@),
        ends_with(r@, ")"@),
{
    fake::faker::color::en::HslColor().fake::<String>()
}

/// Calls `fake::faker::color::en::HslaColor` through `Fake::fake`. Trusted: the
/// value is formatted from random numbers and list entries by a format with no
/// brace in its output, so it is non-empty and holds no brace. It is
/// `random_color`'s `to_hsla_string`, which also writes `hsl(..)`.
#[verifier::external_body]
pub(crate) fn fake_hsla_color() -> (r: String)
    ensures
        plain_text(r@),
        starts_with(r@, "hsl("@),
        ends_with(r@, ")"@),
{
    fake::faker::color::en::HslaColor().fake::<String>()
}

/// Calls `fake::faker::color::en::Color` through `Fake::fake`. Trusted: the
/// value is formatted from random numbers and list entries by a format with no
/// brace in its output, so it is non-empty and holds no brace. It begins with
/// the colour's `to_hex`, `#` and six hexadecimal digits.
#[verifier::external_body]
pub(crate) fn fake_color() -> (r: String)
    ensures
        plain_text(r@),
        starts_with(r@, "#"@),
{
    fake::faker::color::en::Color().fake::<String>()
}

/// Calls `fake::faker::http::en::RfcStatusCode` through `Fake::fake`. Trusted:
/// the value is an `http::StatusCode` from the RFC list, displayed as its
/// three-digit code, a space and its reason; no reason holds a brace.
#[verifier::external_body]
pub(crate) fn fake_rfc_status_code() -> (r: String)
    ensures
        status_text(r@),
        plain_text(r@),
{
    fake::faker::http::en::RfcStatusCode().fake::<String>()
}

/// Calls `fake::faker::http::en::ValidStatusCode` through `Fake::fake`.
/// Trusted: the value is the `http::StatusCode` of a code from 100 to 599,
/// displayed as its three-digit code, a space and its reason; no reason holds a
/// brace.
#[verifier::external_body]
pub(crate) fn fake_valid_status_code() -> (r: String)
    ensures
        status_text(r@),
        plain_text(r@),
{
    fake::faker::http::en::ValidStatusCode().fake::<String>()
}

/// Calls `fake::faker::chrono::en::Date` through `Fake::fake`. Trusted: the
/// value is formatted from random numbers and list entries by a format with no
/// brace in its output, so it is non-empty and holds no brace. It is formatted
/// by `%F`, year, month and day joined by `-`.
#[verifier::external_body]
pub(crate) fn fake_chrono_date() -> (r: String)
    ensures
        plain_text(r@),
        r@.contains('-'),
        !r@.contains(':'),
{
    fake::faker::chrono::en::Date().fake::<String>()
}

/// Calls `fake::faker::chrono::en::Time` through `Fake::fake`. Trusted: the
/// value is formatted from random numbers and list entries by a format with no
/// brace in its output, so it is non-empty and holds no brace. It is formatted
/// by `%H:%M:%S%.f`.
#[verifier::external_body]
pub(crate) fn fake_chrono_time() -> (r: String)
    ensures
        plain_text(r@),
        r@.contains(':'),
        !r@.contains('-'),
{
    fake::faker::chrono::en::Time().fake::<String>()
}

/// Calls `fake::faker::chrono::en::DateTime` through `Fake::fake`. Trusted: the
/// value is formatted from random numbers and list entries by a format with no
/// brace in its output, so it is non-empty and holds no brace. It is formatted
/// by `%+`, date and time joined by `T`.
#[verifier::external_body]
pub(crate) fn fake_chrono_date_time() -> (r: String)
    ensures
        plain_text(r@),
        r@.contains('T'),
        r@.contains(':'),
{
    fake::faker::chrono::en::DateTime().fake::<String>()
}

/// Calls `fake::faker::time::en::Date` through `Fake::fake`. Trusted: the value
/// is formatted from random numbers and list entries by a format with no brace
/// in its output, so it is non-empty and holds no brace. It is formatted as
/// `[year]-[month]-[day]`.
#[verifier::external_body]
pub(crate) fn fake_time_date() -> (r: String)
    ensures
        plain_text(r@),
        r@.contains('-'),
        !r@.contains(':'),
{
    fake::faker::time::en::Date().fake::<String>()
}

/// Calls `fake::faker::time::en::Time` through `Fake::fake`. Trusted: the value
/// is formatted from random numbers and list entries by a format with no brace
/// in its output, so it is non-empty and holds no brace. It is formatted as
/// `[hour]:[minute]:[second][subsecond]`.
#[verifier::external_body]
pub(crate) fn fake_time_time() -> (r: String)
    ensures
        plain_text(r@),
        r@.contains(':'),
        !r@.contains('-'),
{
    fake::faker::time::en::Time().fake::<String>()
}

/// Calls `fake::faker::time::en::DateTime` through `Fake::fake`. Trusted: the
/// value is formatted from random numbers and list entries by a format with no
/// brace in its output, so it is non-empty and holds no brace. It is formatted
/// with the date and the time joined by `T`.
#[verifier::external_body]
pub(crate) fn fake_time_date_time() -> (r: String)
    ensures
        plain_text(r@),
        r@.contains('T'),
        r@.contains(':'),
{
    fake::faker::time::en::DateTime().fake::<String>()
}

/// Calls `fake::uuid::UUIDv4` through `Fake::fake`. Trusted: the value is a
/// version-4 UUID in the `uuid` crate's lower-case hyphenated form.
#[verifier::external_body]
pub(crate) fn fake_uuid_v4() -> (r: String)
    ensures
        uuid_text(r@, '4'),
{
    fake::uuid::UUIDv4.fake::<String>()
}

/// Calls `fake::uuid::UUIDv1` through `Fake::fake`. Trusted: the value is a
/// version-1 UUID in the `uuid` crate's lower-case hyphenated form.
#[verifier::external_body]
pub(crate) fn fake_uuid_v1() -> (r: String)
    ensures
        uuid_text(r@, '1'),
{
    fake::uuid::UUIDv1.fake::<String>()
}

/// Calls `fake::uuid::UUIDv3` through `Fake::fake`. Trusted: the value is a
/// version-3 UUID in the `uuid` crate's lower-case hyphenated form.
#[verifier::external_body]
pub(crate) fn fake_uuid_v3() -> (r: String)
    ensures
        uuid_text(r@, '3'),
{
    fake::uuid::UUIDv3.fake::<String>()
}

/// Calls `fake::uuid::UUIDv5` through `Fake::fake`. Trusted: the value is a
/// version-5 UUID in the `uuid` crate's lower-case hyphenated form.
#[verifier::external_body]
pub(crate) fn fake_uuid_v5() -> (r: String)
    ensures
        uuid_text(r@, '5'),
{
    fake::uuid::UUIDv5.fake::<String>()
}

/// Calls `fake::uuid::UUIDv6` through `Fake::fake`. Trusted: the value is a
/// version-6 UUID in the `uuid` crate's lower-case hyphenated form.
#[verifier::external_body]
pub(crate) fn fake_uuid_v6() -> (r: String)
    ensures
        uuid_text(r@, '6'),
{
    fake::uuid::UUIDv6.fake::<String>()
}

/// Calls `fake::uuid::UUIDv7` through `Fake::fake`. Trusted: the value is a
/// version-7 UUID in the `uuid` crate's lower-case hyphenated form.
#[verifier::external_body]
pub(crate) fn fake_uuid_v7() -> (r: String)
    ensures
        uuid_text(r@, '7'),
{
    fake::uuid::UUIDv7.fake::<String>()
}

/// Calls `fake::uuid::UUIDv8` through `Fake::fake`. Trusted: the value is a
/// version-8 UUID in the `uuid` crate's lower-case hyphenated form.
#[verifier::external_body]
pub(crate) fn fake_uuid_v8() -> (r: String)
    ensures
        uuid_text(r@, '8'),
{
    fake::uuid::UUIDv8.fake::<String>()
}

} // verus!
