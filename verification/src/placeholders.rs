//! The placeholder names that templates understand.

use vstd::prelude::*;
use crate::text::chars_are;

verus! {

/// A kind of fake value; several names may stand for one kind.
#[derive(Debug, Clone, Copy, PartialEq, Eq, Structural)]
pub enum Placeholder {

    /// `id`, `row`
    Id,
    /// `bool`, `boolean`
    Bool,
    /// `number`
    Number,
    /// `digit`
    Digit,
    /// `number_format`, `ssn`
    NumberFormat,
    /// `name`
    Name,
    /// `name_with_title`
    NameWithTitle,
    /// `first_name`
    FirstName,
    /// `last_name`
    LastName,
    /// `title`, `name_title`, `prefix`
    NameTitle,
    /// `suffix`, `name_suffix`
    NameSuffix,
    /// `email`, `safe_email`
    SafeEmail,
    /// `free_email`
    FreeEmail,
    /// `email_provider`, `free_email_provider`
    FreeEmailProvider,
    /// `domain_suffix`
    DomainSuffix,
    /// `username`
    Username,
    /// `password`
    Password,
    /// `ipv4`
    IPv4,
    /// `ipv6`
    IPv6,
    /// `ip`
    Ip,
    /// `mac`, `mac_address`
    MacAddress,
    /// `user_agent`
    UserAgent,
    /// `company`, `company_name`
    CompanyName,
    /// `company_suffix`
    CompanySuffix,
    /// `buzzword`
    Buzzword,
    /// `buzzword_middle`
    BuzzwordMiddle,
    /// `buzzword_tail`
    BuzzwordTail,
    /// `catch_phrase`
    CatchPhrase,
    /// `bs`
    Bs,
    /// `bs_verb`
    BsVerb,
    /// `bs_adj`
    BsAdj,
    /// `bs_noun`
    BsNoun,
    /// `profession`
    Profession,
    /// `industry`
    Industry,
    /// `job`, `job_title`
    JobTitle,
    /// `seniority`
    Seniority,
    /// `field`, `job_field`
    JobField,
    /// `position`, `job_position`
    JobPosition,
    /// `phone`, `phone_number`
    PhoneNumber,
    /// `cell`, `cell_phone`, `cell_number`
    CellNumber,
    /// `city_prefix`
    CityPrefix,
    /// `city_suffix`
    CitySuffix,
    /// `city`
    CityName,
    /// `country`
    CountryName,
    /// `country_code`
    CountryCode,
    /// `street_suffix`
    StreetSuffix,
    /// `street`, `street_name`
    StreetName,
    /// `timezone`, `time_zone`
    TimeZone,
    /// `state`, `state_name`
    StateName,
    /// `state_abbr`
    StateAbbr,
    /// `secondary_address_type`
    SecondaryAddressType,
    /// `secondary_address`
    SecondaryAddress,
    /// `zip`, `zip_code`
    ZipCode,
    /// `postcode`, `post_code`
    PostCode,
    /// `building_number`
    BuildingNumber,
    /// `latitude`
    Latitude,
    /// `longitude`
    Longitude,
    /// `geohash`
    Geohash,
    /// `word`
    Word,
    /// `words`
    Words,
    /// `sentence`
    Sentence,
    /// `sentences`
    Sentences,
    /// `paragraph`
    Paragraph,
    /// `paragraphs`
    Paragraphs,
    /// `markdown_italic`, `italic_word`
    ItalicWord,
    /// `markdown_bold`, `bold_word`
    BoldWord,
    /// `markdown_link`
    Link,
    /// `markdown_bullets`, `bullet_points`
    BulletPoints,
    /// `markdown_items`, `list_items`
    ListItems,
    /// `markdown_quote`, `blockquote`
    BlockQuote,
    /// `markdown_multiline_quote`
    MultilineQuote,
    /// `markdown_code`, `code`
    Code,
    /// `isbn`
    Isbn,
    /// `isbn10`, `isbn_10`
    Isbn10,
    /// `isbn13`, `isbn_13`
    Isbn13,
    /// `credit_card`, `credit_card_number`
    CreditCard,
    /// `currency_code`
    CurrencyCode,
    /// `currency_name`
    CurrencyName,
    /// `currency_symbol`
    CurrencySymbol,
    /// `bic`
    Bic,
    /// `isin`
    Isin,
    /// `file_path`
    FilePath,
    /// `file_name`
    FileName,
    /// `file_extension`
    FileExtension,
    /// `dir_path`
    DirPath,
    /// `mime_type`
    MimeType,
    /// `semver`
    Semver,
    /// `semver_stable`
    SemverStable,
    /// `semver_unstable`
    SemverUnstable,
    /// `image_url`, `picsum`
    Image,
    /// `image_seed_url`, `picsum_seed`
    ImageWithSeed,
    /// `image_grayscale_url`, `picsum_grayscale`
    ImageGrayscale,
    /// `image_blur_url`, `picsum_blur`
    ImageBlur,
    /// `hex_color`
    HexColor,
    /// `rgb_color`
    RgbColor,
    /// `rgba_color`
    RgbaColor,
    /// `hsl_color`
    HslColor,
    /// `hsla_color`
    HslaColor,
    /// `color`
    Color,
    /// `http_status`, `rfc_http_status`
    RfcStatusCode,
    /// `valid_http_status`
    ValidStatusCode,
    /// `date`, `chrono_date`
    ChronoDate,
    /// `time`, `chrono_time`
    ChronoTime,
    /// `datetime`, `chrono_datetime`
    ChronoDateTime,
    /// `time_date`
    TimeDate,
    /// `time_time`
    TimeTime,
    /// `time_datetime`
    TimeDateTime,
    /// `uuid`, `uuid_v4`
    UuidV4,
    /// `uuid_v1`
    UuidV1,
    /// `uuid_v3`
    UuidV3,
    /// `uuid_v5`
    UuidV5,
    /// `uuid_v6`
    UuidV6,
    /// `uuid_v7`
    UuidV7,
    /// `uuid_v8`
    UuidV8,
}

pub open spec fn placeholder_group_0(k: Seq<char>) -> Option<Placeholder> {
    if k == "id"@ || k == "row"@ {
        Some(Placeholder::Id)
    } else if k == "bool"@ || k == "boolean"@ {
        Some(Placeholder::Bool)
    } else if k == "number"@ {
        Some(Placeholder::Number)
    } else if k == "digit"@ {
        Some(Placeholder::Digit)
    } else if k == "number_format"@ || k == "ssn"@ {
        Some(Placeholder::NumberFormat)
    } else if k == "name"@ {
        Some(Placeholder::Name)
    } else if k == "name_with_title"@ {
        Some(Placeholder::NameWithTitle)
    } else if k == "first_name"@ {
        Some(Placeholder::FirstName)
    } else if k == "last_name"@ {
        Some(Placeholder::LastName)
    } else if k == "title"@ || k == "name_title"@ || k == "prefix"@ {
        Some(Placeholder::NameTitle)
    } else if k == "suffix"@ || k == "name_suffix"@ {
        Some(Placeholder::NameSuffix)
    } else if k == "email"@ || k == "safe_email"@ {
        Some(Placeholder::SafeEmail)
    } else if k == "free_email"@ {
        Some(Placeholder::FreeEmail)
    } else if k == "email_provider"@ || k == "free_email_provider"@ {
        Some(Placeholder::FreeEmailProvider)
    } else if k == "domain_suffix"@ {
        Some(Placeholder::DomainSuffix)
    } else if k == "username"@ {
        Some(Placeholder::Username)
    } else if k == "password"@ {
        Some(Placeholder::Password)
    } else if k == "ipv4"@ {
        Some(Placeholder::IPv4)
    } else if k == "ipv6"@ {
        Some(Placeholder::IPv6)
    } else if k == "ip"@ {
        Some(Placeholder::Ip)
    } else {
        None
    }
}

pub open spec fn placeholder_group_1(k: Seq<char>) -> Option<Placeholder> {
    if k == "mac"@ || k == "mac_address"@ {
        Some(Placeholder::MacAddress)
    } else if k == "user_agent"@ {
        Some(Placeholder::UserAgent)
    } else if k == "company"@ || k == "company_name"@ {
        Some(Placeholder::CompanyName)
    } else if k == "company_suffix"@ {
        Some(Placeholder::CompanySuffix)
    } else if k == "buzzword"@ {
        Some(Placeholder::Buzzword)
    } else if k == "buzzword_middle"@ {
        Some(Placeholder::BuzzwordMiddle)
    } else if k == "buzzword_tail"@ {
        Some(Placeholder::BuzzwordTail)
    } else if k == "catch_phrase"@ {
        Some(Placeholder::CatchPhrase)
    } else if k == "bs"@ {
        Some(Placeholder::Bs)
    } else if k == "bs_verb"@ {
        Some(Placeholder::BsVerb)
    } else if k == "bs_adj"@ {
        Some(Placeholder::BsAdj)
    } else if k == "bs_noun"@ {
        Some(Placeholder::BsNoun)
    } else if k == "profession"@ {
        Some(Placeholder::Profession)
    } else if k == "industry"@ {
        Some(Placeholder::Industry)
    } else if k == "job"@ || k == "job_title"@ {
        Some(Placeholder::JobTitle)
    } else if k == "seniority"@ {
        Some(Placeholder::Seniority)
    } else if k == "field"@ || k == "job_field"@ {
        Some(Placeholder::JobField)
    } else if k == "position"@ || k == "job_position"@ {
        Some(Placeholder::JobPosition)
    } else if k == "phone"@ || k == "phone_number"@ {
        Some(Placeholder::PhoneNumber)
    } else if k == "cell"@ || k == "cell_phone"@ || k == "cell_number"@ {
        Some(Placeholder::CellNumber)
    } else {
        None
    }
}

pub open spec fn placeholder_group_2(k: Seq<char>) -> Option<Placeholder> {
    if k == "city_prefix"@ {
        Some(Placeholder::CityPrefix)
    } else if k == "city_suffix"@ {
        Some(Placeholder::CitySuffix)
    } else if k == "city"@ {
        Some(Placeholder::CityName)
    } else if k == "country"@ {
        Some(Placeholder::CountryName)
    } else if k == "country_code"@ {
        Some(Placeholder::CountryCode)
    } else if k == "street_suffix"@ {
        Some(Placeholder::StreetSuffix)
    } else if k == "street"@ || k == "street_name"@ {
        Some(Placeholder::StreetName)
    } else if k == "timezone"@ || k == "time_zone"@ {
        Some(Placeholder::TimeZone)
    } else if k == "state"@ || k == "state_name"@ {
        Some(Placeholder::StateName)
    } else if k == "state_abbr"@ {
        Some(Placeholder::StateAbbr)
    } else if k == "secondary_address_type"@ {
        Some(Placeholder::SecondaryAddressType)
    } else if k == "secondary_address"@ {
        Some(Placeholder::SecondaryAddress)
    } else if k == "zip"@ || k == "zip_code"@ {
        Some(Placeholder::ZipCode)
    } else if k == "postcode"@ || k == "post_code"@ {
        Some(Placeholder::PostCode)
    } else if k == "building_number"@ {
        Some(Placeholder::BuildingNumber)
    } else if k == "latitude"@ {
        Some(Placeholder::Latitude)
    } else if k == "longitude"@ {
        Some(Placeholder::Longitude)
    } else if k == "geohash"@ {
        Some(Placeholder::Geohash)
    } else if k == "word"@ {
        Some(Placeholder::Word)
    } else if k == "words"@ {
        Some(Placeholder::Words)
    } else {
        None
    }
}

pub open spec fn placeholder_group_3(k: Seq<char>) -> Option<Placeholder> {
    if k == "sentence"@ {
        Some(Placeholder::Sentence)
    } else if k == "sentences"@ {
        Some(Placeholder::Sentences)
    } else if k == "paragraph"@ {
        Some(Placeholder::Paragraph)
    } else if k == "paragraphs"@ {
        Some(Placeholder::Paragraphs)
    } else if k == "markdown_italic"@ || k == "italic_word"@ {
        Some(Placeholder::ItalicWord)
    } else if k == "markdown_bold"@ || k == "bold_word"@ {
        Some(Placeholder::BoldWord)
    } else if k == "markdown_link"@ {
        Some(Placeholder::Link)
    } else if k == "markdown_bullets"@ || k == "bullet_points"@ {
        Some(Placeholder::BulletPoints)
    } else if k == "markdown_items"@ || k == "list_items"@ {
        Some(Placeholder::ListItems)
    } else if k == "markdown_quote"@ || k == "blockquote"@ {
        Some(Placeholder::BlockQuote)
    } else if k == "markdown_multiline_quote"@ {
        Some(Placeholder::MultilineQuote)
    } else if k == "markdown_code"@ || k == "code"@ {
        Some(Placeholder::Code)
    } else if k == "isbn"@ {
        Some(Placeholder::Isbn)
    } else if k == "isbn10"@ || k == "isbn_10"@ {
        Some(Placeholder::Isbn10)
    } else if k == "isbn13"@ || k == "isbn_13"@ {
        Some(Placeholder::Isbn13)
    } else if k == "credit_card"@ || k == "credit_card_number"@ {
        Some(Placeholder::CreditCard)
    } else if k == "currency_code"@ {
        Some(Placeholder::CurrencyCode)
    } else if k == "currency_name"@ {
        Some(Placeholder::CurrencyName)
    } else if k == "currency_symbol"@ {
        Some(Placeholder::CurrencySymbol)
    } else if k == "bic"@ {
        Some(Placeholder::Bic)
    } else {
        None
    }
}

pub open spec fn placeholder_group_4(k: Seq<char>) -> Option<Placeholder> {
    if k == "isin"@ {
        Some(Placeholder::Isin)
    } else if k == "file_path"@ {
        Some(Placeholder::FilePath)
    } else if k == "file_name"@ {
        Some(Placeholder::FileName)
    } else if k == "file_extension"@ {
        Some(Placeholder::FileExtension)
    } else if k == "dir_path"@ {
        Some(Placeholder::DirPath)
    } else if k == "mime_type"@ {
        Some(Placeholder::MimeType)
    } else if k == "semver"@ {
        Some(Placeholder::Semver)
    } else if k == "semver_stable"@ {
        Some(Placeholder::SemverStable)
    } else if k == "semver_unstable"@ {
        Some(Placeholder::SemverUnstable)
    } else if k == "image_url"@ || k == "picsum"@ {
        Some(Placeholder::Image)
    } else if k == "image_seed_url"@ || k == "picsum_seed"@ {
        Some(Placeholder::ImageWithSeed)
    } else if k == "image_grayscale_url"@ || k == "picsum_grayscale"@ {
        Some(Placeholder::ImageGrayscale)
    } else if k == "image_blur_url"@ || k == "picsum_blur"@ {
        Some(Placeholder::ImageBlur)
    } else if k == "hex_color"@ {
        Some(Placeholder::HexColor)
    } else if k == "rgb_color"@ {
        Some(Placeholder::RgbColor)
    } else if k == "rgba_color"@ {
        Some(Placeholder::RgbaColor)
    } else if k == "hsl_color"@ {
        Some(Placeholder::HslColor)
    } else if k == "hsla_color"@ {
        Some(Placeholder::HslaColor)
    } else if k == "color"@ {
        Some(Placeholder::Color)
    } else if k == "http_status"@ || k == "rfc_http_status"@ {
        Some(Placeholder::RfcStatusCode)
    } else {
        None
    }
}

pub open spec fn placeholder_group_5(k: Seq<char>) -> Option<Placeholder> {
    if k == "valid_http_status"@ {
        Some(Placeholder::ValidStatusCode)
    } else if k == "date"@ || k == "chrono_date"@ {
        Some(Placeholder::ChronoDate)
    } else if k == "time"@ || k == "chrono_time"@ {
        Some(Placeholder::ChronoTime)
    } else if k == "datetime"@ || k == "chrono_datetime"@ {
        Some(Placeholder::ChronoDateTime)
    } else if k == "time_date"@ {
        Some(Placeholder::TimeDate)
    } else if k == "time_time"@ {
        Some(Placeholder::TimeTime)
    } else if k == "time_datetime"@ {
        Some(Placeholder::TimeDateTime)
    } else if k == "uuid"@ || k == "uuid_v4"@ {
        Some(Placeholder::UuidV4)
    } else if k == "uuid_v1"@ {
        Some(Placeholder::UuidV1)
    } else if k == "uuid_v3"@ {
        Some(Placeholder::UuidV3)
    } else if k == "uuid_v5"@ {
        Some(Placeholder::UuidV5)
    } else if k == "uuid_v6"@ {
        Some(Placeholder::UuidV6)
    } else if k == "uuid_v7"@ {
        Some(Placeholder::UuidV7)
    } else if k == "uuid_v8"@ {
        Some(Placeholder::UuidV8)
    } else {
        None
    }
}

/// The kind of fake value that a placeholder name asks for.
pub open spec fn placeholder_of(k: Seq<char>) -> Option<Placeholder> {
    match placeholder_group_0(k) {
        Some(p) => Some(p),
        None => match placeholder_group_1(k) {
        Some(p) => Some(p),
        None => match placeholder_group_2(k) {
        Some(p) => Some(p),
        None => match placeholder_group_3(k) {
        Some(p) => Some(p),
        None => match placeholder_group_4(k) {
        Some(p) => Some(p),
        None => match placeholder_group_5(k) {
        Some(p) => Some(p),
        None => None,
    },
    },
    },
    },
    },
    }
}

fn placeholder_group_0_of(k: &[char]) -> (r: Option<Placeholder>)
    ensures
        r == placeholder_group_0(k@),
{
    if chars_are(k, "id") || chars_are(k, "row") {
        Some(Placeholder::Id)
    } else if chars_are(k, "bool") || chars_are(k, "boolean") {
        Some(Placeholder::Bool)
    } else if chars_are(k, "number") {
        Some(Placeholder::Number)
    } else if chars_are(k, "digit") {
        Some(Placeholder::Digit)
    } else if chars_are(k, "number_format") || chars_are(k, "ssn") {
        Some(Placeholder::NumberFormat)
    } else if chars_are(k, "name") {
        Some(Placeholder::Name)
    } else if chars_are(k, "name_with_title") {
        Some(Placeholder::NameWithTitle)
    } else if chars_are(k, "first_name") {
        Some(Placeholder::FirstName)
    } else if chars_are(k, "last_name") {
        Some(Placeholder::LastName)
    } else if chars_are(k, "title") || chars_are(k, "name_title") || chars_are(k, "prefix") {
        Some(Placeholder::NameTitle)
    } else if chars_are(k, "suffix") || chars_are(k, "name_suffix") {
        Some(Placeholder::NameSuffix)
    } else if chars_are(k, "email") || chars_are(k, "safe_email") {
        Some(Placeholder::SafeEmail)
    } else if chars_are(k, "free_email") {
        Some(Placeholder::FreeEmail)
    } else if chars_are(k, "email_provider") || chars_are(k, "free_email_provider") {
        Some(Placeholder::FreeEmailProvider)
    } else if chars_are(k, "domain_suffix") {
        Some(Placeholder::DomainSuffix)
    } else if chars_are(k, "username") {
        Some(Placeholder::Username)
    } else if chars_are(k, "password") {
        Some(Placeholder::Password)
    } else if chars_are(k, "ipv4") {
        Some(Placeholder::IPv4)
    } else if chars_are(k, "ipv6") {
        Some(Placeholder::IPv6)
    } else if chars_are(k, "ip") {
        Some(Placeholder::Ip)
    } else {
        None
    }
}

fn placeholder_group_1_of(k: &[char]) -> (r: Option<Placeholder>)
    ensures
        r == placeholder_group_1(k@),
{
    if chars_are(k, "mac") || chars_are(k, "mac_address") {
        Some(Placeholder::MacAddress)
    } else if chars_are(k, "user_agent") {
        Some(Placeholder::UserAgent)
    } else if chars_are(k, "company") || chars_are(k, "company_name") {
        Some(Placeholder::CompanyName)
    } else if chars_are(k, "company_suffix") {
        Some(Placeholder::CompanySuffix)
    } else if chars_are(k, "buzzword") {
        Some(Placeholder::Buzzword)
    } else if chars_are(k, "buzzword_middle") {
        Some(Placeholder::BuzzwordMiddle)
    } else if chars_are(k, "buzzword_tail") {
        Some(Placeholder::BuzzwordTail)
    } else if chars_are(k, "catch_phrase") {
        Some(Placeholder::CatchPhrase)
    } else if chars_are(k, "bs") {
        Some(Placeholder::Bs)
    } else if chars_are(k, "bs_verb") {
        Some(Placeholder::BsVerb)
    } else if chars_are(k, "bs_adj") {
        Some(Placeholder::BsAdj)
    } else if chars_are(k, "bs_noun") {
        Some(Placeholder::BsNoun)
    } else if chars_are(k, "profession") {
        Some(Placeholder::Profession)
    } else if chars_are(k, "industry") {
        Some(Placeholder::Industry)
    } else if chars_are(k, "job") || chars_are(k, "job_title") {
        Some(Placeholder::JobTitle)
    } else if chars_are(k, "seniority") {
        Some(Placeholder::Seniority)
    } else if chars_are(k, "field") || chars_are(k, "job_field") {
        Some(Placeholder::JobField)
    } else if chars_are(k, "position") || chars_are(k, "job_position") {
        Some(Placeholder::JobPosition)
    } else if chars_are(k, "phone") || chars_are(k, "phone_number") {
        Some(Placeholder::PhoneNumber)
    } else if chars_are(k, "cell") || chars_are(k, "cell_phone") || chars_are(k, "cell_number") {
        Some(Placeholder::CellNumber)
    } else {
        None
    }
}

fn placeholder_group_2_of(k: &[char]) -> (r: Option<Placeholder>)
    ensures
        r == placeholder_group_2(k@),
{
    if chars_are(k, "city_prefix") {
        Some(Placeholder::CityPrefix)
    } else if chars_are(k, "city_suffix") {
        Some(Placeholder::CitySuffix)
    } else if chars_are(k, "city") {
        Some(Placeholder::CityName)
    } else if chars_are(k, "country") {
        Some(Placeholder::CountryName)
    } else if chars_are(k, "country_code") {
        Some(Placeholder::CountryCode)
    } else if chars_are(k, "street_suffix") {
        Some(Placeholder::StreetSuffix)
    } else if chars_are(k, "street") || chars_are(k, "street_name") {
        Some(Placeholder::StreetName)
    } else if chars_are(k, "timezone") || chars_are(k, "time_zone") {
        Some(Placeholder::TimeZone)
    } else if chars_are(k, "state") || chars_are(k, "state_name") {
        Some(Placeholder::StateName)
    } else if chars_are(k, "state_abbr") {
        Some(Placeholder::StateAbbr)
    } else if chars_are(k, "secondary_address_type") {
        Some(Placeholder::SecondaryAddressType)
    } else if chars_are(k, "secondary_address") {
        Some(Placeholder::SecondaryAddress)
    } else if chars_are(k, "zip") || chars_are(k, "zip_code") {
        Some(Placeholder::ZipCode)
    } else if chars_are(k, "postcode") || chars_are(k, "post_code") {
        Some(Placeholder::PostCode)
    } else if chars_are(k, "building_number") {
        Some(Placeholder::BuildingNumber)
    } else if chars_are(k, "latitude") {
        Some(Placeholder::Latitude)
    } else if chars_are(k, "longitude") {
        Some(Placeholder::Longitude)
    } else if chars_are(k, "geohash") {
        Some(Placeholder::Geohash)
    } else if chars_are(k, "word") {
        Some(Placeholder::Word)
    } else if chars_are(k, "words") {
        Some(Placeholder::Words)
    } else {
        None
    }
}

fn placeholder_group_3_of(k: &[char]) -> (r: Option<Placeholder>)
    ensures
        r == placeholder_group_3(k@),
{
    if chars_are(k, "sentence") {
        Some(Placeholder::Sentence)
    } else if chars_are(k, "sentences") {
        Some(Placeholder::Sentences)
    } else if chars_are(k, "paragraph") {
        Some(Placeholder::Paragraph)
    } else if chars_are(k, "paragraphs") {
        Some(Placeholder::Paragraphs)
    } else if chars_are(k, "markdown_italic") || chars_are(k, "italic_word") {
        Some(Placeholder::ItalicWord)
    } else if chars_are(k, "markdown_bold") || chars_are(k, "bold_word") {
        Some(Placeholder::BoldWord)
    } else if chars_are(k, "markdown_link") {
        Some(Placeholder::Link)
    } else if chars_are(k, "markdown_bullets") || chars_are(k, "bullet_points") {
        Some(Placeholder::BulletPoints)
    } else if chars_are(k, "markdown_items") || chars_are(k, "list_items") {
        Some(Placeholder::ListItems)
    } else if chars_are(k, "markdown_quote") || chars_are(k, "blockquote") {
        Some(Placeholder::BlockQuote)
    } else if chars_are(k, "markdown_multiline_quote") {
        Some(Placeholder::MultilineQuote)
    } else if chars_are(k, "markdown_code") || chars_are(k, "code") {
        Some(Placeholder::Code)
    } else if chars_are(k, "isbn") {
        Some(Placeholder::Isbn)
    } else if chars_are(k, "isbn10") || chars_are(k, "isbn_10") {
        Some(Placeholder::Isbn10)
    } else if chars_are(k, "isbn13") || chars_are(k, "isbn_13") {
        Some(Placeholder::Isbn13)
    } else if chars_are(k, "credit_card") || chars_are(k, "credit_card_number") {
        Some(Placeholder::CreditCard)
    } else if chars_are(k, "currency_code") {
        Some(Placeholder::CurrencyCode)
    } else if chars_are(k, "currency_name") {
        Some(Placeholder::CurrencyName)
    } else if chars_are(k, "currency_symbol") {
        Some(Placeholder::CurrencySymbol)
    } else if chars_are(k, "bic") {
        Some(Placeholder::Bic)
    } else {
        None
    }
}

fn placeholder_group_4_of(k: &[char]) -> (r: Option<Placeholder>)
    ensures
        r == placeholder_group_4(k@),
{
    if chars_are(k, "isin") {
        Some(Placeholder::Isin)
    } else if chars_are(k, "file_path") {
        Some(Placeholder::FilePath)
    } else if chars_are(k, "file_name") {
        Some(Placeholder::FileName)
    } else if chars_are(k, "file_extension") {
        Some(Placeholder::FileExtension)
    } else if chars_are(k, "dir_path") {
        Some(Placeholder::DirPath)
    } else if chars_are(k, "mime_type") {
        Some(Placeholder::MimeType)
    } else if chars_are(k, "semver") {
        Some(Placeholder::Semver)
    } else if chars_are(k, "semver_stable") {
        Some(Placeholder::SemverStable)
    } else if chars_are(k, "semver_unstable") {
        Some(Placeholder::SemverUnstable)
    } else if chars_are(k, "image_url") || chars_are(k, "picsum") {
        Some(Placeholder::Image)
    } else if chars_are(k, "image_seed_url") || chars_are(k, "picsum_seed") {
        Some(Placeholder::ImageWithSeed)
    } else if chars_are(k, "image_grayscale_url") || chars_are(k, "picsum_grayscale") {
        Some(Placeholder::ImageGrayscale)
    } else if chars_are(k, "image_blur_url") || chars_are(k, "picsum_blur") {
        Some(Placeholder::ImageBlur)
    } else if chars_are(k, "hex_color") {
        Some(Placeholder::HexColor)
    } else if chars_are(k, "rgb_color") {
        Some(Placeholder::RgbColor)
    } else if chars_are(k, "rgba_color") {
        Some(Placeholder::RgbaColor)
    } else if chars_are(k, "hsl_color") {
        Some(Placeholder::HslColor)
    } else if chars_are(k, "hsla_color") {
        Some(Placeholder::HslaColor)
    } else if chars_are(k, "color") {
        Some(Placeholder::Color)
    } else if chars_are(k, "http_status") || chars_are(k, "rfc_http_status") {
        Some(Placeholder::RfcStatusCode)
    } else {
        None
    }
}

fn placeholder_group_5_of(k: &[char]) -> (r: Option<Placeholder>)
    ensures
        r == placeholder_group_5(k@),
{
    if chars_are(k, "valid_http_status") {
        Some(Placeholder::ValidStatusCode)
    } else if chars_are(k, "date") || chars_are(k, "chrono_date") {
        Some(Placeholder::ChronoDate)
    } else if chars_are(k, "time") || chars_are(k, "chrono_time") {
        Some(Placeholder::ChronoTime)
    } else if chars_are(k, "datetime") || chars_are(k, "chrono_datetime") {
        Some(Placeholder::ChronoDateTime)
    } else if chars_are(k, "time_date") {
        Some(Placeholder::TimeDate)
    } else if chars_are(k, "time_time") {
        Some(Placeholder::TimeTime)
    } else if chars_are(k, "time_datetime") {
        Some(Placeholder::TimeDateTime)
    } else if chars_are(k, "uuid") || chars_are(k, "uuid_v4") {
        Some(Placeholder::UuidV4)
    } else if chars_are(k, "uuid_v1") {
        Some(Placeholder::UuidV1)
    } else if chars_are(k, "uuid_v3") {
        Some(Placeholder::UuidV3)
    } else if chars_are(k, "uuid_v5") {
        Some(Placeholder::UuidV5)
    } else if chars_are(k, "uuid_v6") {
        Some(Placeholder::UuidV6)
    } else if chars_are(k, "uuid_v7") {
        Some(Placeholder::UuidV7)
    } else if chars_are(k, "uuid_v8") {
        Some(Placeholder::UuidV8)
    } else {
        None
    }
}

/// The kind of fake value that the placeholder name `k` asks for.
pub fn placeholder_named(k: &[char]) -> (r: Option<Placeholder>)
    ensures
        r == placeholder_of(k@),
{
    if let Some(p) = placeholder_group_0_of(k) {
        return Some(p);
    }
    if let Some(p) = placeholder_group_1_of(k) {
        return Some(p);
    }
    if let Some(p) = placeholder_group_2_of(k) {
        return Some(p);
    }
    if let Some(p) = placeholder_group_3_of(k) {
        return Some(p);
    }
    if let Some(p) = placeholder_group_4_of(k) {
        return Some(p);
    }
    if let Some(p) = placeholder_group_5_of(k) {
        return Some(p);
    }
    None
}

} // verus!
