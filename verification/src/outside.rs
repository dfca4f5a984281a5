//! What the service takes from other crates: identifiers, clock readings, date texts, JSON
//! strings, digests, archive listings, media types and random bytes. Each function here makes
//! one such call; what is claimed of the call stands in its contract.
use crate::text::{is_hex_digit, text_before};
use vstd::arithmetic::power::pow;
use vstd::prelude::*;

verus! {

// ---------------------------------------------------------------------------
// Identifiers
// ---------------------------------------------------------------------------
/// The small hexadecimal digit of a value below 16.
pub open spec fn hex_lower(d: int) -> char {
    if d < 10 {
        ((48 + d) as u32) as char
    } else {
        ((87 + d) as u32) as char
    }
}

/// The `k`-th of the 32 hexadecimal digits of an identifier, from the most significant one.
pub open spec fn id_digit(id: u128, k: int) -> int {
    (id as int / pow(16, (31 - k) as nat)) % 16
}

/// An identifier in the hyphenated form: groups of 8, 4, 4, 4 and 12 small hexadecimal digits.
pub open spec fn id_text(id: u128) -> Seq<char> {
    Seq::new(
        36,
        |i: int|
            if i == 8 || i == 13 || i == 18 || i == 23 {
                '-'
            } else if i < 8 {
                hex_lower(id_digit(id, i))
            } else if i < 13 {
                hex_lower(id_digit(id, i - 1))
            } else if i < 18 {
                hex_lower(id_digit(id, i - 2))
            } else if i < 23 {
                hex_lower(id_digit(id, i - 3))
            } else {
                hex_lower(id_digit(id, i - 4))
            },
    )
}

/// The identifier that a text writes, in any of the forms that `Uuid::parse_str` reads.
pub uninterp spec fn id_value(text: Seq<char>) -> Option<u128>;

/// `Uuid::to_string` (by its `Display`) writes the hyphenated form in small letters, and
/// `Uuid::parse_str` reads that form back.
#[verifier::external_body]
pub(crate) fn format_id(id: u128) -> (r: String)
    ensures
        r@ == id_text(id),
        id_value(r@) == Some(id),
{
    uuid::Uuid::from_u128(id).to_string()
}

/// `Uuid::parse_str` gives an identifier that depends on the text alone.
#[verifier::external_body]
pub(crate) fn parse_id(text: &str) -> (r: Option<u128>)
    ensures
        r == id_value(text@),
{
    uuid::Uuid::parse_str(text).ok().map(|u| u.as_u128())
}

/// `Uuid::new_v4` gives a random identifier with the version digit 4 and the variant bits of
/// RFC 9562.
#[verifier::external_body]
pub(crate) fn fresh_id() -> (r: u128)
    ensures
        id_digit(r, 12) == 4,
        8 <= id_digit(r, 16) < 12,
{
    uuid::Uuid::new_v4().as_u128()
}

// ---------------------------------------------------------------------------
// Dates and the clock
// ---------------------------------------------------------------------------
/// The instants that a date of the calendar crate can hold. A nanosecond count of a whole second
/// or more marks a leap second, which only follows the last second of a minute.
pub open spec fn is_instant(secs: int, nanos: int) -> bool {
    &&& -8_334_601_228_800 <= secs <= 8_210_266_876_799
    &&& 0 <= nanos < 2_000_000_000
    &&& nanos >= 1_000_000_000 ==> secs % 60 == 59
}

/// The instants of the years 0 to 9999.
pub open spec fn has_four_digit_year(secs: int, nanos: int) -> bool {
    -62_167_219_200 <= secs <= 253_402_300_799 && is_instant(secs, nanos)
}

/// The RFC 3339 text of an instant, in UTC.
pub uninterp spec fn instant_text(secs: i64, nanos: u32) -> Seq<char>;

/// The instant that an RFC 3339 text writes.
pub uninterp spec fn instant_value(text: Seq<char>) -> Option<(i64, u32)>;

/// `Utc::now` reads the system clock, which stands after the start of 1970; no leap second is
/// ever reported.
#[verifier::external_body]
pub(crate) fn clock_reading() -> (r: (i64, u32))
    ensures
        is_instant(r.0 as int, r.1 as int),
        r.0 >= 0,
        r.1 < 1_000_000_000,
{
    let now = chrono::Utc::now();
    (now.timestamp(), now.timestamp_subsec_nanos())
}

/// `DateTime::to_rfc3339` gives a text that depends on the instant alone. Where the year has
/// four digits, `DateTime::parse_from_rfc3339` reads the same instant back, and texts are ordered
/// as their instants are: all parts are written with leading zeros, the parts of a second with
/// three, six or nine digits or not at all, and the offset that follows starts with a sign, which
/// comes before the point and the digits.
#[verifier::external_body]
pub(crate) fn format_instant(secs: i64, nanos: u32) -> (r: String)
    requires
        is_instant(secs as int, nanos as int),
    ensures
        r@ == instant_text(secs, nanos),
        has_four_digit_year(secs as int, nanos as int) ==> instant_value(r@) == Some((secs, nanos)),
        has_four_digit_year(secs as int, nanos as int) ==> forall|s: i64, n: u32|
            has_four_digit_year(s as int, n as int) ==> (#[trigger] text_before(
                instant_text(s, n),
                r@,
            ) <==> s < secs || (s == secs && n < nanos)),
{
    chrono::DateTime::from_timestamp(secs, nanos).unwrap().to_rfc3339()
}

/// `DateTime::parse_from_rfc3339` gives an instant that depends on the text alone.
#[verifier::external_body]
pub(crate) fn parse_instant(text: &str) -> (r: Option<(i64, u32)>)
    ensures
        r == instant_value(text@),
        r matches Some(p) ==> is_instant(p.0 as int, p.1 as int),
{
    chrono::DateTime::parse_from_rfc3339(text).ok().map(
        |t| (t.timestamp(), t.timestamp_subsec_nanos()),
    )
}

// ---------------------------------------------------------------------------
// JSON strings
// ---------------------------------------------------------------------------
/// A text that JSON writes as it is: without quotes, backslashes and control characters.
pub open spec fn is_plain(text: Seq<char>) -> bool {
    forall|i: int|
        0 <= i < text.len() ==> #[trigger] text[i] != '"' && text[i] != '\\' && text[i] as u32 >= 32
}

/// A text between quotes.
pub open spec fn quoted(text: Seq<char>) -> Seq<char> {
    seq!['"'] + text + seq!['"']
}

/// `serde_json::to_string` of a string without characters to escape writes it between quotes.
#[verifier::external_body]
pub(crate) fn json_string(text: &str) -> (r: String)
    requires
        is_plain(text@),
    ensures
        r@ == quoted(text@),
{
    serde_json::to_string(text).unwrap()
}

// ---------------------------------------------------------------------------
// Digests, archives, media types, chance
// ---------------------------------------------------------------------------
/// The SHA-1 digest of some bytes.
pub uninterp spec fn sha1_digest(data: Seq<u8>) -> Seq<u8>;

/// `Sha1::digest` gives 20 bytes that depend on the data alone.
#[verifier::external_body]
pub(crate) fn sha1_of(data: &Vec<u8>) -> (r: Vec<u8>)
    ensures
        r@ == sha1_digest(data@),
        r@.len() == 20,
{
    <sha1::Sha1 as sha1::Digest>::digest(data.as_slice()).to_vec()
}

/// The number of entries of the ZIP archive that some bytes hold, where they hold one.
pub uninterp spec fn archive_entries(data: Seq<u8>) -> Option<usize>;

/// `ZipArchive::new` on bytes in memory, and `ZipArchive::len`: whether the bytes are an archive,
/// and how many entries it lists, depends on the bytes alone.
#[verifier::external_body]
pub(crate) fn count_entries(data: &Vec<u8>) -> (r: Option<usize>)
    ensures
        r == archive_entries(data@),
{
    zip::ZipArchive::new(std::io::Cursor::new(data.as_slice())).ok().map(|a| a.len())
}

/// The type and the subtype of a media type text, where it can be read.
pub uninterp spec fn media_parts(text: Seq<char>) -> Option<(Seq<char>, Seq<char>)>;

/// `Mime::from_str`, `Mime::type_` and `Mime::subtype`: what they give depends on the text alone.
#[verifier::external_body]
pub(crate) fn parse_media(text: &str) -> (r: Option<(String, String)>)
    ensures
        match r {
            Some(p) => media_parts(text@) == Some((p.0@, p.1@)),
            None => media_parts(text@) is None,
        },
{
    text.parse::<mime::Mime>().ok().map(
        |m| (m.type_().as_str().to_string(), m.subtype().as_str().to_string()),
    )
}

/// `rand::random` gives any byte.
#[verifier::external_body]
pub(crate) fn random_byte() -> (r: u8) {
    rand::random::<u8>()
}

// ---------------------------------------------------------------------------
// Identifiers as text
// ---------------------------------------------------------------------------
/// Small hexadecimal digits are hexadecimal digits.
pub proof fn lemma_hex_lower(d: int)
    requires
        0 <= d < 16,
    ensures
        is_hex_digit(hex_lower(d)),
{
}

} // verus!
