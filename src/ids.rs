use vstd::prelude::*;

verus! {

/// What `uuid::Uuid::parse_str` makes of a text: the 128-bit value of the
/// identifier it spells, or nothing when the text is not an identifier.
pub uninterp spec fn uuid_parse(s: Seq<char>) -> Option<u128>;

/// Relies on `uuid::Uuid::new_v4` and `Uuid::as_u128`: a random version-4
/// identifier, whose version nibble is 4 and whose variant bits are `10`.
#[verifier::external_body]
pub(crate) fn random_id() -> (r: u128)
    ensures
        r & 0xf000_0000_0000_0000_0000u128 == 0x4000_0000_0000_0000_0000u128,
        r & 0xc000_0000_0000_0000u128 == 0x8000_0000_0000_0000u128,
{
    uuid::Uuid::new_v4().as_u128()
}

/// Relies on `uuid::Uuid::parse_str` and `Uuid::as_u128`: the 128-bit value
/// of the identifier that the text spells, in any of the simple, hyphenated,
/// braced and URN forms.
#[verifier::external_body]
pub(crate) fn parse_id(s: &str) -> (r: Option<u128>)
    ensures
        r == uuid_parse(s@),
{
    match uuid::Uuid::parse_str(s) {
        Ok(u) => Some(u.as_u128()),
        Err(_) => None,
    }
}

/// Relies on `chrono::Utc::now` and `DateTime::timestamp_millis`: the wall
/// clock read as milliseconds since the Unix epoch. Nothing is promised of it.
#[verifier::external_body]
pub(crate) fn now_millis() -> (r: i64) {
    chrono::Utc::now().timestamp_millis()
}

/// A character with Unicode's `White_Space` property, which is what
/// `char::is_whitespace` tests.
pub open spec fn is_white_space(c: char) -> bool {
    ('\u{9}' <= c && c <= '\u{d}') || c == ' ' || c == '\u{85}' || c == '\u{a0}' || c == '\u{1680}'
        || ('\u{2000}' <= c && c <= '\u{200a}') || c == '\u{2028}' || c == '\u{2029}' || c == '\u{202f}'
        || c == '\u{205f}' || c == '\u{3000}'
}

/// The text without its leading white space.
pub open spec fn trim_start(s: Seq<char>) -> Seq<char>
    decreases s.len(),
{
    if s.len() > 0 && is_white_space(s[0]) {
        trim_start(s.drop_first())
    } else {
        s
    }
}

/// The text without its trailing white space.
pub open spec fn trim_end(s: Seq<char>) -> Seq<char>
    decreases s.len(),
{
    if s.len() > 0 && is_white_space(s.last()) {
        trim_end(s.drop_last())
    } else {
        s
    }
}

/// The text without its leading and trailing white space.
pub open spec fn trimmed(s: Seq<char>) -> Seq<char> {
    trim_end(trim_start(s))
}

/// Relies on `str::trim` (and `str::to_string` for the copy): the text
/// without the leading and trailing characters that `char::is_whitespace`
/// accepts.
#[verifier::external_body]
pub(crate) fn trim_text(s: &str) -> (r: String)
    ensures
        r@ == trimmed(s@),
{
    s.trim().to_string()
}

} // verus!
