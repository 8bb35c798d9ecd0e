//! The calls into other crates, each behind a function that says what the call returns.
use chrono::{DateTime, Datelike, NaiveDate};
use percent_encoding::percent_decode_str;
use regex::Regex;
use reqwest::cookie::{CookieStore, Jar};
use tokio_tungstenite::tungstenite::client::IntoClientRequest;
use url::Url;
use vstd::prelude::*;
use vstd::utf8::encode_utf8;

verus! {

// ---------------------------------------------------------------- cookies

/// `reqwest::cookie::Jar`: the cookies of a session, kept behind a lock.
#[verifier::external_type_specification]
#[verifier::external_body]
pub struct ExJar(Jar);

/// What a jar was made with: a cookie and the site that it is for, or nothing. What a jar holds
/// later on depends on the replies that come, behind its lock.
pub uninterp spec fn jar_seed(jar: Jar) -> Option<(Seq<char>, Seq<char>)>;

/// `Jar::default`: a jar that is made with nothing.
#[verifier::external_body]
pub(crate) fn new_jar() -> (jar: Jar)
    ensures
        jar_seed(jar) is None,
{
    Jar::default()
}

/// The address of the classroom service.
pub const CLASSROOM_SITE: &'static str = "https://classroom.zju.edu.cn";

/// The address of the problem set service.
pub const PINTIA_SITE: &'static str = "https://pintia.cn/";

/// `Jar::add_cookie_str` on a new jar, for a site whose address parses: a jar that is made with
/// the cookie, for that site.
#[verifier::external_body]
pub(crate) fn jar_with_cookie(cookie: &str, site: &str) -> (jar: Jar)
    requires
        site@ == CLASSROOM_SITE@ || site@ == PINTIA_SITE@,
    ensures
        jar_seed(jar) == Some((cookie@, site@)),
{
    let jar = Jar::default();
    jar.add_cookie_str(cookie, &Url::parse(site).unwrap());
    jar
}

/// A jar has at some time answered the question for the cookies of a site with this header, or
/// with none. What it answers changes with the replies that fill it, so it may show several.
pub uninterp spec fn cookies_shown(
    jar: Jar,
    site: Seq<char>,
    cookies: Option<Seq<char>>,
) -> bool;

/// `CookieStore::cookies` of a jar, for a site whose address parses: the cookie header that the
/// jar now shows for the site, where there is one and it is plain text. Which header that is
/// depends on the replies that filled the jar, and is left open.
#[verifier::external_body]
pub(crate) fn cookies_for(jar: &Jar, site: &str) -> (cookies: Option<String>)
    requires
        site@ == CLASSROOM_SITE@ || site@ == PINTIA_SITE@,
    ensures
        cookies_shown(*jar, site@, cookies.deep_view()),
{
    let value = jar.cookies(&Url::parse(site).unwrap())?;
    value.to_str().ok().map(|text| text.to_string())
}

/// The words with which `reqwest::Proxy::all` refuses an address, if it does.
pub uninterp spec fn proxy_refusal(url: Seq<char>) -> Option<Seq<char>>;

/// `reqwest::Proxy::all`: parses the address of a proxy. Its verdict depends on the address
/// alone.
#[verifier::external_body]
pub(crate) fn check_proxy(url: &str) -> (refusal: Option<String>)
    ensures
        refusal.deep_view() == proxy_refusal(url@),
{
    reqwest::Proxy::all(url).err().map(|err| err.to_string())
}

/// The words with which `IntoClientRequest::into_client_request` refuses the address of a
/// socket, if it does.
pub uninterp spec fn socket_refusal(url: Seq<char>) -> Option<Seq<char>>;

/// `IntoClientRequest::into_client_request` of `tungstenite`: parses the address of a socket.
/// The request that it makes carries a random key, but whether it makes one depends on the
/// address alone.
#[verifier::external_body]
pub(crate) fn check_socket(url: &str) -> (refusal: Option<String>)
    ensures
        refusal.deep_view() == socket_refusal(url@),
{
    url.into_client_request().err().map(|err| err.to_string())
}

// ---------------------------------------------------------------- patterns

/// Finds the hidden field `execution` of the login page.
pub const EXECUTION_PATTERN: &'static str =
    r#"<input type="hidden" name="execution" value="(.*?)" />"#;

/// Finds the token among the cookies of the classroom service.
pub const TOKEN_PATTERN: &'static str = r#"\{i:\d+;s:\d+:"_token";i:\d+;s:\d+:"(.+?)";\}"#;

/// What the first group of a pattern captures in the first match of a text.
pub uninterp spec fn capture(pattern: Seq<char>, text: Seq<char>) -> Option<Seq<char>>;

/// `Regex::new` and `Regex::captures`, for a pattern that compiles: the first group of the
/// first match, which depends on the pattern and the text alone.
#[verifier::external_body]
pub(crate) fn first_capture(pattern: &str, text: &str) -> (group: Option<String>)
    requires
        pattern@ == EXECUTION_PATTERN@ || pattern@ == TOKEN_PATTERN@,
    ensures
        group.deep_view() == capture(pattern@, text@),
{
    let captures = Regex::new(pattern).unwrap().captures(text)?;
    captures.get(1).map(|group| group.as_str().to_string())
}

// ---------------------------------------------------------------- encodings

/// A text with its percent signs decoded; what is not UTF-8 then is replaced.
pub uninterp spec fn percent_decoding(text: Seq<char>) -> Seq<char>;

/// `percent_decode_str` and `decode_utf8_lossy`: depends on the text alone, and leaves a text
/// without percent signs as it is.
#[verifier::external_body]
pub(crate) fn percent_decoded(text: &str) -> (decoded: String)
    ensures
        decoded@ == percent_decoding(text@),
        !text@.contains('%') ==> decoded@ == text@,
{
    percent_decode_str(text).decode_utf8_lossy().to_string()
}

/// The path of an address, if the address parses.
pub uninterp spec fn path_of_url(url: Seq<char>) -> Option<Seq<char>>;

/// `Url::parse` and `Url::path`: depends on the address alone.
#[verifier::external_body]
pub(crate) fn url_path(url: &str) -> (path: Option<String>)
    ensures
        path.deep_view() == path_of_url(url@),
{
    Url::parse(url).ok().map(|parsed| parsed.path().to_string())
}

/// The MD5 digest of a text's UTF-8 bytes, in lower case hexadecimal.
pub uninterp spec fn md5_digest(text: Seq<char>) -> Seq<char>;

/// `md5::compute`, written out: depends on the text alone.
#[verifier::external_body]
pub(crate) fn md5_hex(text: &str) -> (digest: String)
    ensures
        digest@ == md5_digest(text@),
{
    format!("{:x}", md5::compute(text))
}

/// A hexadecimal digit in upper case.
pub open spec fn hex_char(d: nat) -> char {
    if d < 10 {
        (48 + d) as char
    } else {
        (55 + d) as char
    }
}

/// A byte as a form sends it: letters, digits and four signs stand for themselves, a space
/// becomes a plus sign, anything else is percent-encoded.
pub open spec fn form_byte(b: u8) -> Seq<char> {
    if 48 <= b <= 57 || 65 <= b <= 90 || 97 <= b <= 122 || b == 42 || b == 45 || b == 46 || b
        == 95 {
        seq![b as char]
    } else if b == 32 {
        seq!['+']
    } else {
        seq!['%', hex_char((b / 16) as nat), hex_char((b % 16) as nat)]
    }
}

/// Bytes as a form sends them.
pub open spec fn form_bytes(bytes: Seq<u8>) -> Seq<char>
    decreases bytes.len(),
{
    if bytes.len() == 0 {
        Seq::empty()
    } else {
        form_bytes(bytes.drop_last()) + form_byte(bytes.last())
    }
}

/// `url::form_urlencoded::byte_serialize` on the UTF-8 bytes of a text.
#[verifier::external_body]
pub(crate) fn form_encoded(text: &str) -> (encoded: String)
    ensures
        encoded@ == form_bytes(encode_utf8(text@)),
{
    url::form_urlencoded::byte_serialize(text.as_bytes()).collect()
}

/// A text in lower case.
pub uninterp spec fn lower_case(text: Seq<char>) -> Seq<char>;

/// `str::to_lowercase`: depends on the text alone.
#[verifier::external_body]
pub(crate) fn to_lower_case(text: &str) -> (lower: String)
    ensures
        lower@ == lower_case(text@),
{
    text.to_lowercase()
}

/// Bytes start like an image of a known format.
pub uninterp spec fn looks_like_image(bytes: Seq<u8>) -> bool;

/// `image::guess_format`: whether it knows the format, which depends on the bytes alone.
#[verifier::external_body]
pub(crate) fn known_image(bytes: &[u8]) -> (known: bool)
    ensures
        known == looks_like_image(bytes@),
{
    image::guess_format(bytes).is_ok()
}

// ---------------------------------------------------------------- dates

/// The number of the day that a text of the form `2021-05-01` names, with the first of
/// January of the year one as day one.
pub uninterp spec fn day_of_text(text: Seq<char>) -> Option<i32>;

/// The number of the first day that `NaiveDate` knows.
pub const FIRST_DAY: i32 = -95_746_129;

/// The number of the last day that `NaiveDate` knows.
pub const LAST_DAY: i32 = 95_745_399;

/// `NaiveDate::parse_from_str` and `num_days_from_ce`: depends on the text alone, and is a day
/// that `NaiveDate` knows.
#[verifier::external_body]
pub(crate) fn day_number(text: &str) -> (day: Option<i32>)
    ensures
        day == day_of_text(text@),
        day matches Some(number) ==> FIRST_DAY <= number <= LAST_DAY,
{
    NaiveDate::parse_from_str(text, "%Y-%m-%d").ok().map(|date| date.num_days_from_ce())
}

/// A day written in the form `2021-05-01`, if its number is a date's.
pub uninterp spec fn text_of_day(day: i32) -> Option<Seq<char>>;

/// `NaiveDate::from_num_days_from_ce_opt` and `format`: depends on the number alone, and every
/// day that `NaiveDate` knows can be written.
#[verifier::external_body]
pub(crate) fn day_text(day: i32) -> (text: Option<String>)
    ensures
        text.deep_view() == text_of_day(day),
        text is Some <==> FIRST_DAY <= day <= LAST_DAY,
{
    let date = NaiveDate::from_num_days_from_ce_opt(day)?;
    Some(date.format("%Y-%m-%d").to_string())
}

/// A time, in milliseconds since 1970, in the form `2026-09-19T00:00:00.000Z`, if it is in
/// range.
pub uninterp spec fn utc_of_millis(millis: i64) -> Option<Seq<char>>;

/// The first time that `DateTime` knows, in milliseconds.
pub const FIRST_MILLIS: i64 = -8_334_601_228_800_000;

/// The last time that `DateTime` knows, in milliseconds.
pub const LAST_MILLIS: i64 = 8_210_266_876_799_999;

/// `DateTime::from_timestamp_millis` and `format`: depends on the number alone, and every time
/// that `DateTime` knows can be written.
#[verifier::external_body]
pub(crate) fn utc_text(millis: i64) -> (text: Option<String>)
    ensures
        text.deep_view() == utc_of_millis(millis),
        text is Some <==> FIRST_MILLIS <= millis <= LAST_MILLIS,
{
    let time = DateTime::from_timestamp_millis(millis)?;
    Some(time.format("%Y-%m-%dT%H:%M:%S%.3fZ").to_string())
}

} // verus!
