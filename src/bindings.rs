//! Calls into outside crates, each behind a contract.
use chrono::Datelike;
use vstd::prelude::*;

use crate::table::texts;

verus! {

/// Unix seconds of a `YYYY-MM-DD HH:MM:SS` wall-clock text read as UTC, or
/// `None` when the text does not have that shape or names no such instant.
pub uninterp spec fn wall_time_of(s: Seq<char>) -> Option<i64>;

/// Relies on chrono's `NaiveDateTime::parse_from_str` with the format
/// `%Y-%m-%d %H:%M:%S`, then `and_utc().timestamp()`: the result depends on
/// the text alone.
#[verifier::external_body]
pub(crate) fn parse_wall_time(s: &str) -> (r: Option<i64>)
    ensures
        r == wall_time_of(s@),
{
    match chrono::NaiveDateTime::parse_from_str(s, "%Y-%m-%d %H:%M:%S") {
        Ok(t) => Some(t.and_utc().timestamp()),
        Err(_) => None,
    }
}

/// Texts under the elements that a CSS selector picks, in document order,
/// each element's text nodes in turn; empty when the selector does not parse.
pub uninterp spec fn selected_texts_of(html: Seq<char>, selector: Seq<char>) -> Seq<Seq<char>>;

/// Relies on scraper's `Html::parse_document`, `Selector::parse`,
/// `Html::select` and `ElementRef::text`: the texts depend on the document
/// and the selector alone.
#[verifier::external_body]
pub(crate) fn select_texts(html: &str, selector: &str) -> (r: Vec<String>)
    ensures
        texts(r@) == selected_texts_of(html@, selector@),
{
    let doc = scraper::Html::parse_document(html);
    let mut out = Vec::new();
    if let Ok(sel) = scraper::Selector::parse(selector) {
        for e in doc.select(&sel) {
            for t in e.text() {
                out.push(t.to_string());
            }
        }
    }
    out
}

/// Values of attribute `attr` on the elements that a CSS selector picks, in
/// document order, skipping elements without it; empty when the selector does
/// not parse.
pub uninterp spec fn selected_attrs_of(html: Seq<char>, selector: Seq<char>, attr: Seq<char>) -> Seq<Seq<char>>;

/// Relies on scraper's `Html::parse_document`, `Selector::parse`,
/// `Html::select` and `Element::attr`: the values depend on the document, the
/// selector and the attribute name alone.
#[verifier::external_body]
pub(crate) fn select_attrs(html: &str, selector: &str, attr: &str) -> (r: Vec<String>)
    ensures
        texts(r@) == selected_attrs_of(html@, selector@, attr@),
{
    let doc = scraper::Html::parse_document(html);
    let mut out = Vec::new();
    if let Ok(sel) = scraper::Selector::parse(selector) {
        for e in doc.select(&sel) {
            if let Some(v) = e.value().attr(attr) {
                out.push(v.to_string());
            }
        }
    }
    out
}

/// The first capture group of the leftmost match of `pattern` in `text`, or
/// `None` when the pattern does not compile, does not match, or the group
/// took no part in the match.
pub uninterp spec fn capture_of(pattern: Seq<char>, text: Seq<char>) -> Option<Seq<char>>;

/// Relies on regex's `Regex::new`, `Regex::captures` and `Captures::get(1)`:
/// the capture depends on the pattern and the text alone.
#[verifier::external_body]
pub(crate) fn first_capture(pattern: &str, text: &str) -> (r: Option<String>)
    ensures
        match (r, capture_of(pattern@, text@)) {
            (Some(a), Some(b)) => a@ == b,
            (None, None) => true,
            _ => false,
        },
{
    let re = regex::Regex::new(pattern).ok()?;
    let caps = re.captures(text)?;
    let m = caps.get(1)?;
    Some(m.as_str().to_string())
}

/// Lower-case hexadecimal MD5 digest of a text's UTF-8 bytes.
pub uninterp spec fn md5_hex_of(s: Seq<char>) -> Seq<char>;

/// Relies on md5's `compute` and its `LowerHex` format: two lower-case hex
/// digits for each of the sixteen digest bytes.
#[verifier::external_body]
pub(crate) fn md5_hex(s: &str) -> (r: String)
    ensures
        r@ == md5_hex_of(s@),
        r@.len() == 32,
{
    format!("{:x}", md5::compute(s))
}

/// Year, month and day of the UTC calendar day holding a Unix second, or
/// `None` when the instant is outside chrono's range.
pub uninterp spec fn utc_date_of(ts: i64) -> Option<(i32, u32, u32)>;

pub open spec fn valid_ymd(d: (i32, u32, u32)) -> bool {
    1 <= d.1 <= 12 && 1 <= d.2 <= crate::calendar::days_in_month_spec(d.0 as int, d.1 as int)
}

/// Relies on chrono's `DateTime::from_timestamp(ts, 0)` and `date_naive`,
/// read through `Datelike`: the day depends on the second alone, and a
/// `NaiveDate` is always a valid calendar day.
#[verifier::external_body]
pub(crate) fn utc_date(ts: i64) -> (r: Option<(i32, u32, u32)>)
    ensures
        r == utc_date_of(ts),
        r matches Some(d) ==> valid_ymd(d),
{
    let d = chrono::DateTime::from_timestamp(ts, 0)?.date_naive();
    Some((d.year(), d.month(), d.day()))
}

/// Relies on std's `SystemTime::now` and `SystemTime::duration_since` with
/// `UNIX_EPOCH`: the whole seconds since the epoch, or `None` when the clock
/// reads before it. Nothing is promised of the value: it is the time.
#[verifier::external_body]
pub(crate) fn unix_seconds() -> (r: Option<u64>)
{
    match std::time::SystemTime::now().duration_since(std::time::UNIX_EPOCH) {
        Ok(d) => Some(d.as_secs()),
        Err(_) => None,
    }
}

} // verus!
