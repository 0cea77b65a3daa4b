//! Calendar arithmetic and formatting behind usage tracking: UTC
//! timestamps, day arithmetic for daily and weekly reports, and currency
//! symbols.  Costs themselves are computed where the reports are printed;
//! the library holds the exact parts.

use vstd::prelude::*;
use vstd::string::StrSliceExecFns;
use vstd::string::StringExecFns;

use crate::strutil::str_eq;

verus! {

/// Token usage reported with a transcription response.
#[derive(Debug, Clone)]
pub struct TokenUsage {
    pub prompt_tokens: u64,
    pub candidates_tokens: u64,
    pub total_tokens: u64,
}

impl Default for TokenUsage {
    fn default() -> (r: TokenUsage)
        ensures
            r.prompt_tokens == 0,
            r.candidates_tokens == 0,
            r.total_tokens == 0,
    {
        TokenUsage { prompt_tokens: 0, candidates_tokens: 0, total_tokens: 0 }
    }
}

/// The display symbol of a supported currency; the dollar sign for
/// anything unknown.
pub open spec fn currency_symbol_spec(code: Seq<char>) -> Seq<char> {
    if code == "USD"@ {
        "$"@
    } else if code == "EUR"@ {
        "€"@
    } else if code == "GBP"@ {
        "£"@
    } else if code == "JPY"@ {
        "¥"@
    } else if code == "INR"@ {
        "₹"@
    } else if code == "BRL"@ {
        "R$"@
    } else if code == "CNY"@ {
        "¥"@
    } else if code == "KRW"@ {
        "₩"@
    } else {
        "$"@
    }
}

/// Get the display symbol for a currency code.
pub fn currency_symbol(code: &str) -> (r: &'static str)
    ensures
        r@ == currency_symbol_spec(code@),
{
    if str_eq(code, "USD") {
        "$"
    } else if str_eq(code, "EUR") {
        "€"
    } else if str_eq(code, "GBP") {
        "£"
    } else if str_eq(code, "JPY") {
        "¥"
    } else if str_eq(code, "INR") {
        "₹"
    } else if str_eq(code, "BRL") {
        "R$"
    } else if str_eq(code, "CNY") {
        "¥"
    } else if str_eq(code, "KRW") {
        "₩"
    } else {
        "$"
    }
}

/// The Gregorian leap-year rule.
pub open spec fn is_leap_year(y: int) -> bool {
    y % 4 == 0 && (y % 100 != 0 || y % 400 == 0)
}

pub open spec fn days_in_year(y: int) -> int {
    if is_leap_year(y) {
        366
    } else {
        365
    }
}

pub open spec fn month_len(y: int, m: int) -> int {
    if m == 2 {
        if is_leap_year(y) {
            29
        } else {
            28
        }
    } else if m == 4 || m == 6 || m == 9 || m == 11 {
        30
    } else {
        31
    }
}

/// Days from 1970-01-01 to the first day of year `y`.
pub open spec fn days_before_year(y: int) -> int
    decreases y - 1970,
{
    if y <= 1970 {
        0
    } else {
        days_before_year(y - 1) + days_in_year(y - 1)
    }
}

/// Days from the first of January of `y` to the first day of month `m`.
pub open spec fn days_before_month(y: int, m: int) -> int
    decreases m,
{
    if m <= 1 {
        0
    } else {
        days_before_month(y, m - 1) + month_len(y, m - 1)
    }
}

/// Days since the Unix epoch of the civil date `(y, m, d)`.
pub open spec fn ymd_to_days(y: int, m: int, d: int) -> int {
    days_before_year(y) + days_before_month(y, m) + d - 1
}

proof fn lemma_days_before_year_lb(y: int)
    requires
        1970 <= y,
    ensures
        365 * (y - 1970) <= days_before_year(y),
    decreases y - 1970,
{
    if y > 1970 {
        lemma_days_before_year_lb(y - 1);
    }
}

proof fn lemma_year_months(y: int)
    ensures
        days_before_month(y, 13) == days_in_year(y),
{
    reveal_with_fuel(days_before_month, 14);
}

fn is_leap(y: i32) -> (r: bool)
    requires
        0 <= y,
    ensures
        r == is_leap_year(y as int),
{
    (y % 4 == 0) && (y % 100 != 0 || y % 400 == 0)
}

fn year_days(y: i32) -> (r: u64)
    requires
        0 <= y,
    ensures
        r as int == days_in_year(y as int),
{
    if is_leap(y) {
        366
    } else {
        365
    }
}

fn month_days(y: i32, m: u32) -> (r: u64)
    requires
        0 <= y,
    ensures
        r as int == month_len(y as int, m as int),
        1 <= r <= 31,
{
    if m == 2 {
        if is_leap(y) {
            29
        } else {
            28
        }
    } else if m == 4 || m == 6 || m == 9 || m == 11 {
        30
    } else {
        31
    }
}

/// Convert days since the Unix epoch to the civil date `(year, month, day)`.
///
/// The contract is the inverse property: converting the returned date back
/// to an epoch day count yields exactly the input, and the date is valid.
pub fn days_to_ymd(days: u64) -> (r: (i32, u32, u32))
    requires
        days <= 100_000_000,
    ensures
        1970 <= r.0,
        1 <= r.1 <= 12,
        1 <= r.2 as int <= month_len(r.0 as int, r.1 as int),
        ymd_to_days(r.0 as int, r.1 as int, r.2 as int) == days,
        days_before_year(r.0 as int) <= days,
{
    let mut y: i32 = 1970;
    let mut rem: u64 = days;
    while rem >= year_days(y)
        invariant
            1970 <= y,
            days <= 100_000_000,
            365 * (y as int - 1970) <= days,
            days_before_year(y as int) + rem == days,
        decreases rem,
    {
        let dy: u64 = year_days(y);
        rem = rem - dy;
        y = y + 1;
        proof {
            lemma_days_before_year_lb(y as int);
        }
    }
    let mut m: u32 = 1;
    while rem >= month_days(y, m)
        invariant
            1970 <= y,
            1 <= m <= 12,
            days_before_year(y as int) <= days,
            days_before_year(y as int) + days_before_month(y as int, m as int) + rem == days,
            days_before_month(y as int, m as int) + rem < days_in_year(y as int),
        decreases rem,
    {
        let md: u64 = month_days(y, m);
        proof {
            if m == 12 {
                lemma_year_months(y as int);
                assert(false);
            }
        }
        rem = rem - md;
        m = m + 1;
    }
    let d: u32 = (rem as u32) + 1;
    (y, m, d)
}

/// One decimal digit as a character.
pub open spec fn digit_char(d: int) -> char {
    if d == 0 {
        '0'
    } else if d == 1 {
        '1'
    } else if d == 2 {
        '2'
    } else if d == 3 {
        '3'
    } else if d == 4 {
        '4'
    } else if d == 5 {
        '5'
    } else if d == 6 {
        '6'
    } else if d == 7 {
        '7'
    } else if d == 8 {
        '8'
    } else {
        '9'
    }
}

/// Two-digit zero-padded decimal.
pub open spec fn pad2(n: int) -> Seq<char> {
    seq![digit_char(n / 10 % 10), digit_char(n % 10)]
}

/// Four-digit zero-padded decimal.
pub open spec fn pad4(n: int) -> Seq<char> {
    seq![
        digit_char(n / 1000 % 10),
        digit_char(n / 100 % 10),
        digit_char(n / 10 % 10),
        digit_char(n % 10),
    ]
}

/// `YYYY-MM-DD`.
pub open spec fn date_chars(y: int, m: int, d: int) -> Seq<char> {
    pad4(y) + seq!['-'] + pad2(m) + seq!['-'] + pad2(d)
}

/// `YYYY-MM-DDTHH:MM:SSZ` from a date and the second of the day.
pub open spec fn timestamp_chars(y: int, m: int, d: int, tod: int) -> Seq<char> {
    date_chars(y, m, d) + seq!['T'] + pad2(tod / 3600) + seq![':'] + pad2(tod % 3600 / 60)
        + seq![':'] + pad2(tod % 60) + seq!['Z']
}

fn digit_str(d: u64) -> (r: &'static str)
    requires
        d <= 9,
    ensures
        r@ =~= seq![digit_char(d as int)],
{
    let r: &'static str = match d {
        0 => "0",
        1 => "1",
        2 => "2",
        3 => "3",
        4 => "4",
        5 => "5",
        6 => "6",
        7 => "7",
        8 => "8",
        _ => "9",
    };
    proof {
        reveal_strlit("0");
        reveal_strlit("1");
        reveal_strlit("2");
        reveal_strlit("3");
        reveal_strlit("4");
        reveal_strlit("5");
        reveal_strlit("6");
        reveal_strlit("7");
        reveal_strlit("8");
        reveal_strlit("9");
    }
    r
}

fn append_pad2(out: &mut String, n: u64)
    requires
        n <= 99,
    ensures
        final(out)@ =~= old(out)@ + pad2(n as int),
{
    proof {
        vstd::arithmetic::div_mod::lemma_small_mod((n as int / 10) as nat, 10);
    }
    out.append(digit_str(n / 10));
    out.append(digit_str(n % 10));
}

fn append_pad4(out: &mut String, n: u64)
    requires
        n <= 9999,
    ensures
        final(out)@ =~= old(out)@ + pad4(n as int),
{
    proof {
        vstd::arithmetic::div_mod::lemma_small_mod((n as int / 1000) as nat, 10);
    }
    out.append(digit_str(n / 1000));
    out.append(digit_str(n / 100 % 10));
    out.append(digit_str(n / 10 % 10));
    out.append(digit_str(n % 10));
}

fn append_date(out: &mut String, y: i32, m: u32, d: u32)
    requires
        0 <= y <= 9999,
        m <= 99,
        d <= 99,
    ensures
        final(out)@ =~= old(out)@ + date_chars(y as int, m as int, d as int),
{
    append_pad4(out, y as u64);
    proof {
        reveal_strlit("-");
    }
    out.append("-");
    append_pad2(out, m as u64);
    out.append("-");
    append_pad2(out, d as u64);
}

/// Format a civil date and second-of-day as an ISO 8601 UTC timestamp.
pub fn format_timestamp_parts(y: i32, m: u32, d: u32, tod: u64) -> (r: String)
    requires
        0 <= y <= 9999,
        m <= 99,
        d <= 99,
        tod < 86400,
    ensures
        r@ =~= timestamp_chars(y as int, m as int, d as int, tod as int),
{
    let mut out: String = String::new();
    append_date(&mut out, y, m, d);
    proof {
        reveal_strlit("T");
        reveal_strlit(":");
        reveal_strlit("Z");
    }
    out.append("T");
    append_pad2(&mut out, tod / 3600);
    out.append(":");
    append_pad2(&mut out, tod % 3600 / 60);
    out.append(":");
    append_pad2(&mut out, tod % 60);
    out.append("Z");
    out
}

/// Every formatted timestamp has the fixed 20-character shape.
pub proof fn lemma_timestamp_shape(y: int, m: int, d: int, tod: int)
    ensures
        timestamp_chars(y, m, d, tod).len() == 20,
        timestamp_chars(y, m, d, tod)[4] == '-',
        timestamp_chars(y, m, d, tod)[7] == '-',
        timestamp_chars(y, m, d, tod)[10] == 'T',
        timestamp_chars(y, m, d, tod)[13] == ':',
        timestamp_chars(y, m, d, tod)[16] == ':',
        timestamp_chars(y, m, d, tod)[19] == 'Z',
{
}

/// Largest epoch-day count the formatter accepts: it keeps the year at
/// four digits with room for a full week past it.
pub const MAX_FORMAT_DAYS: u64 = 2930578;

/// Relies on std::time::SystemTime for the one non-deterministic input:
/// the number of whole seconds since the Unix epoch, zero if the clock
/// reads earlier than the epoch.  Nothing is assumed of the value.
#[verifier::external_body]
fn unix_time_secs() -> u64 {
    match std::time::SystemTime::now().duration_since(std::time::UNIX_EPOCH) {
        Ok(d) => d.as_secs(),
        Err(_) => 0,
    }
}

/// Current UTC time as `YYYY-MM-DDTHH:MM:SSZ`.
///
/// Day counts beyond the four-digit-year horizon (late in year 9992) are
/// clamped so the shape below holds for every clock reading.
pub fn chrono_now_utc() -> (r: String)
    ensures
        r@.len() == 20,
        r@[4] == '-',
        r@[7] == '-',
        r@[10] == 'T',
        r@[13] == ':',
        r@[16] == ':',
        r@[19] == 'Z',
{
    let secs: u64 = unix_time_secs();
    let days_raw: u64 = secs / 86400;
    let days: u64 = if days_raw > MAX_FORMAT_DAYS {
        MAX_FORMAT_DAYS
    } else {
        days_raw
    };
    let tod: u64 = secs % 86400;
    let (y, m, d): (i32, u32, u32) = days_to_ymd(days);
    proof {
        lemma_days_before_year_lb(y as int);
        vstd::arithmetic::div_mod::lemma_mod_bound(secs as int, 86400);
        lemma_timestamp_shape(y as int, m as int, d as int, tod as int);
    }
    format_timestamp_parts(y, m, d, tod)
}

/// Today's date as a `YYYY-MM-DD` prefix of the current timestamp.
pub fn today_prefix() -> (r: String)
    ensures
        r@.len() == 10,
        r@[4] == '-',
        r@[7] == '-',
{
    let ts: String = chrono_now_utc();
    ts.as_str().substring_char(0, 10).to_owned()
}

/// The Monday and Sunday of the week `days` falls in.  1970-01-01 was a
/// Thursday, so `(days + 3) % 7` is zero exactly on Mondays.
pub fn week_range_from_days(days: u64) -> (r: (u64, u64))
    requires
        6 <= days <= 0xffff_ffff,
    ensures
        r.0 == days - ((days + 3) % 7),
        r.1 == r.0 + 6,
        r.0 <= days,
{
    let dow: u64 = (days + 3) % 7;
    proof {
        vstd::arithmetic::div_mod::lemma_mod_bound((days + 3) as int, 7);
    }
    let monday: u64 = days - dow;
    (monday, monday + 6)
}

fn format_date(days: u64) -> (r: String)
    requires
        days <= MAX_FORMAT_DAYS + 6,
    ensures
        r@.len() == 10,
        r@[4] == '-',
        r@[7] == '-',
{
    let (y, m, d): (i32, u32, u32) = days_to_ymd(days);
    proof {
        lemma_days_before_year_lb(y as int);
    }
    let mut out: String = String::new();
    append_date(&mut out, y, m, d);
    out
}

/// This week's Monday-to-Sunday range as `YYYY-MM-DD` strings.
pub fn this_week_range() -> (r: (String, String))
    ensures
        r.0@.len() == 10,
        r.1@.len() == 10,
{
    let secs: u64 = unix_time_secs();
    let days_raw: u64 = secs / 86400;
    // A clock reading inside the epoch's first week is lifted to it, so
    // the Monday subtraction cannot reach before the epoch.
    let days: u64 = if days_raw > MAX_FORMAT_DAYS {
        MAX_FORMAT_DAYS
    } else if days_raw < 6 {
        6
    } else {
        days_raw
    };
    let (monday, sunday): (u64, u64) = week_range_from_days(days);
    (format_date(monday), format_date(sunday))
}

} // verus!
