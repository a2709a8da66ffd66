//! How balances, activity times and addresses show in reports.
use vstd::prelude::*;
use crate::text::{decimal, decimal_string, zero_padded, zero_padded_string};

verus! {

/// Decimal places shown for a token amount.
pub const SHOWN_DECIMALS: usize = 10;

/// The text that `chrono` gives for the UTC time `t` (seconds since the
/// epoch) as `YYYY-MM-DD HH:MM:SS`, if `t` is in its range.
pub uninterp spec fn utc_time_text_of(t: int) -> Option<Seq<char>>;

/// Relies on `chrono::DateTime::from_timestamp` and `format`: the text
/// depends on the timestamp alone (the time zone is always UTC).
#[verifier::external_body]
fn utc_time_text(t: i64) -> (r: Option<String>)
    ensures
        match r {
            Some(s) => utc_time_text_of(t as int) == Some(s@),
            None => utc_time_text_of(t as int) is None,
        },
{
    match chrono::DateTime::from_timestamp(t, 0) {
        Some(d) => Some(d.format("%Y-%m-%d %H:%M:%S").to_string()),
        None => None,
    }
}

/// The shortened form of an address used in reports: its first four and
/// last four characters around an ellipsis, or the whole address when it
/// is shorter than four characters.
pub open spec fn short_address_spec(a: Seq<char>) -> Seq<char> {
    if a.len() >= 4 {
        a.subrange(0, 4) + "..."@ + a.subrange(a.len() - 4, a.len() as int)
    } else {
        a
    }
}

/// Shortens an address for a report.
pub fn short_address(a: &str) -> (r: String)
    ensures
        r@ == short_address_spec(a@),
{
    let n = a.unicode_len();
    if n >= 4 {
        let mut r = String::from_str(a.substring_char(0, 4));
        r.append("...");
        r.append(a.substring_char(n - 4, n));
        r
    } else {
        String::from_str(a)
    }
}

/// Units of the last shown decimal place in one whole token.
pub const SHOWN_UNITS_PER_TOKEN: u64 = 10_000_000_000;

/// A token amount in units of the last shown decimal place: the grains
/// (eleven decimals) rounded half up to ten decimals.
pub open spec fn shown_units(grains: u64) -> nat {
    ((grains as nat + 5) / 10) as nat
}

/// A token amount given in grains, shown with ten decimals (rounded half
/// up) and the token's symbol.
pub open spec fn amount_text_spec(grains: u64) -> Seq<char> {
    decimal(shown_units(grains) / SHOWN_UNITS_PER_TOKEN as nat) + "."@ + zero_padded(
        shown_units(grains) % SHOWN_UNITS_PER_TOKEN as nat,
        SHOWN_DECIMALS as nat,
    ) + " BITZ"@
}

/// Shows a token amount given in grains.
pub fn amount_text(grains: u64) -> (r: String)
    ensures
        r@ == amount_text_spec(grains),
{
    let units = ((grains as u128 + 5) / 10) as u64;
    let whole = decimal_string(units / SHOWN_UNITS_PER_TOKEN);
    let fraction = zero_padded_string(units % SHOWN_UNITS_PER_TOKEN, SHOWN_DECIMALS);
    let mut r = whole;
    r.append(".");
    r.append(fraction.as_str());
    r.append(" BITZ");
    r
}

/// How the time of an account's last mining shows: a zero time means the
/// account never mined.
pub open spec fn activity_text_spec(t: i64) -> Seq<char> {
    if t > 0 {
        match utc_time_text_of(t as int) {
            Some(s) => s,
            None => "invalid time"@,
        }
    } else {
        "never mined"@
    }
}

/// Shows the time of an account's last mining.
pub fn activity_text(t: i64) -> (r: String)
    ensures
        r@ == activity_text_spec(t),
{
    if t > 0 {
        match utc_time_text(t) {
            Some(s) => s,
            None => String::from_str("invalid time"),
        }
    } else {
        String::from_str("never mined")
    }
}

/// One row of the status report of the check command.
pub struct AccountRow {
    pub address: String,
    pub balance: String,
    pub last_activity: String,
}

/// The row for one account: its shortened address, and its balance and
/// last activity, or "unavailable" for both when its proof could not be
/// fetched.
pub fn account_row(address: &str, fetched: &Result<(u64, i64), String>) -> (r: AccountRow)
    ensures
        r.address@ == short_address_spec(address@),
        match fetched {
            Ok((balance, last)) => r.balance@ == amount_text_spec(*balance) && r.last_activity@
                == activity_text_spec(*last),
            Err(_) => r.balance@ == "unavailable"@ && r.last_activity@ == "unavailable"@,
        },
{
    let short = short_address(address);
    match fetched {
        Ok((balance, last)) => AccountRow {
            address: short,
            balance: amount_text(*balance),
            last_activity: activity_text(*last),
        },
        Err(_) => AccountRow {
            address: short,
            balance: String::from_str("unavailable"),
            last_activity: String::from_str("unavailable"),
        },
    }
}

} // verus!
