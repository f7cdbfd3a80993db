//! Rendering of numbers, durations and instants as text.
use vstd::prelude::*;

verus! {

pub open spec fn digit_char(d: nat) -> char {
    if d == 0 { '0' }
    else if d == 1 { '1' }
    else if d == 2 { '2' }
    else if d == 3 { '3' }
    else if d == 4 { '4' }
    else if d == 5 { '5' }
    else if d == 6 { '6' }
    else if d == 7 { '7' }
    else if d == 8 { '8' }
    else { '9' }
}

/// Base-ten digits of `n`, most significant first, without leading zeros.
pub open spec fn decimal(n: nat) -> Seq<char>
    decreases n,
{
    if n < 10 {
        seq![digit_char(n)]
    } else {
        decimal(n / 10).push(digit_char(n % 10))
    }
}

/// Base-ten text of an integer, with a leading `-` when it is negative.
pub open spec fn signed_decimal(x: int) -> Seq<char> {
    if x < 0 {
        seq!['-'] + decimal((-x) as nat)
    } else {
        decimal(x as nat)
    }
}

/// A duration in milliseconds as whole hours and the remaining whole minutes,
/// `h:m`, both truncated.
pub open spec fn hours_minutes(ms: nat) -> Seq<char> {
    decimal(ms / 60000 / 60) + seq![':'] + decimal(ms / 60000 % 60)
}

/// The text that chrono gives an instant of milliseconds since the Unix epoch,
/// in UTC; `None` where chrono cannot represent the instant.
pub uninterp spec fn utc_text(ms: i64) -> Option<Seq<char>>;

pub open spec fn opt_text(s: Option<String>) -> Option<Seq<char>> {
    match s {
        Some(t) => Some(t@),
        None => None,
    }
}

/// How an instant reads in a reply, given what chrono made of it: chrono's text,
/// or else the raw millisecond count followed by ` ms`.
pub open spec fn instant_text_from(ms: i64, formatted: Option<Seq<char>>) -> Seq<char> {
    match formatted {
        Some(t) => t,
        None => signed_decimal(ms as int) + " ms"@,
    }
}

pub open spec fn instant_text(ms: i64) -> Seq<char> {
    instant_text_from(ms, utc_text(ms))
}

/// Relies on chrono's `DateTime::from_timestamp_millis` and the `Display` of
/// `DateTime<Utc>`: the text depends on the instant alone, and chrono returns
/// `None` for an instant out of its range.
#[verifier::external_body]
fn format_utc(ms: i64) -> (r: Option<String>)
    ensures
        opt_text(r) == utc_text(ms),
{
    match chrono::DateTime::from_timestamp_millis(ms) {
        Some(d) => Some(d.to_string()),
        None => None,
    }
}

fn digit_str(d: u128) -> (r: &'static str)
    requires
        d < 10,
    ensures
        r@ == seq![digit_char(d as nat)],
{
    proof {
        reveal_strlit("0");
        reveal_strlit("1");
        reveal_strlit("2");
        reveal_strlit("3");
        reveal_strlit("4");
        reveal_strlit("5");
        reveal_strlit("6");
        reveal_strlit("7");
        reveal_strlit("8");
        reveal_strlit("9");
    }
    if d == 0 { "0" }
    else if d == 1 { "1" }
    else if d == 2 { "2" }
    else if d == 3 { "3" }
    else if d == 4 { "4" }
    else if d == 5 { "5" }
    else if d == 6 { "6" }
    else if d == 7 { "7" }
    else if d == 8 { "8" }
    else { "9" }
}

/// Appends the base-ten digits of `n`.
pub fn push_decimal(s: &mut String, n: u128)
    ensures
        final(s)@ == old(s)@ + decimal(n as nat),
    decreases n,
{
    if n >= 10 {
        push_decimal(s, n / 10);
    }
    s.append(digit_str(n % 10));
    proof {
        if n >= 10 {
            assert(decimal(n as nat) == decimal((n / 10) as nat).push(digit_char((n % 10) as nat)));
        }
    }
    assert(final(s)@ =~= old(s)@ + decimal(n as nat));
}

/// Appends the base-ten text of `x`, signed.
pub fn push_signed_decimal(s: &mut String, x: i64)
    ensures
        final(s)@ == old(s)@ + signed_decimal(x as int),
{
    if x < 0 {
        proof {
            reveal_strlit("-");
        }
        s.append("-");
        let mag: u128 = (0i128 - x as i128) as u128;
        push_decimal(s, mag);
        assert(final(s)@ =~= old(s)@ + signed_decimal(x as int));
    } else {
        push_decimal(s, x as u128);
    }
}

/// Appends a duration of `ms` milliseconds as `h:m`.
pub fn push_hours_minutes(s: &mut String, ms: u128)
    ensures
        final(s)@ == old(s)@ + hours_minutes(ms as nat),
{
    let minutes = ms / 60000;
    push_decimal(s, minutes / 60);
    proof {
        reveal_strlit(":");
    }
    s.append(":");
    push_decimal(s, minutes % 60);
    assert(final(s)@ =~= old(s)@ + hours_minutes(ms as nat));
}

/// The reply text of an instant, given chrono's rendering of it (or its absence).
pub fn instant_text_of(ms: i64, formatted: Option<String>) -> (r: String)
    ensures
        r@ == instant_text_from(ms, opt_text(formatted)),
{
    match formatted {
        Some(t) => t,
        None => {
            let mut s = String::new();
            push_signed_decimal(&mut s, ms);
            proof {
                reveal_strlit(" ms");
            }
            s.append(" ms");
            assert(s@ =~= instant_text_from(ms, opt_text(formatted)));
            s
        },
    }
}

/// The reply text of an instant of milliseconds since the Unix epoch.
pub fn format_instant(ms: i64) -> (r: String)
    ensures
        r@ == instant_text(ms),
{
    instant_text_of(ms, format_utc(ms))
}

} // verus!
