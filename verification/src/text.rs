//! Text rendering for generated identifiers and the output artifact's file
//! name: decimal rendering of counters and epoch timestamps, and the
//! UTC compact timestamp that names a result file.

use vstd::prelude::*;

verus! {

/// The decimal digit character of one digit value.
pub open spec fn digit_char(d: int) -> char
    recommends
        0 <= d <= 9,
{
    if d == 0 {
        '0'
    } else if d == 1 {
        '1'
    } else if d == 2 {
        '2'
    } else if d == 3 {
        '3'
    } else if d == 4 {
        '4'
    } else if d == 5 {
        '5'
    } else if d == 6 {
        '6'
    } else if d == 7 {
        '7'
    } else if d == 8 {
        '8'
    } else {
        '9'
    }
}

/// The decimal representation of a non-negative integer, most significant
/// digit first, without leading zeros (a single zero for zero itself).
pub open spec fn decimal_of(n: nat) -> Seq<char>
    decreases n,
{
    if n <= 9 {
        seq![digit_char(n as int)]
    } else {
        decimal_of(n / 10).push(digit_char((n % 10) as int))
    }
}

fn digit_str(d: u64) -> (r: &'static str)
    requires
        d <= 9,
    ensures
        r@ == seq![digit_char(d as int)],
{
    proof {
        reveal_strlit("0");
        reveal_strlit("1");
        reveal_strlit("2");
        reveal_strlit("3");
        reveal_strlit("4");
        reveal_strlit("5");
        reveal_strlit("6");
        reveal_strlit("7");
        reveal_strlit("8");
        reveal_strlit("9");
    }
    match d {
        0 => "0",
        1 => "1",
        2 => "2",
        3 => "3",
        4 => "4",
        5 => "5",
        6 => "6",
        7 => "7",
        8 => "8",
        _ => "9",
    }
}

/// Renders a number in decimal.
pub fn decimal_string(n: u64) -> (r: String)
    ensures
        r@ == decimal_of(n as nat),
    decreases n,
{
    if n <= 9 {
        String::from_str(digit_str(n))
    } else {
        let mut s = decimal_string(n / 10);
        s.append(digit_str(n % 10));
        proof {
            assert(decimal_of((n / 10) as nat) + seq![digit_char((n % 10) as int)] =~= decimal_of(
                (n / 10) as nat,
            ).push(digit_char((n % 10) as int)));
        }
        s
    }
}

/// A generated identifier: the given prefix followed by the decimal epoch
/// timestamp, as used to default the scope and stream names.
pub fn generate_name(prefix: &str, epoch_seconds: u64) -> (r: String)
    ensures
        r@ == prefix@ + decimal_of(epoch_seconds as nat),
{
    let mut s = prefix.to_owned();
    let digits = decimal_string(epoch_seconds);
    s.append(digits.as_str());
    s
}

/// The `%Y%m%d_%H%M%S` rendering of an in-range UTC timestamp. It depends
/// on the epoch-second value alone; only the outside time library defines
/// its text.
pub uninterp spec fn timestamp_text_of(epoch_seconds: i64) -> Seq<char>;

/// Relies on chrono: `DateTime::<Utc>::from_timestamp` is `Some` for every
/// in-range number of seconds, and formatting the resulting UTC date-time
/// with the fixed layout `%Y%m%d_%H%M%S` is a pure function of the
/// timestamp.
#[verifier::external_body]
fn format_utc_compact(epoch_seconds: i64) -> (r: String)
    requires
        0 <= epoch_seconds <= 253402300799,
    ensures
        r@ == timestamp_text_of(epoch_seconds),
{
    let date_time = chrono::DateTime::<chrono::Utc>::from_timestamp(epoch_seconds, 0)
        .expect("timestamp in range");
    date_time.format("%Y%m%d_%H%M%S").to_string()
}

/// The name of the output artifact for a run that finished at the given UTC
/// time: `result_<timestamp>.json`.
pub open spec fn result_name_of(epoch_seconds: i64) -> Seq<char> {
    "result_"@ + timestamp_text_of(epoch_seconds) + ".json"@
}

/// Builds the output artifact's file name. The upper bound keeps the
/// timestamp within the range the time library can render (year 9999).
pub fn result_file_name(epoch_seconds: i64) -> (r: String)
    requires
        0 <= epoch_seconds <= 253402300799,
    ensures
        r@ == result_name_of(epoch_seconds),
{
    let mut s = String::from_str("result_");
    let stamp = format_utc_compact(epoch_seconds);
    s.append(stamp.as_str());
    s.append(".json");
    s
}

} // verus!
