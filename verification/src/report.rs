//! The names of the files that a run reads and writes, and the record that
//! it leaves of its duration.

use vstd::prelude::*;
use vstd::string::*;

verus! {

/// The ten decimal digits.
pub open spec fn digits() -> Seq<char> {
    seq!['0', '1', '2', '3', '4', '5', '6', '7', '8', '9']
}

/// The decimal numeral of `n`, without leading zeros.
pub open spec fn decimal(n: nat) -> Seq<char>
    decreases n,
{
    if n < 10 {
        seq![digits()[n as int]]
    } else {
        decimal(n / 10).push(digits()[(n % 10) as int])
    }
}

/// The name of the file that holds the keys of peer `index`: `prefix`
/// followed by the index.
pub open spec fn keys_file(prefix: Seq<char>, index: nat) -> Seq<char> {
    prefix + decimal(index)
}

/// The name of the log file of peer `index`.
pub open spec fn log_file(index: nat) -> Seq<char> {
    "log-sign-"@ + decimal(index) + ".log"@
}

/// The name of the file that gathers the durations of sessions of `capacity` peers.
pub open spec fn csv_file(capacity: nat) -> Seq<char> {
    "exp-sign-"@ + decimal(capacity) + ".csv"@
}

/// The digit `d` as text.
fn digit_str(d: u32) -> (text: &'static str)
    requires
        d < 10,
    ensures
        text@ == seq![digits()[d as int]],
{
    proof {
        reveal_strlit("0");
        reveal_strlit("1");
        reveal_strlit("2");
        reveal_strlit("3");
        reveal_strlit("4");
        reveal_strlit("5");
        reveal_strlit("6");
        reveal_strlit("7");
        reveal_strlit("8");
        reveal_strlit("9");
    }
    let text = if d == 0 {
        "0"
    } else if d == 1 {
        "1"
    } else if d == 2 {
        "2"
    } else if d == 3 {
        "3"
    } else if d == 4 {
        "4"
    } else if d == 5 {
        "5"
    } else if d == 6 {
        "6"
    } else if d == 7 {
        "7"
    } else if d == 8 {
        "8"
    } else {
        "9"
    };
    assert(text@ =~= seq![digits()[d as int]]);
    text
}

/// Appends the decimal numeral of `n` to `text`.
pub fn push_decimal(text: &mut String, n: u32)
    ensures
        final(text)@ == old(text)@ + decimal(n as nat),
    decreases n,
{
    if n >= 10 {
        push_decimal(text, n / 10);
    }
    text.append(digit_str(n % 10));
    assert(text@ =~= old(text)@ + decimal(n as nat));
}

/// The name of the file that holds the keys of peer `index`.
pub fn keys_file_name(prefix: &str, index: u32) -> (name: String)
    ensures
        name@ == keys_file(prefix@, index as nat),
{
    let mut name = String::from_str(prefix);
    push_decimal(&mut name, index);
    name
}

/// The name of the log file of peer `index`.
pub fn log_file_name(index: u32) -> (name: String)
    ensures
        name@ == log_file(index as nat),
{
    let mut name = String::from_str("log-sign-");
    push_decimal(&mut name, index);
    name.append(".log");
    name
}

/// The name of the file that gathers the durations of sessions of
/// `capacity` peers.
pub fn csv_file_name(capacity: u32) -> (name: String)
    ensures
        name@ == csv_file(capacity as nat),
{
    let mut name = String::from_str("exp-sign-");
    push_decimal(&mut name, capacity);
    name.append(".csv");
    name
}

/// One row of the durations file.
#[derive(Clone, Copy, Debug, PartialEq, Eq, Structural)]
pub struct Record {
    /// The index of the peer.
    pub index: u32,
    /// The duration of the session in milliseconds, as far as 32 bits hold it.
    pub millis: u32,
}

/// The record of a session of peer `index` that took `elapsed`
/// milliseconds. A duration that 32 bits cannot hold is cut to its low 32 bits.
pub fn record(index: u32, elapsed: u128) -> (row: Record)
    ensures
        row.index == index,
        row.millis == elapsed % 0x1_0000_0000,
{
    let low: u128 = elapsed % 0x1_0000_0000;
    Record { index, millis: low as u32 }
}

} // verus!
