//! Log-file status reporting: the information record handed to the UI and
//! the humane rendering of byte sizes.

use vstd::prelude::*;
use vstd::string::StringExecFns;
use crate::text::{spec_decimal, spec_digit_char, u64_to_string};

verus! {

/// What the UI shows about the agent's log file.  The path field carries a
/// fixed placeholder rather than the real location.
#[derive(Clone, Debug, PartialEq, Eq)]
pub struct LogInfo {
    pub exists: bool,
    pub path: String,
    pub size_bytes: u64,
    pub size_human: String,
    pub last_modified: String,
}

/// A byte count rendered with at most two decimals and the largest unit not
/// above gibibytes; the hundredths are rounded half-up.
pub open spec fn spec_format_file_size(bytes: nat) -> Seq<char> {
    if bytes < 1024 {
        spec_decimal(bytes) + " B"@
    } else {
        let div: nat = if bytes < 1048576 {
            1024
        } else if bytes < 1073741824 {
            1048576
        } else {
            1073741824
        };
        let unit: Seq<char> = if bytes < 1048576 {
            " KB"@
        } else if bytes < 1073741824 {
            " MB"@
        } else {
            " GB"@
        };
        let scaled = (bytes * 200 / div + 1) / 2;
        spec_decimal(scaled / 100) + "."@ + seq![
            spec_digit_char((scaled / 10) % 10),
            spec_digit_char(scaled % 10),
        ] + unit
    }
}

/// Render a byte count for humans.
pub fn format_file_size(bytes: u64) -> (r: String)
    ensures
        r@ == spec_format_file_size(bytes as nat),
{
    if bytes < 1024 {
        let r = u64_to_string(bytes).concat(" B");
        proof {
            assert(r@ =~= spec_format_file_size(bytes as nat));
        }
        return r;
    }
    let div: u64 = if bytes < 1048576 {
        1024
    } else if bytes < 1073741824 {
        1048576
    } else {
        1073741824
    };
    let unit: &'static str = if bytes < 1048576 {
        " KB"
    } else if bytes < 1073741824 {
        " MB"
    } else {
        " GB"
    };
    proof {
        assert((bytes as int) * 200 / (div as int) < 0x8000_0000_0000_0000) by (nonlinear_arith)
            requires
                bytes <= u64::MAX,
                div >= 1024,
        ;
    }
    let wide: u128 = (bytes as u128) * 200 / (div as u128);
    let scaled: u64 = ((wide + 1) / 2) as u64;
    let whole = u64_to_string(scaled / 100);
    let d1 = digit_char_of(scaled / 10 % 10);
    let d2 = digit_char_of(scaled % 10);
    let mut r = whole.concat(".");
    crate::text::push_char(&mut r, d1);
    crate::text::push_char(&mut r, d2);
    r.append(unit);
    proof {
        assert(r@ =~= spec_format_file_size(bytes as nat));
    }
    r
}

/// The decimal digit character for `d`.
fn digit_char_of(d: u64) -> (c: char)
    requires
        d < 10,
    ensures
        c == spec_digit_char(d as nat),
{
    if d == 0 { '0' }
    else if d == 1 { '1' }
    else if d == 2 { '2' }
    else if d == 3 { '3' }
    else if d == 4 { '4' }
    else if d == 5 { '5' }
    else if d == 6 { '6' }
    else if d == 7 { '7' }
    else if d == 8 { '8' }
    else { '9' }
}

/// The record for an existing log file of the given size and modification
/// time.
pub fn log_info_present(size_bytes: u64, last_modified: String) -> (r: LogInfo)
    ensures
        r.exists,
        r.path@ == "log file path"@,
        r.size_bytes == size_bytes,
        r.size_human@ == spec_format_file_size(size_bytes as nat),
        r.last_modified == last_modified,
{
    let size_human = format_file_size(size_bytes);
    LogInfo {
        exists: true,
        path: String::from_str("log file path"),
        size_bytes,
        size_human,
        last_modified,
    }
}

/// The record reported when no log file exists.
pub fn log_info_absent() -> (r: LogInfo)
    ensures
        !r.exists,
        r.path@ == "log file path"@,
        r.size_bytes == 0,
        r.size_human@ == "0 B"@,
        r.last_modified@ == "absent"@,
    {
    LogInfo {
        exists: false,
        path: String::from_str("log file path"),
        size_bytes: 0,
        size_human: String::from_str("0 B"),
        last_modified: String::from_str("absent"),
    }
}

} // verus!
