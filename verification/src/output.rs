//! What the user is told: the report of a finished download and the texts
//! around it.

use crate::text::{decimal, digit_char, digit_str, push_decimal};
use vstd::arithmetic::power2::{lemma2_to64, pow2};
use vstd::prelude::*;

verus! {

/// The report of a download: what was fetched, where it went, how large it is.
#[derive(Debug, Clone, PartialEq, Eq)]
pub struct FileInfo {
    pub url: String,
    pub file_name: String,
    pub total_size: u64,
}

/// The name reported for an output path that has no usable file name.
pub open spec fn unknown_file_name() -> Seq<char> {
    "unknown"@
}

impl FileInfo {
    /// The report for `url`, saved under `file_name`; a missing name is
    /// reported as `unknown`.
    pub fn new(url: &str, file_name: Option<&str>, total_size: u64) -> (info: FileInfo)
        ensures
            info.url@ == url@,
            info.file_name@ == match file_name {
                Some(name) => name@,
                None => unknown_file_name(),
            },
            info.total_size == total_size,
    {
        let file_name = match file_name {
            Some(name) => String::from_str(name),
            None => String::from_str("unknown"),
        };
        FileInfo { url: String::from_str(url), file_name, total_size }
    }
}

/// The integer nearest to `n / d`; a tie goes to the even neighbour.
pub open spec fn round_half_even(n: nat, d: nat) -> nat
    recommends
        d > 0,
{
    let q = n / d;
    let r = n % d;
    if 2 * r < d {
        q
    } else if 2 * r > d {
        q + 1
    } else if q % 2 == 0 {
        q
    } else {
        q + 1
    }
}

/// Every integer below this, `2^53`, is a double-precision number.
pub const EXACT_DOUBLE_LIMIT: u64 = 0x20_0000_0000_0000;

/// The distance between neighbouring double-precision numbers around `n`: one
/// below `2^53`, and twice as much with each further bit.
pub open spec fn double_spacing(n: nat) -> nat
    decreases n,
{
    if n < EXACT_DOUBLE_LIMIT {
        1
    } else {
        2 * double_spacing(n / 2)
    }
}

/// The double-precision number nearest to `n`, ties to the even significand.
pub open spec fn nearest_double(n: nat) -> nat {
    round_half_even(n, double_spacing(n)) * double_spacing(n)
}

/// `value / unit` with two decimals, rounded half to even.
pub open spec fn two_decimals(value: nat, unit: nat) -> Seq<char>
    recommends
        unit > 0,
{
    let hundredths = round_half_even(value * 100, unit);
    decimal(hundredths / 100) + seq!['.'] + seq![
        digit_char((hundredths / 10 % 10) as int),
        digit_char((hundredths % 10) as int),
    ]
}

/// A byte count for people. Below a thousand it is exact; from there on it is
/// given in binary kilo-, mega- or gigabytes with two decimals, the unit being
/// chosen by decimal thresholds. A gigabyte figure is that of the nearest
/// double-precision number.
pub open spec fn format_bytes_text(bytes: u64) -> Seq<char> {
    if bytes < 1_000 {
        decimal(bytes as nat) + " B"@
    } else if bytes < 1_000_000 {
        two_decimals(bytes as nat, 1024) + " KB"@
    } else if bytes < 1_000_000_000 {
        two_decimals(bytes as nat, 1_048_576) + " MB"@
    } else {
        two_decimals(nearest_double(bytes as nat), 1_073_741_824) + " GB"@
    }
}

/// Exec counterpart of [`round_half_even`].
fn rounded_quotient(n: u128, d: u128) -> (q: u128)
    requires
        0 < d <= u64::MAX,
        n < u128::MAX / 4,
    ensures
        q == round_half_even(n as nat, d as nat),
        q <= n / d + 1,
{
    let q = n / d;
    let r = n % d;
    if 2 * r < d {
        q
    } else if 2 * r > d {
        q + 1
    } else if q % 2 == 0 {
        q
    } else {
        q + 1
    }
}

/// The double-precision number nearest to `n`. It may be `2^64`.
fn to_nearest_double(n: u64) -> (v: u128)
    ensures
        v == nearest_double(n as nat),
        v <= 0x1_0000_0000_0000_0000,
{
    let mut spacing: u128 = 1;
    let mut rest: u64 = n;
    let ghost mut k: nat = 0;
    proof {
        lemma2_to64();
        vstd::arithmetic::power2::lemma2_to64_rest();
    }
    while rest >= EXACT_DOUBLE_LIMIT
        invariant
            spacing == pow2(k),
            k <= 11,
            rest < pow2((64 - k) as nat),
            double_spacing(n as nat) == spacing * double_spacing(rest as nat),
        decreases rest,
    {
        proof {
            lemma2_to64();
            vstd::arithmetic::power2::lemma2_to64_rest();
            assert(k < 11);
            vstd::arithmetic::power2::lemma_pow2_unfold(k + 1);
            vstd::arithmetic::power2::lemma_pow2_unfold((64 - k) as nat);
            vstd::arithmetic::power2::lemma_pow2_strictly_increases(k, 11);
            assert(spacing * (2 * double_spacing((rest / 2) as nat)) == (spacing * 2)
                * double_spacing((rest / 2) as nat)) by (nonlinear_arith);
        }
        rest = rest / 2;
        spacing = spacing * 2;
        proof {
            k = k + 1;
        }
    }
    proof {
        lemma2_to64();
        assert(spacing * 1 == spacing) by (nonlinear_arith);
        if k < 11 {
            vstd::arithmetic::power2::lemma_pow2_strictly_increases(k, 11);
        }
        vstd::arithmetic::power2::lemma_pow2_pos(k);
    }
    let rounded = rounded_quotient(n as u128, spacing);
    proof {
        lemma_rounded_multiple_bound(n as nat, spacing as nat, k);
    }
    rounded * spacing
}

/// Rounding below `2^64` to a multiple of a power of two stays at or below
/// `2^64`.
proof fn lemma_rounded_multiple_bound(n: nat, spacing: nat, k: nat)
    requires
        n < pow2(64),
        spacing == pow2(k),
        k <= 64,
    ensures
        round_half_even(n, spacing) * spacing <= pow2(64),
{
    vstd::arithmetic::power2::lemma_pow2_pos(k);
    vstd::arithmetic::power2::lemma_pow2_adds(k, (64 - k) as nat);
    let top = pow2((64 - k) as nat);
    let q = n / spacing;
    assert(q < top) by (nonlinear_arith)
        requires
            q == n / spacing,
            n < spacing * top,
            spacing > 0,
    ;
    let rounded = round_half_even(n, spacing);
    assert(rounded <= q + 1);
    assert(rounded * spacing <= top * spacing) by (nonlinear_arith)
        requires
            rounded <= top,
            spacing > 0,
    ;
    assert(top * spacing == spacing * top) by (nonlinear_arith);
}

/// Appends `value / unit` with two decimals to `out`.
fn push_two_decimals(out: &mut String, value: u128, unit: u128)
    requires
        1024 <= unit <= u64::MAX,
        value <= 0x1_0000_0000_0000_0000,
    ensures
        final(out)@ == old(out)@ + two_decimals(value as nat, unit as nat),
{
    proof {
        reveal_strlit(".");
    }
    let hundredths: u128 = rounded_quotient(value * 100, unit);
    assert(hundredths <= 0x1_0000_0000_0000_0000) by (nonlinear_arith)
        requires
            hundredths <= (value * 100) / (unit as int) + 1,
            value <= 0x1_0000_0000_0000_0000,
            unit >= 1024,
    ;
    let whole: u64 = (hundredths / 100) as u64;
    push_decimal(out, whole);
    out.append(".");
    out.append(digit_str((hundredths / 10 % 10) as u64));
    out.append(digit_str((hundredths % 10) as u64));
    assert(out@ =~= old(out)@ + two_decimals(value as nat, unit as nat));
}

/// Renders a byte count for people: `999 B`, `1.46 KB`, `4.77 MB`, `1.86 GB`.
pub fn format_bytes(bytes: u64) -> (text: String)
    ensures
        text@ == format_bytes_text(bytes),
{
    let mut text = String::new();
    if bytes < 1_000 {
        push_decimal(&mut text, bytes);
        text.append(" B");
    } else if bytes < 1_000_000 {
        push_two_decimals(&mut text, bytes as u128, 1024);
        text.append(" KB");
    } else if bytes < 1_000_000_000 {
        push_two_decimals(&mut text, bytes as u128, 1_048_576);
        text.append(" MB");
    } else {
        let value = to_nearest_double(bytes);
        push_two_decimals(&mut text, value, 1_073_741_824);
        text.append(" GB");
    }
    assert(text@ =~= format_bytes_text(bytes));
    text
}

/// The line that greets the user.
pub open spec fn welcome_text() -> Seq<char> {
    "--- dncli: A Fast and Reliable Download Client ---"@
}

/// The lines that announce a download: its URL, its file and its size.
pub open spec fn download_start_text(info: FileInfo) -> Seq<char> {
    "Downloading: "@ + info.url@ + "\nSaving to: "@ + info.file_name@ + "\nTotal size: "@
        + format_bytes_text(info.total_size)
}

/// The lines that close a download: its file and the size fetched.
pub open spec fn download_complete_text(info: FileInfo) -> Seq<char> {
    "\nDownload of '"@ + info.file_name@ + "' complete!\nTotal size downloaded: "@
        + format_bytes_text(info.total_size)
}

/// The line that reports a failure.
pub open spec fn error_text(message: Seq<char>) -> Seq<char> {
    "\nError: "@ + message
}

/// The line that greets the user.
pub fn welcome_message() -> (text: String)
    ensures
        text@ == welcome_text(),
{
    String::from_str("--- dncli: A Fast and Reliable Download Client ---")
}

/// The lines that announce the download described by `info`.
pub fn download_start_message(info: &FileInfo) -> (text: String)
    ensures
        text@ == download_start_text(*info),
{
    let mut text = String::from_str("Downloading: ");
    text.append(info.url.as_str());
    text.append("\nSaving to: ");
    text.append(info.file_name.as_str());
    text.append("\nTotal size: ");
    text.append(format_bytes(info.total_size).as_str());
    assert(text@ =~= download_start_text(*info));
    text
}

/// The lines that close the download described by `info`.
pub fn download_complete_message(info: &FileInfo) -> (text: String)
    ensures
        text@ == download_complete_text(*info),
{
    let mut text = String::from_str("\nDownload of '");
    text.append(info.file_name.as_str());
    text.append("' complete!\nTotal size downloaded: ");
    text.append(format_bytes(info.total_size).as_str());
    assert(text@ =~= download_complete_text(*info));
    text
}

/// The line that reports the failure described by `message`.
pub fn error_message(message: &str) -> (text: String)
    ensures
        text@ == error_text(message@),
{
    let mut text = String::from_str("\nError: ");
    text.append(message);
    text
}

} // verus!
