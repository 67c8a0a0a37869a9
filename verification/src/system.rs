//! Memory sizes for display.

use vstd::prelude::*;
use vstd::string::StringExecFns;

verus! {

/// The memory of the machine, in bytes and for display.
#[derive(Clone, Debug)]
pub struct SystemInfo {
    /// Total physical memory in bytes.
    pub total_memory_bytes: u64,
    /// Available physical memory in bytes.
    pub available_memory_bytes: u64,
    /// Total memory for display, such as `16.0 GB`.
    pub total_memory_human: String,
    /// Available memory for display.
    pub available_memory_human: String,
}

/// The bytes of a kilobyte.
pub const KB: u64 = 1024;

/// The bytes of a megabyte.
pub const MB: u64 = 1024 * 1024;

/// The bytes of a gigabyte.
pub const GB: u64 = 1024 * 1024 * 1024;

/// `n / d` rounded to the nearest integer, a tie going to the even one.
pub open spec fn nearest_even(n: int, d: int) -> int {
    let q = n / d;
    let rem = n % d;
    if 2 * rem > d || (2 * rem == d && q % 2 == 1) {
        q + 1
    } else {
        q
    }
}

/// The distance between neighbouring double-precision numbers at `n`, for
/// `n` below 2^64: 1 below 2^53, and doubling with every further bit.
pub open spec fn spacing(n: int) -> int {
    if n < 0x20_0000_0000_0000 {
        1
    } else if n < 0x40_0000_0000_0000 {
        2
    } else if n < 0x80_0000_0000_0000 {
        4
    } else if n < 0x100_0000_0000_0000 {
        8
    } else if n < 0x200_0000_0000_0000 {
        16
    } else if n < 0x400_0000_0000_0000 {
        32
    } else if n < 0x800_0000_0000_0000 {
        64
    } else if n < 0x1000_0000_0000_0000 {
        128
    } else if n < 0x2000_0000_0000_0000 {
        256
    } else if n < 0x4000_0000_0000_0000 {
        512
    } else if n < 0x8000_0000_0000_0000 {
        1024
    } else {
        2048
    }
}

/// The double-precision number nearest to `n`, a tie going to the even
/// mantissa: sizes are shown as they come out of double-precision
/// arithmetic.
pub open spec fn as_double(n: int) -> int {
    nearest_even(n, spacing(n)) * spacing(n)
}

/// The number of tenths of `unit` that a size is shown as.
pub open spec fn tenths(bytes: int, unit: int) -> int {
    nearest_even(as_double(bytes) * 10, unit)
}

/// The character of a decimal digit.
pub open spec fn digit_char(d: int) -> char {
    if d == 0 {
        '0'
    } else if d == 1 {
        '1'
    } else if d == 2 {
        '2'
    } else if d == 3 {
        '3'
    } else if d == 4 {
        '4'
    } else if d == 5 {
        '5'
    } else if d == 6 {
        '6'
    } else if d == 7 {
        '7'
    } else if d == 8 {
        '8'
    } else {
        '9'
    }
}

/// The decimal digits of a natural number.
pub open spec fn decimal(n: int) -> Seq<char>
    decreases n,
{
    if n < 10 {
        seq![digit_char(n)]
    } else {
        decimal(n / 10).push(digit_char(n % 10))
    }
}

/// A size in tenths of a unit, as text: the whole units, a point, the
/// tenths, and the suffix that names the unit.
pub open spec fn shown(tenths: int, suffix: Seq<char>) -> Seq<char> {
    decimal(tenths / 10) + "."@ + seq![digit_char(tenths % 10)] + suffix
}

/// A size as a short text: in bytes below 1024, else in the largest of KB,
/// MB and GB that it reaches, with one decimal.
pub open spec fn human(bytes: u64) -> Seq<char> {
    if bytes >= GB {
        shown(tenths(bytes as int, GB as int), " GB"@)
    } else if bytes >= MB {
        shown(tenths(bytes as int, MB as int), " MB"@)
    } else if bytes >= KB {
        shown(tenths(bytes as int, KB as int), " KB"@)
    } else {
        decimal(bytes as int) + " B"@
    }
}

/// The text of a decimal digit.
pub fn digit_text(d: u8) -> (r: &'static str)
    requires
        d < 10,
    ensures
        r@ == seq![digit_char(d as int)],
{
    proof {
        reveal_strlit("0");
        reveal_strlit("1");
        reveal_strlit("2");
        reveal_strlit("3");
        reveal_strlit("4");
        reveal_strlit("5");
        reveal_strlit("6");
        reveal_strlit("7");
        reveal_strlit("8");
        reveal_strlit("9");
    }
    let r = if d == 0 {
        "0"
    } else if d == 1 {
        "1"
    } else if d == 2 {
        "2"
    } else if d == 3 {
        "3"
    } else if d == 4 {
        "4"
    } else if d == 5 {
        "5"
    } else if d == 6 {
        "6"
    } else if d == 7 {
        "7"
    } else if d == 8 {
        "8"
    } else {
        "9"
    };
    assert(r@ =~= seq![digit_char(d as int)]);
    r
}

/// Appends the decimal digits of `n` to `out`.
pub fn push_decimal(out: &mut String, n: u128)
    ensures
        final(out)@ == old(out)@ + decimal(n as int),
    decreases n,
{
    if n >= 10 {
        push_decimal(out, n / 10);
    }
    let ghost before = out@;
    out.append(digit_text((n % 10) as u8));
    assert(out@ =~= old(out)@ + decimal(n as int));
}

/// `n / d` rounded to the nearest integer, a tie going to the even one.
pub fn round_nearest_even(n: u128, d: u128) -> (r: u128)
    requires
        d > 0,
        n < 0x1_0000_0000_0000_0000_0000,
    ensures
        r == nearest_even(n as int, d as int),
        r <= n,
{
    let q = n / d;
    let rem = n % d;
    assert(rem < d);
    assert(q * d + rem == n) by (nonlinear_arith)
        requires
            q == n / d,
            rem == n % d,
            d > 0,
    ;
    assert(q <= n) by (nonlinear_arith)
        requires
            q * d + rem == n,
            d >= 1,
            rem >= 0,
            q >= 0,
    ;
    if rem > d - rem || (rem == d - rem && q % 2 == 1) {
        assert(q + 1 <= n) by (nonlinear_arith)
            requires
                q * d + rem == n,
                d >= 1,
                rem >= 1,
                q >= 0,
        ;
        q + 1
    } else {
        q
    }
}

/// The distance between neighbouring double-precision numbers at `n`.
pub fn spacing_at(n: u64) -> (r: u64)
    ensures
        r == spacing(n as int),
        1 <= r <= 2048,
{
    if n < 0x20_0000_0000_0000 {
        1
    } else if n < 0x40_0000_0000_0000 {
        2
    } else if n < 0x80_0000_0000_0000 {
        4
    } else if n < 0x100_0000_0000_0000 {
        8
    } else if n < 0x200_0000_0000_0000 {
        16
    } else if n < 0x400_0000_0000_0000 {
        32
    } else if n < 0x800_0000_0000_0000 {
        64
    } else if n < 0x1000_0000_0000_0000 {
        128
    } else if n < 0x2000_0000_0000_0000 {
        256
    } else if n < 0x4000_0000_0000_0000 {
        512
    } else if n < 0x8000_0000_0000_0000 {
        1024
    } else {
        2048
    }
}

/// Rounding a number below 2^64 up to the next multiple of the spacing at
/// it stays within 2^64.
pub proof fn lemma_rounded_fits(n: int, step: int)
    requires
        0 <= n < 0x1_0000_0000_0000_0000,
        step == spacing(n),
    ensures
        (n / step + 1) * step <= 0x1_0000_0000_0000_0000,
{
    if step == 1 {
    } else if step == 2 {
    } else if step == 4 {
    } else if step == 8 {
    } else if step == 16 {
    } else if step == 32 {
    } else if step == 64 {
    } else if step == 128 {
    } else if step == 256 {
    } else if step == 512 {
    } else if step == 1024 {
    } else {
        assert(step == 2048);
    }
}

/// The double-precision number nearest to `n`.
pub fn nearest_double(n: u64) -> (r: u128)
    ensures
        r == as_double(n as int),
        r <= 0x1_0000_0000_0000_0000,
{
    let step = spacing_at(n) as u128;
    let m = round_nearest_even(n as u128, step);
    proof {
        lemma_rounded_fits(n as int, step as int);
        let q = (n as int) / (step as int);
        assert(m == q || m == q + 1);
        assert(m * step <= (q + 1) * step) by (nonlinear_arith)
            requires
                m <= q + 1,
                step >= 1,
        ;
    }
    m * step
}

/// A size in tenths of a unit, as text.
pub fn show_tenths(tenths: u128, suffix: &str) -> (r: String)
    ensures
        r@ == shown(tenths as int, suffix@),
{
    let mut out = String::new();
    push_decimal(&mut out, tenths / 10);
    out.append(".");
    out.append(digit_text((tenths % 10) as u8));
    out.append(suffix);
    assert(out@ =~= shown(tenths as int, suffix@));
    out
}

/// A size as a short text, such as `16.0 GB`.
pub fn bytes_to_human(bytes: u64) -> (r: String)
    ensures
        r@ == human(bytes),
{
    if bytes >= GB {
        show_tenths(round_nearest_even(nearest_double(bytes) * 10, GB as u128), " GB")
    } else if bytes >= MB {
        show_tenths(round_nearest_even(nearest_double(bytes) * 10, MB as u128), " MB")
    } else if bytes >= KB {
        show_tenths(round_nearest_even(nearest_double(bytes) * 10, KB as u128), " KB")
    } else {
        let mut out = String::new();
        push_decimal(&mut out, bytes as u128);
        out.append(" B");
        assert(out@ =~= decimal(bytes as int) + " B"@);
        out
    }
}

/// The memory of the machine for display, given the two sizes in bytes.
pub fn system_info(total: u64, available: u64) -> (r: SystemInfo)
    ensures
        r.total_memory_bytes == total,
        r.available_memory_bytes == available,
        r.total_memory_human@ == human(total),
        r.available_memory_human@ == human(available),
{
    SystemInfo {
        total_memory_bytes: total,
        available_memory_bytes: available,
        total_memory_human: bytes_to_human(total),
        available_memory_human: bytes_to_human(available),
    }
}

} // verus!
