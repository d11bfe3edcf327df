//! File sizes for people.

use vstd::prelude::*;

use crate::text;

verus! {

/// Half up, but to the even neighbour when both are equally near.
pub open spec fn nearest_quotient(n: nat, d: nat) -> nat
    recommends
        d > 0,
{
    let q = n / d;
    let r = n % d;
    if 2 * r > d || (2 * r == d && q % 2 == 1) {
        q + 1
    } else {
        q
    }
}

/// The distance between neighbouring double-precision numbers around a size.
pub open spec fn double_spacing(bytes: u64) -> nat {
    if bytes < 0x20_0000_0000_0000 {
        1
    } else if bytes < 0x40_0000_0000_0000 {
        2
    } else if bytes < 0x80_0000_0000_0000 {
        4
    } else if bytes < 0x100_0000_0000_0000 {
        8
    } else if bytes < 0x200_0000_0000_0000 {
        16
    } else if bytes < 0x400_0000_0000_0000 {
        32
    } else if bytes < 0x800_0000_0000_0000 {
        64
    } else if bytes < 0x1000_0000_0000_0000 {
        128
    } else if bytes < 0x2000_0000_0000_0000 {
        256
    } else if bytes < 0x4000_0000_0000_0000 {
        512
    } else if bytes < 0x8000_0000_0000_0000 {
        1024
    } else {
        2048
    }
}

/// A size rounded to double precision.
pub open spec fn double_rounded(bytes: u64) -> nat {
    nearest_quotient(bytes as nat, double_spacing(bytes)) * double_spacing(bytes)
}

/// A number of tenths with one decimal place.
pub open spec fn one_decimal(tenths: nat) -> Seq<char> {
    text::decimal(tenths / 10) + "."@ + text::decimal(tenths % 10)
}

/// A size in a unit of `unit` bytes, to the nearest tenth.
pub open spec fn in_units(bytes: u64, unit: nat) -> Seq<char> {
    one_decimal(nearest_quotient(10 * double_rounded(bytes), unit))
}

/// A size as text: bytes below 1024, else the largest unit up to TB that it
/// reaches, in double precision, with one decimal place.
pub open spec fn size_text(bytes: u64) -> Seq<char> {
    if bytes < 0x400 {
        text::decimal(bytes as nat) + " B"@
    } else if bytes < 0x10_0000 {
        in_units(bytes, 0x400) + " KB"@
    } else if bytes < 0x4000_0000 {
        in_units(bytes, 0x10_0000) + " MB"@
    } else if bytes < 0x100_0000_0000 {
        in_units(bytes, 0x4000_0000) + " GB"@
    } else {
        in_units(bytes, 0x100_0000_0000) + " TB"@
    }
}

/// The quotient rounded to nearest, ties to even.
fn nearest(n: u128, d: u128) -> (r: u128)
    requires
        0 < d <= 0x1_0000_0000_0000,
    ensures
        r as nat == nearest_quotient(n as nat, d as nat),
{
    let q: u128 = n / d;
    let rem: u128 = n % d;
    if 2 * rem > d || (2 * rem == d && q % 2 == 1) {
        proof {
            assert(q < u128::MAX) by {
                assert(d >= 2);
                assert(n / d <= n / 2) by (nonlinear_arith)
                    requires
                        d >= 2,
                ;
            }
        }
        q + 1
    } else {
        q
    }
}

/// The distance between neighbouring double-precision numbers around a size.
fn spacing(bytes: u64) -> (r: u128)
    ensures
        r as nat == double_spacing(bytes),
        1 <= r <= 2048,
{
    if bytes < 0x20_0000_0000_0000 {
        1
    } else if bytes < 0x40_0000_0000_0000 {
        2
    } else if bytes < 0x80_0000_0000_0000 {
        4
    } else if bytes < 0x100_0000_0000_0000 {
        8
    } else if bytes < 0x200_0000_0000_0000 {
        16
    } else if bytes < 0x400_0000_0000_0000 {
        32
    } else if bytes < 0x800_0000_0000_0000 {
        64
    } else if bytes < 0x1000_0000_0000_0000 {
        128
    } else if bytes < 0x2000_0000_0000_0000 {
        256
    } else if bytes < 0x4000_0000_0000_0000 {
        512
    } else if bytes < 0x8000_0000_0000_0000 {
        1024
    } else {
        2048
    }
}

/// A size in a unit of `unit` bytes, to the nearest tenth.
fn text_in_units(bytes: u64, unit: u128) -> (r: String)
    requires
        0x400 <= unit <= 0x100_0000_0000,
    ensures
        r@ == in_units(bytes, unit as nat),
{
    let step: u128 = spacing(bytes);
    let q: u128 = nearest(bytes as u128, step);
    assert(q * step <= bytes + step) by (nonlinear_arith)
        requires
            step >= 1,
            q as nat == nearest_quotient(bytes as nat, step as nat),
    {
        let n = bytes as int;
        let d = step as int;
        assert(n == d * (n / d) + n % d);
        assert(q <= n / d + 1);
        assert(q * d <= (n / d + 1) * d);
        assert((n / d + 1) * d == d * (n / d) + d);
    }
    let rounded: u128 = q * step;
    let tenths: u128 = nearest(10 * rounded, unit);
    let ghost ten: int = 10 * rounded;
    assert(tenths <= ten / (unit as int) + 1);
    assert(ten / (unit as int) <= ten / 0x400) by (nonlinear_arith)
        requires
            unit >= 0x400,
            ten >= 0,
    ;
    let mut out: String = text::decimal_of((tenths / 10) as u64);
    out.append(".");
    out.append(text::decimal_of((tenths % 10) as u64).as_str());
    out
}

/// A size as text for people.
pub fn human_size(bytes: u64) -> (r: String)
    ensures
        r@ == size_text(bytes),
{
    if bytes < 0x400 {
        let mut out: String = text::decimal_of(bytes);
        out.append(" B");
        out
    } else if bytes < 0x10_0000 {
        let mut out: String = text_in_units(bytes, 0x400);
        out.append(" KB");
        out
    } else if bytes < 0x4000_0000 {
        let mut out: String = text_in_units(bytes, 0x10_0000);
        out.append(" MB");
        out
    } else if bytes < 0x100_0000_0000 {
        let mut out: String = text_in_units(bytes, 0x4000_0000);
        out.append(" GB");
        out
    } else {
        let mut out: String = text_in_units(bytes, 0x100_0000_0000);
        out.append(" TB");
        out
    }
}

/// What `nearest_quotient` means: no multiple of the divisor is nearer, and of two
/// that are equally near, it takes the even one.
pub proof fn lemma_nearest(n: nat, d: nat)
    requires
        d > 0,
    ensures
        2 * (n - nearest_quotient(n, d) * d) <= d,
        2 * (nearest_quotient(n, d) * d - n) <= d,
        2 * (n - nearest_quotient(n, d) * d) == d || 2 * (nearest_quotient(n, d) * d - n) == d
            ==> nearest_quotient(n, d) % 2 == 0,
{
    let q = n / d;
    let r = n % d;
    assert(n == q * d + r && r < d) by (nonlinear_arith)
        requires
            d > 0,
            q == n / d,
            r == n % d,
    ;
    assert((q + 1) * d == q * d + d) by (nonlinear_arith);
}

/// A size is shown to the byte below a kilobyte, and above that in the largest unit
/// that it reaches, up to terabytes, with one decimal place, as near to the size as
/// one decimal place comes; halfway between two, the even one is shown. Sizes that
/// double precision cannot hold are rounded to it first, by 1024 bytes at most.
pub proof fn sizes_are_shown_to_the_nearest_tenth(bytes: u64) -> (tenths: nat)
    ensures
        bytes < 1024 ==> size_text(bytes) == text::decimal(bytes as nat) + " B"@,
        bytes >= 1024 ==> {
            let (unit, suffix) = if bytes < 0x10_0000 {
                (1024int, " KB"@)
            } else if bytes < 0x4000_0000 {
                (0x10_0000int, " MB"@)
            } else if bytes < 0x100_0000_0000 {
                (0x4000_0000int, " GB"@)
            } else {
                (0x100_0000_0000int, " TB"@)
            };
            let slack: int = if bytes < 0x20_0000_0000_0000 {
                0
            } else {
                20480
            };
            &&& size_text(bytes) == text::decimal(tenths / 10) + seq!['.'] + text::decimal(
                tenths % 10,
            ) + suffix
            &&& 2 * (10 * bytes - tenths * unit) <= unit + slack
            &&& 2 * (tenths * unit - 10 * bytes) <= unit + slack
            &&& bytes < 0x20_0000_0000_0000 && (2 * (10 * bytes - tenths * unit) == unit || 2 * (
            tenths * unit - 10 * bytes) == unit) ==> tenths % 2 == 0
        },
{
    reveal_strlit(".");
    assert("."@ =~= seq!['.']);
    let unit: nat = if bytes < 0x10_0000 {
        0x400
    } else if bytes < 0x4000_0000 {
        0x10_0000
    } else if bytes < 0x100_0000_0000 {
        0x4000_0000
    } else {
        0x100_0000_0000
    };
    let step = double_spacing(bytes);
    let rounded = double_rounded(bytes);
    let tenths = nearest_quotient(10 * rounded, unit);
    lemma_nearest(bytes as nat, step);
    lemma_nearest(10 * rounded, unit);
    assert(step <= 2048);
    if bytes < 0x20_0000_0000_0000 {
        assert(bytes as nat / 1nat == bytes && bytes as nat % 1nat == 0);
        assert(rounded == bytes);
    }
    tenths
}

} // verus!
