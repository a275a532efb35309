//! Byte-size humanization over the decimal unit ladder, and epoch
//! timestamp formatting.
use crate::text::{chars_of, dec_spec, extend_chars, string_from_chars, u64_dec};
use core::fmt::Write;
use vstd::prelude::*;

verus! {

/// Powers of 1000, the decimal unit ladder's base.
pub open spec fn pow1000(e: nat) -> nat
    decreases e,
{
    if e == 0 {
        1
    } else {
        1000 * pow1000((e - 1) as nat)
    }
}

/// The index of the largest unit of the ladder {B, kB, MB, GB, TB, PB,
/// EB, ZB, YB} not exceeding the size, capped at the ladder's end.
pub open spec fn unit_exp(size: nat) -> nat
    decreases size,
{
    if size < 1000 {
        0
    } else {
        let r = 1 + unit_exp(size / 1000);
        if r > 8 {
            8
        } else {
            r
        }
    }
}

/// The name of unit `e` of the ladder.
pub open spec fn unit_name(e: nat) -> Seq<char> {
    if e == 0 {
        "B"@
    } else if e == 1 {
        "kB"@
    } else if e == 2 {
        "MB"@
    } else if e == 3 {
        "GB"@
    } else if e == 4 {
        "TB"@
    } else if e == 5 {
        "PB"@
    } else if e == 6 {
        "EB"@
    } else if e == 7 {
        "ZB"@
    } else {
        "YB"@
    }
}

/// `a / b` rounded to the nearest integer, ties to even.
pub open spec fn round_half_even(a: nat, b: nat) -> nat
    recommends
        b > 0,
{
    let q = a / b;
    let r2 = 2 * (a % b);
    if r2 > b {
        q + 1
    } else if r2 < b {
        q
    } else if q % 2 == 0 {
        q
    } else {
        q + 1
    }
}

/// The scaled magnitude in hundredths of the chosen unit, rounded to two
/// decimal places.
pub open spec fn scaled_hundredths(size: nat) -> nat {
    round_half_even(size * 100, pow1000(unit_exp(size)))
}

/// A quantity of hundredths written with trailing zero noise dropped:
/// `100` is `"1"`, `130` is `"1.3"`, `103` is `"1.03"`.
pub open spec fn strip_decimal(h: nat) -> Seq<char> {
    let ip = h / 100;
    let fr = h % 100;
    if fr == 0 {
        dec_spec(ip)
    } else if fr % 10 == 0 {
        dec_spec(ip) + seq!['.'] + dec_spec(fr / 10)
    } else if fr < 10 {
        dec_spec(ip) + seq!['.', '0'] + dec_spec(fr)
    } else {
        dec_spec(ip) + seq!['.'] + dec_spec(fr)
    }
}

/// The humanized form of a byte count: an optional leading sign, the
/// scaled magnitude to at most two decimal places, a space, and the unit.
pub open spec fn humanize_spec(negative: bool, size: nat) -> Seq<char> {
    (if negative {
        seq!['-']
    } else {
        Seq::<char>::empty()
    }) + strip_decimal(scaled_hundredths(size)) + seq![' '] + unit_name(unit_exp(size))
}

proof fn lemma_pow1000_pos(e: nat)
    ensures
        pow1000(e) >= 1,
    decreases e,
{
    if e > 0 {
        lemma_pow1000_pos((e - 1) as nat);
    }
}

proof fn lemma_unit_exp_val(size: nat, e: nat)
    requires
        e < 8,
        pow1000(e) <= size,
        size < pow1000(e + 1),
    ensures
        unit_exp(size) == e,
    decreases e,
{
    lemma_pow1000_pos(e);
    if e == 0 {
        assert(pow1000(1) == 1000);
    } else {
        let prev_pow = pow1000((e - 1) as nat);
        lemma_pow1000_pos((e - 1) as nat);
        assert(pow1000(e) == 1000 * prev_pow);
        assert(size >= 1000) by (nonlinear_arith)
            requires
                size >= 1000 * prev_pow,
                prev_pow >= 1,
        ;
        assert(size / 1000 >= prev_pow) by (nonlinear_arith)
            requires
                size >= 1000 * prev_pow,
        ;
        assert(size / 1000 < pow1000(e)) by (nonlinear_arith)
            requires
                size < 1000 * pow1000(e),
        ;
        lemma_unit_exp_val(size / 1000, (e - 1) as nat);
    }
}

fn unit_str(e: u32) -> (r: Vec<char>)
    requires
        e <= 8,
    ensures
        r@ == unit_name(e as nat),
{
    if e == 0 {
        chars_of("B")
    } else if e == 1 {
        chars_of("kB")
    } else if e == 2 {
        chars_of("MB")
    } else if e == 3 {
        chars_of("GB")
    } else if e == 4 {
        chars_of("TB")
    } else if e == 5 {
        chars_of("PB")
    } else if e == 6 {
        chars_of("EB")
    } else if e == 7 {
        chars_of("ZB")
    } else {
        chars_of("YB")
    }
}

/// Humanize a byte count: pick the largest fitting unit of the decimal
/// ladder, round the scaled magnitude to two decimal places, drop
/// trailing zero noise, and prefix the sign.
pub fn humanize_bytes(negative: bool, size: u64) -> (r: String)
    ensures
        r@ == humanize_spec(negative, size as nat),
{
    let mut e: u32 = 0;
    let mut p: u64 = 1;
    while size / p >= 1000 && e < 8
        invariant
            e <= 8,
            p == pow1000(e as nat),
            p >= 1,
            e > 0 ==> p <= size,
        decreases 8 - e,
    {
        proof {
            assert(1000 * p <= size) by (nonlinear_arith)
                requires
                    size / p >= 1000,
                    p >= 1,
                    size <= u64::MAX,
            ;
        }
        p = p * 1000;
        e = e + 1;
    }
    proof {
        assert(pow1000(0) == 1);
        assert(pow1000(1) == 1000);
        assert(pow1000(2) == 1000000);
        assert(pow1000(3) == 1000000000);
        assert(pow1000(4) == 1000000000000);
        assert(pow1000(5) == 1000000000000000);
        assert(pow1000(6) == 1000000000000000000);
        assert(pow1000(7) == 1000000000000000000000);
        assert(e <= 6);
        assert(size / p < 1000);
        assert(size < 1000 * p) by (nonlinear_arith)
            requires
                size / p < 1000,
                p >= 1,
        ;
        assert(size < pow1000((e + 1) as nat));
        if e == 0 {
            assert(size < 1000);
            assert(unit_exp(size as nat) == 0);
        } else {
            lemma_unit_exp_val(size as nat, e as nat);
        }
    }
    let a: u128 = (size as u128) * 100;
    let b: u128 = p as u128;
    let q: u128 = a / b;
    let rem: u128 = a % b;
    let h: u128 = if 2 * rem > b {
        q + 1
    } else if 2 * rem < b {
        q
    } else if q % 2 == 0 {
        q
    } else {
        q + 1
    };
    proof {
        assert(q < 100000) by (nonlinear_arith)
            requires
                a == (size as u128) * 100,
                b == p,
                q == a / b,
                (size as u128) < 1000 * (p as u128),
                p >= 1,
        ;
        assert(h == scaled_hundredths(size as nat));
    }
    let h64: u64 = h as u64;
    let ip: u64 = h64 / 100;
    let fr: u64 = h64 % 100;
    let mut v: Vec<char> = Vec::new();
    if negative {
        v.push('-');
    }
    let ipd = u64_dec(ip);
    extend_chars(&mut v, ipd.as_slice());
    if fr != 0 {
        v.push('.');
        if fr % 10 == 0 {
            let d = u64_dec(fr / 10);
            extend_chars(&mut v, d.as_slice());
        } else if fr < 10 {
            v.push('0');
            let d = u64_dec(fr);
            extend_chars(&mut v, d.as_slice());
        } else {
            let d = u64_dec(fr);
            extend_chars(&mut v, d.as_slice());
        }
    }
    v.push(' ');
    let u = unit_str(e);
    extend_chars(&mut v, u.as_slice());
    proof {
        assert(v@ =~= humanize_spec(negative, size as nat));
    }
    string_from_chars(v.as_slice())
}

// ---------------------------------------------------------------------------
// Epoch timestamps
// ---------------------------------------------------------------------------
/// What chrono's UTC strftime formatting returns for an epoch second
/// count and a format string: a function of the two arguments alone.
pub uninterp spec fn epoch_format(secs: int, fmt: Seq<char>) -> Seq<char>;

/// Relies on `chrono::DateTime::<Utc>::from_timestamp` and chrono's
/// strftime formatting: UTC only, English names, no locale, so the result
/// depends on the timestamp and format string alone. A write error (an
/// invalid format specifier) yields a partial or empty string, never a
/// panic.
#[verifier::external_body]
fn format_epoch(secs: u64, fmt: &str) -> (r: String)
    ensures
        r@ == epoch_format(secs as int, fmt@),
{
    let mut out = String::new();
    if secs <= i64::MAX as u64 {
        if let Some(dt) = chrono::DateTime::<chrono::Utc>::from_timestamp(secs as i64, 0) {
            let _ = write!(out, "{}", dt.format(fmt));
        }
    }
    out
}

/// Format an epoch second count with the given strftime format string.
pub fn humanize_epoch_into(secs: u64, fmt: &str) -> (r: String)
    ensures
        r@ == epoch_format(secs as int, fmt@),
{
    format_epoch(secs, fmt)
}

/// Format an epoch second count in the default human-readable form, such
/// as `Sun Jan 17 2021, 05:03:49`.
pub fn humanize_epoch(secs: u64) -> (r: String)
    ensures
        r@ == epoch_format(secs as int, "%a %b %e %Y, %T"@),
{
    humanize_epoch_into(secs, "%a %b %e %Y, %T")
}

} // verus!
