//! Human-readable sizes: a file's on-disk size and the footer's total.

use vstd::prelude::*;

use crate::chars::{decimal, digit, push_char, push_decimal_u128, push_str};
use crate::model::LibraryItem;

verus! {

/// `n / d` rounded to the nearest integer, ties to even: how Rust's `{:.N}`
/// formatting rounds an exactly representable value.
pub open spec fn rounded_div(n: nat, d: nat) -> nat
    recommends
        d > 0,
{
    let q = n / d;
    let r = n % d;
    if 2 * r > d || (2 * r == d && q % 2 == 1) {
        q + 1
    } else {
        q
    }
}

/// A count of tenths written with one decimal place (`15` is `1.5`).
pub open spec fn one_decimal(tenths: nat) -> Seq<char> {
    decimal(tenths / 10).push('.').push(digit(tenths % 10))
}

/// Bytes in one MiB.
pub const MIB: u128 = 1_048_576;

/// `bytes` as MiB with one decimal, then ` MB`.
pub open spec fn bytes_label(bytes: nat) -> Seq<char> {
    one_decimal(rounded_div(bytes * 10, MIB as nat)) + seq![' ', 'M', 'B']
}

fn round_div(n: u128, d: u128) -> (q: u128)
    requires
        d > 0,
        n / d < u128::MAX,
    ensures
        q == rounded_div(n as nat, d as nat),
{
    let q = n / d;
    let r = n % d;
    if r > d - r || (r == d - r && q % 2 == 1) {
        q + 1
    } else {
        q
    }
}

/// `rounded_div(n * 10, d)` without forming `n * 10`.
fn round_tenths(n: u128, d: u128) -> (q: u128)
    requires
        1024 <= d <= 1_048_576,
    ensures
        q == rounded_div(n as nat * 10, d as nat),
{
    let q1 = n / d;
    let r1 = n % d;
    let a = (r1 * 10) / d;
    let b = (r1 * 10) % d;
    proof {
        vstd::arithmetic::div_mod::lemma_fundamental_div_mod(n as int, d as int);
        vstd::arithmetic::div_mod::lemma_fundamental_div_mod((r1 * 10) as int, d as int);
        assert(n * 10 == d * (q1 * 10 + a) + b) by (nonlinear_arith)
            requires
                n == d * q1 + r1,
                r1 * 10 == d * a + b,
        ;
        vstd::arithmetic::div_mod::lemma_fundamental_div_mod_converse(
            n as int * 10,
            d as int,
            (q1 * 10 + a) as int,
            b as int,
        );
        assert(q1 * 1024 <= n) by (nonlinear_arith)
            requires
                n == d * q1 + r1,
                d >= 1024,
                r1 >= 0,
                q1 >= 0,
        ;
        assert(a < 10) by (nonlinear_arith)
            requires
                r1 < d,
                d * a + b == r1 * 10,
                0 <= b,
                d > 0,
        ;
    }
    let q = q1 * 10 + a;
    if b > d - b || (b == d - b && q % 2 == 1) {
        q + 1
    } else {
        q
    }
}

fn push_one_decimal(s: &mut String, tenths: u128)
    ensures
        final(s)@ == old(s)@ + one_decimal(tenths as nat),
{
    push_decimal_u128(s, tenths / 10);
    push_char(s, '.');
    push_decimal_u128(s, tenths % 10);
    proof {
        assert(decimal((tenths % 10) as nat) == seq![digit((tenths % 10) as nat)]);
        assert(digit(((tenths as nat) % 10) % 10) == digit((tenths as nat) % 10));
    }
    assert(s@ =~= old(s)@ + one_decimal(tenths as nat));
}

/// Formats a byte count as MiB with one decimal (`"1.5 MB"`).
pub fn format_bytes(bytes: u64) -> (s: String)
    ensures
        s@ == bytes_label(bytes as nat),
{
    let tenths = round_tenths(bytes as u128, MIB);
    let mut s = String::new();
    push_one_decimal(&mut s, tenths);
    push_char(&mut s, ' ');
    push_char(&mut s, 'M');
    push_char(&mut s, 'B');
    s
}

/// Returns the on-disk size when known, otherwise `catalog_size` unchanged.
pub fn prefer_on_disk_size(catalog_size: String, on_disk_bytes: Option<u64>) -> (s: String)
    ensures
        s@ == match on_disk_bytes {
            Some(bytes) => bytes_label(bytes as nat),
            None => catalog_size@,
        },
{
    match on_disk_bytes {
        Some(bytes) => format_bytes(bytes),
        None => catalog_size,
    }
}

/// `catalog_size` followed by ` (X.X MB on disk)` when the on-disk size is
/// known; the catalog size is always shown.
pub open spec fn on_disk_suffix_label(catalog_size: Seq<char>, on_disk_bytes: Option<u64>) -> Seq<
    char,
> {
    match on_disk_bytes {
        Some(bytes) => catalog_size + seq![' ', '('] + bytes_label(bytes as nat) + " on disk)"@,
        None => catalog_size,
    }
}

/// Appends `" (X.X MB on disk)"` to `catalog_size` when `on_disk_bytes` is
/// known, otherwise returns `catalog_size` unchanged.
pub fn with_on_disk_suffix(catalog_size: String, on_disk_bytes: Option<u64>) -> (s: String)
    ensures
        s@ == on_disk_suffix_label(catalog_size@, on_disk_bytes),
{
    match on_disk_bytes {
        Some(bytes) => {
            let mut s = catalog_size;
            push_char(&mut s, ' ');
            push_char(&mut s, '(');
            let label = format_bytes(bytes);
            push_str(&mut s, label.as_str());
            push_str(&mut s, " on disk)");
            s
        },
        None => catalog_size,
    }
}

/// Total catalog size of `items`, in KiB.
pub open spec fn total_kb(items: Seq<LibraryItem>) -> nat
    decreases items.len(),
{
    if items.len() == 0 {
        0
    } else {
        total_kb(items.drop_last()) + items.last().size_kb as nat
    }
}

/// The footer label for a total of `kb` KiB: GiB with one decimal from 1 GiB
/// up, whole MiB below.
pub open spec fn total_size_label(kb: nat) -> Seq<char> {
    if kb >= MIB {
        one_decimal(rounded_div(kb * 10, MIB as nat)) + seq![' ', 'G', 'B']
    } else {
        decimal(rounded_div(kb, 1024)) + seq![' ', 'M', 'B']
    }
}

/// Formats the items' total size as `"X.X GB"` or `"X MB"`.
pub fn format_total_size(items: &[LibraryItem]) -> (s: String)
    ensures
        s@ == total_size_label(total_kb(items@)),
{
    let mut total: u128 = 0;
    let mut i: usize = 0;
    while i < items.len()
        invariant
            i <= items.len(),
            total == total_kb(items@.take(i as int)),
            total <= i * 18446744073709551615,
        decreases items.len() - i,
    {
        assert(items@.take(i + 1).drop_last() =~= items@.take(i as int));
        let kb = items[i].size_kb;
        assert(total + kb <= (i + 1) * 18446744073709551615) by (nonlinear_arith)
            requires
                total <= i * 18446744073709551615,
                kb <= 18446744073709551615,
        ;
        assert((i + 1) * 18446744073709551615 <= 18446744073709551616 * 18446744073709551615) by (nonlinear_arith)
            requires
                i < 18446744073709551616,
        ;
        total = total + kb as u128;
        i = i + 1;
    }
    assert(items@.take(i as int) =~= items@);
    let mut s = String::new();
    if total >= MIB {
        let tenths = round_tenths(total, MIB);
        push_one_decimal(&mut s, tenths);
        push_char(&mut s, ' ');
        push_char(&mut s, 'G');
        push_char(&mut s, 'B');
    } else {
        let mb = round_div(total, 1024);
        push_decimal_u128(&mut s, mb);
        push_char(&mut s, ' ');
        push_char(&mut s, 'M');
        push_char(&mut s, 'B');
    }
    s
}

/// A count of hundredths written with two decimal places (`150` is `1.50`).
pub open spec fn two_decimals(hundredths: nat) -> Seq<char> {
    decimal(hundredths / 100).push('.').push(digit(hundredths / 10 % 10)).push(digit(hundredths % 10))
}

/// KiB in one GiB and in one TiB.
pub const GIB_IN_KB: u128 = 1_048_576;

pub const TIB_IN_KB: u128 = 1_073_741_824;

/// A catalog size given in KiB, as the size column shows it: TB with one
/// decimal from 1 TiB up, GB with two decimals from 1 GiB up, whole MB below.
pub open spec fn size_text(kb: nat) -> Seq<char> {
    if kb >= TIB_IN_KB {
        one_decimal(rounded_div(kb * 10, TIB_IN_KB as nat)) + seq![' ', 'T', 'B']
    } else if kb >= GIB_IN_KB {
        two_decimals(rounded_div(kb * 100, GIB_IN_KB as nat)) + seq![' ', 'G', 'B']
    } else {
        decimal(rounded_div(kb, 1024)) + seq![' ', 'M', 'B']
    }
}

fn push_digit(s: &mut String, d: u128)
    requires
        d < 10,
    ensures
        final(s)@ == old(s)@.push(digit(d as nat)),
{
    push_decimal_u128(s, d);
    proof {
        assert(decimal(d as nat) == seq![digit(d as nat)]);
    }
    assert(s@ =~= old(s)@.push(digit(d as nat)));
}

/// Formats a catalog size given in KiB as `"X MB"`, `"X.XX GB"` or
/// `"X.X TB"`.
pub fn size_format(size_kb: u64) -> (s: String)
    ensures
        s@ == size_text(size_kb as nat),
{
    let kb = size_kb as u128;
    let mut s = String::new();
    if kb >= TIB_IN_KB {
        let tenths = round_div(kb * 10, TIB_IN_KB);
        push_one_decimal(&mut s, tenths);
        push_char(&mut s, ' ');
        push_char(&mut s, 'T');
        push_char(&mut s, 'B');
    } else if kb >= GIB_IN_KB {
        let h = round_div(kb * 100, GIB_IN_KB);
        push_decimal_u128(&mut s, h / 100);
        push_char(&mut s, '.');
        push_digit(&mut s, h / 10 % 10);
        push_digit(&mut s, h % 10);
        assert(s@ =~= two_decimals(h as nat));
        push_char(&mut s, ' ');
        push_char(&mut s, 'G');
        push_char(&mut s, 'B');
    } else {
        let mb = round_div(kb, 1024);
        push_decimal_u128(&mut s, mb);
        push_char(&mut s, ' ');
        push_char(&mut s, 'M');
        push_char(&mut s, 'B');
    }
    s
}

/// The on-disk suffix shows the same size label the preferred size shows:
/// with a known on-disk size, `with_on_disk_suffix` gives the catalog size,
/// then `(`, then what `prefer_on_disk_size` gives, then ` on disk)`.
pub proof fn lemma_suffix_shows_preferred_size(catalog_size: Seq<char>, bytes: u64)
    ensures
        on_disk_suffix_label(catalog_size, Some(bytes)) == catalog_size + seq![' ', '(']
            + bytes_label(bytes as nat) + " on disk)"@,
        on_disk_suffix_label(catalog_size, None) == catalog_size,
{
}

/// Rounding to the nearest integer, ties to even: the rounded quotient is
/// within half a unit of the exact one, and lands on an even number when the
/// exact quotient is exactly halfway.
pub proof fn lemma_rounded_div_is_nearest(n: nat, d: nat)
    requires
        d > 0,
    ensures
        2 * (n - rounded_div(n, d) * d) <= d,
        2 * (rounded_div(n, d) * d - n) <= d,
        (2 * (n - rounded_div(n, d) * d) == d || 2 * (rounded_div(n, d) * d - n) == d) ==> rounded_div(
            n,
            d,
        ) % 2 == 0,
{
    let q = n / d;
    let r = n % d;
    vstd::arithmetic::div_mod::lemma_fundamental_div_mod(n as int, d as int);
    assert((q + 1) * d == q * d + d) by (nonlinear_arith);
}

} // verus!
