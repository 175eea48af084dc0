use vstd::prelude::*;
use crate::text::push_char;

verus! {

/// The ASCII digit for `d`, which is below ten.
pub open spec fn digit_char(d: nat) -> char {
    ((48 + d) as u8) as char
}

/// `n` written in base ten, without leading zeros.
pub open spec fn decimal(n: nat) -> Seq<char>
    decreases n,
{
    if n < 10 {
        seq![digit_char(n)]
    } else {
        decimal(n / 10).push(digit_char(n % 10))
    }
}

/// `n` written in base ten with at least two digits (`{:02}`).
pub open spec fn pad2(n: nat) -> Seq<char> {
    if n < 10 {
        seq!['0'] + decimal(n)
    } else {
        decimal(n)
    }
}

/// The number `h / 100` written with exactly two decimal places.
pub open spec fn fixed2(h: nat) -> Seq<char> {
    decimal(h / 100) + seq!['.'] + pad2(h % 100)
}

/// `num / den` rounded to the nearest integer, a tie going to the even neighbour.
pub open spec fn round_half_even(num: nat, den: nat) -> nat
    recommends
        den > 0,
{
    let q = num / den;
    let r = num % den;
    if 2 * r > den || (2 * r == den && q % 2 == 1) {
        q + 1
    } else {
        q
    }
}

/// Kilobytes in a megabyte.
pub const KB_IN_MB: u64 = 1024;

/// Kilobytes in a gigabyte.
pub const KB_IN_GB: u64 = 1048576;

/// A memory size given in kilobytes, in the largest unit among kB, MB and GB that it reaches,
/// with two decimal places.
pub open spec fn memory_display(kb: nat) -> Seq<char> {
    if kb >= KB_IN_GB {
        fixed2(round_half_even(kb * 100, KB_IN_GB as nat)) + seq![' ', 'G', 'B']
    } else if kb >= KB_IN_MB {
        fixed2(round_half_even(kb * 100, KB_IN_MB as nat)) + seq![' ', 'M', 'B']
    } else {
        fixed2(kb * 100) + seq![' ', 'k', 'B']
    }
}

/// Whole seconds in `ticks` hundredths of a second, rounded to nearest (a half rounds up).
pub open spec fn rounded_seconds(ticks: nat) -> nat {
    (ticks + 50) / 100
}

/// A duration in hundredths of a second as `HH:MM:SS`, rounded to the nearest second.
pub open spec fn clock_display(ticks: nat) -> Seq<char> {
    let t = rounded_seconds(ticks);
    pad2(t / 3600) + seq![':'] + pad2((t % 3600) / 60) + seq![':'] + pad2(t % 60)
}

/// A percentage given in hundredths of a percent, with two decimal places and `%`.
pub open spec fn percent_display(h: nat) -> Seq<char> {
    fixed2(h) + seq!['%']
}

/// A size in kilobytes as a whole number followed by ` KB`.
pub open spec fn kb_display(kb: nat) -> Seq<char> {
    decimal(kb) + seq![' ', 'K', 'B']
}

/// Appends `n` in base ten.
pub fn push_decimal(s: &mut String, n: u128)
    ensures
        final(s)@ == old(s)@ + decimal(n as nat),
    decreases n,
{
    if n >= 10 {
        push_decimal(s, n / 10);
    }
    let d = (n % 10) as u8;
    push_char(s, (48 + d) as char);
    assert(decimal(n as nat) == if n < 10 {
        seq![digit_char(n as nat)]
    } else {
        decimal((n / 10) as nat).push(digit_char((n % 10) as nat))
    });
}

/// Appends `n` in base ten with at least two digits.
pub fn push_pad2(s: &mut String, n: u128)
    ensures
        final(s)@ == old(s)@ + pad2(n as nat),
{
    if n < 10 {
        push_char(s, '0');
    }
    push_decimal(s, n);
}

/// Appends `h / 100` with two decimal places.
pub fn push_fixed2(s: &mut String, h: u128)
    ensures
        final(s)@ == old(s)@ + fixed2(h as nat),
{
    push_decimal(s, h / 100);
    push_char(s, '.');
    push_pad2(s, h % 100);
}

/// Executable form of `round_half_even`.
pub fn div_round_half_even(num: u128, den: u128) -> (r: u128)
    requires
        den > 0,
    ensures
        r == round_half_even(num as nat, den as nat),
{
    let q = num / den;
    let r = num % den;
    if r > den - r || (r == den - r && q % 2 == 1) {
        assert(q < u128::MAX) by (nonlinear_arith)
            requires
                q == num / den,
                den > 1 || r > 0,
                r == num % den,
                den > 0,
                num <= u128::MAX,
        ;
        q + 1
    } else {
        q
    }
}

/// Renders a memory size given in kilobytes as kB, MB or GB with two decimal places.
pub fn format_memory_size(kilobytes: u64) -> (r: String)
    ensures
        r@ == memory_display(kilobytes as nat),
{
    let mut s = String::new();
    let hundredths = (kilobytes as u128) * 100;
    if kilobytes >= KB_IN_GB {
        push_fixed2(&mut s, div_round_half_even(hundredths, KB_IN_GB as u128));
        push_char(&mut s, ' ');
        push_char(&mut s, 'G');
    } else if kilobytes >= KB_IN_MB {
        push_fixed2(&mut s, div_round_half_even(hundredths, KB_IN_MB as u128));
        push_char(&mut s, ' ');
        push_char(&mut s, 'M');
    } else {
        push_fixed2(&mut s, hundredths);
        push_char(&mut s, ' ');
        push_char(&mut s, 'k');
    }
    push_char(&mut s, 'B');
    s
}

/// Renders the CPU time of a process, user and system ticks at a hundred per second, as
/// `HH:MM:SS`, rounded to the nearest second.
pub fn format_process_time(utime: u64, stime: u64) -> (r: String)
    ensures
        r@ == clock_display((utime + stime) as nat),
{
    let t = ((utime as u128) + (stime as u128) + 50) / 100;
    let mut s = String::new();
    push_pad2(&mut s, t / 3600);
    push_char(&mut s, ':');
    push_pad2(&mut s, (t % 3600) / 60);
    push_char(&mut s, ':');
    push_pad2(&mut s, t % 60);
    s
}

/// Renders a percentage given in hundredths of a percent with two decimal places and `%`.
pub fn format_cpu_percent(hundredths: u128) -> (r: String)
    ensures
        r@ == percent_display(hundredths as nat),
{
    let mut s = String::new();
    push_fixed2(&mut s, hundredths);
    push_char(&mut s, '%');
    s
}

/// Renders a size in kilobytes as a whole number followed by ` KB`.
pub fn format_kb(kb: u64) -> (r: String)
    ensures
        r@ == kb_display(kb as nat),
{
    let mut s = String::new();
    push_decimal(&mut s, kb as u128);
    push_char(&mut s, ' ');
    push_char(&mut s, 'K');
    push_char(&mut s, 'B');
    s
}

} // verus!
