use vstd::prelude::*;
use crate::text::{copy_range, find_from, index_from, lemma_index_from_bounds};

verus! {

/// Whether `c` is an ASCII decimal digit.
pub open spec fn is_digit(c: char) -> bool {
    48 <= c as u32 && c as u32 <= 57
}

/// The value of the ASCII digit `c`.
pub open spec fn digit_value(c: char) -> nat {
    (c as u32 - 48) as nat
}

/// Whether every character of `s` is a decimal digit.
pub open spec fn all_digits(s: Seq<char>) -> bool {
    forall|i: int| 0 <= i < s.len() ==> is_digit(#[trigger] s[i])
}

/// The number that the digits `s` spell in base ten.
pub open spec fn decimal_value(s: Seq<char>) -> nat
    decreases s.len(),
{
    if s.len() == 0 {
        0
    } else {
        decimal_value(s.drop_last()) * 10 + digit_value(s.last())
    }
}

/// A non-empty run of digits whose value is at most `max`, read as that value.
pub open spec fn parse_nat(s: Seq<char>, max: nat) -> Option<nat> {
    if s.len() > 0 && all_digits(s) && decimal_value(s) <= max {
        Some(decimal_value(s))
    } else {
        None
    }
}

/// A decimal integer with an optional leading minus sign that fits in an `i64`.
pub open spec fn parse_int(s: Seq<char>) -> Option<int> {
    if s.len() > 0 && s[0] == '-' {
        match parse_nat(s.drop_first(), 0x8000_0000_0000_0000) {
            Some(v) => Some(-v),
            None => None,
        }
    } else {
        match parse_nat(s, i64::MAX as nat) {
            Some(v) => Some(v as int),
            None => None,
        }
    }
}

/// The hundredths that the digits after a decimal point contribute (the first two of them).
pub open spec fn hundredths(frac: Seq<char>) -> nat {
    if frac.len() == 0 {
        0
    } else if frac.len() == 1 {
        digit_value(frac[0]) * 10
    } else {
        digit_value(frac[0]) * 10 + digit_value(frac[1])
    }
}

/// A non-negative decimal number of seconds, `digits` or `digits.digits`, read in hundredths
/// of a second (digits past the second decimal place are dropped), if that fits in a `u64`.
pub open spec fn centis_value(s: Seq<char>) -> Option<nat> {
    let k = index_from(s, 0, '.');
    let whole = s.take(k);
    let frac = if k < s.len() {
        s.skip(k + 1)
    } else {
        Seq::empty()
    };
    let total = decimal_value(whole) * 100 + hundredths(frac);
    if whole.len() > 0 && all_digits(whole) && (k == s.len() || (frac.len() > 0 && all_digits(
        frac,
    ))) && total <= u64::MAX {
        Some(total)
    } else {
        None
    }
}

/// Reads `s` as an unsigned decimal number.
pub fn parse_u64(s: &Vec<char>) -> (r: Option<u64>)
    ensures
        r matches Some(v) ==> parse_nat(s@, u64::MAX as nat) == Some(v as nat),
        r is None ==> parse_nat(s@, u64::MAX as nat) is None,
{
    if s.len() == 0 {
        return None;
    }
    let mut acc: u64 = 0;
    let mut over = false;
    let mut i: usize = 0;
    while i < s.len()
        invariant
            i <= s.len(),
            all_digits(s@.take(i as int)),
            !over ==> acc == decimal_value(s@.take(i as int)),
            over ==> decimal_value(s@.take(i as int)) > u64::MAX,
        decreases s.len() - i,
    {
        let c = s[i];
        let u = c as u32;
        if u < 48 || u > 57 {
            assert(!all_digits(s@)) by {
                assert(!is_digit(s@[i as int]));
            }
            return None;
        }
        let d = (u - 48) as u64;
        let ghost prev = decimal_value(s@.take(i as int));
        assert(s@.take(i + 1).drop_last() == s@.take(i as int));
        assert(decimal_value(s@.take(i + 1)) == prev * 10 + d);
        if !over {
            if acc > (u64::MAX - d) / 10 {
                assert(acc * 10 + d > u64::MAX) by (nonlinear_arith)
                    requires
                        acc > (u64::MAX - d) / 10,
                        d <= 9,
                ;
                over = true;
            } else {
                assert(acc * 10 + d <= u64::MAX) by (nonlinear_arith)
                    requires
                        acc <= (u64::MAX - d) / 10,
                        d <= 9,
                ;
                acc = acc * 10 + d;
            }
        }
        assert(all_digits(s@.take(i + 1))) by {
            assert forall|j: int| 0 <= j < i + 1 implies is_digit(#[trigger] s@.take(i + 1)[j]) by {
                if j < i {
                    assert(s@.take(i + 1)[j] == s@.take(i as int)[j]);
                }
            }
        }
        i += 1;
    }
    assert(s@.take(s.len() as int) == s@);
    if over {
        None
    } else {
        Some(acc)
    }
}

/// Reads `s` as a signed decimal number.
pub fn parse_i64(s: &Vec<char>) -> (r: Option<i64>)
    ensures
        r matches Some(v) ==> parse_int(s@) == Some(v as int),
        r is None ==> parse_int(s@) is None,
{
    if s.len() > 0 && s[0] == '-' {
        let rest = copy_range(s, 1, s.len());
        assert(rest@ == s@.drop_first());
        match parse_u64(&rest) {
            Some(v) => {
                if v <= 0x7fff_ffff_ffff_ffff {
                    Some(-(v as i64))
                } else if v == 0x8000_0000_0000_0000 {
                    Some(i64::MIN)
                } else {
                    None
                }
            },
            None => None,
        }
    } else {
        match parse_u64(s) {
            Some(v) => {
                if v <= 0x7fff_ffff_ffff_ffff {
                    Some(v as i64)
                } else {
                    None
                }
            },
            None => None,
        }
    }
}

/// Reads `s`, a decimal number of seconds, in hundredths of a second.
pub fn parse_seconds_centis(s: &Vec<char>) -> (r: Option<u64>)
    ensures
        r matches Some(v) ==> centis_value(s@) == Some(v as nat),
        r is None ==> centis_value(s@) is None,
{
    let k = find_from(s, 0, '.');
    proof {
        lemma_index_from_bounds(s@, 0, '.');
    }
    let whole = copy_range(s, 0, k);
    assert(whole@ == s@.take(k as int));
    let frac = if k < s.len() {
        copy_range(s, k + 1, s.len())
    } else {
        Vec::new()
    };
    assert(frac@ == if k < s.len() {
        s@.skip(k + 1)
    } else {
        Seq::<char>::empty()
    });
    if k < s.len() && frac.len() == 0 {
        return None;
    }
    let mut h: u64 = 0;
    if frac.len() > 0 {
        assert(k < s.len());
        let mut i: usize = 0;
        while i < frac.len()
            invariant
                i <= frac.len(),
                k < s.len(),
                k == index_from(s@, 0, '.'),
                frac@ == s@.skip(k + 1),
                forall|j: int| 0 <= j < i ==> is_digit(#[trigger] frac@[j]),
            decreases frac.len() - i,
        {
            let u = frac[i] as u32;
            if u < 48 || u > 57 {
                assert(!is_digit(frac@[i as int]));
                assert(!all_digits(frac@));
                return None;
            }
            i += 1;
        }
        h = ((frac[0] as u32 - 48) * 10) as u64;
        if frac.len() > 1 {
            h = h + (frac[1] as u32 - 48) as u64;
        }
    }
    assert(h == hundredths(frac@));
    match parse_u64(&whole) {
        Some(w) => {
            if w > (u64::MAX - h) / 100 {
                assert(w * 100 + h > u64::MAX) by (nonlinear_arith)
                    requires
                        w > (u64::MAX - h) / 100,
                        h <= 99,
                ;
                None
            } else {
                assert(w * 100 + h <= u64::MAX) by (nonlinear_arith)
                    requires
                        w <= (u64::MAX - h) / 100,
                        h <= 99,
                ;
                Some(w * 100 + h)
            }
        },
        None => {
            proof {
                if whole.len() > 0 && all_digits(whole@) {
                    assert(decimal_value(whole@) * 100 + h > u64::MAX) by (nonlinear_arith)
                        requires
                            decimal_value(whole@) > u64::MAX,
                    ;
                }
            }
            None
        },
    }
}

} // verus!
