//! String-based coordinate quantization.
//!
//! The quantized geometry writer receives each coordinate already formatted
//! as a fixed-point decimal string with exactly `digits` fractional digits
//! (the caller formats the translated coordinate; the formatting step's own
//! rounding is thereby reproduced exactly).  Quantization then deletes the
//! decimal point and parses the remaining digit string, sign preserved, as
//! a signed 64-bit integer.

use vstd::prelude::*;

verus! {

/// Whether `c` is a decimal digit.
pub open spec fn is_digit(c: char) -> bool {
    48 <= c as int && c as int <= 57
}

/// The value of a digit character.
pub open spec fn digit_val(c: char) -> int {
    c as int - 48
}

/// The non-negative integer denoted by a digit string (most significant
/// digit first; the empty string denotes zero).
pub open spec fn digits_value(s: Seq<char>) -> int
    decreases s.len(),
{
    if s.len() == 0 {
        0
    } else {
        digits_value(s.drop_last()) * 10 + digit_val(s.last())
    }
}

/// Well-formedness of the body (sign stripped) of a fixed-point literal
/// with exactly `digits` fractional digits: only digits, with one decimal
/// point in the expected place when `digits > 0` and none otherwise.
pub open spec fn fixed_body_wf(body: Seq<char>, digits: nat) -> bool {
    if digits == 0 {
        body.len() >= 1 && forall|k: int| 0 <= k < body.len() ==> is_digit(#[trigger] body[k])
    } else {
        &&& body.len() >= digits + 2
        &&& body[body.len() - digits - 1] == '.'
        &&& forall|k: int|
            0 <= k < body.len() && k != body.len() - digits - 1 ==> is_digit(#[trigger] body[k])
    }
}

/// Well-formedness of a fixed-point literal: an optional leading `'-'`,
/// then a well-formed body.
pub open spec fn fixed_wf(s: Seq<char>, digits: nat) -> bool {
    if s.len() > 0 && s[0] == '-' {
        fixed_body_wf(s.drop_first(), digits)
    } else {
        fixed_body_wf(s, digits)
    }
}

/// The digit string of a well-formed body with the decimal point deleted.
pub open spec fn fixed_digit_seq(body: Seq<char>, digits: nat) -> Seq<char> {
    if digits == 0 {
        body
    } else {
        body.subrange(0, body.len() - digits - 1) + body.subrange(
            body.len() - digits,
            body.len() as int,
        )
    }
}

/// The signed integer a well-formed fixed-point literal quantizes to: the
/// value of its digit string with the point deleted, negated under a
/// leading `'-'` (so `"-0.000"` quantizes to zero, sign and all).
pub open spec fn fixed_value(s: Seq<char>, digits: nat) -> int {
    if s.len() > 0 && s[0] == '-' {
        -digits_value(fixed_digit_seq(s.drop_first(), digits))
    } else {
        digits_value(fixed_digit_seq(s, digits))
    }
}

/// A digit string denotes a non-negative value.
pub proof fn lemma_digits_value_nonneg(s: Seq<char>)
    requires
        forall|k: int| 0 <= k < s.len() ==> is_digit(#[trigger] s[k]),
    ensures
        digits_value(s) >= 0,
    decreases s.len(),
{
    if s.len() == 0 {
    } else {
        lemma_digits_value_nonneg(s.drop_last());
    }
}

/// Extending a digit string never decreases its value.
pub proof fn lemma_digits_value_take_bound(s: Seq<char>, i: int)
    requires
        0 <= i <= s.len(),
        forall|k: int| 0 <= k < s.len() ==> is_digit(#[trigger] s[k]),
    ensures
        digits_value(s) >= digits_value(s.take(i)),
    decreases s.len() - i,
{
    if i == s.len() {
        assert(s.take(i) =~= s);
    } else {
        lemma_digits_value_take_bound(s, i + 1);
        let t = s.take(i + 1);
        assert(t.drop_last() =~= s.take(i));
        assert(digits_value(t) == digits_value(s.take(i)) * 10 + digit_val(s[i]));
        lemma_digits_value_nonneg(s.take(i));
    }
}

/// Quantizes one fixed-point coordinate literal: deletes the decimal point
/// and parses the remaining digit string, sign preserved, as a signed
/// 64-bit integer.  Yields `None` exactly when the string is not a
/// well-formed fixed-point literal with `digits` fractional digits, or when
/// its quantized value does not fit a signed 64-bit integer.
pub fn quantize_fixed(s: &str, digits: usize) -> (r: Option<i64>)
    ensures
        r is Some <==> fixed_wf(s@, digits as nat) && i64::MIN <= fixed_value(s@, digits as nat)
            <= i64::MAX,
        r matches Some(v) ==> v == fixed_value(s@, digits as nat),
{
    let n = s.unicode_len();
    let neg = n > 0 && s.get_char(0) == '-';
    let start: usize = if neg {
        1
    } else {
        0
    };
    let ghost body = if neg {
        s@.drop_first()
    } else {
        s@
    };
    let blen = n - start;
    if digits == 0 {
        if blen < 1 {
            return None;
        }
    } else {
        if blen < 2 || blen - 2 < digits {
            return None;
        }
    }
    let dot: usize = if digits == 0 {
        n
    } else {
        n - digits - 1
    };
    proof {
        assert(body.len() == n - start);
        if digits > 0 {
            assert(dot - start == body.len() - digits - 1);
        }
    }
    // First pass: check the shape — digits everywhere, the decimal point
    // exactly where `digits` fractional digits put it.
    let mut i: usize = start;
    while i < n
        invariant
            n == s@.len(),
            start <= i <= n,
            start == if neg { 1int } else { 0int },
            neg ==> n >= 1 && s@[0] == '-',
            !neg ==> n == 0 || s@[0] != '-',
            body == if neg { s@.drop_first() } else { s@ },
            body.len() == n - start,
            digits == 0 ==> body.len() >= 1 && dot == n,
            digits > 0 ==> body.len() >= digits + 2 && dot == n - digits - 1 && start < dot < n,
            forall|k: int| start <= k < i && k != dot ==> is_digit(#[trigger] s@[k]),
            digits > 0 && i > dot ==> s@[dot as int] == '.',
        decreases n - i,
    {
        let c = s.get_char(i);
        if digits > 0 && i == dot {
            if c != '.' {
                proof {
                    assert(body[dot - start] == s@[dot as int]);
                    assert(!fixed_body_wf(body, digits as nat));
                    assert(!fixed_wf(s@, digits as nat));
                }
                return None;
            }
        } else {
            let cu = c as u32;
            if cu < 48 || cu > 57 {
                proof {
                    assert(body[i - start] == s@[i as int]);
                    assert(!is_digit(s@[i as int]));
                    assert(!fixed_body_wf(body, digits as nat));
                    assert(!fixed_wf(s@, digits as nat));
                }
                return None;
            }
        }
        i += 1;
    }
    proof {
        assert forall|k: int| 0 <= k < body.len() && k != dot - start implies is_digit(
            #[trigger] body[k],
        ) by {
            assert(body[k] == s@[k + start]);
        }
        if digits > 0 {
            assert(body[dot - start] == s@[dot as int]);
        }
        assert(fixed_body_wf(body, digits as nat));
        assert(fixed_wf(s@, digits as nat));
    }
    // The digit string with the point deleted, and its pointwise relation
    // to the input.
    let ghost dseq = fixed_digit_seq(body, digits as nat);
    proof {
        if digits == 0 {
            assert(dseq.len() == body.len());
        } else {
            assert(dseq.len() == body.len() - 1);
        }
        assert forall|k: int| 0 <= k < dseq.len() implies is_digit(#[trigger] dseq[k]) by {
            if digits > 0 {
                if k < dot - start {
                    assert(dseq[k] == body[k]);
                } else {
                    assert(dseq[k] == body[k + 1]);
                }
            }
        }
        lemma_digits_value_nonneg(dseq);
    }
    // Second pass: accumulate the digit string's value, point skipped.
    let mut acc: u64 = 0;
    let mut i2: usize = start;
    while i2 < n
        invariant
            n == s@.len(),
            start <= i2 <= n,
            start == if neg { 1int } else { 0int },
            neg ==> n >= 1 && s@[0] == '-',
            !neg ==> n == 0 || s@[0] != '-',
            body == if neg { s@.drop_first() } else { s@ },
            body.len() == n - start,
            digits == 0 ==> body.len() >= 1 && dot == n,
            digits > 0 ==> body.len() >= digits + 2 && dot == n - digits - 1 && start < dot < n,
            fixed_body_wf(body, digits as nat),
            fixed_wf(s@, digits as nat),
            dseq == fixed_digit_seq(body, digits as nat),
            dseq.len() == body.len() - (if digits > 0 { 1int } else { 0int }),
            forall|k: int| 0 <= k < dseq.len() ==> is_digit(#[trigger] dseq[k]),
            digits_value(dseq) >= 0,
            acc as int == digits_value(
                dseq.take(if digits > 0 && i2 > dot { i2 - start - 1 } else { i2 - start } as int),
            ),
        decreases n - i2,
    {
        let ghost cnt = (if digits > 0 && i2 > dot {
            i2 - start - 1
        } else {
            i2 - start
        }) as int;
        let c = s.get_char(i2);
        if digits > 0 && i2 == dot {
            // the decimal point: deleted, nothing accumulated
        } else {
            let cu = c as u32;
            proof {
                if i2 < dot || digits == 0 {
                    assert(dseq[cnt] == body[cnt]);
                    assert(body[cnt] == s@[i2 as int]);
                } else {
                    assert(dseq[cnt] == body[cnt + 1]);
                    assert(body[cnt + 1] == s@[i2 as int]);
                }
                assert(dseq[cnt] == s@[i2 as int]);
                assert(is_digit(s@[i2 as int]));
            }
            let d = (cu - 48) as u64;
            let next = match acc.checked_mul(10) {
                Some(m) => m.checked_add(d),
                None => None,
            };
            match next {
                Some(a2) => {
                    proof {
                        let t = dseq.take(cnt + 1);
                        assert(t.drop_last() =~= dseq.take(cnt));
                        assert(t.last() == dseq[cnt]);
                        assert(digit_val(dseq[cnt]) == d);
                        assert(digits_value(t) == digits_value(dseq.take(cnt)) * 10 + digit_val(
                            t.last(),
                        ));
                    }
                    acc = a2;
                },
                None => {
                    // The accumulated magnitude already exceeds the 64-bit
                    // range, so the quantized value cannot fit.
                    proof {
                        let t = dseq.take(cnt + 1);
                        assert(t.drop_last() =~= dseq.take(cnt));
                        assert(digit_val(dseq[cnt]) == d);
                        assert(digits_value(t) == digits_value(dseq.take(cnt)) * 10 + digit_val(
                            t.last(),
                        ));
                        assert(digits_value(t) > u64::MAX);
                        assert forall|k: int| 0 <= k < dseq.len() implies is_digit(
                            #[trigger] dseq[k],
                        ) by {}
                        lemma_digits_value_take_bound(dseq, cnt + 1);
                        assert(digits_value(dseq) > u64::MAX);
                        if neg {
                            assert(fixed_value(s@, digits as nat) == -digits_value(dseq));
                            assert(fixed_value(s@, digits as nat) < i64::MIN);
                        } else {
                            assert(fixed_value(s@, digits as nat) == digits_value(dseq));
                            assert(fixed_value(s@, digits as nat) > i64::MAX);
                        }
                    }
                    return None;
                },
            }
        }
        i2 += 1;
    }
    proof {
        assert(dseq.take(dseq.len() as int) =~= dseq);
        if neg {
            assert(fixed_value(s@, digits as nat) == -(acc as int));
        } else {
            assert(fixed_value(s@, digits as nat) == acc as int);
        }
    }
    if neg {
        if acc <= i64::MAX as u64 {
            Some(-(acc as i64))
        } else if acc == (i64::MAX as u64) + 1 {
            Some(i64::MIN)
        } else {
            None
        }
    } else {
        if acc <= i64::MAX as u64 {
            Some(acc as i64)
        } else {
            None
        }
    }
}

} // verus!
