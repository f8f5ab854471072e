//! Parsing of the decimal price and amount strings the exchanges put
//! on the wire: a price becomes an integer tick count (hundredths,
//! rounded at the third fraction digit), an amount becomes a
//! fixed-point integer scaled by `AMOUNT_SCALE` (truncated past the
//! eighth fraction digit).

use vstd::prelude::*;
use vstd::string::StringSliceAdditionalSpecFns;

use crate::data_types::AMOUNT_SCALE;

verus! {

/// ASCII digit.
pub open spec fn is_digit(b: u8) -> bool {
    48 <= b <= 57
}

/// The numeric value of an ASCII digit.
pub open spec fn digit_val(b: u8) -> int {
    b - 48
}

/// Every byte is an ASCII digit.
pub open spec fn all_digits(s: Seq<u8>) -> bool {
    forall|i: int| 0 <= i < s.len() ==> is_digit(#[trigger] s[i])
}

/// The integer a digit string denotes, most significant first.
pub open spec fn digits_val(s: Seq<u8>) -> int
    decreases s.len(),
{
    if s.len() == 0 {
        0
    } else {
        digits_val(s.drop_last()) * 10 + digit_val(s.last())
    }
}

/// Ten to the `n`-th power.
pub open spec fn pow10(n: int) -> int
    decreases n,
{
    if n <= 0 {
        1
    } else {
        10 * pow10(n - 1)
    }
}

/// The index of the first `'.'`, or the length if there is none.
pub open spec fn find_dot(s: Seq<u8>, i: int) -> int
    decreases s.len() - i,
{
    if i < 0 || i >= s.len() {
        s.len() as int
    } else if s[i] == 46 {
        i
    } else {
        find_dot(s, i + 1)
    }
}

/// The tick count a decimal price string denotes: the integer part
/// times one hundred, plus the first two fraction digits, rounded up
/// when the third fraction digit is five or more. `None` when the
/// string is not `digits [ '.' digits ]` with at least one digit.
pub open spec fn spec_parse_price(s: Seq<u8>) -> Option<int> {
    let p = find_dot(s, 0);
    let ip = s.take(p);
    let fp = if p < s.len() {
        s.subrange(p + 1, s.len() as int)
    } else {
        Seq::empty()
    };
    if ip.len() + fp.len() == 0 || !all_digits(ip) || !all_digits(fp) {
        Option::None
    } else {
        let d1 = if fp.len() >= 1 {
            digit_val(fp[0])
        } else {
            0
        };
        let d2 = if fp.len() >= 2 {
            digit_val(fp[1])
        } else {
            0
        };
        let carry: int = if fp.len() >= 3 && digit_val(fp[2]) >= 5 {
            1
        } else {
            0
        };
        Option::Some(digits_val(ip) * 100 + d1 * 10 + d2 + carry)
    }
}

/// The scaled amount a decimal string denotes: the integer part times
/// `AMOUNT_SCALE` plus the fraction truncated past the eighth digit.
pub open spec fn spec_parse_amount(s: Seq<u8>) -> Option<int> {
    let p = find_dot(s, 0);
    let ip = s.take(p);
    let fp = if p < s.len() {
        s.subrange(p + 1, s.len() as int)
    } else {
        Seq::empty()
    };
    if ip.len() + fp.len() == 0 || !all_digits(ip) || !all_digits(fp) {
        Option::None
    } else {
        let k: int = if fp.len() <= 8 {
            fp.len() as int
        } else {
            8
        };
        Option::Some(digits_val(ip) * (AMOUNT_SCALE as int) + digits_val(fp.take(k)) * pow10(8 - k))
    }
}

/// A digit string denotes a value below `pow10` of its length.
proof fn lemma_digits_val_bounds(s: Seq<u8>)
    requires
        all_digits(s),
    ensures
        0 <= digits_val(s) < pow10(s.len() as int),
    decreases s.len(),
{
    if s.len() > 0 {
        assert(all_digits(s.drop_last())) by {
            assert(forall|i: int| 0 <= i < s.len() - 1 ==> s.drop_last()[i] == s[i]);
        }
        lemma_digits_val_bounds(s.drop_last());
        assert(is_digit(s.last()));
        vstd::arithmetic::mul::lemma_mul_inequality(
            digits_val(s.drop_last()),
            pow10(s.len() - 1) - 1,
            10,
        );
    }
}

/// A digit string with a nonzero leading digit denotes at least
/// `pow10` of one less than its length.
proof fn lemma_digits_val_lower(s: Seq<u8>)
    requires
        all_digits(s),
        s.len() > 0,
        s[0] != 48,
    ensures
        digits_val(s) >= pow10(s.len() - 1),
    decreases s.len(),
{
    if s.len() == 1 {
        assert(digit_val(s.last()) >= 1);
    } else {
        assert(all_digits(s.drop_last())) by {
            assert(forall|i: int| 0 <= i < s.len() - 1 ==> s.drop_last()[i] == s[i]);
        }
        lemma_digits_val_lower(s.drop_last());
        assert(is_digit(s.last()));
        vstd::arithmetic::mul::lemma_mul_inequality(
            pow10(s.len() - 2),
            digits_val(s.drop_last()),
            10,
        );
    }
}

/// Dropping a leading zero does not change a digit string's value.
proof fn lemma_leading_zero(s: Seq<u8>)
    requires
        s.len() > 0,
        s[0] == 48,
    ensures
        digits_val(s) == digits_val(s.subrange(1, s.len() as int)),
    decreases s.len(),
{
    if s.len() == 1 {
        assert(s.subrange(1, 1) =~= Seq::<u8>::empty());
        assert(digits_val(s) == digits_val(s.drop_last()) * 10 + digit_val(s.last()));
        assert(s.drop_last() =~= Seq::<u8>::empty());
        assert(s.last() == s[0]);
        assert(digits_val(s) == 0);
    } else {
        assert(s.drop_last()[0] == s[0]);
        lemma_leading_zero(s.drop_last());
        let sub = s.subrange(1, s.len() as int);
        assert(s.drop_last().subrange(1, s.len() - 1) =~= sub.drop_last());
        assert(sub.last() == s.last());
        assert(sub.len() > 0);
        assert(digits_val(s) == digits_val(s.drop_last()) * 10 + digit_val(s.last()));
        assert(digits_val(s.drop_last()) == digits_val(sub.drop_last()));
        assert(digits_val(sub) == digits_val(sub.drop_last()) * 10 + digit_val(sub.last()));
    }
}

/// `pow10` grows with its argument.
proof fn lemma_pow10_increases(a: int, b: int)
    requires
        0 <= a <= b,
    ensures
        pow10(a) <= pow10(b),
    decreases b,
{
    if a < b {
        lemma_pow10_increases(a, b - 1);
        assert(pow10(b) == 10 * pow10(b - 1));
        assert(pow10(b - 1) >= 1) by {
            lemma_pow10_pos(b - 1);
        }
    }
}

/// Scans for the first `'.'`; afterwards `p` is `find_dot` of the
/// whole string.
fn scan_dot(bytes: &[u8]) -> (p: usize)
    ensures
        p as int == find_dot(bytes@, 0),
        p <= bytes@.len(),
{
    let ghost bs = bytes@;
    let n = bytes.len();
    let mut p: usize = 0;
    while p < n
        invariant
            p <= n,
            n == bs.len(),
            bytes@ == bs,
            find_dot(bs, 0) == find_dot(bs, p as int),
        ensures
            p <= n,
            bytes@ == bs,
            find_dot(bs, 0) == find_dot(bs, p as int),
            p == n || bs[p as int] == 46,
        decreases n - p,
    {
        if bytes[p] == 46 {
            break ;
        }
        proof {
            assert(find_dot(bs, p as int) == find_dot(bs, p + 1));
        }
        p += 1;
    }
    proof {
        if p == n {
            assert(find_dot(bs, n as int) == n as int);
        } else {
            assert(find_dot(bs, p as int) == p as int);
        }
    }
    p
}

/// Accumulates the digit string `bytes[from..to]` (whose leading
/// digit, if any, is nonzero and which is at most 30 digits long)
/// into an integer; `None` on a non-digit byte.
fn accumulate_digits(bytes: &[u8], from: usize, to: usize) -> (r: Option<u128>)
    requires
        from <= to <= bytes@.len(),
        to - from <= 30,
    ensures
        match r {
            Option::None => !all_digits(bytes@.subrange(from as int, to as int)),
            Option::Some(acc) => all_digits(bytes@.subrange(from as int, to as int)) && acc
                == digits_val(bytes@.subrange(from as int, to as int)) && acc < pow10(30),
        },
{
    let ghost bs = bytes@;
    let mut acc: u128 = 0;
    let mut i = from;
    while i < to
        invariant
            from <= i <= to <= bs.len(),
            to - from <= 30,
            bytes@ == bs,
            all_digits(bs.subrange(from as int, i as int)),
            acc == digits_val(bs.subrange(from as int, i as int)),
            acc < pow10((i - from) as int),
        decreases to - i,
    {
        let b = bytes[i];
        if b < 48 || b > 57 {
            proof {
                assert(!is_digit(bs.subrange(from as int, to as int)[i - from]));
            }
            return Option::None;
        }
        proof {
            lemma_pow10_increases((i - from) as int, 29);
            reveal_with_fuel(pow10, 31);
            assert(bs.subrange(from as int, i + 1).drop_last() =~= bs.subrange(
                from as int,
                i as int,
            ));
            assert(bs.subrange(from as int, i + 1).last() == bs[i as int]);
            vstd::arithmetic::mul::lemma_mul_inequality(acc as int, pow10(29) - 1, 10);
        }
        acc = acc * 10 + (b - 48) as u128;
        proof {
            assert(forall|j: int|
                0 <= j < i + 1 - from ==> #[trigger] bs.subrange(from as int, i + 1)[j] == bs[
                    from + j
                ]);
        }
        i += 1;
    }
    proof {
        lemma_pow10_increases((to - from) as int, 30);
    }
    Option::Some(acc)
}

/// Skips the leading zeros of the digit string `bytes[0..p]`; the
/// value it denotes is unchanged.
fn strip_zeros(bytes: &[u8], p: usize) -> (z: usize)
    requires
        p <= bytes@.len(),
    ensures
        z <= p,
        forall|j: int| 0 <= j < z ==> bytes@[j] == 48,
        digits_val(bytes@.subrange(z as int, p as int)) == digits_val(bytes@.take(p as int)),
        z == p || bytes@[z as int] != 48,
{
    let ghost bs = bytes@;
    let mut z: usize = 0;
    while z < p && bytes[z] == 48
        invariant
            z <= p,
            p <= bs.len(),
            bytes@ == bs,
            forall|j: int| 0 <= j < z ==> bs[j] == 48,
            digits_val(bs.subrange(z as int, p as int)) == digits_val(bs.take(p as int)),
        decreases p - z,
    {
        proof {
            let cur = bs.subrange(z as int, p as int);
            assert(cur[0] == bs[z as int]);
            lemma_leading_zero(cur);
            assert(cur.subrange(1, cur.len() as int) =~= bs.subrange(z + 1, p as int));
        }
        z += 1;
    }
    z
}

/// Parses a decimal price string into integer ticks (hundredths of the
/// quote currency), rounding at the third fraction digit. Returns
/// `None` exactly when the string is malformed or the value does not
/// fit the machine word.
#[verifier::rlimit(50)]
pub fn parse_price(s: &str) -> (r: Option<usize>)
    ensures
        match spec_parse_price(s.spec_bytes()) {
            Option::None => r is None,
            Option::Some(v) => 0 <= v && (v <= usize::MAX ==> r == Option::Some(v as usize)) && (
            v > usize::MAX ==> r is None),
        },
{
    let bytes: &[u8] = s.as_bytes();
    let ghost bs = s.spec_bytes();
    let n = bytes.len();
    let p = scan_dot(bytes);
    let ghost ip = bs.take(p as int);
    let ghost fp = (if (p as int) < bs.len() {
        bs.subrange(p + 1, bs.len() as int)
    } else {
        Seq::<u8>::empty()
    });
    if p == 0 && (p == n || p + 1 == n) {
        proof {
            assert(ip.len() + fp.len() == 0);
        }
        return Option::None;
    }
    let z = strip_zeros(bytes, p);
    proof {
        assert(forall|j: int| 0 <= j < p ==> #[trigger] ip[j] == bs[j]);
    }
    let ghost sig = bs.subrange(z as int, p as int);
    proof {
        assert(forall|j: int| 0 <= j < sig.len() ==> #[trigger] sig[j] == bs[z + j]);
    }
    if p - z > 30 {
        // Too many significant digits: if the string is well-formed at
        // all, its value exceeds any machine word.
        proof {
            if all_digits(ip) && all_digits(fp) {
                assert forall|j: int| 0 <= j < sig.len() implies is_digit(#[trigger] sig[j]) by {
                    assert(sig[j] == bs[z + j]);
                    assert(ip[z + j] == bs[z + j]);
                    assert(is_digit(ip[z + j]));
                }
                assert(all_digits(sig));
                assert(sig[0] == bs[z as int] && bs[z as int] != 48);
                lemma_digits_val_lower(sig);
                lemma_pow10_increases(30, sig.len() - 1);
                reveal_with_fuel(pow10, 31);
                vstd::arithmetic::mul::lemma_mul_inequality(1, digits_val(ip), 100);
            }
        }
        return Option::None;
    }
    let acc = match accumulate_digits(bytes, z, p) {
        Option::Some(a) => a,
        Option::None => {
            proof {
                let bad = choose|j: int| 0 <= j < sig.len() && !is_digit(sig[j]);
                assert(ip[z + bad] == sig[bad]);
            }
            return Option::None;
        },
    };
    proof {
        assert(all_digits(ip)) by {
            assert forall|j: int| 0 <= j < ip.len() implies is_digit(#[trigger] ip[j]) by {
                if j < z {
                    assert(bs[j] == 48);
                } else {
                    assert(is_digit(sig[j - z]));
                    assert(sig[j - z] == bs[j]);
                }
            }
        }
    }
    // Fraction: validate every digit, read the first three.
    let mut d1: u128 = 0;
    let mut d2: u128 = 0;
    let mut carry: u128 = 0;
    if p < n {
        let mut j = p + 1;
        while j < n
            invariant
                p + 1 <= j <= n,
                n == bs.len(),
                bytes@ == bs,
                bs == s.spec_bytes(),
                p as int == find_dot(bs, 0),
                (p as int) < bs.len(),
                fp == bs.subrange(p + 1, bs.len() as int),
                all_digits(fp.take(j - p - 1)),
                d1 == (if j > p + 1 && fp.len() >= 1 {
                    digit_val(fp[0])
                } else {
                    0
                }),
                d2 == (if j > p + 2 && fp.len() >= 2 {
                    digit_val(fp[1])
                } else {
                    0
                }),
                carry == (if j > p + 3 && fp.len() >= 3 && digit_val(fp[2]) >= 5 {
                    1int
                } else {
                    0int
                }),
            decreases n - j,
        {
            let b = bytes[j];
            if b < 48 || b > 57 {
                proof {
                    assert(fp[j - p - 1] == bs[j as int]);
                }
                return Option::None;
            }
            if j == p + 1 {
                d1 = (b - 48) as u128;
            } else if j == p + 2 {
                d2 = (b - 48) as u128;
            } else if j == p + 3 {
                if b >= 53 {
                    carry = 1;
                }
            }
            proof {
                assert(forall|t: int| 0 <= t < j - p ==> #[trigger] fp.take(j - p)[t] == bs[p + 1 + t]);
            }
            j += 1;
        }
        proof {
            assert(fp.take(n - p - 1) =~= fp);
        }
    }
    proof {
        reveal_with_fuel(pow10, 31);
        vstd::arithmetic::mul::lemma_mul_inequality(
            acc as int,
            pow10(30),
            100,
        );
    }
    let value: u128 = acc * 100 + d1 * 10 + d2 + carry;
    if value > usize::MAX as u128 {
        return Option::None;
    }
    Option::Some(value as usize)
}

/// Parses a decimal amount string into a fixed-point integer scaled
/// by `AMOUNT_SCALE`, truncating past the eighth fraction digit.
/// Returns `None` exactly when the string is malformed or the value
/// does not fit in 64 bits.
#[verifier::rlimit(50)]
pub fn parse_amount(s: &str) -> (r: Option<u64>)
    ensures
        match spec_parse_amount(s.spec_bytes()) {
            Option::None => r is None,
            Option::Some(v) => 0 <= v && (v <= u64::MAX ==> r == Option::Some(v as u64)) && (v
                > u64::MAX ==> r is None),
        },
{
    let bytes: &[u8] = s.as_bytes();
    let ghost bs = s.spec_bytes();
    let n = bytes.len();
    let p = scan_dot(bytes);
    let ghost ip = bs.take(p as int);
    let ghost fp = (if (p as int) < bs.len() {
        bs.subrange(p + 1, bs.len() as int)
    } else {
        Seq::<u8>::empty()
    });
    if p == 0 && (p == n || p + 1 == n) {
        proof {
            assert(ip.len() + fp.len() == 0);
        }
        return Option::None;
    }
    let z = strip_zeros(bytes, p);
    proof {
        assert(forall|j: int| 0 <= j < p ==> #[trigger] ip[j] == bs[j]);
    }
    let ghost sig = bs.subrange(z as int, p as int);
    proof {
        assert(forall|j: int| 0 <= j < sig.len() ==> #[trigger] sig[j] == bs[z + j]);
    }
    if p - z > 30 {
        // Too many significant digits: if the string is well-formed at
        // all, its value exceeds 64 bits.
        proof {
            if all_digits(ip) && all_digits(fp) {
                assert forall|j: int| 0 <= j < sig.len() implies is_digit(#[trigger] sig[j]) by {
                    assert(sig[j] == bs[z + j]);
                    assert(ip[z + j] == bs[z + j]);
                    assert(is_digit(ip[z + j]));
                }
                assert(all_digits(sig));
                assert(sig[0] == bs[z as int] && bs[z as int] != 48);
                lemma_digits_val_lower(sig);
                lemma_pow10_increases(30, sig.len() - 1);
                reveal_with_fuel(pow10, 31);
                vstd::arithmetic::mul::lemma_mul_inequality(
                    1,
                    digits_val(ip),
                    AMOUNT_SCALE as int,
                );
                let k: int = if fp.len() <= 8 {
                    fp.len() as int
                } else {
                    8
                };
                assert(all_digits(fp.take(k))) by {
                    assert(forall|t: int| 0 <= t < k ==> fp.take(k)[t] == fp[t]);
                }
                lemma_digits_val_bounds(fp.take(k));
                lemma_pow10_pos(8 - k);
                vstd::arithmetic::mul::lemma_mul_nonnegative(digits_val(fp.take(k)), pow10(8 - k));
            }
        }
        return Option::None;
    }
    let acc = match accumulate_digits(bytes, z, p) {
        Option::Some(a) => a,
        Option::None => {
            proof {
                let bad = choose|j: int| 0 <= j < sig.len() && !is_digit(sig[j]);
                assert(ip[z + bad] == sig[bad]);
            }
            return Option::None;
        },
    };
    proof {
        assert(all_digits(ip)) by {
            assert forall|j: int| 0 <= j < ip.len() implies is_digit(#[trigger] ip[j]) by {
                if j < z {
                    assert(bs[j] == 48);
                } else {
                    assert(is_digit(sig[j - z]));
                    assert(sig[j - z] == bs[j]);
                }
            }
        }
    }
    // Fraction: accumulate the first eight digits, validate the rest.
    let mut facc: u128 = 0;
    let mut mult: u128 = 100_000_000;
    let ghost k: int = 0;
    if p < n {
        let flen = n - p - 1;
        let kk: usize = if flen <= 8 {
            flen
        } else {
            8
        };
        proof {
            k = kk as int;
            assert(fp.take(k) =~= bs.subrange(p + 1, p + 1 + k));
        }
        facc = match accumulate_digits(bytes, p + 1, p + 1 + kk) {
            Option::Some(a) => a,
            Option::None => {
                proof {
                    let sub = bs.subrange(p + 1, p + 1 + k);
                    let bad = choose|j: int| 0 <= j < sub.len() && !is_digit(sub[j]);
                    assert(fp[bad] == sub[bad]);
                }
                return Option::None;
            },
        };
        // Validate the fraction digits past the eighth.
        let mut j = p + 1 + kk;
        while j < n
            invariant
                p + 1 + kk <= j <= n,
                n == bs.len(),
                bytes@ == bs,
                bs == s.spec_bytes(),
                p as int == find_dot(bs, 0),
                (p as int) < bs.len(),
                kk <= 8,
                fp == bs.subrange(p + 1, bs.len() as int),
                forall|t: int| kk <= t < j - p - 1 ==> is_digit(#[trigger] fp[t]),
            decreases n - j,
        {
            let b = bytes[j];
            if b < 48 || b > 57 {
                proof {
                    assert(fp[j - p - 1] == bs[j as int]);
                }
                return Option::None;
            }
            proof {
                assert(fp[j - p - 1] == bs[j as int]);
            }
            j += 1;
        }
        // Scale factor for the missing fraction digits.
        let mut c: usize = 0;
        mult = 1;
        while c < 8 - kk
            invariant
                c <= 8 - kk,
                kk <= 8,
                mult == pow10(c as int),
                mult <= 100_000_000,
            decreases 8 - kk - c,
        {
            proof {
                reveal_with_fuel(pow10, 10);
                lemma_pow10_increases(c as int + 1, 8);
            }
            mult = mult * 10;
            c += 1;
        }
        proof {
            assert(mult == pow10(8 - k));
        }
    } else {
        proof {
            assert(fp.take(0) =~= Seq::<u8>::empty());
        }
    }
    proof {
        assert(all_digits(fp)) by {
            assert forall|t: int| 0 <= t < fp.len() implies is_digit(#[trigger] fp[t]) by {
                if t < k {
                    assert(is_digit(fp.take(k)[t]));
                    assert(fp.take(k)[t] == fp[t]);
                }
            }
        }
        assert(facc == digits_val(fp.take(k)));
        lemma_digits_val_bounds(fp.take(k));
        lemma_pow10_increases(k, 8);
        lemma_pow10_pos(8 - k);
        lemma_pow10_increases(8 - k, 8);
        reveal_with_fuel(pow10, 31);
        vstd::arithmetic::mul::lemma_mul_inequality(acc as int, pow10(30), AMOUNT_SCALE as int);
        vstd::arithmetic::mul::lemma_mul_upper_bound(
            digits_val(fp.take(k)),
            pow10(8),
            pow10(8 - k),
            pow10(8),
        );
        vstd::arithmetic::mul::lemma_mul_nonnegative(digits_val(fp.take(k)), pow10(8 - k));
    }
    proof {
        assert(pow10(30) == 1000000000000000000000000000000int);
        assert(acc as int * AMOUNT_SCALE as int
            <= 1000000000000000000000000000000int * 100000000int) by {
            vstd::arithmetic::mul::lemma_mul_inequality(
                acc as int,
                1000000000000000000000000000000int,
                AMOUNT_SCALE as int,
            );
        }
        assert(pow10(8) == 100000000int);
        assert(facc as int <= 100000000int);
        assert(mult as int <= 100000000int);
        assert(facc as int * mult as int <= 100000000int * 100000000int) by {
            vstd::arithmetic::mul::lemma_mul_upper_bound(
                facc as int,
                100000000int,
                mult as int,
                100000000int,
            );
        }
    }
    let value: u128 = acc * AMOUNT_SCALE as u128 + facc * mult;
    if value > u64::MAX as u128 {
        return Option::None;
    }
    Option::Some(value as u64)
}

/// `pow10` is positive.
proof fn lemma_pow10_pos(n: int)
    ensures
        pow10(n) >= 1,
    decreases n,
{
    if n > 0 {
        lemma_pow10_pos(n - 1);
    }
}

} // verus!
