use vstd::prelude::*;
use crate::locale::{all_digit, is_digit};

verus! {

/// The operands of a number that plural rules test.
#[derive(PartialEq, Eq, Structural, Clone, Copy, Debug)]
pub struct PluralOperands {
    /// The integer digits.
    pub i: u64,
    /// The number of visible fraction digits, trailing zeros included.
    pub v: usize,
    /// The number of visible fraction digits without trailing zeros.
    pub w: usize,
    /// The visible fraction digits, trailing zeros included.
    pub f: u64,
    /// The visible fraction digits without trailing zeros.
    pub t: u64,
}

/// Why a number could not be read as operands.
#[derive(PartialEq, Eq, Structural, Clone, Copy, Debug)]
pub enum OperandsError {
    /// The input was empty.
    Empty,
    /// The input was no number, or one too large.
    Invalid,
}

/// The number that the ASCII digits `s` spell.
pub open spec fn digits_value(s: Seq<u8>) -> nat
    decreases s.len(),
{
    if s.len() == 0 {
        0
    } else {
        digits_value(s.drop_last()) * 10 + (s.last() - 0x30) as nat
    }
}

/// An unsigned decimal: an optional `+`, then at least one digit, of a value
/// that fits in 64 bits.
pub open spec fn u64_of(s: Seq<u8>) -> Option<u64> {
    let d = if s.len() > 0 && s[0] == 0x2b {
        s.drop_first()
    } else {
        s
    };
    if d.len() > 0 && all_digit(d) && digits_value(d) <= u64::MAX {
        Some(digits_value(d) as u64)
    } else {
        None
    }
}

/// `s` without its trailing `0` digits.
pub open spec fn trim_zeros(s: Seq<u8>) -> Seq<u8>
    decreases s.len(),
{
    if s.len() > 0 && s.last() == 0x30 {
        trim_zeros(s.drop_last())
    } else {
        s
    }
}

/// The index of the first `.` of `s` at or after `i`, or the length of `s`.
pub open spec fn dot_index(s: Seq<u8>, i: int) -> int
    decreases s.len() - i,
{
    if i < 0 || i >= s.len() {
        s.len() as int
    } else if s[i] == 0x2e {
        i
    } else {
        dot_index(s, i + 1)
    }
}

/// The operands of the number written `s`, such as `-1234.567`.
pub open spec fn operands_spec(s: Seq<u8>) -> Result<PluralOperands, OperandsError> {
    if s.len() == 0 {
        Err(OperandsError::Empty)
    } else {
        let a = if s[0] == 0x2d {
            s.drop_first()
        } else {
            s
        };
        let k = dot_index(a, 0);
        if k == a.len() {
            match u64_of(a) {
                Some(i) => Ok(PluralOperands { i, v: 0, w: 0, f: 0, t: 0 }),
                None => Err(OperandsError::Invalid),
            }
        } else {
            let int_part = a.subrange(0, k);
            let dec = a.subrange(k + 1, a.len() as int);
            let nz = trim_zeros(dec);
            match (u64_of(int_part), u64_of(dec)) {
                (Some(i), Some(f)) => if nz.len() == 0 || nz.len() == dec.len() {
                    Ok(PluralOperands { i, v: dec.len() as usize, w: nz.len() as usize, f, t: f })
                } else {
                    match u64_of(nz) {
                        Some(t) => Ok(
                            PluralOperands { i, v: dec.len() as usize, w: nz.len() as usize, f, t },
                        ),
                        None => Err(OperandsError::Invalid),
                    }
                },
                _ => Err(OperandsError::Invalid),
            }
        }
    }
}

proof fn lemma_digits_monotone(s: Seq<u8>, i: int, j: int)
    requires
        0 <= i <= j <= s.len(),
    ensures
        digits_value(s.subrange(0, i)) <= digits_value(s.subrange(0, j)),
    decreases j - i,
{
    if i < j {
        lemma_digits_monotone(s, i, j - 1);
        assert(s.subrange(0, j).drop_last() == s.subrange(0, j - 1));
    }
}

/// Reads `s[lo..hi]` as an unsigned decimal.
fn parse_u64(s: &[u8], lo: usize, hi: usize) -> (r: Option<u64>)
    requires
        lo <= hi <= s@.len(),
    ensures
        r == u64_of(s@.subrange(lo as int, hi as int)),
{
    let ghost whole = s@.subrange(lo as int, hi as int);
    let mut start = lo;
    if lo < hi && s[lo] == 0x2b {
        start = lo + 1;
    }
    let ghost d = s@.subrange(start as int, hi as int);
    proof {
        if lo < hi && s@[lo as int] == 0x2b {
            assert(d =~= whole.drop_first());
        } else {
            assert(d =~= whole);
        }
    }
    if start == hi {
        return None;
    }
    let mut acc: u64 = 0;
    let mut i: usize = start;
    while i < hi
        invariant
            lo <= start <= i <= hi <= s@.len(),
            d == s@.subrange(start as int, hi as int),
            d.len() > 0,
            u64_of(s@.subrange(lo as int, hi as int)) == (if all_digit(d) && digits_value(d)
                <= u64::MAX {
                Some(digits_value(d) as u64)
            } else {
                None
            }),
            forall|k: int| start <= k < i ==> is_digit(s@[k]),
            acc as nat == digits_value(s@.subrange(start as int, i as int)),
        decreases hi - i,
    {
        let b = s[i];
        if !(0x30 <= b && b <= 0x39) {
            proof {
                assert(d[i - start] == b);
                assert(!all_digit(d));
            }
            return None;
        }
        proof {
            assert(s@.subrange(start as int, i + 1).drop_last() == s@.subrange(start as int, i as int));
        }
        match acc.checked_mul(10) {
            None => {
                proof {
                    lemma_digits_monotone(d, i + 1 - start, d.len() as int);
                    assert(d.subrange(0, i + 1 - start) == s@.subrange(start as int, i + 1));
                    assert(d.subrange(0, d.len() as int) == d);
                }
                return None;
            },
            Some(m) => match m.checked_add((b - 0x30) as u64) {
                None => {
                    proof {
                        lemma_digits_monotone(d, i + 1 - start, d.len() as int);
                        assert(d.subrange(0, i + 1 - start) == s@.subrange(start as int, i + 1));
                        assert(d.subrange(0, d.len() as int) == d);
                    }
                    return None;
                },
                Some(v) => {
                    acc = v;
                },
            },
        }
        i = i + 1;
    }
    proof {
        assert(s@.subrange(start as int, i as int) == d);
        assert(all_digit(d));
    }
    Some(acc)
}

impl PluralOperands {
    /// Reads the operands of a number written in decimal, such as `-1234.567`:
    /// an optional `-`, integer digits, and optionally `.` and fraction digits.
    pub fn parse(input: &str) -> (r: Result<PluralOperands, OperandsError>)
        ensures
            r == operands_spec(vstd::utf8::encode_utf8(input@)),
    {
        let s = input.as_bytes();
        let n = s.len();
        if n == 0 {
            return Err(OperandsError::Empty);
        }
        let lo: usize = if s[0] == 0x2d {
            1
        } else {
            0
        };
        let ghost a = if s@[0] == 0x2d {
            s@.drop_first()
        } else {
            s@
        };
        proof {
            assert(a =~= s@.subrange(lo as int, n as int));
        }
        let mut k = lo;
        while k < n && s[k] != 0x2e
            invariant
                lo <= k <= n,
                n == s@.len(),
                a == s@.subrange(lo as int, n as int),
                dot_index(a, 0) == dot_index(a, k - lo),
            decreases n - k,
        {
            k = k + 1;
        }
        proof {
            if k < n {
                assert(a[k - lo] == 0x2e);
            }
            assert(dot_index(a, k - lo) == k - lo);
        }
        if k == n {
            return match parse_u64(s, lo, n) {
                Some(i) => Ok(PluralOperands { i, v: 0, w: 0, f: 0, t: 0 }),
                None => Err(OperandsError::Invalid),
            };
        }
        proof {
            assert(a.subrange(0, k - lo) =~= s@.subrange(lo as int, k as int));
            assert(a.subrange(k - lo + 1, a.len() as int) =~= s@.subrange(k + 1, n as int));
        }
        let int_part = parse_u64(s, lo, k);
        let fraction = parse_u64(s, k + 1, n);
        let mut e = n;
        while e > k + 1 && s[e - 1] == 0x30
            invariant
                k + 1 <= e <= n,
                n == s@.len(),
                trim_zeros(s@.subrange(k + 1, n as int)) == trim_zeros(s@.subrange(k + 1, e as int)),
            decreases e,
        {
            proof {
                assert(s@.subrange(k + 1, e as int).drop_last() == s@.subrange(k + 1, e - 1));
            }
            e = e - 1;
        }
        proof {
            if e == k + 1 {
                assert(s@.subrange(k + 1, e as int).len() == 0);
            }
        }
        let v = n - k - 1;
        let w = e - k - 1;
        match (int_part, fraction) {
            (Some(i), Some(f)) => {
                if w == 0 || w == v {
                    Ok(PluralOperands { i, v, w, f, t: f })
                } else {
                    match parse_u64(s, k + 1, e) {
                        Some(t) => Ok(PluralOperands { i, v, w, f, t }),
                        None => Err(OperandsError::Invalid),
                    }
                }
            },
            _ => Err(OperandsError::Invalid),
        }
    }

    /// The operands of a non-negative integer.
    pub fn from_u64(n: u64) -> (r: PluralOperands)
        ensures
            r == (PluralOperands { i: n, v: 0, w: 0, f: 0, t: 0 }),
    {
        PluralOperands { i: n, v: 0, w: 0, f: 0, t: 0 }
    }

    /// The operands of an integer, which are those of its absolute value;
    /// `Invalid` for the one value whose absolute value does not fit.
    pub fn try_from_i64(n: i64) -> (r: Result<PluralOperands, OperandsError>)
        ensures
            n == i64::MIN ==> r == Err::<PluralOperands, OperandsError>(OperandsError::Invalid),
            n != i64::MIN ==> r == Ok::<PluralOperands, OperandsError>(
                PluralOperands { i: (if n < 0 { -(n as int) } else { n as int }) as u64, v: 0, w: 0, f: 0, t: 0 },
            ),
    {
        if n == i64::MIN {
            return Err(OperandsError::Invalid);
        }
        let x: i64 = if n < 0 {
            -n
        } else {
            n
        };
        Ok(PluralOperands { i: x as u64, v: 0, w: 0, f: 0, t: 0 })
    }
}

impl core::str::FromStr for PluralOperands {
    type Err = OperandsError;

    fn from_str(input: &str) -> Result<PluralOperands, OperandsError> {
        PluralOperands::parse(input)
    }
}

} // verus!
