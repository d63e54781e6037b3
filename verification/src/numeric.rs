//! Parsing of the numeric fields of a catalogue line: plain signed
//! integers, and signed decimal fractions read exactly into thousandths
//! (milli-units), so that no field value is ever approximated.

use vstd::prelude::*;

verus! {

/// ASCII codes of the bytes the parsers test for.
pub const BYTE_PLUS: u8 = 43;

pub const BYTE_MINUS: u8 = 45;

pub const BYTE_DOT: u8 = 46;

pub const BYTE_ZERO: u8 = 48;

pub const BYTE_NINE: u8 = 57;

/// `b` is an ASCII decimal digit.
pub open spec fn is_digit(b: u8) -> bool {
    BYTE_ZERO <= b && b <= BYTE_NINE
}

/// Numeric value of one ASCII digit.
pub open spec fn digit_val(b: u8) -> int {
    b - BYTE_ZERO
}

/// Every byte of `s` is an ASCII digit.
pub open spec fn all_digits(s: Seq<u8>) -> bool {
    forall|i: int| 0 <= i < s.len() ==> is_digit(s[i])
}

/// Value of a run of decimal digits, most significant first.
/// The empty run has value zero.
pub open spec fn digits_val(s: Seq<u8>) -> int
    decreases s.len(),
{
    if s.len() == 0 {
        0
    } else {
        digits_val(s.drop_last()) * 10 + digit_val(s.last())
    }
}

pub open spec fn pow10(n: nat) -> int
    decreases n,
{
    if n == 0 {
        1
    } else {
        10 * pow10((n - 1) as nat)
    }
}

pub proof fn lemma_pow10_mono(a: nat, b: nat)
    requires
        a <= b,
    ensures
        1 <= pow10(a) <= pow10(b),
    decreases b,
{
    if b > 0 {
        if a == b {
            lemma_pow10_mono((a - 1) as nat, (b - 1) as nat);
        } else {
            lemma_pow10_mono(a, (b - 1) as nat);
        }
    }
}

/// A digit run of length `n` has a value below `10^n`.
pub proof fn lemma_digits_val_bound(s: Seq<u8>)
    requires
        all_digits(s),
    ensures
        0 <= digits_val(s) < pow10(s.len()),
    decreases s.len(),
{
    if s.len() > 0 {
        assert(all_digits(s.drop_last()));
        lemma_digits_val_bound(s.drop_last());
        assert(is_digit(s.last()));
    }
}

/// What a strict signed-integer parse of the bytes `s` yields: an
/// optional `+` or `-` sign followed by at least one digit, nothing
/// else. Mirrors how the catalogue's integer fields are read.
pub open spec fn spec_parse_int(s: Seq<u8>) -> Option<int> {
    let signed = s.len() > 0 && (s[0] == BYTE_PLUS || s[0] == BYTE_MINUS);
    let neg = s.len() > 0 && s[0] == BYTE_MINUS;
    let body = if signed {
        s.subrange(1, s.len() as int)
    } else {
        s
    };
    if body.len() > 0 && all_digits(body) {
        Some(
            if neg {
                -digits_val(body)
            } else {
                digits_val(body)
            },
        )
    } else {
        None
    }
}

/// Index of the first occurrence of `b` in `s`, if any.
pub open spec fn find_byte(s: Seq<u8>, b: u8) -> Option<int>
    decreases s.len(),
{
    if s.len() == 0 {
        None
    } else if s[0] == b {
        Some(0)
    } else {
        match find_byte(s.subrange(1, s.len() as int), b) {
            Some(i) => Some(i + 1),
            None => None,
        }
    }
}

pub proof fn lemma_find_byte(s: Seq<u8>, b: u8)
    ensures
        match find_byte(s, b) {
            Some(k) => 0 <= k < s.len() && s[k] == b && (forall|j: int| 0 <= j < k ==> s[j] != b),
            None => forall|j: int| 0 <= j < s.len() ==> s[j] != b,
        },
    decreases s.len(),
{
    if s.len() > 0 && s[0] != b {
        let t = s.subrange(1, s.len() as int);
        lemma_find_byte(t, b);
        assert(forall|j: int| 1 <= j < s.len() ==> s[j] == t[j - 1]);
    }
}

/// What a decimal-fraction parse of the bytes `s` yields, scaled by
/// 1000: an optional sign, then digits with at most one point and at
/// least one digit in all. At most three fraction digits are read, so
/// the scaled value is exact.
pub open spec fn spec_parse_decimal_milli(s: Seq<u8>) -> Option<int> {
    let signed = s.len() > 0 && (s[0] == BYTE_PLUS || s[0] == BYTE_MINUS);
    let neg = s.len() > 0 && s[0] == BYTE_MINUS;
    let body = if signed {
        s.subrange(1, s.len() as int)
    } else {
        s
    };
    match spec_parse_unsigned_milli(body) {
        Some(v) => Some(
            if neg {
                -v
            } else {
                v
            },
        ),
        None => None,
    }
}

/// Unsigned part of the decimal parse, scaled by 1000.
pub open spec fn spec_parse_unsigned_milli(body: Seq<u8>) -> Option<int> {
    match find_byte(body, BYTE_DOT) {
        None => if body.len() > 0 && all_digits(body) {
            Some(digits_val(body) * 1000)
        } else {
            None
        },
        Some(k) => {
            let ip = body.subrange(0, k);
            let fp = body.subrange(k + 1, body.len() as int);
            if ip.len() + fp.len() > 0 && all_digits(ip) && all_digits(fp) && fp.len() <= 3 {
                Some(digits_val(ip) * 1000 + digits_val(fp) * pow10((3 - fp.len()) as nat))
            } else {
                None
            }
        },
    }
}

/// A parsed integer is bounded by the width of its field.
pub proof fn lemma_parse_int_bound(s: Seq<u8>)
    ensures
        spec_parse_int(s) matches Some(v) ==> -pow10(s.len()) < v < pow10(s.len()),
{
    if spec_parse_int(s) is Some {
        let signed = s.len() > 0 && (s[0] == BYTE_PLUS || s[0] == BYTE_MINUS);
        let body = if signed {
            s.subrange(1, s.len() as int)
        } else {
            s
        };
        lemma_digits_val_bound(body);
        lemma_pow10_mono(body.len(), s.len());
    }
}

/// A parsed decimal is bounded by the width of its field: fewer than
/// `10^len` printed units, read exactly in thousandths.
pub proof fn lemma_parse_decimal_bound(s: Seq<u8>)
    ensures
        spec_parse_decimal_milli(s) matches Some(v) ==> -1000 * pow10(s.len()) < v < 1000 * pow10(
            s.len(),
        ),
{
    if spec_parse_decimal_milli(s) is Some {
        let signed = s.len() > 0 && (s[0] == BYTE_PLUS || s[0] == BYTE_MINUS);
        let body = if signed {
            s.subrange(1, s.len() as int)
        } else {
            s
        };
        lemma_pow10_mono(body.len(), s.len());
        match find_byte(body, BYTE_DOT) {
            None => {
                lemma_digits_val_bound(body);
            },
            Some(k) => {
                lemma_find_byte(body, BYTE_DOT);
                let ip = body.subrange(0, k);
                let fp = body.subrange(k + 1, body.len() as int);
                lemma_digits_val_bound(ip);
                lemma_digits_val_bound(fp);
                lemma_pow10_mono(ip.len(), (s.len() - 1) as nat);
                lemma_pow10_mono((s.len() - 1) as nat, s.len());
                assert(pow10(0) == 1 && pow10(1) == 10 && pow10(2) == 100 && pow10(3) == 1000) by {
                    reveal_with_fuel(pow10, 4);
                }
                // the fraction part is worth fewer than 1000 thousandths
                if fp.len() == 0 {
                    assert(digits_val(fp) == 0);
                } else if fp.len() == 1 {
                    assert(digits_val(fp) * pow10(2) <= 9 * 100);
                } else if fp.len() == 2 {
                    assert(digits_val(fp) * pow10(1) <= 99 * 10);
                } else if fp.len() == 3 {
                    assert(digits_val(fp) * pow10(0) <= 999);
                }
                assert(digits_val(fp) * pow10((3 - fp.len()) as nat) < 1000);
            },
        }
    }
}

/// Reads the digit run `s[from..to]`: its value when every byte is a
/// digit, nothing otherwise.
fn parse_digits(s: &[u8], from: usize, to: usize) -> (r: Option<i64>)
    requires
        from <= to <= s@.len(),
        to - from <= 9,
    ensures
        match r {
            Some(v) => all_digits(s@.subrange(from as int, to as int)) && v == digits_val(
                s@.subrange(from as int, to as int),
            ),
            None => !all_digits(s@.subrange(from as int, to as int)),
        },
{
    let mut i = from;
    let mut acc: i64 = 0;
    while i < to
        invariant
            from <= i <= to <= s@.len(),
            to - from <= 9,
            all_digits(s@.subrange(from as int, i as int)),
            acc == digits_val(s@.subrange(from as int, i as int)),
            0 <= acc < pow10((i - from) as nat),
        decreases to - i,
    {
        let b = s[i];
        if b < BYTE_ZERO || b > BYTE_NINE {
            assert(!all_digits(s@.subrange(from as int, to as int))) by {
                assert(s@.subrange(from as int, to as int)[i - from] == b);
            }
            return None;
        }
        proof {
            lemma_pow10_mono((i - from) as nat, 8);
            assert(pow10(8) == 100_000_000) by {
                reveal_with_fuel(pow10, 9);
            }
            assert(s@.subrange(from as int, i + 1).drop_last() =~= s@.subrange(
                from as int,
                i as int,
            ));
            assert(s@.subrange(from as int, i + 1).last() == s@[i as int]);
        }
        acc = acc * 10 + (b - BYTE_ZERO) as i64;
        i = i + 1;
    }
    Some(acc)
}

/// Reads a whole field as a signed integer; `None` exactly when the
/// bytes are not an optional sign followed by one or more digits.
pub fn parse_int_field(s: &[u8]) -> (r: Option<i64>)
    requires
        s@.len() <= 9,
    ensures
        match r {
            Some(v) => spec_parse_int(s@) == Some(v as int),
            None => spec_parse_int(s@) is None,
        },
{
    let n = s.len();
    if n == 0 {
        return None;
    }
    let signed = s[0] == BYTE_PLUS || s[0] == BYTE_MINUS;
    let neg = s[0] == BYTE_MINUS;
    let start: usize = if signed {
        1
    } else {
        0
    };
    proof {
        if !signed {
            assert(s@.subrange(0, n as int) =~= s@);
        }
    }
    if start == n {
        return None;
    }
    match parse_digits(s, start, n) {
        None => None,
        Some(v) => {
            proof {
                lemma_digits_val_bound(s@.subrange(start as int, n as int));
                lemma_pow10_mono((n - start) as nat, 9);
                assert(pow10(9) == 1_000_000_000) by {
                    reveal_with_fuel(pow10, 10);
                }
            }
            Some(
                if neg {
                    -v
                } else {
                    v
                },
            )
        },
    }
}

/// Reads a whole field as a signed decimal scaled by 1000; `None`
/// exactly when the bytes are not a plain decimal number with at most
/// three fraction digits.
#[verifier::rlimit(60)]
pub fn parse_decimal_milli_field(s: &[u8]) -> (r: Option<i64>)
    requires
        s@.len() <= 9,
    ensures
        match r {
            Some(v) => spec_parse_decimal_milli(s@) == Some(v as int),
            None => spec_parse_decimal_milli(s@) is None,
        },
{
    let n = s.len();
    let signed = n > 0 && (s[0] == BYTE_PLUS || s[0] == BYTE_MINUS);
    let neg = n > 0 && s[0] == BYTE_MINUS;
    let start: usize = if signed {
        1
    } else {
        0
    };
    let ghost body: Seq<u8> = if signed {
        s@.subrange(1, n as int)
    } else {
        s@
    };
    proof {
        if !signed {
            assert(s@.subrange(0, n as int) =~= s@);
        }
        lemma_find_byte(body, BYTE_DOT);
    }
    let mut i = start;
    let mut dot: usize = n;
    while i < n && dot == n
        invariant
            start <= i <= n,
            n == s@.len(),
            body == s@.subrange(start as int, n as int),
            dot == n ==> forall|j: int| start <= j < i ==> s@[j] != BYTE_DOT,
            dot != n ==> start <= dot < i && s@[dot as int] == BYTE_DOT && (forall|j: int|
                start <= j < dot ==> s@[j] != BYTE_DOT),
        decreases n - i,
    {
        if s[i] == BYTE_DOT {
            dot = i;
        }
        i = i + 1;
    }
    proof {
        assert(forall|j: int| 0 <= j < body.len() ==> body[j] == s@[j + start]);
        if dot == n {
            assert(find_byte(body, BYTE_DOT) is None);
        } else {
            let di = dot - start as int;
            assert(body[di] == s@[dot as int]);
            match find_byte(body, BYTE_DOT) {
                None => {
                    assert(false);
                },
                Some(kk) => {
                    if kk < di {
                        assert(body[kk] == s@[kk + start]);
                        assert(false);
                    } else if kk > di {
                        assert(body[di] != BYTE_DOT);
                        assert(false);
                    }
                },
            }
            assert(find_byte(body, BYTE_DOT) == Some(di));
        }
    }
    if dot == n {
        // no point: the whole body is an integer number of units
        if start == n {
            return None;
        }
        match parse_digits(s, start, n) {
            None => None,
            Some(v) => {
                proof {
                    lemma_digits_val_bound(body);
                    lemma_pow10_mono(body.len(), 9);
                    assert(pow10(9) == 1_000_000_000) by {
                        reveal_with_fuel(pow10, 10);
                    }
                }
                let units = v * 1000;
                Some(
                    if neg {
                        -units
                    } else {
                        units
                    },
                )
            },
        }
    } else {
        let frac_len = n - dot - 1;
        if frac_len > 3 {
            return None;
        }
        if start == dot && frac_len == 0 {
            // a bare point with no digit on either side
            return None;
        }
        let ghost ip = body.subrange(0, dot - start as int);
        let ghost fp = body.subrange(dot - start + 1, body.len() as int);
        proof {
            assert(ip =~= s@.subrange(start as int, dot as int));
            assert(fp =~= s@.subrange(dot + 1, n as int));
        }
        let iv = match parse_digits(s, start, dot) {
            None => {
                return None;
            },
            Some(v) => v,
        };
        let fv = match parse_digits(s, dot + 1, n) {
            None => {
                return None;
            },
            Some(v) => v,
        };
        let scale: i64 = if frac_len == 0 {
            1000
        } else if frac_len == 1 {
            100
        } else if frac_len == 2 {
            10
        } else {
            1
        };
        proof {
            assert(pow10(3) == 1000 && pow10(2) == 100 && pow10(1) == 10 && pow10(0) == 1) by {
                reveal_with_fuel(pow10, 4);
            }
            lemma_digits_val_bound(ip);
            lemma_digits_val_bound(fp);
            lemma_pow10_mono(ip.len(), 9);
            lemma_pow10_mono(fp.len(), 3);
            assert(pow10(9) == 1_000_000_000) by {
                reveal_with_fuel(pow10, 10);
            }
        }
        let units = iv * 1000 + fv * scale;
        Some(
            if neg {
                -units
            } else {
                units
            },
        )
    }
}

} // verus!
