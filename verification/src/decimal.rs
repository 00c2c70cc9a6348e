//! A decimal literal held as plain values: sign, mantissa and a power of
//! ten. It is the concrete numeric type the loader is instantiated with at
//! the tool's boundary.
//!
//! The accepted token grammar is
//! `['-'] digits ['.' digits] ['e' ['-'] digits]`
//! with ASCII decimal digits and a lowercase `e`. A token is additionally
//! valid only when the mantissa digits (integer and fractional part run
//! together) and the exponent digits each fit in a `u64`, and the effective
//! exponent (the written exponent minus the number of fractional digits)
//! fits in an `i64`.

use vstd::prelude::*;

use crate::numeric::Parseable;
use crate::text::all_dec_digits;
use crate::text::digits_val;
use crate::text::find_char;
use crate::text::find_char_at;
use crate::text::lemma_all_dec_digits_add;
use crate::text::lemma_find_char;
use crate::text::parse_u64_digits;

verus! {

/// The value `(-1)^negative * mantissa * 10^exponent`.
///
/// A parsed token keeps its digits as written, so `"2.5"` gives mantissa
/// `25` and exponent `-1`, while `"0.0001"` gives mantissa `1` (leading
/// zeros carry no value) and exponent `-4`.
#[derive(Clone, Copy, Debug, PartialEq, Eq, Structural)]
pub struct Decimal {
    pub negative: bool,
    pub mantissa: u64,
    pub exponent: i64,
}

/// The token starts with a minus sign.
pub open spec fn dec_negative(s: Seq<char>) -> bool {
    s.len() > 0 && s[0] == '-'
}

/// The token without its sign.
pub open spec fn dec_body(s: Seq<char>) -> Seq<char> {
    if dec_negative(s) {
        s.drop_first()
    } else {
        s
    }
}

/// The mantissa: what stands before the first `e`, sign excluded.
pub open spec fn dec_mant(s: Seq<char>) -> Seq<char> {
    dec_body(s).subrange(0, find_char(dec_body(s), 'e'))
}

/// The exponent part: what stands after the first `e`; empty if there is
/// no `e`.
pub open spec fn dec_exp(s: Seq<char>) -> Seq<char> {
    let b = dec_body(s);
    if find_char(b, 'e') < b.len() {
        b.subrange(find_char(b, 'e') + 1, b.len() as int)
    } else {
        Seq::<char>::empty()
    }
}

/// The integer digits of the mantissa: what stands before the first dot.
pub open spec fn dec_int_part(s: Seq<char>) -> Seq<char> {
    dec_mant(s).subrange(0, find_char(dec_mant(s), '.'))
}

/// The fractional digits of the mantissa: what stands after the first
/// dot; empty if there is no dot.
pub open spec fn dec_frac_part(s: Seq<char>) -> Seq<char> {
    let m = dec_mant(s);
    if find_char(m, '.') < m.len() {
        m.subrange(find_char(m, '.') + 1, m.len() as int)
    } else {
        Seq::<char>::empty()
    }
}

/// The exponent part starts with a minus sign.
pub open spec fn dec_exp_neg(s: Seq<char>) -> bool {
    dec_exp(s).len() > 0 && dec_exp(s)[0] == '-'
}

/// The digits of the exponent part, sign excluded.
pub open spec fn dec_exp_digits(s: Seq<char>) -> Seq<char> {
    if dec_exp_neg(s) {
        dec_exp(s).drop_first()
    } else {
        dec_exp(s)
    }
}

/// All mantissa digits, integer part then fractional part.
pub open spec fn dec_mant_digits(s: Seq<char>) -> Seq<char> {
    dec_int_part(s) + dec_frac_part(s)
}

/// The effective power of ten: the written exponent, minus one for each
/// fractional digit.
pub open spec fn dec_exp10(s: Seq<char>) -> int {
    (if dec_exp_neg(s) {
        -(digits_val(dec_exp_digits(s)) as int)
    } else {
        digits_val(dec_exp_digits(s)) as int
    }) - dec_frac_part(s).len()
}

/// The token matches the grammar: a nonempty all-digit integer part; a
/// nonempty all-digit fractional part if a dot is present; a nonempty
/// all-digit exponent if an `e` is present.
pub open spec fn dec_grammar_ok(s: Seq<char>) -> bool {
    &&& dec_int_part(s).len() > 0
    &&& all_dec_digits(dec_int_part(s))
    &&& (find_char(dec_mant(s), '.') < dec_mant(s).len() ==> dec_frac_part(s).len() > 0
        && all_dec_digits(dec_frac_part(s)))
    &&& (find_char(dec_body(s), 'e') < dec_body(s).len() ==> dec_exp_digits(s).len() > 0
        && all_dec_digits(dec_exp_digits(s)))
}

/// The token is accepted: it matches the grammar and its parts fit the
/// machine ranges documented on this module.
pub open spec fn dec_text_valid(s: Seq<char>) -> bool {
    &&& dec_grammar_ok(s)
    &&& digits_val(dec_mant_digits(s)) <= u64::MAX
    &&& digits_val(dec_exp_digits(s)) <= u64::MAX
    &&& i64::MIN <= dec_exp10(s) <= i64::MAX
}

/// The value a valid token decodes to.
pub open spec fn dec_from_text(s: Seq<char>) -> Decimal {
    Decimal {
        negative: dec_negative(s),
        mantissa: digits_val(dec_mant_digits(s)) as u64,
        exponent: dec_exp10(s) as i64,
    }
}

impl Parseable for Decimal {
    open spec fn text_valid(s: Seq<char>) -> bool {
        dec_text_valid(s)
    }

    open spec fn from_text_spec(s: Seq<char>) -> Decimal {
        dec_from_text(s)
    }

    fn from_text(s: &str) -> (r: Option<Decimal>) {
        let n = s.unicode_len();
        let negative = if n > 0 {
            s.get_char(0) == '-'
        } else {
            false
        };
        let start: usize = if negative {
            1
        } else {
            0
        };
        let body = s.substring_char(start, n);
        proof {
            assert(body@ =~= dec_body(s@));
        }
        let blen = body.unicode_len();
        let e = find_char_at(body, 'e');
        proof {
            lemma_find_char(body@, 'e');
        }
        let mant = body.substring_char(0, e);
        proof {
            assert(mant@ =~= dec_mant(s@));
        }
        let mlen = mant.unicode_len();
        let dot = find_char_at(mant, '.');
        proof {
            lemma_find_char(mant@, '.');
        }
        let int_part = mant.substring_char(0, dot);
        proof {
            assert(int_part@ =~= dec_int_part(s@));
        }
        if int_part.unicode_len() == 0 {
            return None;
        }
        let mant_digits = if dot < mlen {
            let frac = mant.substring_char(dot + 1, mlen);
            proof {
                assert(frac@ =~= dec_frac_part(s@));
            }
            if frac.unicode_len() == 0 {
                return None;
            }
            String::from_str(int_part).concat(frac)
        } else {
            proof {
                assert(dec_frac_part(s@) =~= Seq::<char>::empty());
            }
            String::from_str(int_part)
        };
        proof {
            assert(mant_digits@ =~= dec_mant_digits(s@));
        }
        let mantissa = match parse_u64_digits(mant_digits.as_str()) {
            Some(v) => v,
            None => {
                proof {
                    lemma_all_dec_digits_add(dec_int_part(s@), dec_frac_part(s@));
                }
                return None;
            },
        };
        proof {
            lemma_all_dec_digits_add(dec_int_part(s@), dec_frac_part(s@));
        }
        let frac_len: usize = if dot < mlen {
            mlen - (dot + 1)
        } else {
            0
        };
        proof {
            assert(frac_len == dec_frac_part(s@).len());
        }
        let (exp_neg, exp_value) = if e < blen {
            let exp_part = body.substring_char(e + 1, blen);
            proof {
                assert(exp_part@ =~= dec_exp(s@));
            }
            let elen = exp_part.unicode_len();
            let exp_neg = elen > 0 && exp_part.get_char(0) == '-';
            let estart: usize = if exp_neg {
                1
            } else {
                0
            };
            let exp_digits = exp_part.substring_char(estart, elen);
            proof {
                assert(exp_digits@ =~= dec_exp_digits(s@));
            }
            if exp_digits.unicode_len() == 0 {
                return None;
            }
            match parse_u64_digits(exp_digits) {
                Some(v) => (exp_neg, v),
                None => {
                    return None;
                },
            }
        } else {
            proof {
                assert(dec_exp(s@) =~= Seq::<char>::empty());
                assert(dec_exp_digits(s@) =~= Seq::<char>::empty());
            }
            (false, 0u64)
        };
        proof {
            assert(exp_neg == dec_exp_neg(s@));
            assert(exp_value == digits_val(dec_exp_digits(s@)));
        }
        let signed_exp: i128 = if exp_neg {
            -(exp_value as i128)
        } else {
            exp_value as i128
        };
        let combined: i128 = signed_exp - (frac_len as i128);
        proof {
            assert(combined == dec_exp10(s@));
        }
        if combined < i64::MIN as i128 || combined > i64::MAX as i128 {
            return None;
        }
        let exponent: i64 = combined as i64;
        Some(Decimal { negative, mantissa, exponent })
    }
}

} // verus!
