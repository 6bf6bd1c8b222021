//! Cell numbers, held as decimals.

use vstd::prelude::*;
use vstd::seq_lib::lemma_concat_associative;
use crate::bytes::{append_decimal, decimal};

verus! {

/// The number `mantissa` times ten to the power of `exponent`.
#[derive(Clone, Copy, Debug, PartialEq, Eq, Structural)]
pub struct Number {
    pub mantissa: i64,
    pub exponent: i16,
}

pub const MINUS: u8 = 45;

pub const LETTER_E: u8 = 69;

/// A signed integer as text: `-` before the numeral of a negative one.
pub open spec fn signed_decimal(n: int) -> Seq<u8> {
    if n < 0 {
        seq![MINUS] + decimal((-n) as nat)
    } else {
        decimal(n as nat)
    }
}

/// A number as text: the mantissa, followed by `E` and the exponent where
/// the exponent is not zero.
pub open spec fn number_text(n: Number) -> Seq<u8> {
    if n.exponent == 0 {
        signed_decimal(n.mantissa as int)
    } else {
        signed_decimal(n.mantissa as int) + seq![LETTER_E] + signed_decimal(n.exponent as int)
    }
}

/// Appends a signed integer as text.
pub fn append_signed(out: &mut Vec<u8>, n: i64)
    ensures
        final(out)@ == old(out)@ + signed_decimal(n as int),
{
    if n < 0 {
        let magnitude: u64 = (-(n + 1)) as u64 + 1;
        out.push(MINUS);
        append_decimal(out, magnitude);
        proof {
            lemma_concat_associative(old(out)@, seq![MINUS], decimal((-n) as nat));
        }
    } else {
        append_decimal(out, n as u64);
    }
}

impl Number {
    /// The whole number `n`.
    pub fn from_int(n: i64) -> (r: Number)
        ensures
            r == (Number { mantissa: n, exponent: 0 }),
    {
        Number { mantissa: n, exponent: 0 }
    }

    /// Appends the number as text.
    pub fn append_to(&self, out: &mut Vec<u8>)
        ensures
            final(out)@ == old(out)@ + number_text(*self),
    {
        append_signed(out, self.mantissa);
        if self.exponent != 0 {
            out.push(LETTER_E);
            append_signed(out, self.exponent as i64);
            proof {
                let mantissa = signed_decimal(self.mantissa as int);
                let exponent = signed_decimal(self.exponent as int);
                lemma_concat_associative(old(out)@, mantissa, seq![LETTER_E]);
                lemma_concat_associative(old(out)@, mantissa + seq![LETTER_E], exponent);
            }
        }
    }
}

} // verus!
