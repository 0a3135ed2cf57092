//! Raw on-chain amounts: unsigned 256-bit integers.

use vstd::arithmetic::div_mod::lemma_mod_multiples_vanish;
use vstd::prelude::*;

verus! {

/// Two to the power of 64: the weight of the second word of an amount.
pub open spec fn word_weight() -> nat {
    0x1_0000_0000_0000_0000
}

/// The number that four 64-bit words stand for, least significant word first.
pub open spec fn words_value(words: Seq<u64>) -> nat
    recommends
        words.len() == 4,
{
    (words[0] + word_weight() * (words[1] + word_weight() * (words[2] + word_weight()
        * words[3]))) as nat
}

/// The low 32 bits of a number, read as a signed 32-bit integer.
pub open spec fn low_i32(value: nat) -> int {
    let low = (value % 0x1_0000_0000) as int;
    if low < 0x8000_0000 {
        low
    } else {
        low - 0x1_0000_0000
    }
}

/// The low 32 bits of an amount are the low 32 bits of its first word.
proof fn lemma_low_bits(words: Seq<u64>)
    requires
        words.len() == 4,
    ensures
        words_value(words) % 0x1_0000_0000 == words[0] % 0x1_0000_0000,
{
    let high = words[1] + word_weight() * (words[2] + word_weight() * words[3]);
    assert(word_weight() * high == 0x1_0000_0000 * (0x1_0000_0000 * high)) by (nonlinear_arith)
        requires
            word_weight() == 0x1_0000_0000 * 0x1_0000_0000,
    ;
    lemma_mod_multiples_vanish(0x1_0000_0000 * high, words[0] as int, 0x1_0000_0000);
}

/// An unsigned 256-bit integer, as a contract call returns it: four 64-bit
/// words, least significant first.
#[derive(Clone, Copy, Debug, PartialEq, Eq)]
pub struct RawAmount {
    pub limbs: [u64; 4],
}

impl View for RawAmount {
    type V = nat;

    open spec fn view(&self) -> nat {
        words_value(self.limbs@)
    }
}

impl RawAmount {
    /// The amount that equals a 64-bit number.
    pub fn from_u64(value: u64) -> (r: RawAmount)
        ensures
            r@ == value,
            r.limbs@ == seq![value, 0u64, 0u64, 0u64],
    {
        let amount = RawAmount { limbs: [value, 0, 0, 0] };
        amount
    }

    /// The amount zero.
    pub fn zero() -> (r: RawAmount)
        ensures
            r@ == 0,
            r.limbs@ == seq![0u64, 0u64, 0u64, 0u64],
    {
        RawAmount::from_u64(0)
    }

    /// The low 64 bits of the amount. Whatever lies above them is dropped.
    pub fn low_u64(&self) -> (r: u64)
        ensures
            r == self@ % word_weight(),
            r == self.limbs@[0],
    {
        self.limbs[0]
    }

    /// The low 32 bits of the amount, read as a signed number: what is left of
    /// an amount that is stored in a 32-bit signed integer.
    pub fn low_i32(&self) -> (r: i32)
        ensures
            r == low_i32(self@),
    {
        let low: u64 = self.low_u64();
        let word: u64 = low & 0xffff_ffff;
        proof {
            lemma_low_bits(self.limbs@);
        }
        assert(word == low % 0x1_0000_0000) by (bit_vector)
            requires
                word == low & 0xffff_ffff,
        ;
        if word < 0x8000_0000 {
            word as i32
        } else {
            (word as i64 - 0x1_0000_0000) as i32
        }
    }
}

} // verus!
