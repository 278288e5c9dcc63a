//! The scalar generator that every lane of the vector engine reproduces:
//! a 64-bit linear congruential state with a 32-bit permuted output
//! (PCG XSH RR 64/32). Everything here is specification.

use vstd::prelude::*;

verus! {

/// The multiplier of the linear congruential update, shared by all streams.
pub const MULTIPLIER: u64 = 6364136223846793005;

/// `v` rotated right by `r` bit positions, for `r < 32`: the low `r` bits
/// move to the top, the others move down.
pub open spec fn rotate_right_32(v: u32, r: u32) -> u32 {
    if r == 0 {
        v
    } else {
        (v >> r) | (v << ((32 - r) as u32))
    }
}

/// The state that follows `state` in the stream selected by `inc`:
/// `state * MULTIPLIER + inc` modulo 2^64.
pub open spec fn lcg_step(state: u64, inc: u64) -> u64 {
    ((state as int * MULTIPLIER as int + inc as int) % 0x1_0000_0000_0000_0000) as u64
}

/// The xorshifted high bits of `state`, before rotation. The value fits in
/// 37 bits; the output keeps its low 32.
pub open spec fn xorshifted(state: u64) -> u64 {
    ((state >> 18) ^ state) >> 27
}

/// The rotation amount that `state` selects: its top five bits.
pub open spec fn rotation(state: u64) -> u32 {
    (state >> 59) as u32
}

/// The 32-bit output that a stream in `state` gives: the low 32 bits of the
/// xorshifted state, rotated right by the state's top five bits.
pub open spec fn xsh_rr(state: u64) -> u32 {
    rotate_right_32(xorshifted(state) as u32, rotation(state))
}

/// One scalar stream: its current state and its odd increment.
pub struct Stream {
    pub state: u64,
    pub inc: u64,
}

impl Stream {
    /// The stream after one draw.
    pub open spec fn next(self) -> Stream {
        Stream { state: lcg_step(self.state, self.inc), inc: self.inc }
    }

    /// The value of the next draw, a function of the state before it.
    pub open spec fn output(self) -> u32 {
        xsh_rr(self.state)
    }

    /// The stream after `n` draws.
    pub open spec fn advance(self, n: nat) -> Stream
        decreases n,
    {
        if n == 0 {
            self
        } else {
            self.advance((n - 1) as nat).next()
        }
    }

    /// The value of draw number `n`, counting from zero.
    pub open spec fn nth_output(self, n: nat) -> u32 {
        self.advance(n).output()
    }
}

/// Bit `i` of `v`.
pub open spec fn bit_32(v: u32, i: u32) -> bool {
    (v >> i) & 1 == 1
}

/// Rotation moves bits and changes none: bit `i` of the rotated word is bit
/// `i + r` of the word, counted modulo 32.
pub proof fn lemma_rotate_right_bits(v: u32, r: u32, i: u32)
    requires
        r < 32,
        i < 32,
    ensures
        bit_32(rotate_right_32(v, r), i) == bit_32(v, ((i + r) % 32) as u32),
{
    let j: u32 = ((i + r) % 32) as u32;
    if r != 0 {
        let s: u32 = (32 - r) as u32;
        assert(((((v >> r) | (v << s)) >> i) & 1 == 1) == ((v >> j) & 1 == 1)) by (bit_vector)
            requires
                0 < r < 32,
                i < 32,
                s == 32 - r,
                j == (i + r) % 32,
        ;
    }
}

} // verus!
