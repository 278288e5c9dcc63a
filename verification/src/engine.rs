//! The four-lane engine: its state, its construction from explicit seeds,
//! and the step that advances all four streams at once.

use vstd::prelude::*;
use crate::lanes::{
    _mm256_mullo_epi64, _mm256_rorv_epi32, add_epi64, gather_low_halves, join_halves,
    mul_mod_word, srli_epi64, word, xor_si256,
};
use crate::scalar::{lcg_step, rotation, xsh_rr, Stream, MULTIPLIER};

verus! {

/// The lanes after every stream has made one draw.
pub open spec fn step_lanes(lanes: Seq<Stream>) -> Seq<Stream> {
    Seq::new(lanes.len(), |i: int| lanes[i].next())
}

/// The value that each stream gives on its next draw.
pub open spec fn lane_outputs(lanes: Seq<Stream>) -> Seq<u32> {
    Seq::new(lanes.len(), |i: int| lanes[i].output())
}

/// The lanes after `n` steps of the engine.
pub open spec fn advance_lanes(lanes: Seq<Stream>, n: nat) -> Seq<Stream>
    decreases n,
{
    if n == 0 {
        lanes
    } else {
        step_lanes(advance_lanes(lanes, (n - 1) as nat))
    }
}

/// The four streams that explicit seeds select: lane `i` starts in
/// `state[i]`, and its increment is `inc[i]` with the low bit set.
pub open spec fn seed_lanes(state: Seq<i64>, inc: Seq<i64>) -> Seq<Stream> {
    Seq::new(4, |i: int| Stream { state: state[i] as u64, inc: (inc[i] as u64) | 1 })
}

/// A product modulo 2^64 followed by a sum modulo 2^64 is the linear
/// congruential update.
proof fn lemma_multiply_then_add(state: u64, inc: u64, product: u64, sum: u64)
    requires
        product == mul_mod_word(state, MULTIPLIER),
        sum == (product as int + inc as int) % word(),
    ensures
        sum == lcg_step(state, inc),
{
    let w = word();
    let p = state as int * MULTIPLIER as int;
    vstd::arithmetic::div_mod::lemma_add_mod_noop(p, inc as int, w);
    vstd::arithmetic::div_mod::lemma_small_mod(inc as nat, w as nat);
}

/// Four PCG XSH RR 64/32 streams advanced in lockstep.
pub struct Avx2Pcg {
    state: [u64; 4],
    inc: [u64; 4],
    mul_l: [u64; 4],
    mul_h: [u64; 4],
}

impl View for Avx2Pcg {
    type V = Seq<Stream>;

    /// The four streams, lane 0 first.
    closed spec fn view(&self) -> Seq<Stream> {
        Seq::new(4, |i: int| Stream { state: self.state[i], inc: self.inc[i] })
    }
}

impl Avx2Pcg {
    /// The multiplier is held split: its low half in every lane of one
    /// vector, its high half in every lane of another.
    pub closed spec fn multiplier_is_split(&self) -> bool {
        forall|i: int|
            0 <= i < 4 ==> self.mul_l[i] == MULTIPLIER % 0x1_0000_0000 && self.mul_h[i]
                == MULTIPLIER / 0x1_0000_0000
    }

    /// What every engine satisfies from construction on: four lanes, each
    /// with an odd increment, and the multiplier split once.
    pub open spec fn wf(&self) -> bool {
        &&& self@.len() == 4
        &&& forall|i: int| 0 <= i < 4 ==> (#[trigger] self@[i]).inc % 2 == 1
        &&& self.multiplier_is_split()
    }

    /// Advances all four streams by one draw and returns the four values
    /// drawn, each derived from its lane's state before the update.
    fn step(&mut self) -> (out: [u32; 4])
        requires
            old(self).wf(),
        ensures
            final(self).wf(),
            final(self)@ == step_lanes(old(self)@),
            out@ == lane_outputs(old(self)@),
    {
        let old_state = self.state;
        let product = _mm256_mullo_epi64(old_state, self.mul_l, self.mul_h);
        let new_state = add_epi64(product, self.inc);
        let xorshifted = srli_epi64(xor_si256(srli_epi64(old_state, 18), old_state), 27);
        let rot = srli_epi64(old_state, 59);
        let amounts = gather_low_halves(rot);
        proof {
            assert forall|i: int| 0 <= i < 4 implies amounts[i] < 32 by {
                let s = old_state[i];
                assert(((s >> 59) as u32) < 32) by (bit_vector);
            }
        }
        let out = _mm256_rorv_epi32(gather_low_halves(xorshifted), amounts);
        self.state = new_state;
        proof {
            assert forall|i: int| 0 <= i < 4 implies new_state[i] == lcg_step(
                old_state[i],
                self.inc[i],
            ) by {
                assert(join_halves(self.mul_l[i], self.mul_h[i]) == MULTIPLIER);
                lemma_multiply_then_add(old_state[i], self.inc[i], product[i], new_state[i]);
            }
            assert forall|i: int| 0 <= i < 4 implies out[i] == xsh_rr(old_state[i]) by {
                assert(xorshifted[i] == crate::scalar::xorshifted(old_state[i]));
                assert(amounts[i] == rotation(old_state[i]));
            }
            assert(self@ =~= step_lanes(old(self)@));
            assert(out@ =~= lane_outputs(old(self)@));
        }
        out
    }

    /// Draws one value from each of the four streams: lane `i` of the result
    /// is the next output of stream `i`, and every stream moves on by one.
    pub fn next_u32x4(&mut self) -> (out: [u32; 4])
        requires
            old(self).wf(),
        ensures
            final(self).wf(),
            final(self)@ == step_lanes(old(self)@),
            out@ == lane_outputs(old(self)@),
    {
        self.step()
    }

    /// An engine whose lane `i` starts in `state[i]` with increment
    /// `inc[i]`, made odd by setting its low bit.
    pub fn from_state_inc(state: [i64; 4], inc: [i64; 4]) -> (r: Avx2Pcg)
        ensures
            r.wf(),
            r@ == seed_lanes(state@, inc@),
    {
        let r = Avx2Pcg {
            state: [
                #[verifier::truncate]
                (state[0] as u64),
                #[verifier::truncate]
                (state[1] as u64),
                #[verifier::truncate]
                (state[2] as u64),
                #[verifier::truncate]
                (state[3] as u64),
            ],
            inc: [
                #[verifier::truncate]
                ((inc[0] | 1) as u64),
                #[verifier::truncate]
                ((inc[1] | 1) as u64),
                #[verifier::truncate]
                ((inc[2] | 1) as u64),
                #[verifier::truncate]
                ((inc[3] | 1) as u64),
            ],
            mul_l: [MULTIPLIER & 0x0000_0000_ffff_ffff; 4],
            mul_h: [MULTIPLIER >> 32; 4],
        };
        proof {
            assert(MULTIPLIER & 0x0000_0000_ffff_ffff == MULTIPLIER % 0x1_0000_0000)
                by (bit_vector);
            assert(MULTIPLIER >> 32 == MULTIPLIER / 0x1_0000_0000) by (bit_vector);
            assert forall|i: int| 0 <= i < 4 implies #[trigger] r.inc[i] == (inc[i] as u64) | 1
                && r.inc[i] % 2 == 1 by {
                let x = inc[i];
                assert(((x | 1) as u64) == (x as u64) | 1 && ((x as u64) | 1) % 2 == 1)
                    by (bit_vector);
            }
            assert(r@ =~= seed_lanes(state@, inc@));
        }
        r
    }
}

/// Every lane of a well-formed engine has an odd increment, whatever low
/// bit the seed had.
pub proof fn lemma_increments_odd(g: Avx2Pcg, i: int)
    requires
        g.wf(),
        0 <= i < 4,
    ensures
        g@[i].inc & 1 == 1,
{
    let x = g@[i].inc;
    assert(x % 2 == 1 ==> x & 1 == 1) by (bit_vector);
}

/// Seeding sets the low bit of every increment and leaves the other bits
/// and the states as given.
pub proof fn lemma_seed_lanes_odd(state: Seq<i64>, inc: Seq<i64>, i: int)
    requires
        0 <= i < 4,
    ensures
        seed_lanes(state, inc).len() == 4,
        seed_lanes(state, inc)[i].state == state[i] as u64,
        seed_lanes(state, inc)[i].inc & 1 == 1,
        seed_lanes(state, inc)[i].inc >> 1 == (inc[i] as u64) >> 1,
{
    let x = inc[i] as u64;
    assert((x | 1) & 1 == 1 && (x | 1) >> 1 == x >> 1) by (bit_vector);
}

/// Lane `i` of the engine is the scalar generator seeded with lane `i`'s
/// state and increment: after any number of steps its state is the scalar
/// stream's state, and the value it draws next is the scalar stream's.
pub proof fn lemma_lane_matches_scalar(lanes: Seq<Stream>, i: int, n: nat)
    requires
        0 <= i < lanes.len(),
    ensures
        advance_lanes(lanes, n).len() == lanes.len(),
        advance_lanes(lanes, n)[i] == lanes[i].advance(n),
        lane_outputs(advance_lanes(lanes, n))[i] == lanes[i].nth_output(n),
    decreases n,
{
    if n > 0 {
        lemma_lane_matches_scalar(lanes, i, (n - 1) as nat);
    }
}

/// Two engines built from the same explicit seeds draw the same values at
/// every step.
pub proof fn lemma_same_seed_same_outputs(
    a: Avx2Pcg,
    b: Avx2Pcg,
    state: Seq<i64>,
    inc: Seq<i64>,
    n: nat,
)
    requires
        a@ == seed_lanes(state, inc),
        b@ == seed_lanes(state, inc),
    ensures
        advance_lanes(a@, n) == advance_lanes(b@, n),
        lane_outputs(advance_lanes(a@, n)) == lane_outputs(advance_lanes(b@, n)),
{
}

/// Changing the seed of lane `j` alone changes no other lane: at every step
/// each other lane has the same state and draws the same value.
pub proof fn lemma_lanes_independent(a: Seq<Stream>, b: Seq<Stream>, j: int, i: int, n: nat)
    requires
        a.len() == 4,
        b.len() == 4,
        forall|k: int| 0 <= k < 4 && k != j ==> a[k] == b[k],
        0 <= i < 4,
        i != j,
    ensures
        advance_lanes(a, n)[i] == advance_lanes(b, n)[i],
        lane_outputs(advance_lanes(a, n))[i] == lane_outputs(advance_lanes(b, n))[i],
{
    lemma_lane_matches_scalar(a, i, n);
    lemma_lane_matches_scalar(b, i, n);
}

} // verus!
