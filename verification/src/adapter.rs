//! The engine behind the conventional generator operations: one 32-bit
//! value, one 64-bit value, and filling a byte slice. Each draws whole
//! four-lane steps and keeps the leading part of what was drawn.

use vstd::prelude::*;
use crate::engine::{advance_lanes, lane_outputs, step_lanes, Avx2Pcg};
use crate::scalar::Stream;

verus! {

/// The error type of the generic generator interface of the `rand` crate.
/// The engine never makes one: it is named so that the fallible fill has
/// the signature that interface expects.
#[verifier::external_type_specification]
#[verifier::external_body]
pub struct ExRandError(rand::Error);

/// Byte `k` of `w`, counting from the least significant.
pub open spec fn word_byte(w: u32, k: int) -> u8 {
    if k == 0 {
        (w % 0x100) as u8
    } else if k == 1 {
        (w / 0x100 % 0x100) as u8
    } else if k == 2 {
        (w / 0x1_0000 % 0x100) as u8
    } else {
        (w / 0x100_0000 % 0x100) as u8
    }
}

/// The bytes of the words of one step, lane 0 first, each word with its
/// least significant byte first.
pub open spec fn chunk_bytes(words: Seq<u32>) -> Seq<u8> {
    Seq::new(4 * words.len(), |j: int| word_byte(words[j / 4], j % 4))
}

/// The first `len` bytes that an engine with these lanes produces: byte `j`
/// is byte `j % 16` of the step number `j / 16`.
pub open spec fn byte_stream(lanes: Seq<Stream>, len: nat) -> Seq<u8> {
    Seq::new(len, |j: int| chunk_bytes(lane_outputs(advance_lanes(lanes, (j / 16) as nat)))[j % 16])
}

/// The number of steps that `len` bytes take: one for every 16 bytes, and
/// one more for a shorter rest.
pub open spec fn steps_for(len: nat) -> nat {
    (len + 15) / 16
}

/// The four bytes of `w`, least significant first.
fn word_to_bytes(w: u32) -> (r: [u8; 4])
    ensures
        forall|k: int| 0 <= k < 4 ==> #[trigger] r[k] == word_byte(w, k),
{
    let b0: u8 = #[verifier::truncate]
    (w as u8);
    let b1: u8 = #[verifier::truncate]
    ((w >> 8) as u8);
    let b2: u8 = #[verifier::truncate]
    ((w >> 16) as u8);
    let b3: u8 = #[verifier::truncate]
    ((w >> 24) as u8);
    assert(w as u8 == w % 0x100 && (w >> 8) as u8 == w / 0x100 % 0x100 && (w >> 16) as u8 == w
        / 0x1_0000 % 0x100 && (w >> 24) as u8 == w / 0x100_0000 % 0x100) by (bit_vector);
    [b0, b1, b2, b3]
}

/// The 16 bytes of one step's four words.
fn words_to_bytes(words: [u32; 4]) -> (r: [u8; 16])
    ensures
        r@ == chunk_bytes(words@),
{
    let a = word_to_bytes(words[0]);
    let b = word_to_bytes(words[1]);
    let c = word_to_bytes(words[2]);
    let d = word_to_bytes(words[3]);
    let r = [
        a[0],
        a[1],
        a[2],
        a[3],
        b[0],
        b[1],
        b[2],
        b[3],
        c[0],
        c[1],
        c[2],
        c[3],
        d[0],
        d[1],
        d[2],
        d[3],
    ];
    assert(r@ =~= chunk_bytes(words@));
    r
}

/// Writes the first `n` bytes of `chunk` to `dest`, starting at `at`.
fn copy_leading(dest: &mut [u8], at: usize, chunk: &[u8; 16], n: usize)
    requires
        n <= 16,
        at + n <= old(dest)@.len(),
    ensures
        final(dest)@.len() == old(dest)@.len(),
        forall|j: int| at <= j < at + n ==> final(dest)@[j] == chunk@[j - at],
        forall|j: int|
            0 <= j < old(dest)@.len() && !(at <= j < at + n) ==> final(dest)@[j] == old(dest)@[j],
{
    let len = dest.len();
    let mut k: usize = 0;
    while k < n
        invariant
            k <= n <= 16,
            at + n <= len,
            dest@.len() == len,
            dest@.len() == old(dest)@.len(),
            forall|j: int| at <= j < at + k ==> dest@[j] == chunk@[j - at],
            forall|j: int|
                0 <= j < dest@.len() && !(at <= j < at + k) ==> dest@[j] == old(dest)@[j],
        decreases n - k,
    {
        dest[at + k] = chunk[k];
        k += 1;
    }
}

impl Avx2Pcg {
    /// One 32-bit value: lane 0 of one step. The other three lanes of that
    /// step are dropped.
    pub fn next_u32(&mut self) -> (r: u32)
        requires
            old(self).wf(),
        ensures
            final(self).wf(),
            final(self)@ == step_lanes(old(self)@),
            r == old(self)@[0].output(),
    {
        let out = self.next_u32x4();
        out[0]
    }

    /// One 64-bit value: lanes 0 and 1 of one step, lane 0 in the low half.
    /// Lanes 2 and 3 of that step are dropped.
    pub fn next_u64(&mut self) -> (r: u64)
        requires
            old(self).wf(),
        ensures
            final(self).wf(),
            final(self)@ == step_lanes(old(self)@),
            r == old(self)@[0].output() + 0x1_0000_0000 * old(self)@[1].output(),
    {
        let out = self.next_u32x4();
        let lo: u64 = out[0] as u64;
        let hi: u64 = out[1] as u64;
        let r: u64 = lo | (hi << 32);
        assert(r == lo + 0x1_0000_0000 * hi) by (bit_vector)
            requires
                lo <= 0xffff_ffff,
                hi <= 0xffff_ffff,
                r == lo | (hi << 32),
        ;
        r
    }

    /// Fills `dest` with the engine's bytes: 16 from every step, and from one
    /// more step the leading bytes that a rest shorter than 16 asks for. An
    /// empty `dest` takes no step.
    pub fn fill_bytes(&mut self, dest: &mut [u8])
        requires
            old(self).wf(),
        ensures
            final(self).wf(),
            final(self)@ == advance_lanes(old(self)@, steps_for(old(dest)@.len())),
            final(dest)@ == byte_stream(old(self)@, old(dest)@.len()),
    {
        let len = dest.len();
        let ghost start = self@;
        let mut pos: usize = 0;
        while len - pos >= 16
            invariant
                pos <= len,
                pos % 16 == 0,
                dest@.len() == len,
                self.wf(),
                self@ == advance_lanes(start, (pos / 16) as nat),
                forall|j: int| 0 <= j < pos ==> dest@[j] == byte_stream(start, len as nat)[j],
            decreases len - pos,
        {
            let chunk = words_to_bytes(self.next_u32x4());
            copy_leading(dest, pos, &chunk, 16);
            pos += 16;
        }
        let rest = len - pos;
        if rest > 0 {
            let chunk = words_to_bytes(self.next_u32x4());
            copy_leading(dest, pos, &chunk, rest);
        }
        assert(dest@ =~= byte_stream(start, len as nat));
    }

    /// Fills `dest` as `fill_bytes` does and reports success: once built, the
    /// engine cannot fail.
    pub fn try_fill_bytes(&mut self, dest: &mut [u8]) -> (r: Result<(), rand::Error>)
        requires
            old(self).wf(),
        ensures
            r is Ok,
            final(self).wf(),
            final(self)@ == advance_lanes(old(self)@, steps_for(old(dest)@.len())),
            final(dest)@ == byte_stream(old(self)@, old(dest)@.len()),
    {
        self.fill_bytes(dest);
        Ok(())
    }
}

/// A shorter fill is the beginning of a longer one from the same lanes.
pub proof fn lemma_byte_stream_prefix(lanes: Seq<Stream>, len: nat, shorter: nat)
    requires
        shorter <= len,
    ensures
        byte_stream(lanes, len).subrange(0, shorter as int) == byte_stream(lanes, shorter),
{
    assert(byte_stream(lanes, len).subrange(0, shorter as int) =~= byte_stream(lanes, shorter));
}

/// A fill of whole steps is the bytes of the successive steps, one after
/// another: `k + 1` steps give what `k` steps give, then the 16 bytes of
/// step number `k`.
pub proof fn lemma_byte_stream_whole_steps(lanes: Seq<Stream>, k: nat)
    requires
        lanes.len() == 4,
    ensures
        steps_for(16 * k) == k,
        byte_stream(lanes, 16 * (k + 1)) == byte_stream(lanes, 16 * k) + chunk_bytes(
            lane_outputs(advance_lanes(lanes, k)),
        ),
{
    let longer = byte_stream(lanes, 16 * (k + 1));
    let joined = byte_stream(lanes, 16 * k) + chunk_bytes(lane_outputs(advance_lanes(lanes, k)));
    crate::engine::lemma_lane_matches_scalar(lanes, 0, k);
    assert(longer.len() == joined.len());
    assert forall|j: int| 0 <= j < longer.len() implies longer[j] == joined[j] by {
        if j >= 16 * k {
            assert(j / 16 == k);
            assert(j % 16 == j - 16 * k);
        }
    }
    assert(longer =~= joined);
}

/// A fill that ends within a step takes `k + 1` steps: the bytes of `k`
/// whole steps, then the leading `rest` bytes of step number `k`.
pub proof fn lemma_byte_stream_partial_step(lanes: Seq<Stream>, k: nat, rest: nat)
    requires
        lanes.len() == 4,
        0 < rest < 16,
    ensures
        steps_for(16 * k + rest) == k + 1,
        byte_stream(lanes, 16 * k + rest) == byte_stream(lanes, 16 * k) + chunk_bytes(
            lane_outputs(advance_lanes(lanes, k)),
        ).subrange(0, rest as int),
{
    lemma_byte_stream_whole_steps(lanes, k);
    lemma_byte_stream_prefix(lanes, 16 * (k + 1), 16 * k + rest);
    let whole = byte_stream(lanes, 16 * k);
    let chunk = chunk_bytes(lane_outputs(advance_lanes(lanes, k)));
    assert((whole + chunk).subrange(0, (16 * k + rest) as int) =~= whole + chunk.subrange(
        0,
        rest as int,
    ));
}

} // verus!
