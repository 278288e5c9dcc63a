//! Seeding an engine from raw bytes, and from the operating system's
//! entropy source.

use vstd::prelude::*;
use crate::engine::{seed_lanes, Avx2Pcg};

verus! {

/// Why an engine could not be seeded.
#[derive(Clone, Copy, Debug, PartialEq, Eq, Structural)]
pub enum SeedError {
    /// The entropy source did not supply the bytes asked for.
    EntropyUnavailable,
}

/// The error type of the `getrandom` crate.
#[verifier::external_type_specification]
#[verifier::external_body]
pub struct ExGetrandomError(getrandom::Error);

/// The 64-bit value that eight bytes hold, least significant byte first.
pub open spec fn le_u64(bytes: Seq<u8>) -> u64 {
    (bytes[0] as int + 0x100 * bytes[1] as int + 0x1_0000 * bytes[2] as int + 0x100_0000
        * bytes[3] as int + 0x1_0000_0000 * bytes[4] as int + 0x100_0000_0000 * bytes[5] as int
        + 0x1_0000_0000_0000 * bytes[6] as int + 0x100_0000_0000_0000 * bytes[7] as int) as u64
}

/// The four lanes that a block of 32 bytes holds: lane `i` is bytes `8 * i`
/// to `8 * i + 7`, least significant byte first, read as a signed value.
pub open spec fn block_lanes(block: Seq<u8>) -> Seq<i64> {
    Seq::new(4, |i: int| le_u64(block.subrange(8 * i, 8 * i + 8)) as i64)
}

/// Lane number `lane` of a 32-byte block.
fn lane_from_bytes(block: &[u8; 32], lane: usize) -> (r: i64)
    requires
        lane < 4,
    ensures
        r == block_lanes(block@)[lane as int],
{
    let at = 8 * lane;
    let b0: u64 = block[at] as u64;
    let b1: u64 = block[at + 1] as u64;
    let b2: u64 = block[at + 2] as u64;
    let b3: u64 = block[at + 3] as u64;
    let b4: u64 = block[at + 4] as u64;
    let b5: u64 = block[at + 5] as u64;
    let b6: u64 = block[at + 6] as u64;
    let b7: u64 = block[at + 7] as u64;
    let v: u64 = b0 | (b1 << 8) | (b2 << 16) | (b3 << 24) | (b4 << 32) | (b5 << 40) | (b6 << 48) | (
    b7 << 56);
    assert(v == b0 + 0x100 * b1 + 0x1_0000 * b2 + 0x100_0000 * b3 + 0x1_0000_0000 * b4
        + 0x100_0000_0000 * b5 + 0x1_0000_0000_0000 * b6 + 0x100_0000_0000_0000 * b7)
        by (bit_vector)
        requires
            b0 < 0x100,
            b1 < 0x100,
            b2 < 0x100,
            b3 < 0x100,
            b4 < 0x100,
            b5 < 0x100,
            b6 < 0x100,
            b7 < 0x100,
            v == b0 | (b1 << 8) | (b2 << 16) | (b3 << 24) | (b4 << 32) | (b5 << 40) | (b6 << 48)
                | (b7 << 56),
    ;
    #[verifier::truncate]
    (v as i64)
}

/// The four 64-bit lanes of a 32-byte block.
pub fn lanes_from_bytes(block: &[u8; 32]) -> (r: [i64; 4])
    ensures
        r@ == block_lanes(block@),
{
    let r = [
        lane_from_bytes(block, 0),
        lane_from_bytes(block, 1),
        lane_from_bytes(block, 2),
        lane_from_bytes(block, 3),
    ];
    assert(r@ =~= block_lanes(block@));
    r
}

/// Asks the operating system for 32 bytes of entropy through
/// `getrandom::getrandom`. Nothing is claimed of the bytes; on failure the
/// source's error is handed on.
#[verifier::external_body]
fn entropy_block() -> (r: Result<[u8; 32], getrandom::Error>) {
    let mut block = [0u8; 32];
    match getrandom::getrandom(&mut block) {
        Ok(()) => Ok(block),
        Err(e) => Err(e),
    }
}

impl Avx2Pcg {
    /// The engine that two draws from an entropy source select, the first
    /// for the states and the second for the increments. If either draw
    /// failed there is no engine: no seed is made up in its place.
    pub fn from_entropy_blocks(
        state: Result<[u8; 32], getrandom::Error>,
        inc: Result<[u8; 32], getrandom::Error>,
    ) -> (r: Result<Avx2Pcg, SeedError>)
        ensures
            r is Ok <==> state is Ok && inc is Ok,
            r matches Ok(g) ==> g.wf() && g@ == seed_lanes(
                block_lanes(state->Ok_0@),
                block_lanes(inc->Ok_0@),
            ),
            r matches Err(e) ==> e == SeedError::EntropyUnavailable,
    {
        match (state, inc) {
            (Ok(s), Ok(i)) => Ok(
                Avx2Pcg::from_state_inc(lanes_from_bytes(&s), lanes_from_bytes(&i)),
            ),
            _ => Err(SeedError::EntropyUnavailable),
        }
    }

    /// An engine seeded from the operating system's entropy source: 32 bytes
    /// for the states, then 32 bytes for the increments.
    pub fn from_entropy() -> (r: Result<Avx2Pcg, SeedError>)
        ensures
            r matches Ok(g) ==> g.wf(),
            r matches Err(e) ==> e == SeedError::EntropyUnavailable,
    {
        let state = entropy_block();
        let inc = entropy_block();
        Avx2Pcg::from_entropy_blocks(state, inc)
    }
}

} // verus!
