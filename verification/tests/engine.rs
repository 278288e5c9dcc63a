use rand::RngCore;
use rand_pcg::Pcg32;
use simd_pcg::engine::Avx2Pcg;

const MULTIPLIER: u64 = 6364136223846793005;

/// One scalar stream, written out independently of the library.
struct Scalar {
    state: u64,
    inc: u64,
}

impl Scalar {
    fn new(state: i64, inc: i64) -> Scalar {
        Scalar { state: state as u64, inc: (inc as u64) | 1 }
    }

    fn next(&mut self) -> u32 {
        let old = self.state;
        self.state = old.wrapping_mul(MULTIPLIER).wrapping_add(self.inc);
        let xorshifted = (((old >> 18) ^ old) >> 27) as u32;
        xorshifted.rotate_right((old >> 59) as u32)
    }
}

#[test]
fn zero_seed_gives_zero_twice() {
    let mut g = Avx2Pcg::from_state_inc([0, 0, 0, 0], [0, 0, 0, 0]);
    assert_eq!(g.next_u32x4(), [0, 0, 0, 0]);
    assert_eq!(g.next_u32x4(), [0, 0, 0, 0]);
}

#[test]
fn zero_seed_third_and_fourth_steps() {
    let mut g = Avx2Pcg::from_state_inc([0, 0, 0, 0], [0, 0, 0, 0]);
    g.next_u32x4();
    g.next_u32x4();
    assert_eq!(g.next_u32x4(), [3837872008, 3837872008, 3837872008, 3837872008]);
    assert_eq!(g.next_u32x4(), [932996374, 932996374, 932996374, 932996374]);
}

#[test]
fn small_seeds_exact_outputs() {
    let mut g = Avx2Pcg::from_state_inc([1, 2, 3, 4], [5, 6, 7, 8]);
    assert_eq!(g.next_u32x4(), [0, 0, 0, 0]);
    assert_eq!(g.next_u32x4(), [0xe4c14788, 0xe2393051, 0x0f5deba9, 0xc9828f91]);
    assert_eq!(g.next_u32x4(), [0xa3f2abf5, 0x8abf340f, 0xbfe806b8, 0xf5c21317]);
    assert_eq!(g.next_u32x4(), [0xc1a1c767, 0x87ab8ee8, 0xebfbd01e, 0x27d2db31]);
}

#[test]
fn extreme_seeds_exact_outputs() {
    let mut g = Avx2Pcg::from_state_inc(
        [-1, i64::MIN, 0x0123456789abcdef, i64::MAX],
        [-2, 0, 0x7ffffffffffffffe, i64::MIN],
    );
    assert_eq!(g.next_u32x4(), [4293918721, 4, 610837995, 131064]);
    assert_eq!(g.next_u32x4(), [1148350300, 4, 1582121846, 1148350300]);
    assert_eq!(g.next_u32x4(), [3419643704, 1191765185, 2608721783, 2011165248]);
}

#[test]
fn lane_follows_published_pcg32_sequence() {
    // The stream that pcg32 reaches from seed 42 and sequence 54.
    let state = 0x185706b82c2e03f8u64 as i64;
    let inc = 0x6d;
    let mut g = Avx2Pcg::from_state_inc([0, state, 0, 0], [1, inc, 1, 1]);
    let expected = [0xa15c02b7u32, 0x7b47f409, 0xba1d3330, 0x83d2f293, 0xbfa4784b, 0xcbed606e];
    for e in expected {
        assert_eq!(g.next_u32x4()[1], e);
    }
}

#[test]
fn every_lane_matches_scalar_reference() {
    let state = [0x0123456789abcdef, -42, i64::MIN, 7];
    let inc = [2, -1, 0x5851f42d4c957f2d, i64::MAX];
    let mut g = Avx2Pcg::from_state_inc(state, inc);
    let mut scalars = [
        Scalar::new(state[0], inc[0]),
        Scalar::new(state[1], inc[1]),
        Scalar::new(state[2], inc[2]),
        Scalar::new(state[3], inc[3]),
    ];
    for _ in 0..10_000 {
        let out = g.next_u32x4();
        for lane in 0..4 {
            assert_eq!(out[lane], scalars[lane].next());
        }
    }
}

#[test]
fn every_lane_matches_rand_pcg() {
    let seeds: [(u64, u64); 4] =
        [(42, 54), (0, 0), (u64::MAX, u64::MAX), (0xcafef00dd15ea5e5, 0xa02bdbf7bb3c0a7)];
    let mut reference = [
        Pcg32::new(seeds[0].0, seeds[0].1),
        Pcg32::new(seeds[1].0, seeds[1].1),
        Pcg32::new(seeds[2].0, seeds[2].1),
        Pcg32::new(seeds[3].0, seeds[3].1),
    ];
    // The state and increment that `Pcg32::new` starts from.
    let mut state = [0i64; 4];
    let mut inc = [0i64; 4];
    for lane in 0..4 {
        let increment = (seeds[lane].1 << 1) | 1;
        let start = seeds[lane]
            .0
            .wrapping_add(increment)
            .wrapping_mul(MULTIPLIER)
            .wrapping_add(increment);
        state[lane] = start as i64;
        inc[lane] = increment as i64;
    }
    let mut g = Avx2Pcg::from_state_inc(state, inc);
    for _ in 0..5_000 {
        let out = g.next_u32x4();
        for lane in 0..4 {
            assert_eq!(out[lane], reference[lane].next_u32());
        }
    }
}

#[test]
fn even_increment_is_made_odd() {
    let state = [11, 22, 33, 44];
    let mut even = Avx2Pcg::from_state_inc(state, [0, 2, -2, 0x7ffffffffffffffe]);
    let mut odd = Avx2Pcg::from_state_inc(state, [1, 3, -1, 0x7fffffffffffffff]);
    for _ in 0..100 {
        assert_eq!(even.next_u32x4(), odd.next_u32x4());
    }
}

#[test]
fn increment_selects_the_stream() {
    let mut a = Avx2Pcg::from_state_inc([9, 9, 9, 9], [1, 1, 1, 1]);
    let mut b = Avx2Pcg::from_state_inc([9, 9, 9, 9], [3, 3, 3, 3]);
    // The first value depends on the state alone, the later ones on the increment too.
    assert_eq!(a.next_u32x4(), b.next_u32x4());
    a.next_u32x4();
    b.next_u32x4();
    assert_ne!(a.next_u32x4(), b.next_u32x4());
}

#[test]
fn same_seed_same_sequence() {
    let state = [-5, 77, 0x1234_5678, -0x7654_3210];
    let inc = [10, 20, 30, 40];
    let mut a = Avx2Pcg::from_state_inc(state, inc);
    let mut b = Avx2Pcg::from_state_inc(state, inc);
    for _ in 0..1_000 {
        assert_eq!(a.next_u32x4(), b.next_u32x4());
    }
}

#[test]
fn lanes_are_independent() {
    let state = [100, 200, 300, 400];
    let inc = [1, 3, 5, 7];
    for j in 0..4 {
        let mut other_state = state;
        let mut other_inc = inc;
        other_state[j] = -987654321;
        other_inc[j] = 0x0bad_cafe;
        let mut a = Avx2Pcg::from_state_inc(state, inc);
        let mut b = Avx2Pcg::from_state_inc(other_state, other_inc);
        let mut lane_j_differs = false;
        for _ in 0..200 {
            let x = a.next_u32x4();
            let y = b.next_u32x4();
            for lane in 0..4 {
                if lane == j {
                    lane_j_differs = lane_j_differs || x[lane] != y[lane];
                } else {
                    assert_eq!(x[lane], y[lane]);
                }
            }
        }
        assert!(lane_j_differs);
    }
}

#[test]
fn output_comes_from_state_before_update() {
    // A state with only the top five bits set selects rotation 31 of a
    // xorshifted value built from those bits.
    let s = 0xf800_0000_0000_0000u64;
    let xorshifted = (((s >> 18) ^ s) >> 27) as u32;
    let mut g = Avx2Pcg::from_state_inc([s as i64, 0, 0, 0], [1, 1, 1, 1]);
    let out = g.next_u32x4();
    assert_eq!(out[0], xorshifted.rotate_right(31));
    assert_eq!(out[1], 0);
}
