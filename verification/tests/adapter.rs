use simd_pcg::engine::Avx2Pcg;

const STATE: [i64; 4] = [0x0123456789abcdef, -1, 42, i64::MIN];
const INC: [i64; 4] = [1, 2, 3, 4];

/// The first `len` bytes and the number of steps they take, from the
/// four-lane draws of a second engine with the same seed.
fn expected_bytes(len: usize) -> (Vec<u8>, usize) {
    let mut twin = Avx2Pcg::from_state_inc(STATE, INC);
    let mut bytes = Vec::new();
    let mut steps = 0;
    while bytes.len() < len {
        for word in twin.next_u32x4() {
            bytes.extend_from_slice(&word.to_le_bytes());
        }
        steps += 1;
    }
    bytes.truncate(len);
    (bytes, steps)
}

/// Fills `len` bytes and checks them, the bytes around them, and the number
/// of steps taken.
fn check_fill(len: usize) {
    let (expected, steps) = expected_bytes(len);
    assert_eq!(steps, (len + 15) / 16);

    let mut g = Avx2Pcg::from_state_inc(STATE, INC);
    let mut buf = vec![0xa5u8; len + 32];
    g.fill_bytes(&mut buf[16..16 + len]);
    assert_eq!(&buf[16..16 + len], &expected[..]);
    assert!(buf[..16].iter().all(|&b| b == 0xa5));
    assert!(buf[16 + len..].iter().all(|&b| b == 0xa5));

    let mut twin = Avx2Pcg::from_state_inc(STATE, INC);
    for _ in 0..steps {
        twin.next_u32x4();
    }
    assert_eq!(g.next_u32x4(), twin.next_u32x4());
}

#[test]
fn next_u32_is_lane_zero() {
    let mut g = Avx2Pcg::from_state_inc(STATE, INC);
    let mut twin = Avx2Pcg::from_state_inc(STATE, INC);
    for _ in 0..100 {
        assert_eq!(g.next_u32(), twin.next_u32x4()[0]);
    }
}

#[test]
fn next_u32_exact_values() {
    let mut g = Avx2Pcg::from_state_inc([2, 1, 3, 4], [6, 5, 7, 8]);
    assert_eq!(g.next_u32(), 0);
    assert_eq!(g.next_u32(), 0xe2393051);
    assert_eq!(g.next_u32(), 0x8abf340f);
}

#[test]
fn next_u64_is_lanes_zero_and_one() {
    let mut g = Avx2Pcg::from_state_inc(STATE, INC);
    let mut twin = Avx2Pcg::from_state_inc(STATE, INC);
    for _ in 0..100 {
        let out = twin.next_u32x4();
        assert_eq!(g.next_u64(), (out[0] as u64) | ((out[1] as u64) << 32));
    }
}

#[test]
fn next_u64_exact_values() {
    let mut g = Avx2Pcg::from_state_inc([1, 2, 3, 4], [5, 6, 7, 8]);
    assert_eq!(g.next_u64(), 0);
    assert_eq!(g.next_u64(), 0xe2393051_e4c14788);
    assert_eq!(g.next_u64(), 0x8abf340f_a3f2abf5);
}

#[test]
fn fill_bytes_exact_values() {
    let mut g = Avx2Pcg::from_state_inc([1, 2, 3, 4], [5, 6, 7, 8]);
    let mut buf = [0xffu8; 35];
    g.fill_bytes(&mut buf);
    let expected: [u8; 35] = [
        0, 0, 0, 0, 0, 0, 0, 0, 0, 0, 0, 0, 0, 0, 0, 0, //
        0x88, 0x47, 0xc1, 0xe4, 0x51, 0x30, 0x39, 0xe2, 0xa9, 0xeb, 0x5d, 0x0f, 0x91, 0x8f, 0x82,
        0xc9, //
        0xf5, 0xab, 0xf2,
    ];
    assert_eq!(buf, expected);
    // Three steps were taken, the last for three bytes.
    assert_eq!(g.next_u32x4(), [0xc1a1c767, 0x87ab8ee8, 0xebfbd01e, 0x27d2db31]);
}

#[test]
fn fill_bytes_empty_takes_no_step() {
    let mut g = Avx2Pcg::from_state_inc(STATE, INC);
    let mut twin = Avx2Pcg::from_state_inc(STATE, INC);
    let mut buf: [u8; 0] = [];
    g.fill_bytes(&mut buf);
    assert_eq!(g.next_u32x4(), twin.next_u32x4());
}

#[test]
fn fill_bytes_length_0() {
    check_fill(0);
}

#[test]
fn fill_bytes_length_1() {
    check_fill(1);
}

#[test]
fn fill_bytes_length_15() {
    check_fill(15);
}

#[test]
fn fill_bytes_length_16() {
    check_fill(16);
}

#[test]
fn fill_bytes_length_17() {
    check_fill(17);
}

#[test]
fn fill_bytes_multiples_of_16_take_no_extra_step() {
    for k in 1..=8 {
        check_fill(16 * k);
    }
}

#[test]
fn fill_bytes_large_lengths() {
    check_fill(1_000);
    check_fill(4_099);
    check_fill(65_537);
}

#[test]
fn fill_bytes_every_short_length() {
    for len in 0..100 {
        check_fill(len);
    }
}

#[test]
fn try_fill_bytes_succeeds_and_fills_alike() {
    for len in [0usize, 1, 15, 16, 17, 33, 257] {
        let mut a = Avx2Pcg::from_state_inc(STATE, INC);
        let mut b = Avx2Pcg::from_state_inc(STATE, INC);
        let mut filled = vec![0u8; len];
        let mut tried = vec![0xffu8; len];
        a.fill_bytes(&mut filled);
        assert!(b.try_fill_bytes(&mut tried).is_ok());
        assert_eq!(filled, tried);
        assert_eq!(a.next_u32x4(), b.next_u32x4());
    }
}
