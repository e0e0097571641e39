use request_lifecycle::boundary::{gen_boundary, random, seed};

fn reference_step(state: u64) -> (u64, u64) {
    let mut n = state;
    n ^= n >> 12;
    n ^= n << 25;
    n ^= n >> 27;
    (n, n.wrapping_mul(0x2545_f491_4f6c_dd1d))
}

#[test]
fn random_from_state_one() {
    let mut state = 1u64;
    let number = random(&mut state);
    // 1 ^ (1 << 25) = 0x2000001, then ^ (>> 27) leaves it unchanged.
    assert_eq!(state, 0x0200_0001);
    assert_eq!(number, 0x0200_0001u64.wrapping_mul(0x2545_f491_4f6c_dd1d));
    assert_eq!(number, 0x47e4_ce4b_896c_dd1d);
}

#[test]
fn random_is_the_xorshift_step() {
    let mut state = 0x1234_5678_9abc_def0u64;
    for _ in 0..100 {
        let (next, out) = reference_step(state);
        let number = random(&mut state);
        assert_eq!(state, next);
        assert_eq!(number, out);
    }
}

#[test]
fn random_from_zero_stays_at_zero() {
    let mut state = 0u64;
    assert_eq!(random(&mut state), 0);
    assert_eq!(state, 0);
}

#[test]
fn gen_boundary_writes_four_numbers() {
    let mut state = 1u64;
    let boundary = gen_boundary(&mut state);
    let mut reference = 1u64;
    let mut numbers = Vec::new();
    for _ in 0..4 {
        let (next, out) = reference_step(reference);
        reference = next;
        numbers.push(out);
    }
    assert_eq!(state, reference);
    assert_eq!(
        boundary,
        format!("{:016x}-{:016x}-{:016x}-{:016x}", numbers[0], numbers[1], numbers[2], numbers[3])
    );
    assert!(boundary.starts_with("47e4ce4b896cdd1d-"));
}

#[test]
fn gen_boundary_pads_with_zeros() {
    let mut state = 0u64;
    assert_eq!(
        gen_boundary(&mut state),
        "0000000000000000-0000000000000000-0000000000000000-0000000000000000"
    );
}

#[test]
fn seed_is_never_zero() {
    for _ in 0..16 {
        assert_ne!(seed(), 0);
    }
}
