use xox_random::ambient;
use xox_random::ambient::resume;
use xox_random::Rng;

#[test]
fn determinism_across_generators() {
    let mut a = Rng::from_seed(*b"autovivification");
    let mut b = Rng::from_seed(*b"autovivification");
    for _ in 0..100 {
        assert_eq!(a.u64(), b.u64());
    }
    assert_eq!(a.state(), b.state());
}

#[test]
fn from_seed_reads_little_endian() {
    let seed = *b"autovivification";
    let g = Rng::from_seed(seed);
    assert_eq!(g.state(), u128::from_le_bytes(seed));
}

#[test]
fn all_zero_seed_is_accepted_as_is() {
    let g = Rng::from_seed([0u8; 16]);
    assert_eq!(g.state(), 0);
}

#[test]
fn new_and_state_round_trip() {
    let s = 0xfedcba9876543210_0123456789abcdefu128;
    let g = Rng::new(s);
    assert_eq!(g.state(), s);
}

#[test]
fn fill_matches_sequential_draws() {
    for &len in &[0usize, 1, 7, 8, 9, 16, 17] {
        let mut g = Rng::from_seed(*b"autovivification");
        let mut reference = Rng::from_seed(*b"autovivification");
        let mut buf = vec![0u8; len];
        g.fill(&mut buf);

        let draws = (len + 7) / 8;
        let mut expected = Vec::new();
        for _ in 0..draws {
            expected.extend_from_slice(&reference.u64().to_le_bytes());
        }
        expected.truncate(len);

        assert_eq!(buf, expected, "bytes differ at length {}", len);
        assert_eq!(g.state(), reference.state(), "state differs at length {}", len);
    }
}

#[test]
fn fill_exact_partial_tail() {
    let mut g = Rng::from_seed(*b"autovivification");
    let mut buf = [0u8; 4];
    g.fill(&mut buf);
    // the low four little-endian bytes of the first output, 0xe6cb90eb01058266
    assert_eq!(buf, [0x66, 0x82, 0x05, 0x01]);
}

#[test]
fn zero_length_fill_is_a_noop() {
    let mut g = Rng::from_seed(*b"autovivification");
    let before = g.state();
    let mut buf: [u8; 0] = [];
    g.fill(&mut buf);
    assert_eq!(g.state(), before);
}

#[test]
fn split_takes_two_outputs_and_advances_parent() {
    let mut g = Rng::from_seed(*b"autovivification");
    let mut reference = g.clone();
    let child = g.split();
    let p = reference.u64();
    let q = reference.u64();
    assert_eq!(child.state(), (p as u128) | ((q as u128) << 64));
    assert_eq!(g.state(), reference.state());
}

#[test]
fn array_u64_matches_sequential_draws() {
    let mut g = Rng::from_seed(*b"autovivification");
    let mut reference = g.clone();
    let a: [u64; 5] = g.array_u64();
    for i in 0..5 {
        assert_eq!(a[i], reference.u64());
    }
    assert_eq!(g.state(), reference.state());
}

#[test]
fn empty_array_u64_leaves_state_alone() {
    let mut g = Rng::from_seed(*b"autovivification");
    let before = g.state();
    let a: [u64; 0] = g.array_u64();
    assert_eq!(a.len(), 0);
    assert_eq!(g.state(), before);
}

#[test]
fn system_seeded_generator_is_usable() {
    let mut g = Rng::from_system_seed();
    let mut buf = [0u8; 20];
    g.fill(&mut buf);
    let _ = g.split();
    let _: [u64; 3] = g.array_u64();
}

#[test]
fn resume_keeps_a_nonzero_stored_word() {
    let g = resume(42);
    assert_eq!(g.state(), 42);
}

#[test]
fn resume_replaces_the_sentinel_with_a_seeded_state() {
    let mut g = resume(0);
    let _ = g.u64();
}

#[test]
fn ambient_steps_match_an_explicit_generator() {
    let stored = u128::from_le_bytes(*b"autovivification");
    let mut reference = Rng::new(stored);

    let (x, next) = ambient::u64(stored);
    assert_eq!(x, reference.u64());
    assert_eq!(next, reference.state());

    let (child, next) = ambient::split(next);
    let expected_child = reference.split();
    assert_eq!(child.state(), expected_child.state());
    assert_eq!(next, reference.state());

    let (a, next): ([u64; 3], u128) = ambient::array_u64(next);
    let expected: [u64; 3] = reference.array_u64();
    assert_eq!(a, expected);
    assert_eq!(next, reference.state());

    let mut buf = [0u8; 11];
    let mut expected_buf = [0u8; 11];
    let next = ambient::fill(next, &mut buf);
    reference.fill(&mut expected_buf);
    assert_eq!(buf, expected_buf);
    assert_eq!(next, reference.state());
}
