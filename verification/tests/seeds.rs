use orbitty::seeds::{fs_bits, gen_seed};

#[test]
fn gen_seed_known_values() {
    assert_eq!(gen_seed(0, 0), 0);
    assert_eq!(gen_seed(1700000000, 123456789), 105749484510177724);
}

#[test]
fn gen_seed_depends_on_nanoseconds() {
    assert_ne!(gen_seed(1700000000, 1), gen_seed(1700000000, 2));
}

#[test]
fn fs_bits_known_values() {
    assert_eq!(fs_bits(0), 17747684320819229789);
    assert_eq!(fs_bits(12345), 16155012157589503559);
}

#[test]
fn gen_seed_distinct_readings_distinct_seeds() {
    // Readings in the same second that differ only in nanoseconds.
    let seeds: Vec<u64> = (0..1000u32).map(|n| gen_seed(1_700_000_000, n)).collect();
    for i in 0..seeds.len() {
        for j in (i + 1)..seeds.len() {
            assert_ne!(seeds[i], seeds[j]);
        }
    }
    // Readings whose multiply-add values agree give the same seed.
    let secs: u64 = 5;
    let h0 = secs.wrapping_mul(6364136223846793005).wrapping_add(7);
    let other = h0.wrapping_sub(9).wrapping_mul(0xc097ef87329e28a5);
    assert_eq!(other.wrapping_mul(6364136223846793005).wrapping_add(9), h0);
    assert_eq!(gen_seed(secs, 7), gen_seed(other, 9));
}
