use crossfade_player::random::{clock_seed, create_seeded_rng};
use rand::rngs::StdRng;
use rand::SeedableRng;

#[test]
fn the_seed_combines_seconds_and_nanoseconds() {
    assert_eq!(clock_seed(0, 0), 0);
    assert_eq!(clock_seed(0b1100, 0b1010), 0b0110);
    assert_eq!(clock_seed(1_761_687_000, 999_999_999), 1_761_687_000 ^ 999_999_999);
    assert_eq!(clock_seed(u64::MAX, u32::MAX), 0xFFFF_FFFF_0000_0000);
}

#[test]
fn the_generator_is_the_one_made_of_the_combined_seed() {
    assert_eq!(create_seeded_rng(0b1100, 0b1010), StdRng::seed_from_u64(0b0110));
    assert_eq!(create_seeded_rng(7, 0), StdRng::seed_from_u64(7));
    assert_eq!(
        create_seeded_rng(1_761_687_000, 999_999_999),
        StdRng::seed_from_u64(1_761_687_000 ^ 999_999_999)
    );
    assert_eq!(create_seeded_rng(u64::MAX, u32::MAX), StdRng::seed_from_u64(0xFFFF_FFFF_0000_0000));
}

#[test]
fn generators_of_different_seeds_differ() {
    assert_ne!(create_seeded_rng(7, 0), StdRng::seed_from_u64(8));
    assert_ne!(create_seeded_rng(7, 1), create_seeded_rng(7, 0));
    assert_eq!(create_seeded_rng(7, 1), create_seeded_rng(6, 0));
}
