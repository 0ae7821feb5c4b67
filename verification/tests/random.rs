use metaheuristics_nature::random::Rng;
use metaheuristics_nature::random::SeedOpt;
use rand_chacha::rand_core::RngCore;
use rand_chacha::rand_core::SeedableRng;
use rand_chacha::ChaCha8Rng;

#[test]
fn words_are_the_chacha8_stream_of_the_seed() {
    let mut rng = Rng::new(SeedOpt::Seed(7));
    let mut reference = ChaCha8Rng::seed_from_u64(7);
    for _ in 0..100 {
        assert_eq!(rng.word(), reference.next_u64());
    }
    assert_eq!(rng.seed(), 7);
}

#[test]
fn draws_advance_the_stream() {
    let mut rng = Rng::new(SeedOpt::Seed(7));
    let a = rng.word();
    let b = rng.word();
    let c = rng.word();
    assert!(a != b || b != c);
    assert_ne!(a, 7);
}

#[test]
fn same_seed_same_sequence() {
    let mut a = Rng::new(SeedOpt::Seed(123));
    let mut b = Rng::new(SeedOpt::Seed(123));
    assert_eq!(a.words(50), b.words(50));
    assert_eq!(a.range(-5, 5), b.range(-5, 5));
}

#[test]
fn different_seeds_differ() {
    let mut a = Rng::new(SeedOpt::Seed(1));
    let mut b = Rng::new(SeedOpt::Seed(2));
    assert_ne!(a.words(4), b.words(4));
}

#[test]
fn words_then_word_is_stream_order() {
    let mut a = Rng::new(SeedOpt::Seed(9));
    let mut b = Rng::new(SeedOpt::Seed(9));
    let batch = a.words(3);
    let single = vec![b.word(), b.word(), b.word()];
    assert_eq!(batch, single);
    assert_eq!(a.words(0), Vec::<u64>::new());
}

#[test]
fn range_folds_the_word() {
    let mut a = Rng::new(SeedOpt::Seed(11));
    let mut b = Rng::new(SeedOpt::Seed(11));
    for _ in 0..200 {
        let w = b.word();
        let v = a.range(-3, 12);
        assert!((-3..=12).contains(&v));
        assert_eq!(v, -3 + (w % 16) as i64);
    }
}

#[test]
fn range_over_everything_and_over_a_point() {
    let mut a = Rng::new(SeedOpt::Seed(11));
    let mut b = Rng::new(SeedOpt::Seed(11));
    let w = b.word();
    let v = a.range(i64::MIN, i64::MAX);
    assert_eq!(v as i128, i64::MIN as i128 + w as i128);
    assert_eq!(a.range(4, 4), 4);
}

#[test]
fn auto_seed_is_reported_and_replays() {
    let mut a = Rng::new(SeedOpt::Auto);
    let mut b = Rng::new(SeedOpt::Seed(a.seed()));
    assert_eq!(a.words(10), b.words(10));
}
