use xorshift::{
    draw, entropy_seed, thread_rng, Error, Rng, RngJump, SeedableRng, SplitMix64, StreamFactory,
    Xoroshiro128, Xorshift1024, Xorshift128,
};

fn seed_from_42() -> Vec<u64> {
    let mut source = SplitMix64::from_seed(42);
    draw(&mut source, 16)
}

#[test]
fn factory_wants_sixteen_words() {
    assert_eq!(StreamFactory::new(&[]), Err(Error::InsufficientSeedLength));
    assert_eq!(StreamFactory::new(&[1; 15]), Err(Error::InsufficientSeedLength));
    assert!(StreamFactory::new(&[1; 16]).is_ok());
}

#[test]
fn factory_keeps_the_first_sixteen_words() {
    let long: Vec<u64> = (1..=20).collect();
    let factory = StreamFactory::new(&long).unwrap();
    assert_eq!(&factory.seed()[..], &long[..16]);
    assert_eq!(factory.issued(), 0);
    assert_eq!(factory, StreamFactory::new(&long[..16]).unwrap());
}

#[test]
fn thread_rng_counts_up_by_one() {
    let seed = seed_from_42();
    let mut factory = StreamFactory::new(&seed).unwrap();
    for expected in 0..5 {
        assert_eq!(factory.issued(), expected);
        let _rng: Xoroshiro128 = thread_rng(&mut factory).unwrap();
        assert_eq!(factory.issued(), expected + 1);
        assert_eq!(&factory.seed()[..], &seed[..]);
    }
}

#[test]
fn thread_rng_first_outputs_are_known() {
    let seed = seed_from_42();

    let mut factory = StreamFactory::new(&seed).unwrap();
    let mut a: Xorshift1024 = thread_rng(&mut factory).unwrap();
    let mut b: Xorshift1024 = thread_rng(&mut factory).unwrap();
    let mut c: Xorshift1024 = thread_rng(&mut factory).unwrap();
    assert_eq!(a.next_u64(), 13053142812357507600);
    assert_eq!(b.next_u64(), 3189190688731832258);
    assert_eq!(c.next_u64(), 16832727213673370544);

    let mut factory = StreamFactory::new(&seed).unwrap();
    let mut a: Xoroshiro128 = thread_rng(&mut factory).unwrap();
    let mut b: Xoroshiro128 = thread_rng(&mut factory).unwrap();
    let mut c: Xoroshiro128 = thread_rng(&mut factory).unwrap();
    assert_eq!(a.next_u64(), 16629283624882167704);
    assert_eq!(b.next_u64(), 3318364113193366008);
    assert_eq!(c.next_u64(), 11646951160910027345);

    let mut factory = StreamFactory::new(&seed).unwrap();
    let mut a: Xorshift128 = thread_rng(&mut factory).unwrap();
    let mut b: Xorshift128 = thread_rng(&mut factory).unwrap();
    let mut c: Xorshift128 = thread_rng(&mut factory).unwrap();
    assert_eq!(a.next_u64(), 16629283624882167704);
    assert_eq!(b.next_u64(), 13563319397786327635);
    assert_eq!(c.next_u64(), 221440447181355326);
}

#[test]
fn thread_rng_is_seed_then_jump_by_the_counter() {
    let seed = seed_from_42();
    let mut factory = StreamFactory::new(&seed).unwrap();
    for offset in 0..4 {
        let issued: Xorshift1024 = thread_rng(&mut factory).unwrap();
        let mut by_hand = Xorshift1024::from_seed(&seed).unwrap();
        by_hand.jump(offset);
        assert_eq!(issued, by_hand);
    }
}

#[test]
fn thread_rng_streams_start_apart() {
    let seed = seed_from_42();
    let mut factory = StreamFactory::new(&seed).unwrap();
    let mut firsts: Vec<u64> = Vec::new();
    for _ in 0..8 {
        let mut rng: Xorshift1024 = thread_rng(&mut factory).unwrap();
        firsts.push(rng.next_u64());
    }
    for i in 0..firsts.len() {
        for j in 0..i {
            assert_ne!(firsts[i], firsts[j]);
        }
    }
    assert_eq!(factory.issued(), 8);
}

#[test]
fn stream_at_an_offset_leaves_the_counter() {
    let seed = seed_from_42();
    let mut factory = StreamFactory::new(&seed).unwrap();
    let at_two: Xoroshiro128 = factory.stream(2).unwrap();
    assert_eq!(factory.issued(), 0);
    let _zero: Xoroshiro128 = thread_rng(&mut factory).unwrap();
    let _one: Xoroshiro128 = thread_rng(&mut factory).unwrap();
    let two: Xoroshiro128 = thread_rng(&mut factory).unwrap();
    assert_eq!(at_two, two);
}

#[test]
fn entropy_seed_has_sixteen_words() {
    match entropy_seed() {
        Ok(seed) => assert_eq!(seed.len(), 16),
        Err(e) => assert_eq!(e, Error::EntropySourceUnavailable),
    }
}

#[test]
fn factory_from_entropy_starts_at_offset_zero() {
    match StreamFactory::from_entropy() {
        Ok(mut factory) => {
            assert_eq!(factory.issued(), 0);
            let seed = factory.seed().to_vec();
            let mut issued: Xorshift1024 = thread_rng(&mut factory).unwrap();
            let mut by_hand = Xorshift1024::from_seed(&seed).unwrap();
            assert_eq!(issued.next_u64(), by_hand.next_u64());
            assert_eq!(factory.issued(), 1);
        }
        Err(e) => assert_eq!(e, Error::EntropySourceUnavailable),
    }
}

#[test]
fn entropy_seeds_differ() {
    if let (Ok(a), Ok(b)) = (entropy_seed(), entropy_seed()) {
        assert_ne!(a, b);
    }
}

#[test]
fn a_missing_entropy_source_gives_its_error() {
    let failure = std::io::Error::new(std::io::ErrorKind::NotFound, "no entropy source");
    assert_eq!(xorshift::seed_from(Err(failure)), Err(Error::EntropySourceUnavailable));
}

#[test]
fn seed_is_the_next_sixteen_words_of_the_source() {
    let start: &[usize] = &[1, 2, 3, 4];
    let source: rand::StdRng = rand::SeedableRng::from_seed(start);
    let mut same = source;
    let seed = xorshift::seed_from(Ok(source)).unwrap();
    assert_eq!(seed.len(), 16);
    for word in seed {
        assert_eq!(word, rand::Rng::next_u64(&mut same));
    }
}

#[test]
fn shared_factory_hands_out_the_offsets_in_turn() {
    let seed = seed_from_42();
    let plain = StreamFactory::new(&seed).unwrap();
    let shared = StreamFactory::new(&seed).unwrap().share();
    assert_eq!(&shared.seed()[..], &seed[..]);
    for offset in 0..4 {
        let issued: Xorshift128 = shared.thread_rng().unwrap();
        let expected: Xorshift128 = plain.stream(offset).unwrap();
        assert_eq!(issued, expected);
    }
}

#[test]
fn shared_factory_goes_on_where_the_plain_one_stopped() {
    let seed = seed_from_42();
    let mut factory = StreamFactory::new(&seed).unwrap();
    let _zero: Xoroshiro128 = thread_rng(&mut factory).unwrap();
    let _one: Xoroshiro128 = thread_rng(&mut factory).unwrap();
    let shared = factory.share();
    let mut two: Xoroshiro128 = shared.thread_rng().unwrap();
    assert_eq!(two.next_u64(), 11646951160910027345);
}
