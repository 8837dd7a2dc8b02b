use xorshift::{draw, Rng, RngJump, SeedableRng, Xoroshiro128, Xorshift1024, Xorshift128};

#[test]
fn xoroshiro128_jump_gives_known_outputs() {
    let seed: [u64; 2] = [1, 2];
    let mut rng = Xoroshiro128::from_seed(&seed[..]).unwrap();
    rng.jump(1);
    assert_eq!(draw(&mut rng, 4), vec![49883660855520597, 6665085312904400187, 5754915083691863135, 8704162829363017776]);

    let mut rng = Xoroshiro128::from_seed(&seed[..]).unwrap();
    rng.jump(3);
    assert_eq!(draw(&mut rng, 4), vec![7514375848206949714, 1357657915560165080, 18139568324749572874, 3921037426406333157]);
}

#[test]
fn xoroshiro128_jump_zero_changes_nothing() {
    let seed: [u64; 2] = [1, 2];
    let mut rng = Xoroshiro128::from_seed(&seed[..]).unwrap();
    rng.next_u64();
    let before = rng;
    rng.jump(0);
    assert_eq!(rng, before);
    let mut untouched = before;
    assert_eq!(draw(&mut rng, 20), draw(&mut untouched, 20));
}

#[test]
fn xoroshiro128_jump_once_twice_is_jump_two() {
    let seed: [u64; 2] = [1, 2];
    let mut twice = Xoroshiro128::from_seed(&seed[..]).unwrap();
    twice.next_u64();
    let mut once = twice;
    twice.jump(1);
    twice.jump(1);
    once.jump(2);
    assert_eq!(twice, once);
    assert_eq!(draw(&mut twice, 20), draw(&mut once, 20));
}

#[test]
fn xoroshiro128_jumps_add_up() {
    let seed: [u64; 2] = [1, 2];
    let mut split = Xoroshiro128::from_seed(&seed[..]).unwrap();
    let mut whole = split;
    split.jump(2);
    split.jump(3);
    whole.jump(5);
    assert_eq!(split, whole);
}

#[test]
fn xoroshiro128_jump_leaves_the_start_of_the_stream() {
    let seed: [u64; 2] = [1, 2];
    let mut here = Xoroshiro128::from_seed(&seed[..]).unwrap();
    let mut there = here;
    there.jump(1);
    assert_ne!(here, there);
    assert_ne!(draw(&mut here, 8), draw(&mut there, 8));
}

#[test]
fn xorshift128_jump_gives_known_outputs() {
    let seed: [u64; 2] = [1, 2];
    let mut rng = Xorshift128::from_seed(&seed[..]).unwrap();
    rng.jump(1);
    assert_eq!(draw(&mut rng, 4), vec![3985552085190377641, 1668331990619182229, 11957121123647129823, 14264840073229750238]);

    let mut rng = Xorshift128::from_seed(&seed[..]).unwrap();
    rng.jump(3);
    assert_eq!(draw(&mut rng, 4), vec![10421548466959133543, 7572096558889164589, 7869015071658877194, 15846204980789967864]);
}

#[test]
fn xorshift128_jump_zero_changes_nothing() {
    let seed: [u64; 2] = [1, 2];
    let mut rng = Xorshift128::from_seed(&seed[..]).unwrap();
    rng.next_u64();
    let before = rng;
    rng.jump(0);
    assert_eq!(rng, before);
    let mut untouched = before;
    assert_eq!(draw(&mut rng, 20), draw(&mut untouched, 20));
}

#[test]
fn xorshift128_jump_once_twice_is_jump_two() {
    let seed: [u64; 2] = [1, 2];
    let mut twice = Xorshift128::from_seed(&seed[..]).unwrap();
    twice.next_u64();
    let mut once = twice;
    twice.jump(1);
    twice.jump(1);
    once.jump(2);
    assert_eq!(twice, once);
    assert_eq!(draw(&mut twice, 20), draw(&mut once, 20));
}

#[test]
fn xorshift128_jumps_add_up() {
    let seed: [u64; 2] = [1, 2];
    let mut split = Xorshift128::from_seed(&seed[..]).unwrap();
    let mut whole = split;
    split.jump(2);
    split.jump(3);
    whole.jump(5);
    assert_eq!(split, whole);
}

#[test]
fn xorshift128_jump_leaves_the_start_of_the_stream() {
    let seed: [u64; 2] = [1, 2];
    let mut here = Xorshift128::from_seed(&seed[..]).unwrap();
    let mut there = here;
    there.jump(1);
    assert_ne!(here, there);
    assert_ne!(draw(&mut here, 8), draw(&mut there, 8));
}

#[test]
fn xorshift1024_jump_gives_known_outputs() {
    let seed: [u64; 16] = [1, 2, 3, 4, 5, 6, 7, 8, 9, 10, 11, 12, 13, 14, 15, 16];
    let mut rng = Xorshift1024::from_seed(&seed[..]).unwrap();
    rng.jump(1);
    assert_eq!(draw(&mut rng, 4), vec![12845683714268846888, 2215413018834376834, 18351236584298673071, 12143268578954426687]);

    let mut rng = Xorshift1024::from_seed(&seed[..]).unwrap();
    rng.jump(3);
    assert_eq!(draw(&mut rng, 4), vec![11456962399173468275, 4805268341518234384, 14796275385816401478, 12084209986965447067]);
}

#[test]
fn xorshift1024_jump_zero_changes_nothing() {
    let seed: [u64; 16] = [1, 2, 3, 4, 5, 6, 7, 8, 9, 10, 11, 12, 13, 14, 15, 16];
    let mut rng = Xorshift1024::from_seed(&seed[..]).unwrap();
    rng.next_u64();
    let before = rng;
    rng.jump(0);
    assert_eq!(rng, before);
    let mut untouched = before;
    assert_eq!(draw(&mut rng, 20), draw(&mut untouched, 20));
}

#[test]
fn xorshift1024_jump_once_twice_is_jump_two() {
    let seed: [u64; 16] = [1, 2, 3, 4, 5, 6, 7, 8, 9, 10, 11, 12, 13, 14, 15, 16];
    let mut twice = Xorshift1024::from_seed(&seed[..]).unwrap();
    twice.next_u64();
    let mut once = twice;
    twice.jump(1);
    twice.jump(1);
    once.jump(2);
    assert_eq!(twice, once);
    assert_eq!(draw(&mut twice, 20), draw(&mut once, 20));
}

#[test]
fn xorshift1024_jumps_add_up() {
    let seed: [u64; 16] = [1, 2, 3, 4, 5, 6, 7, 8, 9, 10, 11, 12, 13, 14, 15, 16];
    let mut split = Xorshift1024::from_seed(&seed[..]).unwrap();
    let mut whole = split;
    split.jump(2);
    split.jump(3);
    whole.jump(5);
    assert_eq!(split, whole);
}

#[test]
fn xorshift1024_jump_leaves_the_start_of_the_stream() {
    let seed: [u64; 16] = [1, 2, 3, 4, 5, 6, 7, 8, 9, 10, 11, 12, 13, 14, 15, 16];
    let mut here = Xorshift1024::from_seed(&seed[..]).unwrap();
    let mut there = here;
    there.jump(1);
    assert_ne!(here, there);
    assert_ne!(draw(&mut here, 8), draw(&mut there, 8));
}

#[test]
fn xorshift1024_jump_keeps_the_rotating_index() {
    let seed: [u64; 16] = [1, 2, 3, 4, 5, 6, 7, 8, 9, 10, 11, 12, 13, 14, 15, 16];
    let mut rng = Xorshift1024::from_seed(&seed[..]).unwrap();
    for _ in 0..5 {
        rng.next_u64();
    }
    rng.jump(1);
    assert_eq!(draw(&mut rng, 4), vec![6172533249905286522, 12871827262668724200, 14386256649569142096, 6041164962970653026]);
}

#[test]
fn xoroshiro128_jump_and_draws_change_places() {
    let mut jump_first = Xoroshiro128::from_seed(&[1477776328140003287, 3]).unwrap();
    let mut draw_first = jump_first;
    jump_first.jump(2);
    draw(&mut jump_first, 7);
    draw(&mut draw_first, 7);
    draw_first.jump(2);
    assert_eq!(jump_first, draw_first);
}

#[test]
fn xorshift128_jump_and_draws_change_places() {
    let mut jump_first = Xorshift128::from_seed(&[1477776990746309507, 3]).unwrap();
    let mut draw_first = jump_first;
    jump_first.jump(2);
    draw(&mut jump_first, 7);
    draw(&mut draw_first, 7);
    draw_first.jump(2);
    assert_eq!(jump_first, draw_first);
}
