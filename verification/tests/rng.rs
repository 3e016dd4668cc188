use dodger::rng::RandomSource;

#[test]
fn scripted_draws_reduce_into_range() {
    let mut rng = RandomSource::scripted(vec![7, 12, 3]);
    // 7 % 5 = 2, 12 % 5 = 2, then 10 + 3 % 10 = 13.
    assert_eq!(rng.next_in_range(0, 5), 2);
    assert_eq!(rng.next_in_range(0, 5), 2);
    assert_eq!(rng.next_in_range(10, 20), 13);
}

#[test]
fn exhausted_script_yields_the_low_bound() {
    let mut rng = RandomSource::scripted(vec![4]);
    assert_eq!(rng.next_in_range(2, 9), 6);
    assert_eq!(rng.next_in_range(2, 9), 2);
    assert_eq!(rng.next_in_range(5, 6), 5);
}

#[test]
fn empty_script_always_yields_the_low_bound() {
    let mut rng = RandomSource::scripted(Vec::new());
    for _ in 0..5 {
        assert_eq!(rng.next_in_range(3, 8), 3);
    }
}

#[test]
fn system_draws_stay_in_range() {
    let mut rng = RandomSource::system();
    for _ in 0..200 {
        let v = rng.next_in_range(3, 7);
        assert!((3..7).contains(&v));
        let w = rng.next_in_range(0, 2);
        assert!(w < 2);
    }
}

#[test]
fn system_draws_cover_the_range() {
    // A draw from a two-value range takes each value eventually; a source
    // that echoed its bound back would fail this.
    let mut rng = RandomSource::system();
    let mut seen = [false; 2];
    for _ in 0..1000 {
        seen[rng.next_in_range(0, 2)] = true;
    }
    assert!(seen[0] && seen[1]);
}
