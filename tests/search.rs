use guess_distribution::search::{guess_number, make_guess, search, Trial, MAX_GUESSES};

#[test]
fn make_guess_ceiling_of_midpoint() {
    assert_eq!(make_guess(1, 100), 51);
    assert_eq!(make_guess(1, 50), 26);
    assert_eq!(make_guess(52, 100), 76);
    assert_eq!(make_guess(27, 50), 39);
    assert_eq!(make_guess(37, 38), 38);
    assert_eq!(make_guess(5, 5), 5);
}

#[test]
fn make_guess_extremes() {
    assert_eq!(make_guess(u32::MAX, u32::MAX), u32::MAX);
    assert_eq!(make_guess(0, u32::MAX), 1u32 << 31);
    assert_eq!(make_guess(50, 49), 50);
}

#[test]
fn secret_37_trace() {
    // 51, 26, 39, 33, 36, 38, 37 under the ceiling-midpoint rule
    assert_eq!(search(1, 100, 37), Trial::Found { guesses: 7 });
}

#[test]
fn first_guess_hits_midpoint() {
    assert_eq!(search(1, 100, 51), Trial::Found { guesses: 1 });
    assert_eq!(search(1, 100, 26), Trial::Found { guesses: 2 });
    assert_eq!(search(1, 100, 76), Trial::Found { guesses: 2 });
}

#[test]
fn every_secret_of_full_range_within_seven() {
    for secret in 1..=100u32 {
        match search(1, 100, secret) {
            Trial::Found { guesses } => assert!((1..=7).contains(&guesses)),
            other => panic!("secret {} gave {:?}", secret, other),
        }
    }
}

#[test]
fn secret_outside_interval_diverges() {
    let r = search(50, 60, 10);
    assert_eq!(r, Trial::Diverged { secret: 10, guess: 50, low: 50, high: 49 });
    assert_eq!(MAX_GUESSES, 100);
}

#[test]
fn random_trials_within_seven() {
    for _ in 0..1000 {
        match guess_number(1, 100) {
            Trial::Found { guesses } => assert!((1..=7).contains(&guesses)),
            other => panic!("unexpected {:?}", other),
        }
    }
}
