use guess_distribution::histogram::Histogram;
use guess_distribution::render::{render, render_row, HEADER, SEPARATOR};
use guess_distribution::search::{search, Trial};
use guess_distribution::simulation::{run_trials, simulate, BAR_SCALE};

#[test]
fn new_histogram_is_empty() {
    let h = Histogram::new();
    assert_eq!(h.len(), 0);
    assert_eq!(h.count(3), 0);
    assert!(h.entries().is_empty());
}

#[test]
fn record_counts_each_key() {
    let mut h = Histogram::new();
    h.record(6);
    h.record(3);
    h.record(6);
    assert_eq!(h.count(6), 2);
    assert_eq!(h.count(3), 1);
    assert_eq!(h.count(4), 0);
    assert_eq!(h.count(100), 0);
    assert_eq!(h.entries(), vec![(3, 1), (6, 2)]);
}

#[test]
fn one_trial_for_secret_37() {
    let mut h = Histogram::new();
    match search(1, 100, 37) {
        Trial::Found { guesses } => h.record(guesses),
        other => panic!("unexpected {:?}", other),
    }
    assert_eq!(h.entries(), vec![(7, 1)]);
}

#[test]
fn sum_of_counts_is_trials() {
    let h = simulate(5000);
    let entries = h.entries();
    let sum: u64 = entries.iter().map(|e| e.1).sum();
    assert_eq!(sum, 5000);
    for (k, c) in entries {
        assert!((1..=7).contains(&k));
        assert!(c > 0);
    }
}

#[test]
fn run_trials_adds_to_existing() {
    let mut h = Histogram::new();
    run_trials(&mut h, 300);
    run_trials(&mut h, 200);
    let sum: u64 = h.entries().iter().map(|e| e.1).sum();
    assert_eq!(sum, 500);
}

#[test]
fn zero_trials_render_header_only() {
    let h = simulate(0);
    assert!(h.entries().is_empty());
    let lines = render(&h, BAR_SCALE);
    assert_eq!(lines, vec![SEPARATOR.to_string(), HEADER.to_string()]);
    assert_eq!(lines[0], "---------------");
    assert_eq!(lines[1], "# guesses : count");
}

#[test]
fn row_format_and_bar_width() {
    assert_eq!(render_row(6, 1, 1_000_000), "6: 1 | X");
    assert_eq!(render_row(7, 2_500_000, 1_000_000), "7: 2500000 | XX");
    assert_eq!(render_row(10, 30_000, 10_000), "10: 30000 | XXX");
    assert_eq!(render_row(0, 0, 1), "0: 0 | X");
    assert_eq!(render_row(4, 5, 1), "4: 5 | XXXXX");
}

#[test]
fn render_rows_ascending() {
    let mut h = Histogram::new();
    h.record(7);
    h.record(2);
    h.record(5);
    h.record(2);
    let lines = render(&h, 1);
    assert_eq!(
        lines,
        vec![
            "---------------".to_string(),
            "# guesses : count".to_string(),
            "2: 2 | XX".to_string(),
            "5: 1 | X".to_string(),
            "7: 1 | X".to_string(),
        ]
    );
}

#[test]
fn render_twice_same_output() {
    let h = simulate(2000);
    assert_eq!(render(&h, 100), render(&h, 100));
}
