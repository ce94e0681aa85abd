use vstd::prelude::*;

use crate::histogram::{count_of, total, Histogram};
use crate::search::{guess_number, lemma_full_range_guesses, search_spec, Trial, SECRET_HIGH, SECRET_LOW};

verus! {

/// Trials in a full run.
pub const TRIALS: u64 = 100_000_000;

/// A full run reports progress after each such number of trials.
pub const PROGRESS_EVERY: u64 = 10_000_000;

/// Occurrences that one bar marker stands for when a full run is rendered.
pub const BAR_SCALE: u64 = 1_000_000;

/// The fewest and the most guesses a trial over `[SECRET_LOW, SECRET_HIGH]`
/// can take.
pub const FEWEST_GUESSES: u32 = 1;

pub const MOST_GUESSES: u32 = 7;

/// Every guess count populated in `counts` lies in
/// `[FEWEST_GUESSES, MOST_GUESSES]`.
pub open spec fn guesses_in_bounds(counts: Seq<u64>) -> bool {
    forall|k: int|
        #![trigger count_of(counts, k)]
        count_of(counts, k) > 0 ==> FEWEST_GUESSES <= k <= MOST_GUESSES
}

/// Runs `trials` more trials over `[SECRET_LOW, SECRET_HIGH]` and counts each
/// one's guess count into `h`.
pub fn run_trials(h: &mut Histogram, trials: u64)
    requires
        old(h).wf(),
        total(old(h)@) + trials <= u64::MAX,
    ensures
        final(h).wf(),
        total(final(h)@) == total(old(h)@) + trials,
        forall|k: int|
            #![trigger count_of(final(h)@, k)]
            count_of(final(h)@, k) >= count_of(old(h)@, k),
        forall|k: int|
            #![trigger count_of(final(h)@, k)]
            count_of(final(h)@, k) > count_of(old(h)@, k) ==> FEWEST_GUESSES <= k
                <= MOST_GUESSES,
{
    let mut done: u64 = 0;
    while done < trials
        invariant
            done <= trials,
            h.wf(),
            total(h@) == total(old(h)@) + done,
            total(old(h)@) + trials <= u64::MAX,
            forall|k: int|
                #![trigger count_of(h@, k)]
                count_of(h@, k) >= count_of(old(h)@, k),
            forall|k: int|
                #![trigger count_of(h@, k)]
                count_of(h@, k) > count_of(old(h)@, k) ==> FEWEST_GUESSES <= k <= MOST_GUESSES,
        decreases trials - done,
    {
        let trial = guess_number(SECRET_LOW, SECRET_HIGH);
        let ghost secret = choose|secret: u32|
            SECRET_LOW <= secret <= SECRET_HIGH && trial == #[trigger] search_spec(
                SECRET_LOW,
                SECRET_HIGH,
                secret,
            );
        proof {
            lemma_full_range_guesses(secret);
        }
        if let Trial::Found { guesses } = trial {
            h.record(guesses);
        }
        done += 1;
    }
}

/// Runs `trials` trials from an empty histogram.
pub fn simulate(trials: u64) -> (h: Histogram)
    ensures
        h.wf(),
        total(h@) == trials,
        guesses_in_bounds(h@),
{
    let mut h = Histogram::new();
    run_trials(&mut h, trials);
    h
}

} // verus!
