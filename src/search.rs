use rand::Rng;
use vstd::prelude::*;

verus! {

/// The most guesses a single trial may make before it is given up as diverged.
pub const MAX_GUESSES: u32 = 100;

/// The range the secret of every trial is drawn from, whatever interval the
/// search itself is given.
pub const SECRET_LOW: u32 = 1;

pub const SECRET_HIGH: u32 = 100;

/// How one trial ended.
#[derive(Debug, Clone, Copy, PartialEq, Eq, Structural)]
pub enum Trial {
    /// The secret was hit with the given number of guesses.
    Found { guesses: u32 },
    /// The guess counter passed `MAX_GUESSES` (it stands at `MAX_GUESSES + 1`)
    /// without hitting the secret; the last guess and the interval it left
    /// are kept for diagnosis.
    Diverged { secret: u32, guess: u32, low: u32, high: u32 },
}

/// The next candidate of a search over the closed interval `[low, high]`: the
/// ceiling of the midpoint, `ceil(low + (high - low) / 2)`.
pub open spec fn midpoint(low: u32, high: u32) -> int {
    (low + high + 1) / 2
}

/// The outcome of a search for `secret` that stands at the interval
/// `[low, high]` after `made` guesses: guess the midpoint; stop on a hit;
/// otherwise narrow the interval past the guess, and give up once more than
/// `MAX_GUESSES` guesses were made.
pub open spec fn search_from(low: u32, high: u32, secret: u32, made: nat) -> Trial
    decreases MAX_GUESSES + 1 - made,
{
    let guess = midpoint(low, high) as u32;
    let count = made + 1;
    if guess == secret {
        Trial::Found { guesses: count as u32 }
    } else {
        let next_low = if guess < secret { (guess + 1) as u32 } else { low };
        let next_high = if guess < secret { high } else { (guess - 1) as u32 };
        if count > MAX_GUESSES {
            Trial::Diverged { secret, guess, low: next_low, high: next_high }
        } else {
            search_from(next_low, next_high, secret, count)
        }
    }
}

/// The outcome of a whole trial searching `[low, high]` for `secret`.
pub open spec fn search_spec(low: u32, high: u32, secret: u32) -> Trial {
    search_from(low, high, secret, 0)
}

/// `2` to the power `n`.
pub open spec fn pow2(n: nat) -> nat
    decreases n,
{
    if n == 0 { 1 } else { 2 * pow2((n - 1) as nat) }
}

/// A search whose interval holds the secret and fewer than `2^steps` values,
/// with `steps` guesses to spare below the cap, hits the secret within
/// `steps` more guesses.
pub proof fn lemma_found_within(low: u32, high: u32, secret: u32, made: nat, steps: nat)
    requires
        low <= secret <= high,
        high - low + 1 < pow2(steps),
        made + steps <= MAX_GUESSES,
    ensures
        search_from(low, high, secret, made) is Found,
        made < search_from(low, high, secret, made)->guesses <= made + steps,
    decreases steps,
{
    let guess = midpoint(low, high) as u32;
    if guess != secret {
        let next_low = if guess < secret { (guess + 1) as u32 } else { low };
        let next_high = if guess < secret { high } else { (guess - 1) as u32 };
        assert(next_high - next_low + 1 < pow2((steps - 1) as nat));
        lemma_found_within(next_low, next_high, secret, made + 1, (steps - 1) as nat);
    }
}

/// Every trial over `[1, 100]` for a secret of that range finds it with
/// between one and seven guesses, so the give-up path is never taken.
pub proof fn lemma_full_range_guesses(secret: u32)
    requires
        SECRET_LOW <= secret <= SECRET_HIGH,
    ensures
        search_spec(SECRET_LOW, SECRET_HIGH, secret) is Found,
        1 <= search_spec(SECRET_LOW, SECRET_HIGH, secret)->guesses <= 7,
{
    reveal_with_fuel(pow2, 8);
    lemma_found_within(SECRET_LOW, SECRET_HIGH, secret, 0, 7);
}

/// Returns the ceiling of the midpoint of `[low, high]`.
pub fn make_guess(low: u32, high: u32) -> (r: u32)
    ensures
        r == midpoint(low, high),
{
    let sum: u64 = low as u64 + high as u64 + 1;
    (sum / 2) as u32
}

/// Runs one binary search for a known `secret` over `[low, high]`.
pub fn search(low: u32, high: u32, secret: u32) -> (r: Trial)
    ensures
        r == search_spec(low, high, secret),
{
    let mut lo = low;
    let mut hi = high;
    let mut guesses: u32 = 0;
    loop
        invariant
            guesses <= MAX_GUESSES,
            search_spec(low, high, secret) == search_from(lo, hi, secret, guesses as nat),
        decreases MAX_GUESSES - guesses,
    {
        let guess = make_guess(lo, hi);
        guesses += 1;
        if guess == secret {
            return Trial::Found { guesses };
        }
        if guess < secret {
            lo = guess + 1;
        } else {
            hi = guess - 1;
        }
        if guesses > MAX_GUESSES {
            return Trial::Diverged { secret, guess, low: lo, high: hi };
        }
    }
}

/// Relies on rand's `thread_rng().gen_range(low..=high)`: a value of the closed
/// range `[low, high]` (the call panics on an empty range).
#[verifier::external_body]
fn draw_in(low: u32, high: u32) -> (r: u32)
    requires
        low <= high,
    ensures
        low <= r <= high,
{
    rand::thread_rng().gen_range(low..=high)
}

/// Performs one trial: draws a secret from `[SECRET_LOW, SECRET_HIGH]`, however
/// `[low, high]` is chosen, and searches `[low, high]` for it.
pub fn guess_number(low: u32, high: u32) -> (r: Trial)
    ensures
        exists|secret: u32|
            SECRET_LOW <= secret <= SECRET_HIGH && r == #[trigger] search_spec(low, high, secret),
{
    let secret = draw_in(SECRET_LOW, SECRET_HIGH);
    search(low, high, secret)
}

} // verus!
