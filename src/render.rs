use vstd::prelude::*;

use crate::histogram::{entries_of, lemma_empty_total_no_entries, lemma_entries_sorted, total, Histogram};

verus! {

/// The first line of every rendering.
pub const SEPARATOR: &'static str = "---------------";

/// The second line of every rendering, above the rows.
pub const HEADER: &'static str = "# guesses : count";

/// The character of decimal digit `d`.
pub open spec fn digit_char(d: nat) -> char {
    if d == 0 {
        '0'
    } else if d == 1 {
        '1'
    } else if d == 2 {
        '2'
    } else if d == 3 {
        '3'
    } else if d == 4 {
        '4'
    } else if d == 5 {
        '5'
    } else if d == 6 {
        '6'
    } else if d == 7 {
        '7'
    } else if d == 8 {
        '8'
    } else {
        '9'
    }
}

/// `n` written in decimal, without leading zeros.
pub open spec fn decimal(n: nat) -> Seq<char>
    decreases n,
{
    if n < 10 {
        seq![digit_char(n)]
    } else {
        decimal(n / 10).push(digit_char(n % 10))
    }
}

/// The number of markers in the bar of a count: one per `scale`
/// occurrences, but never fewer than one.
pub open spec fn bar_width(count: nat, scale: nat) -> nat {
    if count / scale >= 1 {
        count / scale
    } else {
        1
    }
}

/// A bar of `width` markers.
pub open spec fn bar(width: nat) -> Seq<char> {
    Seq::new(width, |i: int| 'X')
}

/// The row of guess count `guesses` seen `count` times:
/// `<guesses>: <count> | <bar>`.
pub open spec fn row_text(guesses: nat, count: nat, scale: nat) -> Seq<char> {
    decimal(guesses) + ": "@ + decimal(count) + " | "@ + bar(bar_width(count, scale))
}

/// The rows of a table, one per populated guess count in ascending order.
pub open spec fn rows_of(counts: Seq<u64>, scale: nat) -> Seq<Seq<char>> {
    entries_of(counts).map_values(|e: (u32, u64)| row_text(e.0 as nat, e.1 as nat, scale))
}

/// The whole rendering of a table: the separator, the header, then the rows.
pub open spec fn rendered(counts: Seq<u64>, scale: nat) -> Seq<Seq<char>> {
    seq![SEPARATOR@, HEADER@] + rows_of(counts, scale)
}

/// Rendering depends on the table and the scale alone: two renderings of one
/// table at one scale are the same lines.
pub proof fn lemma_render_repeatable(counts: Seq<u64>, scale: nat, first: Seq<Seq<char>>, second: Seq<Seq<char>>)
    requires
        first == rendered(counts, scale),
        second == rendered(counts, scale),
    ensures
        first == second,
{
}

/// A rendering is the separator, the header, and then one row per populated
/// guess count, in strictly ascending order of guess count.
pub proof fn lemma_rows_ascending(counts: Seq<u64>, scale: nat)
    requires
        counts.len() <= u32::MAX as int + 1,
    ensures
        rendered(counts, scale).len() == entries_of(counts).len() + 2,
        rendered(counts, scale)[0] == SEPARATOR@,
        rendered(counts, scale)[1] == HEADER@,
        forall|i: int|
            0 <= i < entries_of(counts).len() ==> #[trigger] rendered(counts, scale)[i + 2]
                == row_text(entries_of(counts)[i].0 as nat, entries_of(counts)[i].1 as nat, scale),
        forall|i: int, j: int|
            0 <= i < j < entries_of(counts).len() ==> entries_of(counts)[i].0 < entries_of(
                counts,
            )[j].0,
{
    lemma_entries_sorted(counts);
}

/// A table that holds no trials renders as the separator and the header
/// alone.
pub proof fn lemma_no_trials_header_only(counts: Seq<u64>, scale: nat)
    requires
        total(counts) == 0,
    ensures
        rendered(counts, scale) == seq![SEPARATOR@, HEADER@],
{
    lemma_empty_total_no_entries(counts);
    assert(rendered(counts, scale) =~= seq![SEPARATOR@, HEADER@]);
}

fn digit_str(d: u64) -> (r: &'static str)
    requires
        d < 10,
    ensures
        r@ == seq![digit_char(d as nat)],
{
    if d == 0 {
        proof { reveal_strlit("0"); }
        "0"
    } else if d == 1 {
        proof { reveal_strlit("1"); }
        "1"
    } else if d == 2 {
        proof { reveal_strlit("2"); }
        "2"
    } else if d == 3 {
        proof { reveal_strlit("3"); }
        "3"
    } else if d == 4 {
        proof { reveal_strlit("4"); }
        "4"
    } else if d == 5 {
        proof { reveal_strlit("5"); }
        "5"
    } else if d == 6 {
        proof { reveal_strlit("6"); }
        "6"
    } else if d == 7 {
        proof { reveal_strlit("7"); }
        "7"
    } else if d == 8 {
        proof { reveal_strlit("8"); }
        "8"
    } else {
        proof { reveal_strlit("9"); }
        "9"
    }
}

/// Appends `n` in decimal to `s`.
fn push_decimal(s: &mut String, n: u64)
    ensures
        final(s)@ == old(s)@ + decimal(n as nat),
    decreases n,
{
    if n >= 10 {
        push_decimal(s, n / 10);
    }
    s.append(digit_str(n % 10));
    assert(old(s)@ + decimal(n as nat) =~= s@);
}

/// Appends a bar of `width` markers to `s`.
fn push_bar(s: &mut String, width: u64)
    ensures
        final(s)@ == old(s)@ + bar(width as nat),
{
    let mut i: u64 = 0;
    while i < width
        invariant
            i <= width,
            s@ == old(s)@ + bar(i as nat),
        decreases width - i,
    {
        proof { reveal_strlit("X"); }
        s.append("X");
        i += 1;
        assert(s@ =~= old(s)@ + bar(i as nat));
    }
}

/// Renders the row of guess count `guesses` seen `count` times, with one bar
/// marker per `scale` occurrences and at least one.
pub fn render_row(guesses: u32, count: u64, scale: u64) -> (r: String)
    requires
        scale > 0,
    ensures
        r@ == row_text(guesses as nat, count as nat, scale as nat),
{
    let mut s = String::new();
    push_decimal(&mut s, guesses as u64);
    s.append(": ");
    push_decimal(&mut s, count);
    s.append(" | ");
    let scaled = count / scale;
    let width: u64 = if scaled >= 1 { scaled } else { 1 };
    push_bar(&mut s, width);
    proof {
        reveal_strlit(": ");
        reveal_strlit(" | ");
        assert(s@ =~= row_text(guesses as nat, count as nat, scale as nat));
    }
    s
}

/// Renders `h` as text lines: the separator, the header, then one row per
/// populated guess count in ascending order.
pub fn render(h: &Histogram, scale: u64) -> (r: Vec<String>)
    requires
        h.wf(),
        scale > 0,
    ensures
        r@.map_values(|line: String| line@) == rendered(h@, scale as nat),
{
    let entries = h.entries();
    let mut r: Vec<String> = Vec::new();
    r.push(String::from_str(SEPARATOR));
    r.push(String::from_str(HEADER));
    let mut i: usize = 0;
    while i < entries.len()
        invariant
            i <= entries@.len(),
            entries@ == entries_of(h@),
            scale > 0,
            r@.len() == i + 2,
            forall|j: int|
                0 <= j < r@.len() ==> #[trigger] r@[j]@ == rendered(h@, scale as nat)[j],
        decreases entries.len() - i,
    {
        let (guesses, count) = entries[i];
        let line = render_row(guesses, count, scale);
        assert(rendered(h@, scale as nat)[i + 2] == line@);
        r.push(line);
        i += 1;
    }
    assert(r@.map_values(|line: String| line@) =~= rendered(h@, scale as nat));
    r
}

} // verus!
