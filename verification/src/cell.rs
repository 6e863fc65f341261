//! The cell occupancy marker and the alternating-turn protocol.

use vstd::prelude::*;

verus! {

/// One species. A grid cell holds `Option<Field>`: `None` is an empty cell.
#[derive(Copy, Clone, Debug, PartialEq, Eq, Structural)]
pub enum Field {
    Predator,
    Prey,
}

/// The other species: the turn cursor alternates between the two.
pub open spec fn flip(f: Field) -> Field {
    match f {
        Field::Predator => Field::Prey,
        Field::Prey => Field::Predator,
    }
}

/// The turn cursor after `n` further steps, starting from `start`.
pub open spec fn turn_after(start: Field, n: nat) -> Field
    decreases n,
{
    if n == 0 {
        start
    } else {
        flip(turn_after(start, (n - 1) as nat))
    }
}

/// Turn alternation: after `n` steps starting from a Predator turn, the turn
/// is Predator exactly when `n` is even, Prey exactly when `n` is odd.
pub proof fn lemma_turn_alternation(n: nat)
    ensures
        turn_after(Field::Predator, n) == (if n % 2 == 0 {
            Field::Predator
        } else {
            Field::Prey
        }),
    decreases n,
{
    if n > 0 {
        lemma_turn_alternation((n - 1) as nat);
    }
}

/// The single character that renders a cell: `R` for a predator, `B` for a
/// prey animal, `.` for an empty cell.
pub open spec fn symbol_of(c: Option<Field>) -> char {
    match c {
        Some(Field::Predator) => 'R',
        Some(Field::Prey) => 'B',
        None => '.',
    }
}

/// Executable counterpart of `symbol_of`.
pub fn symbol(c: Option<Field>) -> (r: char)
    ensures
        r == symbol_of(c),
{
    match c {
        Some(Field::Predator) => 'R',
        Some(Field::Prey) => 'B',
        None => '.',
    }
}

} // verus!
