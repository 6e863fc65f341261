//! The grid state machine: construction, the single-step update, population
//! queries and the textual rendering.

use vstd::arithmetic::div_mod::lemma_fundamental_div_mod_converse;
use vstd::prelude::*;

use crate::cell::{flip, symbol, symbol_of, turn_after, Field};
use crate::rules::{
    cell_index, count_cells, first_index_of, lemma_count_bounds, lemma_count_partition,
    lemma_count_push, lemma_count_update, lemma_count_zero_iff, lemma_first_index_absent,
    lemma_first_index_found, step_cells,
};

verus! {

/// The predator–prey grid: a flat row-major cell array with cached population
/// counters and the alternating-turn cursor.
pub struct Board {
    pub size: (usize, usize),
    pub fields: Vec<Option<Field>>,
    pub on_turn: Field,
    pub num_predators: usize,
    pub num_prey: usize,
}

impl Board {
    /// Grid width, as a mathematical integer.
    pub open spec fn width(&self) -> int {
        self.size.0 as int
    }

    /// Grid height, as a mathematical integer.
    pub open spec fn height(&self) -> int {
        self.size.1 as int
    }

    /// The cell contents, as a sequence.
    pub open spec fn cells(&self) -> Seq<Option<Field>> {
        self.fields@
    }

    /// The species whose update rule the next `step` applies.
    pub open spec fn turn(&self) -> Field {
        self.on_turn
    }

    /// The cached predator counter.
    pub open spec fn spec_predators(&self) -> int {
        self.num_predators as int
    }

    /// The cached prey counter.
    pub open spec fn spec_preys(&self) -> int {
        self.num_prey as int
    }

    /// Well-formedness: positive dimensions, a cell array of exactly
    /// width*height cells, and counters that match a full scan of the cells.
    pub open spec fn wf(&self) -> bool {
        &&& self.width() > 0
        &&& self.height() > 0
        &&& self.cells().len() == self.width() * self.height()
        &&& self.spec_predators() == count_cells(self.cells(), Some(Field::Predator))
        &&& self.spec_preys() == count_cells(self.cells(), Some(Field::Prey))
    }

    /// Builds a grid holding exactly the requested number of predators and
    /// prey at a random arrangement of positions, the remaining cells empty,
    /// with Predator to act first.
    pub fn new(size: (usize, usize), num_predators: usize, num_prey: usize) -> (b: Board)
        requires
            size.0 > 0,
            size.1 > 0,
            (size.0 as int) * (size.1 as int) <= usize::MAX,
            num_predators + num_prey <= (size.0 as int) * (size.1 as int),
        ensures
            b.wf(),
            b.width() == size.0 as int,
            b.height() == size.1 as int,
            b.turn() == Field::Predator,
            b.spec_predators() == num_predators,
            b.spec_preys() == num_prey,
    {
        let total: usize = size.0 * size.1;
        let mut fields: Vec<Option<Field>> = Vec::new();
        let mut i: usize = 0;
        while i < num_predators
            invariant
                i <= num_predators,
                fields@.len() == i,
                count_cells(fields@, Some(Field::Predator)) == i,
                count_cells(fields@, Some(Field::Prey)) == 0,
            decreases num_predators - i,
        {
            proof {
                lemma_count_push(fields@, Some(Field::Predator));
            }
            fields.push(Some(Field::Predator));
            i = i + 1;
        }
        let mut j: usize = 0;
        while j < num_prey
            invariant
                j <= num_prey,
                fields@.len() == num_predators + j,
                count_cells(fields@, Some(Field::Predator)) == num_predators,
                count_cells(fields@, Some(Field::Prey)) == j,
            decreases num_prey - j,
        {
            proof {
                lemma_count_push(fields@, Some(Field::Prey));
            }
            fields.push(Some(Field::Prey));
            j = j + 1;
        }
        let rest: usize = total - num_predators - num_prey;
        let mut k: usize = 0;
        while k < rest
            invariant
                k <= rest,
                fields@.len() == num_predators + num_prey + k,
                count_cells(fields@, Some(Field::Predator)) == num_predators,
                count_cells(fields@, Some(Field::Prey)) == num_prey,
            decreases rest - k,
        {
            proof {
                lemma_count_push(fields@, None::<Field>);
            }
            fields.push(None);
            k = k + 1;
        }
        shuffle_cells(&mut fields);
        Board { size, fields, on_turn: Field::Predator, num_predators, num_prey }
    }

    /// Builds a grid from a given cell arrangement and turn cursor, counting
    /// the populations by a full scan.
    pub fn from_cells(size: (usize, usize), cells: Vec<Option<Field>>, on_turn: Field) -> (b:
        Board)
        requires
            size.0 > 0,
            size.1 > 0,
            cells@.len() == (size.0 as int) * (size.1 as int),
        ensures
            b.wf(),
            b.width() == size.0 as int,
            b.height() == size.1 as int,
            b.cells() == cells@,
            b.turn() == on_turn,
    {
        let n: usize = cells.len();
        let mut np: usize = 0;
        let mut nq: usize = 0;
        let mut i: usize = 0;
        while i < n
            invariant
                i <= n,
                n == cells@.len(),
                np == count_cells(cells@.subrange(0, i as int), Some(Field::Predator)),
                nq == count_cells(cells@.subrange(0, i as int), Some(Field::Prey)),
            decreases n - i,
        {
            proof {
                assert(cells@.subrange(0, i + 1) =~= cells@.subrange(0, i as int).push(
                    cells@[i as int],
                ));
                lemma_count_push(cells@.subrange(0, i as int), cells@[i as int]);
                lemma_count_bounds(cells@.subrange(0, i as int));
            }
            let c: Option<Field> = cells[i];
            match c {
                Some(Field::Predator) => {
                    np = np + 1;
                },
                Some(Field::Prey) => {
                    nq = nq + 1;
                },
                None => {},
            }
            i = i + 1;
        }
        proof {
            assert(cells@.subrange(0, n as int) =~= cells@);
        }
        Board { size, fields: cells, on_turn, num_predators: np, num_prey: nq }
    }

    /// Row-major index of a position, the single mapping every access path
    /// shares.
    pub fn position_index(&self, position: (usize, usize)) -> (r: usize)
        requires
            self.wf(),
            (position.0 as int) < self.width(),
            (position.1 as int) < self.height(),
        ensures
            r == cell_index(self.width(), position.0 as int, position.1 as int),
            r < self.cells().len(),
    {
        let n: usize = self.fields.len();
        proof {
            assert((position.1 as int) * (self.size.0 as int) + (position.0 as int) < (
            self.size.0 as int) * (self.size.1 as int)) by (nonlinear_arith)
                requires
                    (position.0 as int) < (self.size.0 as int),
                    (position.1 as int) < (self.size.1 as int),
                    0 <= (position.0 as int),
                    0 <= (position.1 as int),
                    0 < (self.size.0 as int),
            ;
        }
        position.1 * self.size.0 + position.0
    }

    /// The cell at a position.
    pub fn get_field(&self, position: (usize, usize)) -> (r: &Option<Field>)
        requires
            self.wf(),
            (position.0 as int) < self.width(),
            (position.1 as int) < self.height(),
        ensures
            *r == self.cells()[cell_index(self.width(), position.0 as int, position.1 as int)],
    {
        let index: usize = self.position_index(position);
        &self.fields[index]
    }

    /// Overwrites the cell at a position, keeping the cached counters in
    /// step with the cells.
    pub fn set_field(&mut self, position: (usize, usize), value: Option<Field>)
        requires
            old(self).wf(),
            (position.0 as int) < old(self).width(),
            (position.1 as int) < old(self).height(),
        ensures
            final(self).wf(),
            final(self).size == old(self).size,
            final(self).on_turn == old(self).on_turn,
            final(self).cells() == old(self).cells().update(
                cell_index(old(self).width(), position.0 as int, position.1 as int),
                value,
            ),
            final(self).spec_predators() == old(self).spec_predators() + (if value == Some(
                Field::Predator,
            ) {
                1int
            } else {
                0int
            }) - (if old(self).cells()[cell_index(
                old(self).width(),
                position.0 as int,
                position.1 as int,
            )] == Some(Field::Predator) {
                1int
            } else {
                0int
            }),
            final(self).spec_preys() == old(self).spec_preys() + (if value == Some(Field::Prey) {
                1int
            } else {
                0int
            }) - (if old(self).cells()[cell_index(
                old(self).width(),
                position.0 as int,
                position.1 as int,
            )] == Some(Field::Prey) {
                1int
            } else {
                0int
            }),
    {
        let index: usize = self.position_index(position);
        self.set_index(index, value);
    }

    /// Overwrites the cell at a flat index, keeping the cached counters in
    /// step with the cells.
    pub fn set_index(&mut self, index: usize, value: Option<Field>)
        requires
            old(self).wf(),
            index < old(self).cells().len(),
        ensures
            final(self).wf(),
            final(self).size == old(self).size,
            final(self).on_turn == old(self).on_turn,
            final(self).cells() == old(self).cells().update(index as int, value),
            final(self).spec_predators() == old(self).spec_predators() + (if value == Some(
                Field::Predator,
            ) {
                1int
            } else {
                0int
            }) - (if old(self).cells()[index as int] == Some(Field::Predator) {
                1int
            } else {
                0int
            }),
            final(self).spec_preys() == old(self).spec_preys() + (if value == Some(Field::Prey) {
                1int
            } else {
                0int
            }) - (if old(self).cells()[index as int] == Some(Field::Prey) {
                1int
            } else {
                0int
            }),
    {
        let n: usize = self.fields.len();
        proof {
            let u = self.cells().update(index as int, value);
            lemma_count_zero_iff(self.cells(), Some(Field::Predator));
            lemma_count_zero_iff(self.cells(), Some(Field::Prey));
            lemma_count_bounds(self.cells());
            lemma_count_update(self.cells(), index as int, value);
            lemma_count_bounds(u);
            assert(u.len() == n);
            assert(count_cells(u, Some(Field::Predator)) <= u.len());
            assert(count_cells(u, Some(Field::Prey)) <= u.len());
        }
        let old_value = self.fields[index];
        match old_value {
            Some(Field::Prey) => {
                self.num_prey = self.num_prey - 1;
            },
            Some(Field::Predator) => {
                self.num_predators = self.num_predators - 1;
            },
            None => {},
        }
        match value {
            Some(Field::Prey) => {
                self.num_prey = self.num_prey + 1;
            },
            Some(Field::Predator) => {
                self.num_predators = self.num_predators + 1;
            },
            None => {},
        }
        self.fields[index] = value;
    }

    /// The flat index of the predator at the lowest index, if any predator is
    /// on the grid.
    fn first_predator_index(&self) -> (r: Option<usize>)
        ensures
            r is Some ==> (r->Some_0 as int) < self.cells().len() && self.cells()[r->Some_0 as int]
                == Some(Field::Predator) && first_index_of(self.cells(), Some(Field::Predator))
                == r->Some_0 as int,
            r is None ==> first_index_of(self.cells(), Some(Field::Predator))
                == self.cells().len(),
    {
        let n: usize = self.fields.len();
        let mut i: usize = 0;
        while i < n
            invariant
                i <= n,
                n == self.cells().len(),
                forall|j: int| 0 <= j < i ==> self.cells()[j] != Some(Field::Predator),
            decreases n - i,
        {
            if matches!(self.fields[i], Some(Field::Predator)) {
                proof {
                    lemma_first_index_found(self.cells(), Some(Field::Predator), i as int);
                }
                return Some(i);
            }
            i = i + 1;
        }
        proof {
            lemma_first_index_absent(self.cells(), Some(Field::Predator));
        }
        None
    }

    /// One update at the given drawn position, plus the turn flip: the
    /// deterministic core of `step`, exact for every drawn position.
    pub fn step_at(&mut self, x: usize, y: usize)
        requires
            old(self).wf(),
            (x as int) < old(self).width(),
            (y as int) < old(self).height(),
        ensures
            final(self).wf(),
            final(self).size == old(self).size,
            final(self).turn() == flip(old(self).turn()),
            final(self).cells() == step_cells(
                old(self).cells(),
                old(self).width(),
                old(self).height(),
                old(self).turn(),
                x as int,
                y as int,
            ),
            -1 <= final(self).spec_predators() - old(self).spec_predators() <= 1,
            -1 <= final(self).spec_preys() - old(self).spec_preys() <= 1,
            old(self).turn() == Field::Prey ==> final(self).spec_predators() == old(
                self,
            ).spec_predators() && final(self).spec_preys() >= old(self).spec_preys(),
            old(self).turn() == Field::Predator ==> final(self).spec_preys() <= old(
                self,
            ).spec_preys(),
    {
        match self.on_turn {
            Field::Predator => {
                let cell = *self.get_field((x, y));
                if matches!(cell, Some(Field::Prey)) {
                    // prey found: the predator eats it and occupies its cell
                    self.set_field((x, y), Some(Field::Predator));
                } else {
                    // no prey at the drawn cell: the first predator starves
                    match self.first_predator_index() {
                        Some(i) => {
                            self.set_index(i, None);
                        },
                        None => {},
                    }
                }
            },
            Field::Prey => {
                let cell = *self.get_field((x, y));
                if matches!(cell, Some(Field::Prey)) {
                    // prey found: it reproduces into the first empty
                    // neighbor in the order up, down, left, right
                    if y > 0 && self.get_field((x, y - 1)).is_none() {
                        self.set_field((x, y - 1), Some(Field::Prey));
                    } else if y + 1 < self.size.1 && self.get_field((x, y + 1)).is_none() {
                        self.set_field((x, y + 1), Some(Field::Prey));
                    } else if x > 0 && self.get_field((x - 1, y)).is_none() {
                        self.set_field((x - 1, y), Some(Field::Prey));
                    } else if x + 1 < self.size.0 && self.get_field((x + 1, y)).is_none() {
                        self.set_field((x + 1, y), Some(Field::Prey));
                    }
                } else if cell.is_none() {
                    // an empty drawn cell is colonized directly
                    self.set_field((x, y), Some(Field::Prey));
                }
            },
        }
        self.on_turn = match self.on_turn {
            Field::Predator => Field::Prey,
            Field::Prey => Field::Predator,
        };
    }

    /// One step: draws one position uniformly at random over the grid,
    /// applies the update rule of the species on turn at that position, and
    /// flips the turn. The new state is the exact update for some in-range
    /// drawn position; which one depends on the random source alone.
    pub fn step(&mut self)
        requires
            old(self).wf(),
        ensures
            final(self).wf(),
            final(self).size == old(self).size,
            final(self).turn() == flip(old(self).turn()),
            -1 <= final(self).spec_predators() - old(self).spec_predators() <= 1,
            -1 <= final(self).spec_preys() - old(self).spec_preys() <= 1,
            old(self).turn() == Field::Prey ==> final(self).spec_predators() == old(
                self,
            ).spec_predators() && final(self).spec_preys() >= old(self).spec_preys(),
            old(self).turn() == Field::Predator ==> final(self).spec_preys() <= old(
                self,
            ).spec_preys(),
            exists|x: int, y: int|
                0 <= x < old(self).width() && 0 <= y < old(self).height() && final(self).cells()
                    == step_cells(
                    old(self).cells(),
                    old(self).width(),
                    old(self).height(),
                    old(self).turn(),
                    x,
                    y,
                ),
    {
        let x: usize = random_below(self.size.0);
        let y: usize = random_below(self.size.1);
        self.step_at(x, y);
        proof {
            assert((x as int) < old(self).width() && (y as int) < old(self).height()
                && self.cells() == step_cells(
                old(self).cells(),
                old(self).width(),
                old(self).height(),
                old(self).turn(),
                x as int,
                y as int,
            ));
        }
    }

    /// Runs `num_steps` steps and records, after each one, the triple
    /// (predators, prey, empty cells). Every recorded triple sums to the grid
    /// area, and the turn cursor ends where `num_steps` flips leave it.
    pub fn run_steps(&mut self, num_steps: usize) -> (data: Vec<(usize, usize, usize)>)
        requires
            old(self).wf(),
        ensures
            final(self).wf(),
            final(self).size == old(self).size,
            final(self).turn() == turn_after(old(self).turn(), num_steps as nat),
            data@.len() == num_steps,
            forall|i: int|
                0 <= i < num_steps ==> ((#[trigger] data@[i]).0 as int) + (data@[i].1 as int) + (
                data@[i].2 as int) == old(self).width() * old(self).height(),
            num_steps > 0 ==> (data@[num_steps - 1].0 as int) == final(self).spec_predators() && (
            data@[num_steps - 1].1 as int) == final(self).spec_preys(),
    {
        let mut data: Vec<(usize, usize, usize)> = Vec::new();
        let mut k: usize = 0;
        while k < num_steps
            invariant
                k <= num_steps,
                self.wf(),
                self.size == old(self).size,
                self.turn() == turn_after(old(self).turn(), k as nat),
                data@.len() == k,
                forall|i: int|
                    0 <= i < k ==> ((#[trigger] data@[i]).0 as int) + (data@[i].1 as int) + (
                    data@[i].2 as int) == old(self).width() * old(self).height(),
                k > 0 ==> (data@[k - 1].0 as int) == self.spec_predators() && (data@[k
                    - 1].1 as int) == self.spec_preys(),
            decreases num_steps - k,
        {
            self.step();
            let p: usize = self.num_predators();
            let q: usize = self.num_prey();
            let e: usize = self.num_empty();
            data.push((p, q, e));
            k = k + 1;
            proof {
                assert(turn_after(old(self).turn(), k as nat) == flip(
                    turn_after(old(self).turn(), (k - 1) as nat),
                ));
            }
        }
        data
    }

    /// The exact number of predator cells.
    pub fn num_predators(&self) -> (r: usize)
        ensures
            r as int == self.spec_predators(),
    {
        self.num_predators
    }

    /// The exact number of prey cells.
    pub fn num_prey(&self) -> (r: usize)
        ensures
            r as int == self.spec_preys(),
    {
        self.num_prey
    }

    /// The exact number of empty cells: the grid area minus both
    /// populations, which is what a full scan for empty cells counts.
    pub fn num_empty(&self) -> (r: usize)
        requires
            self.wf(),
        ensures
            r as int == self.width() * self.height() - self.spec_predators() - self.spec_preys(),
            r as int == count_cells(self.cells(), None::<Field>),
    {
        proof {
            lemma_count_partition(self.cells());
            lemma_count_bounds(self.cells());
        }
        let total: usize = self.fields.len();
        total - self.num_predators - self.num_prey
    }

    /// Renders the grid as text: one line per row, each cell as its single
    /// character followed by a space, each row closed by a newline.
    pub fn render(&self) -> (r: String)
        requires
            self.wf(),
        ensures
            r@.len() == self.height() * (2 * self.width() + 1),
            forall|k: int|
                0 <= k < r@.len() ==> #[trigger] r@[k] == render_char(
                    self.cells(),
                    self.width(),
                    k,
                ),
    {
        let ghost stride: int = 2 * self.width() + 1;
        let mut out = String::new();
        let mut y: usize = 0;
        while y < self.size.1
            invariant
                self.wf(),
                stride == 2 * self.width() + 1,
                y <= self.height(),
                out@.len() == y * stride,
                forall|k: int|
                    0 <= k < out@.len() ==> #[trigger] out@[k] == render_char(
                        self.cells(),
                        self.width(),
                        k,
                    ),
            decreases self.height() - y,
        {
            let mut x: usize = 0;
            while x < self.size.0
                invariant
                    self.wf(),
                    stride == 2 * self.width() + 1,
                    y < self.height(),
                    x <= self.width(),
                    out@.len() == y * stride + 2 * x,
                    forall|k: int|
                        0 <= k < out@.len() ==> #[trigger] out@[k] == render_char(
                            self.cells(),
                            self.width(),
                            k,
                        ),
                decreases self.width() - x,
            {
                let c: char = symbol(*self.get_field((x, y)));
                proof {
                    lemma_fundamental_div_mod_converse(
                        y * stride + 2 * x,
                        stride,
                        y as int,
                        2 * x,
                    );
                    lemma_fundamental_div_mod_converse(
                        y * stride + 2 * x + 1,
                        stride,
                        y as int,
                        2 * x + 1,
                    );
                }
                push_char(&mut out, c);
                push_char(&mut out, ' ');
                x = x + 1;
            }
            proof {
                lemma_fundamental_div_mod_converse(
                    y * stride + 2 * self.width(),
                    stride,
                    y as int,
                    2 * self.width(),
                );
                assert((y + 1) * stride == y * stride + stride) by (nonlinear_arith);
            }
            push_char(&mut out, '\n');
            y = y + 1;
        }
        out
    }
}

/// The character of the rendered text at flat position `k`: rows of
/// `2*w + 1` characters, a cell character at each even offset, a space at
/// each odd offset, a newline at the end of the row.
pub open spec fn render_char(cells: Seq<Option<Field>>, w: int, k: int) -> char {
    let stride = 2 * w + 1;
    let yy = k / stride;
    let j = k % stride;
    if j == 2 * w {
        '\n'
    } else if j % 2 == 0 {
        symbol_of(cells[yy * w + j / 2])
    } else {
        ' '
    }
}

/// Conservation: on any well-formed grid, predators, prey and empty cells
/// together fill the grid exactly.
pub proof fn lemma_conservation(b: &Board)
    requires
        b.wf(),
    ensures
        b.spec_predators() + b.spec_preys() + count_cells(b.cells(), None::<Field>) == b.width()
            * b.height(),
{
    lemma_count_partition(b.cells());
}

/// Relies on rand::random_range over `0..n`: a uniform draw that lies within
/// the half-open range; the range is nonempty, so the call does not panic.
#[verifier::external_body]
fn random_below(n: usize) -> (r: usize)
    requires
        n > 0,
    ensures
        r < n,
{
    rand::random_range(0..n)
}

/// Relies on rand's SliceRandom::shuffle: a Fisher–Yates shuffle permutes
/// the slice in place, so its length and the number of occurrences of every
/// value are unchanged, whatever order comes out.
#[verifier::external_body]
fn shuffle_cells(cells: &mut Vec<Option<Field>>)
    ensures
        final(cells)@.len() == old(cells)@.len(),
        forall|v: Option<Field>|
            #[trigger] count_cells(final(cells)@, v) == count_cells(old(cells)@, v),
{
    rand::seq::SliceRandom::shuffle(cells.as_mut_slice(), &mut rand::rng());
}

/// Relies on String::push: appends exactly the one given character.
#[verifier::external_body]
fn push_char(s: &mut String, c: char)
    ensures
        final(s)@ == old(s)@.push(c),
{
    s.push(c);
}

} // verus!
