//! The mathematical model of the grid and of the single-step update rule,
//! with the counting lemmas that the population accounting rests on.

use vstd::prelude::*;

use crate::cell::Field;

verus! {

/// Row-major index of position `(x, y)` on a grid of the given width.
pub open spec fn cell_index(width: int, x: int, y: int) -> int {
    y * width + x
}

/// How many cells of `s` hold the value `v`.
pub open spec fn count_cells(s: Seq<Option<Field>>, v: Option<Field>) -> int
    decreases s.len(),
{
    if s.len() == 0 {
        0
    } else {
        count_cells(s.drop_last(), v) + if s.last() == v {
            1int
        } else {
            0int
        }
    }
}

/// The lowest index of `s` holding `v`, or `s.len()` if `v` does not occur.
pub open spec fn first_index_of(s: Seq<Option<Field>>, v: Option<Field>) -> int
    decreases s.len(),
{
    if s.len() == 0 {
        0
    } else if s[0] == v {
        0
    } else {
        1 + first_index_of(s.drop_first(), v)
    }
}

/// Pushing one cell raises the count of its value by one and no other.
pub proof fn lemma_count_push(s: Seq<Option<Field>>, x: Option<Field>)
    ensures
        forall|v: Option<Field>|
            #[trigger] count_cells(s.push(x), v) == count_cells(s, v) + if x == v {
                1int
            } else {
                0int
            },
{
    assert forall|v: Option<Field>|
        #[trigger] count_cells(s.push(x), v) == count_cells(s, v) + if x == v {
            1int
        } else {
            0int
        } by {
        assert(s.push(x).drop_last() =~= s);
        assert(s.push(x).last() == x);
    }
}

/// Overwriting one cell trades one occurrence of the old value for one of the
/// new value, leaving every other count unchanged.
pub proof fn lemma_count_update(s: Seq<Option<Field>>, i: int, x: Option<Field>)
    requires
        0 <= i < s.len(),
    ensures
        forall|v: Option<Field>|
            #[trigger] count_cells(s.update(i, x), v) == count_cells(s, v) + (if x == v {
                1int
            } else {
                0int
            }) - (if s[i] == v {
                1int
            } else {
                0int
            }),
    decreases s.len(),
{
    let u = s.update(i, x);
    if i == s.len() - 1 {
        assert(u.drop_last() =~= s.drop_last());
        assert(u.last() == x);
        assert(s.last() == s[i]);
        assert forall|v: Option<Field>|
            #[trigger] count_cells(u, v) == count_cells(s, v) + (if x == v {
                1int
            } else {
                0int
            }) - (if s[i] == v {
                1int
            } else {
                0int
            }) by {
            assert(count_cells(u, v) == count_cells(u.drop_last(), v) + if u.last() == v {
                1int
            } else {
                0int
            });
            assert(count_cells(s, v) == count_cells(s.drop_last(), v) + if s.last() == v {
                1int
            } else {
                0int
            });
        }
    } else {
        assert(u.drop_last() =~= s.drop_last().update(i, x));
        assert(u.last() == s.last());
        lemma_count_update(s.drop_last(), i, x);
        assert forall|v: Option<Field>|
            #[trigger] count_cells(u, v) == count_cells(s, v) + (if x == v {
                1int
            } else {
                0int
            }) - (if s[i] == v {
                1int
            } else {
                0int
            }) by {
            assert(count_cells(u, v) == count_cells(u.drop_last(), v) + if u.last() == v {
                1int
            } else {
                0int
            });
            assert(count_cells(s, v) == count_cells(s.drop_last(), v) + if s.last() == v {
                1int
            } else {
                0int
            });
            assert(count_cells(s.drop_last().update(i, x), v) == count_cells(s.drop_last(), v) + (
            if x == v {
                1int
            } else {
                0int
            }) - (if s.drop_last()[i] == v {
                1int
            } else {
                0int
            }));
            assert(s.drop_last()[i] == s[i]);
        }
    }
}

/// Every count lies between zero and the length of the sequence.
pub proof fn lemma_count_bounds(s: Seq<Option<Field>>)
    ensures
        forall|v: Option<Field>| 0 <= #[trigger] count_cells(s, v) <= s.len(),
    decreases s.len(),
{
    if s.len() > 0 {
        lemma_count_bounds(s.drop_last());
        assert forall|v: Option<Field>| 0 <= #[trigger] count_cells(s, v) <= s.len() by {
            assert(count_cells(s, v) == count_cells(s.drop_last(), v) + if s.last() == v {
                1int
            } else {
                0int
            });
        }
    } else {
        assert forall|v: Option<Field>| 0 <= #[trigger] count_cells(s, v) <= s.len() by {
            assert(count_cells(s, v) == 0);
        }
    }
}

/// The three kinds of cell partition the grid: their counts sum to its size.
pub proof fn lemma_count_partition(s: Seq<Option<Field>>)
    ensures
        count_cells(s, Some(Field::Predator)) + count_cells(s, Some(Field::Prey)) + count_cells(
            s,
            None::<Field>,
        ) == s.len(),
    decreases s.len(),
{
    if s.len() > 0 {
        lemma_count_partition(s.drop_last());
        assert(count_cells(s, Some(Field::Predator)) == count_cells(
            s.drop_last(),
            Some(Field::Predator),
        ) + if s.last() == Some(Field::Predator) {
            1int
        } else {
            0int
        });
        assert(count_cells(s, Some(Field::Prey)) == count_cells(s.drop_last(), Some(Field::Prey))
            + if s.last() == Some(Field::Prey) {
            1int
        } else {
            0int
        });
        assert(count_cells(s, None::<Field>) == count_cells(s.drop_last(), None::<Field>)
            + if s.last() == None::<Field> {
            1int
        } else {
            0int
        });
        assert(s.drop_last().len() == s.len() - 1);
        // exactly one of the three indicators above is 1: by cases on the
        // last cell
        match s.last() {
            Some(Field::Predator) => {},
            Some(Field::Prey) => {},
            None => {},
        }
    }
}

/// A value has count zero exactly when it occurs nowhere.
pub proof fn lemma_count_zero_iff(s: Seq<Option<Field>>, v: Option<Field>)
    ensures
        count_cells(s, v) == 0 <==> (forall|j: int| 0 <= j < s.len() ==> s[j] != v),
    decreases s.len(),
{
    lemma_count_bounds(s);
    if s.len() > 0 {
        lemma_count_zero_iff(s.drop_last(), v);
        lemma_count_bounds(s.drop_last());
        assert(forall|j: int| 0 <= j < s.len() - 1 ==> s[j] == s.drop_last()[j]);
        assert(s.last() == s[s.len() - 1]);
    }
}

/// What `first_index_of` returns: an index in range holding the value with
/// nothing equal before it, or the length when the value occurs nowhere.
pub proof fn lemma_first_index_props(s: Seq<Option<Field>>, v: Option<Field>)
    ensures
        0 <= first_index_of(s, v) <= s.len(),
        first_index_of(s, v) < s.len() ==> s[first_index_of(s, v)] == v,
        forall|j: int| 0 <= j < first_index_of(s, v) ==> s[j] != v,
        first_index_of(s, v) == s.len() ==> (forall|j: int| 0 <= j < s.len() ==> s[j] != v),
    decreases s.len(),
{
    if s.len() == 0 {
    } else if s[0] == v {
    } else {
        let t = s.drop_first();
        lemma_first_index_props(t, v);
        let fi = first_index_of(s, v);
        assert(fi == 1 + first_index_of(t, v));
        if fi < s.len() {
            assert(s[fi] == t[fi - 1]);
        }
        assert forall|j: int| 0 <= j < fi implies s[j] != v by {
            if j > 0 {
                assert(s[j] == t[j - 1]);
                assert(t[j - 1] != v);
            }
        }
        if fi == s.len() {
            assert forall|j: int| 0 <= j < s.len() implies s[j] != v by {
                if j > 0 {
                    assert(s[j] == t[j - 1]);
                    assert(t[j - 1] != v);
                }
            }
        }
    }
}

/// A found occurrence with none equal before it is the first index.
pub proof fn lemma_first_index_found(s: Seq<Option<Field>>, v: Option<Field>, i: int)
    requires
        0 <= i < s.len(),
        s[i] == v,
        forall|j: int| 0 <= j < i ==> s[j] != v,
    ensures
        first_index_of(s, v) == i,
{
    lemma_first_index_props(s, v);
}

/// When the value occurs nowhere, `first_index_of` is the length.
pub proof fn lemma_first_index_absent(s: Seq<Option<Field>>, v: Option<Field>)
    requires
        forall|j: int| 0 <= j < s.len() ==> s[j] != v,
    ensures
        first_index_of(s, v) == s.len(),
{
    lemma_first_index_props(s, v);
}

/// The first empty orthogonal neighbor of `(x, y)`, searched in the fixed
/// priority order up, down, left, right; neighbors beyond the grid edge are
/// absent (no wraparound).
pub open spec fn first_empty_neighbor(
    cells: Seq<Option<Field>>,
    w: int,
    h: int,
    x: int,
    y: int,
) -> Option<int> {
    if y > 0 && cells[cell_index(w, x, y - 1)] is None {
        Some(cell_index(w, x, y - 1))
    } else if y < h - 1 && cells[cell_index(w, x, y + 1)] is None {
        Some(cell_index(w, x, y + 1))
    } else if x > 0 && cells[cell_index(w, x - 1, y)] is None {
        Some(cell_index(w, x - 1, y))
    } else if x < w - 1 && cells[cell_index(w, x + 1, y)] is None {
        Some(cell_index(w, x + 1, y))
    } else {
        None
    }
}

/// The cells after one update at the drawn position `(x, y)` on the turn of
/// `turn`:
/// - Predator turn, drawn cell holds prey: that cell becomes a predator.
/// - Predator turn otherwise: the predator at the lowest index starves to an
///   empty cell; with no predator on the grid, nothing changes.
/// - Prey turn, drawn cell holds prey: the first empty neighbor in priority
///   order up, down, left, right becomes prey; with none empty, nothing
///   changes.
/// - Prey turn, drawn cell empty: that cell becomes prey.
/// - Prey turn, drawn cell holds a predator: nothing changes.
pub open spec fn step_cells(
    cells: Seq<Option<Field>>,
    w: int,
    h: int,
    turn: Field,
    x: int,
    y: int,
) -> Seq<Option<Field>> {
    let i = cell_index(w, x, y);
    match turn {
        Field::Predator => {
            if cells[i] == Some(Field::Prey) {
                cells.update(i, Some(Field::Predator))
            } else {
                let fp = first_index_of(cells, Some(Field::Predator));
                if fp < cells.len() {
                    cells.update(fp, None)
                } else {
                    cells
                }
            }
        },
        Field::Prey => {
            if cells[i] == Some(Field::Prey) {
                match first_empty_neighbor(cells, w, h, x, y) {
                    Some(j) => cells.update(j, Some(Field::Prey)),
                    None => cells,
                }
            } else if cells[i] is None {
                cells.update(i, Some(Field::Prey))
            } else {
                cells
            }
        },
    }
}

/// Boundary safety and atomicity: for any in-range drawn position, a step
/// either leaves the cells unchanged or overwrites exactly one cell at an
/// index within the grid; no position outside the grid is ever touched, also
/// for edge and corner cells, and the grid never changes size.
pub proof fn lemma_step_single_update(
    cells: Seq<Option<Field>>,
    w: int,
    h: int,
    turn: Field,
    x: int,
    y: int,
)
    requires
        w > 0,
        h > 0,
        cells.len() == w * h,
        0 <= x < w,
        0 <= y < h,
    ensures
        step_cells(cells, w, h, turn, x, y).len() == cells.len(),
        step_cells(cells, w, h, turn, x, y) == cells || exists|i: int, v: Option<Field>|
            0 <= i < cells.len() && step_cells(cells, w, h, turn, x, y) == cells.update(i, v),
{
    let post = step_cells(cells, w, h, turn, x, y);
    assert(0 <= cell_index(w, x, y) < cells.len()) by (nonlinear_arith)
        requires
            0 <= x < w,
            0 <= y < h,
            cells.len() == w * h,
    ;
    assert(y > 0 ==> 0 <= cell_index(w, x, y - 1) < cells.len()) by (nonlinear_arith)
        requires
            0 <= x < w,
            0 <= y < h,
            cells.len() == w * h,
    ;
    assert(y < h - 1 ==> 0 <= cell_index(w, x, y + 1) < cells.len()) by (nonlinear_arith)
        requires
            0 <= x < w,
            0 <= y < h,
            cells.len() == w * h,
    ;
    assert(x > 0 ==> 0 <= cell_index(w, x - 1, y) < cells.len()) by (nonlinear_arith)
        requires
            0 <= x < w,
            0 <= y < h,
            cells.len() == w * h,
    ;
    assert(x < w - 1 ==> 0 <= cell_index(w, x + 1, y) < cells.len()) by (nonlinear_arith)
        requires
            0 <= x < w,
            0 <= y < h,
            cells.len() == w * h,
    ;
    lemma_first_index_props(cells, Some(Field::Predator));
    if post != cells {
        match turn {
            Field::Predator => {
                if cells[cell_index(w, x, y)] == Some(Field::Prey) {
                    assert(post == cells.update(cell_index(w, x, y), Some(Field::Predator)));
                } else {
                    let fp = first_index_of(cells, Some(Field::Predator));
                    assert(post == cells.update(fp, None::<Field>));
                }
            },
            Field::Prey => {
                if cells[cell_index(w, x, y)] == Some(Field::Prey) {
                    match first_empty_neighbor(cells, w, h, x, y) {
                        Some(j) => {
                            assert(post == cells.update(j, Some(Field::Prey)));
                        },
                        None => {},
                    }
                } else {
                    assert(post == cells.update(cell_index(w, x, y), Some(Field::Prey)));
                }
            },
        }
    }
}

/// No-prey starvation determinism: on a predator turn with no prey anywhere
/// and at least one predator, the step empties the predator cell with the
/// lowest index, whatever position was drawn.
pub proof fn lemma_no_prey_starvation(cells: Seq<Option<Field>>, w: int, h: int, x: int, y: int)
    requires
        w > 0,
        h > 0,
        cells.len() == w * h,
        0 <= x < w,
        0 <= y < h,
        count_cells(cells, Some(Field::Prey)) == 0,
        count_cells(cells, Some(Field::Predator)) > 0,
    ensures
        ({
            let fp = first_index_of(cells, Some(Field::Predator));
            &&& 0 <= fp < cells.len()
            &&& cells[fp] == Some(Field::Predator)
            &&& forall|j: int| 0 <= j < fp ==> cells[j] != Some(Field::Predator)
            &&& step_cells(cells, w, h, Field::Predator, x, y) == cells.update(fp, None)
        }),
{
    let i = cell_index(w, x, y);
    assert(0 <= i < cells.len()) by (nonlinear_arith)
        requires
            0 <= x < w,
            0 <= y < h,
            cells.len() == w * h,
            i == y * w + x,
    ;
    lemma_count_zero_iff(cells, Some(Field::Prey));
    assert(cells[i] != Some(Field::Prey));
    lemma_count_zero_iff(cells, Some(Field::Predator));
    lemma_first_index_props(cells, Some(Field::Predator));
    let fp = first_index_of(cells, Some(Field::Predator));
    if fp == cells.len() {
        assert(count_cells(cells, Some(Field::Predator)) == 0);
    }
}

/// Neighbor priority: a prey cell whose upward neighbor exists and is empty
/// always reproduces upward, whatever other neighbors are also empty.
pub proof fn lemma_neighbor_priority(cells: Seq<Option<Field>>, w: int, h: int, x: int, y: int)
    requires
        w > 0,
        h > 0,
        cells.len() == w * h,
        0 <= x < w,
        0 < y < h,
        cells[cell_index(w, x, y)] == Some(Field::Prey),
        cells[cell_index(w, x, y - 1)] is None,
    ensures
        step_cells(cells, w, h, Field::Prey, x, y) == cells.update(
            cell_index(w, x, y - 1),
            Some(Field::Prey),
        ),
{
}

} // verus!
