use predator_prey::board::Board;
use predator_prey::cell::{symbol, Field};

fn empty_grid(cells: usize) -> Vec<Option<Field>> {
    let mut v: Vec<Option<Field>> = Vec::new();
    for _ in 0..cells {
        v.push(None);
    }
    v
}

#[test]
fn construction_counts() {
    let b = Board::new((3, 3), 2, 3);
    assert_eq!(b.num_predators(), 2);
    assert_eq!(b.num_prey(), 3);
    assert_eq!(b.num_empty(), 4);
    assert_eq!(b.on_turn, Field::Predator);
}

#[test]
fn construction_full_grid() {
    let b = Board::new((2, 2), 4, 0);
    assert_eq!(b.num_predators(), 4);
    assert_eq!(b.num_prey(), 0);
    assert_eq!(b.num_empty(), 0);
}

#[test]
fn conservation_over_run() {
    // a 2x2 grid with 1 predator and 1 prey, run for 100 steps: the three
    // counts must sum to the grid area after every single step
    let mut b = Board::new((2, 2), 1, 1);
    for _ in 0..100 {
        b.step();
        assert_eq!(b.num_predators() + b.num_prey() + b.num_empty(), 4);
    }
}

#[test]
fn turn_alternation() {
    let mut b = Board::new((3, 2), 2, 2);
    assert_eq!(b.on_turn, Field::Predator);
    for n in 0..7 {
        if n % 2 == 0 {
            assert_eq!(b.on_turn, Field::Predator);
        } else {
            assert_eq!(b.on_turn, Field::Prey);
        }
        b.step();
    }
}

#[test]
fn starvation_removes_lowest_index() {
    // predators at flat indices 2, 5 and 7, no prey: a predator turn must
    // empty index 2, whatever position the step draws
    let mut cells = empty_grid(9);
    cells[2] = Some(Field::Predator);
    cells[5] = Some(Field::Predator);
    cells[7] = Some(Field::Predator);
    let mut b = Board::from_cells((3, 3), cells, Field::Predator);
    b.step();
    assert_eq!(b.fields[2], None);
    assert_eq!(b.fields[5], Some(Field::Predator));
    assert_eq!(b.fields[7], Some(Field::Predator));
    assert_eq!(b.num_predators(), 2);
}

#[test]
fn starvation_repeats_in_index_order() {
    let mut cells = empty_grid(9);
    cells[2] = Some(Field::Predator);
    cells[5] = Some(Field::Predator);
    cells[7] = Some(Field::Predator);
    let mut b = Board::from_cells((3, 3), cells, Field::Predator);
    b.step();
    // the prey turn in between can only colonize an empty cell
    b.step_at(0, 0);
    assert_eq!(b.on_turn, Field::Predator);
    b.step_at(1, 2); // draws the predator at index 7: no prey, so index 5 starves
    assert_eq!(b.fields[5], None);
    assert_eq!(b.fields[7], Some(Field::Predator));
}

#[test]
fn neighbor_priority_up_before_left() {
    // prey at the center of a 3x3 grid, every neighbor empty: reproduction
    // must fill the upward neighbor, not the left one
    let mut cells = empty_grid(9);
    cells[4] = Some(Field::Prey);
    let mut b = Board::from_cells((3, 3), cells, Field::Prey);
    b.step_at(1, 1);
    assert_eq!(*b.get_field((1, 0)), Some(Field::Prey));
    assert_eq!(*b.get_field((0, 1)), None);
    assert_eq!(b.num_prey(), 2);
}

#[test]
fn neighbor_priority_down_when_up_taken() {
    let mut cells = empty_grid(9);
    cells[4] = Some(Field::Prey);
    cells[1] = Some(Field::Predator); // blocks "up"
    let mut b = Board::from_cells((3, 3), cells, Field::Prey);
    b.step_at(1, 1);
    assert_eq!(*b.get_field((1, 2)), Some(Field::Prey));
    assert_eq!(*b.get_field((0, 1)), None);
}

#[test]
fn boundary_safety_single_cell_prey() {
    // a 1x1 grid with one prey and no empty cell has no neighbor in any
    // direction: every prey turn must no-op safely
    for _ in 0..10 {
        let mut cells = empty_grid(1);
        cells[0] = Some(Field::Prey);
        let mut b = Board::from_cells((1, 1), cells, Field::Prey);
        b.step();
        assert_eq!(b.fields[0], Some(Field::Prey));
        assert_eq!(b.num_prey(), 1);
        assert_eq!(b.num_empty(), 0);
        assert_eq!(b.on_turn, Field::Predator);
    }
}

#[test]
fn corner_prey_reproduces_down() {
    // prey in the top-left corner of a 2x2 grid: up and left are absent, so
    // down is filled first
    let mut cells = empty_grid(4);
    cells[0] = Some(Field::Prey);
    let mut b = Board::from_cells((2, 2), cells, Field::Prey);
    b.step_at(0, 0);
    assert_eq!(*b.get_field((0, 1)), Some(Field::Prey));
    assert_eq!(*b.get_field((1, 0)), None);
}

#[test]
fn prey_colonizes_empty_cell() {
    let cells = empty_grid(1);
    let mut b = Board::from_cells((1, 1), cells, Field::Prey);
    b.step();
    assert_eq!(b.fields[0], Some(Field::Prey));
    assert_eq!(b.num_prey(), 1);
    assert_eq!(b.on_turn, Field::Predator);
}

#[test]
fn predator_eats_drawn_prey() {
    let mut cells = empty_grid(1);
    cells[0] = Some(Field::Prey);
    let mut b = Board::from_cells((1, 1), cells, Field::Predator);
    b.step();
    assert_eq!(b.fields[0], Some(Field::Predator));
    assert_eq!(b.num_predators(), 1);
    assert_eq!(b.num_prey(), 0);
}

#[test]
fn lone_predator_starves() {
    let mut cells = empty_grid(1);
    cells[0] = Some(Field::Predator);
    let mut b = Board::from_cells((1, 1), cells, Field::Predator);
    b.step();
    assert_eq!(b.fields[0], None);
    assert_eq!(b.num_predators(), 0);
}

#[test]
fn prey_turn_ignores_predator_cell() {
    let mut cells = empty_grid(1);
    cells[0] = Some(Field::Predator);
    let mut b = Board::from_cells((1, 1), cells, Field::Prey);
    b.step();
    assert_eq!(b.fields[0], Some(Field::Predator));
    assert_eq!(b.on_turn, Field::Predator);
}

#[test]
fn growth_bounds_per_step() {
    // one step changes the predator count by at most one in either direction
    // and the prey count by at most one in either direction
    let mut b = Board::new((4, 4), 3, 5);
    for _ in 0..60 {
        let p_before = b.num_predators() as i64;
        let q_before = b.num_prey() as i64;
        b.step();
        let dp = b.num_predators() as i64 - p_before;
        let dq = b.num_prey() as i64 - q_before;
        assert!(dp >= -1 && dp <= 1, "predator count changed by {}", dp);
        assert!(dq >= -1 && dq <= 1, "prey count changed by {}", dq);
    }
}

#[test]
fn run_steps_records_every_step() {
    let mut b = Board::new((2, 2), 1, 1);
    let data = b.run_steps(20);
    assert_eq!(data.len(), 20);
    for t in &data {
        assert_eq!(t.0 + t.1 + t.2, 4);
    }
    let last = data[19];
    assert_eq!(last.0, b.num_predators());
    assert_eq!(last.1, b.num_prey());
    assert_eq!(last.2, b.num_empty());
    assert_eq!(b.on_turn, Field::Predator);
}

#[test]
fn construction_randomness_covers_positions() {
    // over many constructions every grid position must be seen holding each
    // species: a fixed placement would fail this
    let mut predator_seen = [0usize; 4];
    let mut prey_seen = [0usize; 4];
    for _ in 0..400 {
        let b = Board::new((2, 2), 1, 1);
        for i in 0..4 {
            match b.fields[i] {
                Some(Field::Predator) => predator_seen[i] += 1,
                Some(Field::Prey) => prey_seen[i] += 1,
                None => {}
            }
        }
    }
    for i in 0..4 {
        // each position is the predator's with probability 1/4: far more
        // than 20 hits in 400 draws, a loose floor that cannot flake
        assert!(predator_seen[i] >= 20, "position {} rarely holds a predator", i);
        assert!(prey_seen[i] >= 20, "position {} rarely holds prey", i);
    }
}

#[test]
fn set_field_updates_cell_and_counters() {
    let cells = empty_grid(4);
    let mut b = Board::from_cells((2, 2), cells, Field::Predator);
    b.set_field((0, 1), Some(Field::Prey));
    assert_eq!(*b.get_field((0, 1)), Some(Field::Prey));
    assert_eq!(b.num_prey(), 1);
    b.set_field((0, 1), Some(Field::Predator));
    assert_eq!(b.num_prey(), 0);
    assert_eq!(b.num_predators(), 1);
    b.set_index(2, None);
    assert_eq!(b.num_predators(), 0);
    assert_eq!(b.num_empty(), 4);
}

#[test]
fn position_index_is_row_major() {
    let b = Board::from_cells((3, 2), empty_grid(6), Field::Predator);
    assert_eq!(b.position_index((0, 0)), 0);
    assert_eq!(b.position_index((2, 0)), 2);
    assert_eq!(b.position_index((0, 1)), 3);
    assert_eq!(b.position_index((2, 1)), 5);
}

#[test]
fn render_shows_grid() {
    let mut cells = empty_grid(4);
    cells[0] = Some(Field::Predator);
    cells[2] = Some(Field::Prey);
    let b = Board::from_cells((2, 2), cells, Field::Predator);
    assert_eq!(b.render(), "R . \nB . \n");
}

#[test]
fn render_single_cell() {
    let mut cells = empty_grid(1);
    cells[0] = Some(Field::Prey);
    let b = Board::from_cells((1, 1), cells, Field::Predator);
    assert_eq!(b.render(), "B \n");
}

#[test]
fn symbols_match_rendering() {
    assert_eq!(symbol(Some(Field::Predator)), 'R');
    assert_eq!(symbol(Some(Field::Prey)), 'B');
    assert_eq!(symbol(None), '.');
}
