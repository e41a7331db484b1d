use lenia::life::{Cell, Universe};

#[test]
pub fn test_tick() {
    // Let's create a smaller Universe with a small spaceship to test!
    let mut input_universe = Universe::new(6, 6);
    input_universe.set_cells_alive(vec![(1, 2), (2, 3), (3, 1), (3, 2), (3, 3)]);

    // This is what our spaceship should look like
    // after one tick in our universe.
    let mut expected_universe = Universe::new(6, 6);
    expected_universe.set_cells_alive(vec![(2, 1), (2, 3), (3, 2), (3, 3), (4, 2)]);

    // Call `tick` and then see if the cells in the `Universe`s are the same.
    input_universe.tick();

    assert_eq!(&input_universe.get_cells(), &expected_universe.get_cells());
}

#[test]
fn test_blinker_oscillates() {
    let mut universe = Universe::new(5, 5);
    universe.set_cells_alive(vec![(2, 1), (2, 2), (2, 3)]);

    let mut vertical = Universe::new(5, 5);
    vertical.set_cells_alive(vec![(1, 2), (2, 2), (3, 2)]);

    universe.tick();
    assert_eq!(&universe.get_cells(), &vertical.get_cells());

    let mut horizontal = Universe::new(5, 5);
    horizontal.set_cells_alive(vec![(2, 1), (2, 2), (2, 3)]);
    universe.tick();
    assert_eq!(&universe.get_cells(), &horizontal.get_cells());
}

#[test]
fn test_toroidal_neighbor_count() {
    // On a 2x2 torus every cell sees the other three cells through
    // eight wrapped offsets, so a fully alive universe overcrowds and
    // dies in one tick.
    let mut universe = Universe::new(2, 2);
    universe.set_cells_alive(vec![(0, 0), (0, 1), (1, 0), (1, 1)]);
    universe.tick();
    assert_eq!(
        universe.get_cells(),
        &[Cell::Dead, Cell::Dead, Cell::Dead, Cell::Dead]
    );
}

#[test]
fn test_evolution_deterministic() {
    // Identical construction, identical seed, identical steps:
    // bit-identical grids.
    let mut first = Universe::new(6, 6);
    let mut second = Universe::new(6, 6);
    first.set_cells_alive(vec![(1, 2), (2, 3), (3, 1), (3, 2), (3, 3)]);
    second.set_cells_alive(vec![(1, 2), (2, 3), (3, 1), (3, 2), (3, 3)]);

    first.tick();
    first.tick();
    second.tick();
    second.tick();

    assert_eq!(&first.get_cells(), &second.get_cells());
    assert_eq!(first.width(), second.width());
    assert_eq!(first.height(), second.height());
}

#[test]
fn test_new_universe_is_dead() {
    let universe = Universe::new(3, 2);
    assert_eq!(universe.width(), 3);
    assert_eq!(universe.height(), 2);
    assert_eq!(universe.get_cells(), &[Cell::Dead; 6]);
}

#[test]
fn test_init_pattern() {
    let mut universe = Universe::new(3, 3);
    universe.init();
    let expected: Vec<Cell> = (0..9)
        .map(|i| {
            if i % 2 == 0 || i % 7 == 0 {
                Cell::Alive
            } else {
                Cell::Dead
            }
        })
        .collect();
    assert_eq!(universe.get_cells(), expected.as_slice());
}

#[test]
fn test_toggle() {
    let mut cell = Cell::Dead;
    cell.toggle();
    assert_eq!(cell, Cell::Alive);
    cell.toggle();
    assert_eq!(cell, Cell::Dead);
}

#[test]
fn test_toggle_cell() {
    let mut universe = Universe::new(2, 2);
    universe.toggle_cell(1, 0);
    assert_eq!(
        universe.get_cells(),
        &[Cell::Dead, Cell::Dead, Cell::Alive, Cell::Dead]
    );
    universe.toggle_cell(1, 0);
    assert_eq!(universe.get_cells(), &[Cell::Dead; 4]);
}

#[test]
fn test_render() {
    let mut universe = Universe::new(2, 2);
    universe.toggle_cell(0, 1);
    assert_eq!(universe.render(), "◻◼\n◻◻\n");
}
