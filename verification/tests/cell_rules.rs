use game_of_life::{wrapped_neighbor_values, Cell};

#[test]
fn alive_is_one_and_dead_is_zero() {
    assert_eq!(Cell::Alive.value(), 1);
    assert_eq!(Cell::Dead.value(), 0);
}

#[test]
fn live_cell_with_fewer_than_two_neighbors_dies() {
    assert_eq!(Cell::Alive.next(0), Cell::Dead);
    assert_eq!(Cell::Alive.next(1), Cell::Dead);
}

#[test]
fn live_cell_with_two_or_three_neighbors_survives() {
    assert_eq!(Cell::Alive.next(2), Cell::Alive);
    assert_eq!(Cell::Alive.next(3), Cell::Alive);
}

#[test]
fn live_cell_with_more_than_three_neighbors_dies() {
    for n in 4..=8u8 {
        assert_eq!(Cell::Alive.next(n), Cell::Dead);
    }
}

#[test]
fn dead_cell_with_exactly_three_neighbors_is_born() {
    assert_eq!(Cell::Dead.next(3), Cell::Alive);
}

#[test]
fn dead_cell_with_any_other_count_stays_dead() {
    for n in [0u8, 1, 2, 4, 5, 6, 7, 8] {
        assert_eq!(Cell::Dead.next(n), Cell::Dead);
    }
}

#[test]
fn glyphs_are_one_character_each_and_differ() {
    assert_eq!(Cell::Alive.symbol(), "\u{25FC}");
    assert_eq!(Cell::Dead.symbol(), "\u{25FB}");
    assert_eq!(Cell::Alive.symbol().chars().count(), 1);
    assert_eq!(Cell::Dead.symbol().chars().count(), 1);
    assert_ne!(Cell::Alive.symbol(), Cell::Dead.symbol());
}

#[test]
fn wrap_at_the_first_coordinate() {
    assert_eq!(wrapped_neighbor_values(0, 5), [4, 0, 1]);
    assert_eq!(wrapped_neighbor_values(0, 64), [63, 0, 1]);
}

#[test]
fn wrap_at_the_last_coordinate() {
    assert_eq!(wrapped_neighbor_values(4, 5), [3, 4, 0]);
    assert_eq!(wrapped_neighbor_values(63, 64), [62, 63, 0]);
}

#[test]
fn no_wrap_in_the_middle() {
    assert_eq!(wrapped_neighbor_values(2, 5), [1, 2, 3]);
    assert_eq!(wrapped_neighbor_values(1, 3), [0, 1, 2]);
}

#[test]
fn wrap_on_an_axis_of_two() {
    assert_eq!(wrapped_neighbor_values(0, 2), [1, 0, 1]);
    assert_eq!(wrapped_neighbor_values(1, 2), [0, 1, 0]);
}

#[test]
fn wrap_on_an_axis_of_one() {
    assert_eq!(wrapped_neighbor_values(0, 1), [0, 0, 0]);
}

#[test]
fn wrap_at_the_largest_size() {
    assert_eq!(wrapped_neighbor_values(0, u32::MAX), [u32::MAX - 1, 0, 1]);
    assert_eq!(
        wrapped_neighbor_values(u32::MAX - 1, u32::MAX),
        [u32::MAX - 2, u32::MAX - 1, 0]
    );
}

#[test]
fn wrapped_values_are_always_coordinates() {
    for size in 1..=6u32 {
        for val in 0..size {
            let triple = wrapped_neighbor_values(val, size);
            assert_eq!(triple[1], val);
            assert_eq!(triple[0], (val + size - 1) % size);
            assert_eq!(triple[2], (val + 1) % size);
        }
    }
}
