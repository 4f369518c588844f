use scanlined::grid::position::GridPosition;
use std::cmp::Ordering;

#[test]
fn pack_is_row_major() {
    assert_eq!(GridPosition::pack(17, 0, 0), 0);
    assert_eq!(GridPosition::pack(17, 5, 3), 56);
    assert_eq!(GridPosition::pack(17, 16, 10), 186);
    assert_eq!(GridPosition::pack(3, 2, 1), 5);
}

#[test]
fn pack_takes_any_integers_that_fit() {
    assert_eq!(GridPosition::pack(17, -1, 0), -1);
    assert_eq!(GridPosition::pack(-4, 3, 2), -5);
    assert_eq!(GridPosition::pack(0, 7, 1000), 7);
}

#[test]
fn new_packs_the_coordinates_and_keeps_the_dimensions() {
    let pos = GridPosition::new(17, 11, 8, 5);
    assert_eq!(pos, GridPosition { width: 17, height: 11, packed: 93 });
    let last = GridPosition::new(17, 11, 16, 10);
    assert_eq!(last.packed, 17 * 11 - 1);
}

#[test]
fn row_major_split_recovers_every_cell() {
    for (width, height) in [(17, 11), (11, 17), (1, 1), (1, 9), (9, 1), (4, 4)] {
        for y in 0..height {
            for x in 0..width {
                let packed = GridPosition::pack(width, x, y);
                assert!(0 <= packed && packed < width * height);
                assert_eq!(packed % width, x);
                assert_eq!(packed / width, y);
            }
        }
    }
}

#[test]
fn unpack_divides_by_width_and_reduces_by_height() {
    assert_eq!(GridPosition::unpack(17, 11, 56), (3, 1));
    assert_eq!(GridPosition::unpack(17, 11, 0), (0, 0));
    assert_eq!(GridPosition::unpack(17, 11, 186), (10, 10));
    assert_eq!(GridPosition::unpack(17, 11, 93), (5, 5));
}

#[test]
fn unpack_is_not_the_inverse_of_pack() {
    let packed = GridPosition::pack(17, 5, 3);
    assert_eq!(packed, 56);
    assert_eq!((packed % 17, packed / 17), (5, 3));
    assert_eq!(GridPosition::unpack(17, 11, packed), (3, 1));
    assert_ne!(GridPosition::unpack(17, 11, packed), (5, 3));
}

#[test]
fn unpack_of_pack_gives_the_row_first() {
    for y in 0..11 {
        for x in 0..17 {
            let packed = GridPosition::pack(17, x, y);
            assert_eq!(GridPosition::unpack(17, 11, packed), (y, packed % 11));
        }
    }
}

#[test]
fn unpack_on_a_square_grid_exchanges_the_coordinates() {
    for y in 0..4 {
        for x in 0..4 {
            let packed = GridPosition::pack(4, x, y);
            assert_eq!(GridPosition::unpack(4, 4, packed), (y, x));
        }
    }
}

#[test]
fn unpack_rounds_toward_zero() {
    assert_eq!(GridPosition::unpack(17, 11, -56), (-3, -1));
    assert_eq!(GridPosition::unpack(-17, 11, 56), (-3, 1));
    assert_eq!(GridPosition::unpack(17, -11, -56), (-3, -1));
    assert_eq!(GridPosition::unpack(2, 3, i32::MIN), (-1073741824, -2));
    assert_eq!(GridPosition::unpack(-2, -3, i32::MAX), (-1073741823, 1));
}

#[test]
fn unpacked_is_unpack_of_the_fields() {
    let pos = GridPosition::new(17, 11, 5, 3);
    assert_eq!(pos.unpacked(), (3, 1));
    assert_eq!(pos.unpacked(), GridPosition::unpack(pos.width, pos.height, pos.packed));
    let raw = GridPosition { width: 5, height: 7, packed: -23 };
    assert_eq!(raw.unpacked(), (-4, -2));
}

#[test]
fn replace_overwrites_the_index_only() {
    let mut pos = GridPosition::new(17, 11, 5, 3);
    pos.replace(7);
    assert_eq!(pos, GridPosition { width: 17, height: 11, packed: 7 });
    pos.replace(-1);
    assert_eq!(pos, GridPosition { width: 17, height: 11, packed: -1 });
}

#[test]
fn replace_coords_packs_with_the_own_width() {
    let mut pos = GridPosition::new(17, 11, 0, 0);
    pos.replace_coords(5, 3);
    assert_eq!(pos, GridPosition { width: 17, height: 11, packed: 56 });
    let mut narrow = GridPosition { width: 3, height: 100, packed: 0 };
    narrow.replace_coords(2, 4);
    assert_eq!(narrow.packed, 14);
}

#[test]
fn normalised_divides_by_one_row_more_than_the_grid_holds() {
    assert_eq!(GridPosition::new(17, 11, 0, 0).normalised::<f64>(), 0.0);
    assert_eq!(GridPosition::new(17, 11, 1, 0).normalised::<f64>(), 1.0 / 204.0);
    assert_eq!(GridPosition::new(17, 11, 8, 5).normalised::<f64>(), 93.0 / 204.0);
    assert_eq!(GridPosition::new(17, 11, 16, 10).normalised::<f64>(), 186.0 / 204.0);
    assert_ne!(GridPosition::new(17, 11, 16, 10).normalised::<f64>(), 186.0 / 187.0);
    assert_eq!(GridPosition::new(3, 2, 2, 1).normalised::<f64>(), 5.0 / 9.0);
    assert_eq!(GridPosition::new(4, 1, 2, 0).normalised::<f64>(), 0.25);
}

#[test]
fn normalised_of_a_valid_position_is_below_one() {
    for y in 0..11 {
        for x in 0..17 {
            let value: f64 = GridPosition::new(17, 11, x, y).normalised();
            assert!((0.0..1.0).contains(&value));
            assert!(value < 11.0 / 12.0);
        }
    }
}

#[test]
fn normalised_in_integers_is_the_integer_quotient() {
    assert_eq!(GridPosition::new(17, 11, 16, 10).normalised::<i64>(), 0);
    assert_eq!(GridPosition { width: 2, height: 1, packed: 9 }.normalised::<i64>(), 2);
    assert_eq!(GridPosition { width: 2, height: 1, packed: -9 }.normalised::<i64>(), -2);
    assert_eq!(GridPosition { width: 2, height: 1, packed: 9 }.normalised::<i32>(), 2);
}

#[test]
fn normalised_on_a_grid_without_columns_is_no_finite_number() {
    let origin = GridPosition { width: 0, height: 11, packed: 0 };
    assert!(origin.normalised::<f64>().is_nan());
    let elsewhere = GridPosition { width: 0, height: 11, packed: 5 };
    assert_eq!(elsewhere.normalised::<f64>(), f64::INFINITY);
}

#[test]
fn positions_of_one_grid_are_ordered_by_index() {
    let early = GridPosition::new(17, 11, 16, 0);
    let late = GridPosition::new(17, 11, 0, 1);
    assert!(early < late);
    assert!(late > early);
    assert!(early <= early);
    assert_eq!(early.partial_cmp(&late), Some(Ordering::Less));
    assert_eq!(late.partial_cmp(&early), Some(Ordering::Greater));
    assert_eq!(early.partial_cmp(&early), Some(Ordering::Equal));
}

#[test]
fn positions_of_different_grids_are_ordered_by_dimensions_first() {
    let narrow = GridPosition { width: 3, height: 50, packed: 100 };
    let wide = GridPosition { width: 4, height: 2, packed: 0 };
    assert_eq!(narrow.partial_cmp(&wide), Some(Ordering::Less));
    let low = GridPosition { width: 4, height: 2, packed: 7 };
    let high = GridPosition { width: 4, height: 3, packed: 0 };
    assert_eq!(low.partial_cmp(&high), Some(Ordering::Less));
    assert_eq!(high.partial_cmp(&low), Some(Ordering::Greater));
}

#[test]
fn sorting_positions_of_one_grid_gives_scan_order() {
    let mut cells = vec![
        GridPosition::new(17, 11, 3, 2),
        GridPosition::new(17, 11, 16, 0),
        GridPosition::new(17, 11, 0, 0),
        GridPosition::new(17, 11, 0, 1),
    ];
    cells.sort();
    let indices: Vec<i32> = cells.iter().map(|cell| cell.packed).collect();
    assert_eq!(indices, vec![0, 16, 17, 37]);
    for pair in cells.windows(2) {
        assert_eq!(pair[0].partial_cmp(&pair[1]), Some(pair[0].cmp(&pair[1])));
    }
}

#[test]
fn the_comparison_agrees_with_the_total_order() {
    let samples = [
        GridPosition { width: 3, height: 50, packed: 100 },
        GridPosition { width: 4, height: 2, packed: 0 },
        GridPosition { width: 4, height: 2, packed: 7 },
        GridPosition { width: 4, height: 3, packed: 0 },
        GridPosition { width: -1, height: 9, packed: 5 },
    ];
    for a in samples {
        for b in samples {
            assert_eq!(a.partial_cmp(&b), Some(a.cmp(&b)));
        }
    }
}

#[test]
fn positions_are_equal_when_all_fields_are() {
    let a = GridPosition::new(17, 11, 5, 3);
    let b = GridPosition { width: 17, height: 11, packed: 56 };
    assert_eq!(a, b);
    assert_ne!(a, GridPosition { width: 11, height: 17, packed: 56 });
}
