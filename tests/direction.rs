use micro_compass::direction::{
    EAST, NORTH, NORTH_EAST, NORTH_WEST, SOUTH, SOUTH_EAST, SOUTH_WEST, WEST,
};
use micro_compass::{calculate_direction, Direction};

fn sector(d: Direction) -> u32 {
    match d {
        Direction::North(_) => 0,
        Direction::NorthEast(_) => 1,
        Direction::East(_) => 2,
        Direction::SouthEast(_) => 3,
        Direction::South(_) => 4,
        Direction::SouthWest(_) => 5,
        Direction::West(_) => 6,
        Direction::NorthWest(_) => 7,
    }
}

#[test]
fn eight_headings_give_eight_directions() {
    assert_eq!(calculate_direction(0, -10), Direction::North(NORTH));
    assert_eq!(calculate_direction(10, -10), Direction::NorthEast(NORTH_EAST));
    assert_eq!(calculate_direction(10, 0), Direction::East(EAST));
    assert_eq!(calculate_direction(10, 10), Direction::SouthEast(SOUTH_EAST));
    assert_eq!(calculate_direction(0, 10), Direction::South(SOUTH));
    assert_eq!(calculate_direction(-10, 10), Direction::SouthWest(SOUTH_WEST));
    assert_eq!(calculate_direction(-10, 0), Direction::West(WEST));
    assert_eq!(calculate_direction(-10, -10), Direction::NorthWest(NORTH_WEST));
}

#[test]
fn positive_x_axis_is_east() {
    assert_eq!(calculate_direction(1, 0), Direction::East(EAST));
    assert_eq!(calculate_direction(5, 0), Direction::East(EAST));
    assert_eq!(calculate_direction(i32::MAX, 0), Direction::East(EAST));
}

#[test]
fn zero_vector_gives_east() {
    assert_eq!(calculate_direction(0, 0), Direction::East(EAST));
}

#[test]
fn extreme_samples_do_not_overflow() {
    assert_eq!(sector(calculate_direction(i32::MIN, i32::MIN)), 7);
    assert_eq!(sector(calculate_direction(i32::MAX, i32::MIN)), 1);
    assert_eq!(sector(calculate_direction(i32::MIN, i32::MAX)), 5);
    assert_eq!(sector(calculate_direction(i32::MAX, i32::MAX)), 3);
    assert_eq!(sector(calculate_direction(0, i32::MIN)), 0);
    assert_eq!(sector(calculate_direction(i32::MIN, 0)), 6);
}

#[test]
fn samples_either_side_of_a_boundary() {
    // The North/NorthEast boundary lies at a compass angle of 22.5°, where
    // y / x = -(1 + √2) = -2.41421...
    assert_eq!(sector(calculate_direction(1000, -2414)), 1);
    assert_eq!(sector(calculate_direction(1000, -2415)), 0);
    // The East/SouthEast boundary lies at 112.5°, where y / x = √2 - 1.
    assert_eq!(sector(calculate_direction(10000, 4142)), 2);
    assert_eq!(sector(calculate_direction(10000, 4143)), 3);
}

#[test]
fn sweep_changes_sector_eight_times_in_equal_bands() {
    let radius = 1_000_000.0_f64;
    let mut changes = 0;
    let mut counts = [0u32; 8];
    let mut last = sector(calculate_direction(0, -1_000_000));
    for tenth in 0..3600 {
        let compass = tenth as f64 / 10.0 + 0.05;
        let phi = (compass - 90.0).to_radians();
        let x = (radius * phi.cos()).round() as i32;
        let y = (radius * phi.sin()).round() as i32;
        let got = sector(calculate_direction(x, y));
        let expected = (((compass + 22.5) / 45.0).floor() as u32) % 8;
        assert_eq!(got, expected, "compass angle {}", compass);
        if got != last {
            changes += 1;
        }
        last = got;
        counts[got as usize] += 1;
    }
    assert_eq!(changes, 8);
    assert_eq!(counts, [450; 8]);
}

#[test]
fn scaling_keeps_the_direction() {
    for &(x, y) in &[(3, -7), (-5, 2), (1, 1), (9, 0), (-4, -13)] {
        for s in 1..50 {
            assert_eq!(calculate_direction(s * x, s * y), calculate_direction(x, y));
        }
    }
}

#[test]
fn turning_by_45_degrees_advances_one_sector() {
    for &(x, y) in &[(3, -7), (-5, 2), (1, 1), (9, 0), (-4, -13), (100, -241)] {
        let a = sector(calculate_direction(x, y));
        let b = sector(calculate_direction(x - y, x + y));
        assert_eq!(b, (a + 1) % 8);
    }
}

#[test]
fn glyph_is_carried_by_the_direction() {
    assert_eq!(calculate_direction(0, -3).glyph(), NORTH);
    assert_eq!(calculate_direction(-3, 0).glyph(), WEST);
    assert!(calculate_direction(0, -3).is_north());
    assert!(!calculate_direction(3, 0).is_north());
}
