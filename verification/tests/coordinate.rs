use lenia::coordinate::{toroidal_point_translation, toroidal_translation, vector, Coordinate, Vector};

#[test]
fn test_toroidal_point_translation() {
    assert_eq!(toroidal_point_translation((0, 0), (1, 2), (10, 10)), (1, 2));
    assert_eq!(toroidal_point_translation((9, 0), (1, 0), (10, 10)), (0, 0));
    assert_eq!(toroidal_point_translation((3, 9), (0, 1), (10, 10)), (3, 0));
    assert_eq!(
        toroidal_point_translation((7, 8), (23, 12), (10, 10)),
        (0, 0)
    );
}

#[test]
fn test_vector() {
    let data = [
        // Test x axis
        (Coordinate(0, 0), Coordinate(1, 0), Vector(1, 0)),
        (Coordinate(1, 0), Coordinate(0, 0), Vector(-1, 0)),
        // Test y axis
        (Coordinate(0, 0), Coordinate(0, 1), Vector(0, 1)),
        (Coordinate(0, 1), Coordinate(0, 0), Vector(0, -1)),
        // Test x and y axis
        (Coordinate(0, 0), Coordinate(1, 1), Vector(1, 1)),
        (Coordinate(1, 1), Coordinate(0, 0), Vector(-1, -1)),
    ];

    data.iter().for_each(|(source, destination, result)| {
        assert_eq!(vector(&source, &destination), *result)
    });
}

#[test]
fn test_toroidal_translation() {
    let data = [
        // Test x toroidal translation within bounds
        (Coordinate(0, 0), Vector(1, 0), Coordinate(1, 0)),
        (Coordinate(1, 0), Vector(-1, 0), Coordinate(0, 0)),
        // Test x toroidal translation without bounds
        (Coordinate(0, 0), Vector(-1, 0), Coordinate(9, 0)),
        (Coordinate(9, 0), Vector(1, 0), Coordinate(0, 0)),
        (Coordinate(0, 0), Vector(10, 0), Coordinate(0, 0)),
        (Coordinate(0, 0), Vector(-10, 0), Coordinate(0, 0)),
        // Test y toroidal translation within bounds
        (Coordinate(0, 0), Vector(0, 1), Coordinate(0, 1)),
        (Coordinate(0, 1), Vector(0, -1), Coordinate(0, 0)),
        // Test y toroidal translation without bounds
        (Coordinate(0, 0), Vector(0, -1), Coordinate(0, 9)),
        (Coordinate(0, 9), Vector(0, 1), Coordinate(0, 0)),
        (Coordinate(0, 0), Vector(0, 10), Coordinate(0, 0)),
        (Coordinate(0, 0), Vector(0, -10), Coordinate(0, 0)),
    ];

    data.iter().for_each(|(point, vector, result)| {
        assert_eq!(toroidal_translation(&point, &vector, &10, &10), *result)
    });
}

#[test]
fn test_toroidal_translation_large_magnitudes() {
    // A vector far larger than the plan still lands in bounds, on the
    // cell the mathematical remainder names.
    let point = Coordinate(2, 3);
    assert_eq!(
        toroidal_translation(&point, &Vector(-25, 47), &10, &10),
        Coordinate(7, 0)
    );
    assert_eq!(
        toroidal_translation(&point, &Vector(-12, -13), &10, &10),
        Coordinate(0, 0)
    );
}
