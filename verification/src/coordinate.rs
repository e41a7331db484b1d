use vstd::prelude::*;

verus! {

/// Represents coordinates of a point in a plan.
/// Coordinates can not be negative.
#[derive(Debug, Clone, Copy, PartialEq, Eq, Structural)]
pub struct Coordinate(pub usize, pub usize);

/// Represents a 2 dimension vector. Its components can be negative.
#[derive(Debug, Clone, Copy, PartialEq, Eq, Structural)]
pub struct Vector(pub isize, pub isize);

/// Determine the vector to go from a source point to a destination point.
///
/// The subtraction is plain component-wise signed subtraction: no
/// wraparound is involved at this stage.
pub fn vector(source: &Coordinate, destination: &Coordinate) -> (r: Vector)
    requires
        source.0 <= isize::MAX,
        source.1 <= isize::MAX,
        destination.0 <= isize::MAX,
        destination.1 <= isize::MAX,
    ensures
        r.0 == destination.0 - source.0,
        r.1 == destination.1 - source.1,
{
    let Coordinate(source_x, source_y) = source;
    let Coordinate(destination_x, destination_y) = destination;

    Vector(
        *destination_x as isize - *source_x as isize,
        *destination_y as isize - *source_y as isize,
    )
}

/// Apply a translation of a point by a vector in a toroidal (periodic)
/// plan: each component of the result is the mathematical (always
/// non-negative) remainder of `point + vector` modulo the plan size,
/// however large or negative the vector is.
pub fn toroidal_translation(
    point: &Coordinate,
    vector: &Vector,
    plan_width: &usize,
    plan_height: &usize,
) -> (r: Coordinate)
    requires
        0 < *plan_width <= isize::MAX,
        0 < *plan_height <= isize::MAX,
        point.0 + vector.0 <= isize::MAX,
        point.1 + vector.1 <= isize::MAX,
        point.0 <= isize::MAX,
        point.1 <= isize::MAX,
    ensures
        r.0 == (point.0 + vector.0) % (*plan_width as int),
        r.1 == (point.1 + vector.1) % (*plan_height as int),
        r.0 < *plan_width,
        r.1 < *plan_height,
{
    let width = *plan_width as isize;
    let height = *plan_height as isize;

    let result_x = euclidean_remainder(point.0 as isize + vector.0, width);
    let result_y = euclidean_remainder(point.1 as isize + vector.1, height);

    Coordinate(result_x as usize, result_y as usize)
}

/// Apply a translation of a point by a non-negative vector in a
/// toroidal (periodic) plan given as bare pairs: each component of the
/// result is the remainder of `point + vector` modulo the plan size.
pub fn toroidal_point_translation(
    point: (usize, usize),
    vector: (usize, usize),
    plan_dimension: (usize, usize),
) -> (r: (usize, usize))
    requires
        0 < plan_dimension.0,
        0 < plan_dimension.1,
        point.0 + vector.0 <= usize::MAX,
        point.1 + vector.1 <= usize::MAX,
    ensures
        r.0 == (point.0 + vector.0) % (plan_dimension.0 as int),
        r.1 == (point.1 + vector.1) % (plan_dimension.1 as int),
        r.0 < plan_dimension.0,
        r.1 < plan_dimension.1,
{
    let (point_x, point_y) = point;
    let (vector_x, vector_y) = vector;
    let (plan_width, plan_height) = plan_dimension;

    ((point_x + vector_x) % plan_width, (point_y + vector_y) % plan_height)
}

/// The mathematical remainder of `value` modulo `modulus`: always in
/// `[0, modulus)`, whatever the sign of `value`.
fn euclidean_remainder(value: isize, modulus: isize) -> (r: isize)
    requires
        0 < modulus,
    ensures
        r == (value as int) % (modulus as int),
        0 <= r < modulus,
{
    let rem = value % modulus;
    proof {
        let v = value as int;
        let m = modulus as int;
        let r = rem as int;
        if v < 0 {
            // Exec `%` truncates toward zero: r == -((-v) % m) here.
            vstd::arithmetic::div_mod::lemma_fundamental_div_mod(-v, m);
            let q = (-v) / m;
            assert(-v == m * q + ((-v) % m));
            assert((-v) % m == -r);
            assert(v == -(m * q) + r);
            assert((-q - 1) * m == -(m * q) - m) by (nonlinear_arith);
            assert((-q) * m == -(m * q)) by (nonlinear_arith);
            assert(v == (-q) * m + r);
            if r < 0 {
                assert(v == (-q - 1) * m + (r + m));
                vstd::arithmetic::div_mod::lemma_fundamental_div_mod_converse_mod(
                    v,
                    m,
                    -q - 1,
                    r + m,
                );
            } else {
                vstd::arithmetic::div_mod::lemma_fundamental_div_mod_converse_mod(v, m, -q, r);
            }
        }
    }
    if rem < 0 {
        rem + modulus
    } else {
        rem
    }
}

} // verus!
