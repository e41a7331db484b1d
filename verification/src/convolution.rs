use vstd::prelude::*;

use crate::coordinate::{toroidal_translation, vector, Coordinate};
use crate::matrix::{lemma_row_major_index_in_range, Matrix};

verus! {

/// The index of the kernel's center cell along either axis: for an odd
/// side `2 * radius + 1` this is the exact middle, `radius`.
pub open spec fn spec_kernel_center(kernel: Matrix<i64>) -> int {
    kernel.height as int / 2
}

/// The row-major index of the grid cell sampled for kernel cell `k`:
/// the point translated by the kernel cell's offset from the kernel's
/// center, wrapped toroidally onto the grid.
pub open spec fn spec_sample_index(
    point: Coordinate,
    matrix: Matrix<i64>,
    kernel: Matrix<i64>,
    k: int,
) -> int {
    let center = spec_kernel_center(kernel);
    let kernel_x = k % kernel.width as int;
    let kernel_y = k / kernel.width as int;
    let grid_x = (point.0 + kernel_x - center) % matrix.width as int;
    let grid_y = (point.1 + kernel_y - center) % matrix.height as int;
    grid_y * matrix.width + grid_x
}

/// The weighted sum over the first `n` kernel cells: each kernel weight
/// times the grid value at the cell it samples.
pub open spec fn spec_convolute_prefix(
    point: Coordinate,
    matrix: Matrix<i64>,
    kernel: Matrix<i64>,
    n: int,
) -> int
    decreases n,
{
    if n <= 0 {
        0
    } else {
        spec_convolute_prefix(point, matrix, kernel, n - 1) + kernel@[n - 1] * matrix@[
            spec_sample_index(point, matrix, kernel, n - 1)
        ]
    }
}

/// The convolution of the grid with the kernel at one point: the
/// weighted sum over all kernel cells.
pub open spec fn spec_convolute(point: Coordinate, matrix: Matrix<i64>, kernel: Matrix<i64>) -> int {
    spec_convolute_prefix(point, matrix, kernel, kernel@.len() as int)
}

/// Convolution of `matrix` with `kernel` at `point`: for every kernel
/// cell, the vector from the kernel's center to that cell translates
/// `point` toroidally onto the grid, and the kernel weight times the
/// grid value found there is accumulated.
///
/// The two quantified `requires` are machine limits only: every partial
/// sum and every product along the accumulation must fit in an `i64`.
#[verifier::loop_isolation(false)]
pub fn convolute(point: &Coordinate, matrix: &Matrix<i64>, kernel: &Matrix<i64>) -> (r: i64)
    requires
        matrix.wf(),
        kernel.wf(),
        0 < matrix.width,
        0 < matrix.height,
        matrix.width + kernel.width <= isize::MAX,
        matrix.height + kernel.height <= isize::MAX,
        kernel.width == kernel.height,
        0 < kernel.width,
        point.0 < matrix.width,
        point.1 < matrix.height,
        forall|n: int|
            0 <= n <= kernel@.len() ==> i64::MIN <= #[trigger] spec_convolute_prefix(
                *point,
                *matrix,
                *kernel,
                n,
            ) <= i64::MAX,
        forall|k: int|
            0 <= k < kernel@.len() ==> i64::MIN <= #[trigger] (kernel@[k] * matrix@[
                spec_sample_index(*point, *matrix, *kernel, k)
            ]) <= i64::MAX,
    ensures
        r == spec_convolute(*point, *matrix, *kernel),
{
    let kernel_center = kernel.height / 2;
    let center_coordinate = Coordinate(kernel_center, kernel_center);
    let kernel_size = kernel.m.len();

    let mut result: i64 = 0;
    let mut k: usize = 0;
    while k < kernel_size
        invariant
            k <= kernel_size,
            result == spec_convolute_prefix(*point, *matrix, *kernel, k as int),
        decreases kernel_size - k,
    {
        let kernel_coordinate = kernel.index_to_coordinate(k);
        proof {
            vstd::arithmetic::div_mod::lemma_multiply_divide_lt(
                k as int,
                kernel.width as int,
                kernel.height as int,
            );
            vstd::arithmetic::mul::lemma_mul_is_commutative(
                kernel.width as int,
                kernel.height as int,
            );
        }
        let kernel_vector = vector(&center_coordinate, &kernel_coordinate);
        let neighbor_coordinate = toroidal_translation(
            point,
            &kernel_vector,
            &matrix.width,
            &matrix.height,
        );
        proof {
            lemma_row_major_index_in_range(
                matrix.width as int,
                matrix.height as int,
                neighbor_coordinate.0 as int,
                neighbor_coordinate.1 as int,
            );
            assert(neighbor_coordinate.1 * matrix.width + neighbor_coordinate.0
                == spec_sample_index(*point, *matrix, *kernel, k as int));
        }
        let kernel_coefficient = *kernel.get_by_index(k);
        let neighbor_value = *matrix.get_by_coordinate(&neighbor_coordinate);

        proof {
            assert(i64::MIN <= kernel@[k as int] * matrix@[
                spec_sample_index(*point, *matrix, *kernel, k as int)
            ] <= i64::MAX);
            assert(i64::MIN <= spec_convolute_prefix(*point, *matrix, *kernel, k + 1)
                <= i64::MAX);
        }
        result = result + kernel_coefficient * neighbor_value;
        k = k + 1;
    }
    result
}

/// The squared Euclidean distance between `(x, y)` and `(cx, cy)`.
pub open spec fn spec_squared_distance(x: int, y: int, cx: int, cy: int) -> int {
    (x - cx) * (x - cx) + (y - cy) * (y - cy)
}

/// The shape `squared_distance_kernel` builds: a square table of side
/// `2 * radius + 1` whose cell `(x, y)` holds the squared Euclidean
/// distance from the center cell `(radius, radius)`.
pub open spec fn is_squared_distance_kernel(m: Matrix<u64>, radius: int) -> bool {
    &&& m.wf()
    &&& m.width == 2 * radius + 1
    &&& m.height == 2 * radius + 1
    &&& forall|x: int, y: int|
        0 <= x < m.width && 0 <= y < m.height ==> m@[y * m.width + x]
            == #[trigger] spec_squared_distance(x, y, radius, radius)
}

/// The geometry under a radial kernel: a square table of odd side
/// `2 * radius + 1`, so the center cell `(radius, radius)` is exact,
/// holding each cell's squared Euclidean distance from that center.
/// The distance itself, cut-off-normalized by the radius, is the square
/// root of a cell over the radius; only that last step leaves the
/// integers.
pub fn squared_distance_kernel(radius: usize) -> (r: Matrix<u64>)
    requires
        (2 * radius + 1) * (2 * radius + 1) <= usize::MAX,
    ensures
        is_squared_distance_kernel(r, radius as int),
{
    proof {
        assert(2 * radius + 1 < 0x1_0000_0000) by (nonlinear_arith)
            requires
                (2 * radius + 1) * (2 * radius + 1) <= usize::MAX,
                usize::MAX <= 0xffff_ffff_ffff_ffff,
        ;
    }
    let diameter = 2 * radius + 1;
    let cell_squared_distance = |x: usize, y: usize| -> (d: u64)
            requires
                x < 2 * radius + 1,
                y < 2 * radius + 1,
                2 * radius + 1 < 0x1_0000_0000,
            ensures
                d == spec_squared_distance(x as int, y as int, radius as int, radius as int)
            {
                let dx = if x >= radius {
                    x - radius
                } else {
                    radius - x
                };
                let dy = if y >= radius {
                    y - radius
                } else {
                    radius - y
                };
                proof {
                    assert((dx as int) * (dx as int) + (dy as int) * (dy as int) <= u64::MAX
                        && (dx as int) * (dx as int) == (x - radius) * (x - radius)
                        && (dy as int) * (dy as int) == (y - radius) * (y - radius))
                        by (nonlinear_arith)
                        requires
                            dx <= radius || dx <= x,
                            dy <= radius || dy <= y,
                            x < 2 * radius + 1,
                            y < 2 * radius + 1,
                            2 * radius + 1 < 0x1_0000_0000,
                            dx == if x >= radius {
                                x - radius
                            } else {
                                radius - x
                            },
                            dy == if y >= radius {
                                y - radius
                            } else {
                                radius - y
                            },
                    ;
                }
                (dx as u64) * (dx as u64) + (dy as u64) * (dy as u64)
            };
    let kernel = Matrix::from_function(diameter, diameter, cell_squared_distance);
    proof {
        assert forall|x: int, y: int|
            0 <= x < kernel.width && 0 <= y < kernel.height implies kernel@[y * kernel.width + x]
            == #[trigger] spec_squared_distance(x, y, radius as int, radius as int) by {
            assert(cell_squared_distance.ensures(
                (x as usize, y as usize),
                kernel@[y * kernel.width + x],
            ));
        };
    }
    kernel
}

/// Toroidal wraparound: translating a position past either edge of a
/// periodic axis of length `size` lands on the opposite edge, and a
/// translation that stays inside the axis is untouched. Convolution
/// samples its neighbors through exactly this remainder (see
/// `spec_sample_index`), so a kernel reaching past the boundary reads
/// the opposite side of the grid.
pub proof fn lemma_toroidal_wraparound(position: int, offset: int, size: int)
    requires
        0 < size,
        0 <= position < size,
    ensures
        -size <= position + offset < 0 ==> (position + offset) % size == position + offset + size,
        size <= position + offset < 2 * size ==> (position + offset) % size == position + offset
            - size,
        0 <= position + offset < size ==> (position + offset) % size == position + offset,
{
    let target = position + offset;
    if -size <= target < 0 {
        assert(target == (-1) * size + (target + size));
        vstd::arithmetic::div_mod::lemma_fundamental_div_mod_converse_mod(
            target,
            size,
            -1,
            target + size,
        );
    } else if size <= target < 2 * size {
        assert(target == 1 * size + (target - size));
        vstd::arithmetic::div_mod::lemma_fundamental_div_mod_converse_mod(
            target,
            size,
            1,
            target - size,
        );
    } else if 0 <= target < size {
        assert(target == 0 * size + target);
        vstd::arithmetic::div_mod::lemma_fundamental_div_mod_converse_mod(target, size, 0, target);
    }
}

/// The no-op kernel: a kernel holding `1` at its exact center and `0`
/// everywhere else returns every grid cell unchanged, whatever the
/// grid. This pins the center/offset bookkeeping: the one surviving
/// term of the sum is the sample at offset zero, the point itself.
pub proof fn lemma_identity_kernel(point: Coordinate, matrix: Matrix<i64>, kernel: Matrix<i64>)
    requires
        matrix.wf(),
        kernel.wf(),
        0 < matrix.width,
        0 < matrix.height,
        kernel.width == kernel.height,
        kernel.width % 2 == 1,
        point.0 < matrix.width,
        point.1 < matrix.height,
        kernel@[spec_kernel_center(kernel) * kernel.width + spec_kernel_center(kernel)] == 1,
        forall|k: int|
            0 <= k < kernel@.len() && k != spec_kernel_center(kernel) * kernel.width
                + spec_kernel_center(kernel) ==> kernel@[k] == 0,
    ensures
        spec_convolute(point, matrix, kernel) == matrix@[point.1 * matrix.width + point.0],
{
    lemma_identity_kernel_prefix(point, matrix, kernel, kernel@.len() as int);
    lemma_row_major_index_in_range(
        kernel.width as int,
        kernel.height as int,
        spec_kernel_center(kernel),
        spec_kernel_center(kernel),
    );
}

/// The weighted sum over the first `n` cells of an identity kernel:
/// zero until the center cell has been passed, the point's own value
/// afterwards.
proof fn lemma_identity_kernel_prefix(
    point: Coordinate,
    matrix: Matrix<i64>,
    kernel: Matrix<i64>,
    n: int,
)
    requires
        matrix.wf(),
        kernel.wf(),
        0 < matrix.width,
        0 < matrix.height,
        kernel.width == kernel.height,
        kernel.width % 2 == 1,
        point.0 < matrix.width,
        point.1 < matrix.height,
        kernel@[spec_kernel_center(kernel) * kernel.width + spec_kernel_center(kernel)] == 1,
        forall|k: int|
            0 <= k < kernel@.len() && k != spec_kernel_center(kernel) * kernel.width
                + spec_kernel_center(kernel) ==> kernel@[k] == 0,
        0 <= n <= kernel@.len(),
    ensures
        spec_convolute_prefix(point, matrix, kernel, n) == if n > spec_kernel_center(kernel)
            * kernel.width + spec_kernel_center(kernel) {
            matrix@[point.1 * matrix.width + point.0]
        } else {
            0
        },
    decreases n,
{
    let center = spec_kernel_center(kernel);
    let center_index = center * kernel.width + center;
    lemma_row_major_index_in_range(
        kernel.width as int,
        kernel.height as int,
        center,
        center,
    );
    if n > 0 {
        lemma_identity_kernel_prefix(point, matrix, kernel, n - 1);
        if n - 1 == center_index {
            vstd::arithmetic::div_mod::lemma_fundamental_div_mod_converse_mod(
                center_index,
                kernel.width as int,
                center,
                center,
            );
            vstd::arithmetic::div_mod::lemma_fundamental_div_mod_converse_div(
                center_index,
                kernel.width as int,
                center,
                center,
            );
            vstd::arithmetic::div_mod::lemma_small_mod(point.0 as nat, matrix.width as nat);
            vstd::arithmetic::div_mod::lemma_small_mod(point.1 as nat, matrix.height as nat);
            assert(spec_sample_index(point, matrix, kernel, n - 1) == point.1 * matrix.width
                + point.0);
        }
    }
}

/// The distance table is symmetric about its center row and its center
/// column, and exactly zero at the center: mirroring a cell across
/// either axis of the center leaves its squared distance unchanged.
pub proof fn lemma_squared_distance_kernel_symmetric(m: Matrix<u64>, radius: int, x: int, y: int)
    requires
        is_squared_distance_kernel(m, radius),
        0 <= radius,
        0 <= x < m.width,
        0 <= y < m.height,
    ensures
        m@[y * m.width + x] == m@[y * m.width + (2 * radius - x)],
        m@[y * m.width + x] == m@[(2 * radius - y) * m.width + x],
        m@[radius * m.width + radius] == 0,
{
    assert(m@[y * m.width + x] == spec_squared_distance(x, y, radius, radius));
    assert(m@[y * m.width + (2 * radius - x)] == spec_squared_distance(
        2 * radius - x,
        y,
        radius,
        radius,
    ));
    assert(m@[(2 * radius - y) * m.width + x] == spec_squared_distance(
        x,
        2 * radius - y,
        radius,
        radius,
    ));
    assert(m@[radius * m.width + radius] == spec_squared_distance(radius, radius, radius, radius));
    assert(spec_squared_distance(x, y, radius, radius) == spec_squared_distance(
        2 * radius - x,
        y,
        radius,
        radius,
    )) by (nonlinear_arith);
    assert(spec_squared_distance(x, y, radius, radius) == spec_squared_distance(
        x,
        2 * radius - y,
        radius,
        radius,
    )) by (nonlinear_arith);
}

/// Kernel construction is a function of the radius alone: any two
/// tables of the `squared_distance_kernel` shape for one radius agree
/// cell for cell.
pub proof fn lemma_squared_distance_kernel_deterministic(a: Matrix<u64>, b: Matrix<u64>, radius: int)
    requires
        is_squared_distance_kernel(a, radius),
        is_squared_distance_kernel(b, radius),
        0 <= radius,
    ensures
        a.width == b.width,
        a.height == b.height,
        a@ == b@,
{
    assert forall|i: int| 0 <= i < a@.len() implies a@[i] == b@[i] by {
        let w = a.width as int;
        let x = i % w;
        let y = i / w;
        vstd::arithmetic::div_mod::lemma_fundamental_div_mod(i, w);
        vstd::arithmetic::div_mod::lemma_multiply_divide_lt(i, w, a.height as int);
        vstd::arithmetic::mul::lemma_mul_is_commutative(w, a.height as int);
        assert(a@[y * w + x] == spec_squared_distance(x, y, radius, radius));
        assert(b@[y * w + x] == spec_squared_distance(x, y, radius, radius));
    };
    assert(a@ =~= b@);
}

} // verus!
