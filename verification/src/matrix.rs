use vstd::prelude::*;

use crate::coordinate::Coordinate;
use vstd::string::StringExecFns;

verus! {

/// Simple 2 dimensions matrix struct: a dense, row-major container of
/// `width * height` cells.
#[derive(Debug, PartialEq, Clone)]
pub struct Matrix<T: Copy> {
    pub width: usize,
    pub height: usize,
    pub m: Vec<T>,
}

impl<T: Copy> View for Matrix<T> {
    type V = Seq<T>;

    open spec fn view(&self) -> Seq<T> {
        self.m@
    }
}

impl<T: Copy> Matrix<T> {
    /// The one shape invariant: the flat buffer holds exactly one value
    /// for each cell of the `width` by `height` rectangle.
    pub open spec fn wf(&self) -> bool {
        self.m@.len() == self.width * self.height
    }

    /// Instantiate a matrix of size `width` * `height` filled with the
    /// specified constant value
    pub fn from_constant(width: usize, height: usize, constant: T) -> (r: Self)
        requires
            width * height <= usize::MAX,
        ensures
            r.wf(),
            r.width == width,
            r.height == height,
            forall|i: int| 0 <= i < r@.len() ==> r@[i] == constant,
    {
        let size = width * height;
        let mut m: Vec<T> = Vec::new();
        let mut i: usize = 0;
        while i < size
            invariant
                i <= size,
                m@.len() == i,
                forall|j: int| 0 <= j < i ==> m@[j] == constant,
            decreases size - i,
        {
            m.push(constant);
            i = i + 1;
        }
        Self { width, height, m }
    }

    /// Instantiate a matrix of size `width` * `height` filled with the
    /// result of the specified closure
    ///
    /// Closure will be called with the coordinate of each matrix cell,
    /// visiting row-major.
    pub fn from_function<F: Fn(usize, usize) -> T>(width: usize, height: usize, f: F) -> (r: Self)
        requires
            width * height <= usize::MAX,
            forall|x: usize, y: usize| x < width && y < height ==> #[trigger] f.requires((x, y)),
        ensures
            r.wf(),
            r.width == width,
            r.height == height,
            forall|x: usize, y: usize|
                x < width && y < height ==> #[trigger] f.ensures(
                    (x, y),
                    r@[y as int * width as int + x as int],
                ),
    {
        let mut m: Vec<T> = Vec::new();
        let mut y: usize = 0;
        while y < height
            invariant
                y <= height,
                m@.len() == y * width,
                width * height <= usize::MAX,
                forall|x: usize, y: usize|
                    x < width && y < height ==> #[trigger] f.requires((x, y)),
                forall|i: int|
                    0 <= i < m@.len() ==> #[trigger] f.ensures(
                        ((i % (width as int)) as usize, (i / (width as int)) as usize),
                        m@[i],
                    ),
            decreases height - y,
        {
            let mut x: usize = 0;
            proof {
                vstd::arithmetic::mul::lemma_mul_inequality(y + 1, height as int, width as int);
                assert((y + 1) * width == y * width + width) by (nonlinear_arith);
            }
            while x < width
                invariant
                    x <= width,
                    y < height,
                    m@.len() == y * width + x,
                    y * width + width <= width * height <= usize::MAX,
                    forall|x: usize, y: usize|
                        x < width && y < height ==> #[trigger] f.requires((x, y)),
                    forall|i: int|
                        0 <= i < m@.len() ==> #[trigger] f.ensures(
                            ((i % (width as int)) as usize, (i / (width as int)) as usize),
                            m@[i],
                        ),
                decreases width - x,
            {
                m.push(f(x, y));
                proof {
                    let i0 = (y as int) * (width as int) + (x as int);
                    vstd::arithmetic::div_mod::lemma_fundamental_div_mod_converse_mod(
                        i0,
                        width as int,
                        y as int,
                        x as int,
                    );
                    vstd::arithmetic::div_mod::lemma_fundamental_div_mod_converse_div(
                        i0,
                        width as int,
                        y as int,
                        x as int,
                    );
                    assert(f.ensures(((i0 % (width as int)) as usize, (i0 / (width as int)) as usize), m@[i0]));
                }
                x = x + 1;
            }
            y = y + 1;
            proof {
                assert(m@.len() == y * width) by (nonlinear_arith)
                    requires
                        m@.len() == (y - 1) * width + width,
                ;
            }
        }
        proof {
            assert(height * width == width * height);
            assert forall|x: usize, y: usize| x < width && y < height implies #[trigger] f.ensures(
                (x, y),
                m@[y as int * width as int + x as int],
            ) by {
                let i0 = (y as int) * (width as int) + (x as int);
                lemma_row_major_index_in_range(width as int, height as int, x as int, y as int);
                vstd::arithmetic::div_mod::lemma_fundamental_div_mod_converse_mod(
                    i0,
                    width as int,
                    y as int,
                    x as int,
                );
                vstd::arithmetic::div_mod::lemma_fundamental_div_mod_converse_div(
                    i0,
                    width as int,
                    y as int,
                    x as int,
                );
                assert(f.ensures(((i0 % (width as int)) as usize, (i0 / (width as int)) as usize), m@[i0]));
            };
        }
        Self { width, height, m }
    }

    /// Instantiate a matrix from a flat buffer
    ///
    /// For the buffer to be a valid matrix:
    /// - each dimension must have a non null size
    /// - the buffer's length must equal `width * height`
    ///
    /// A mismatch fails the construction: it never truncates or pads.
    pub fn from_vec(data: Vec<T>, width: usize, height: usize) -> (r: Result<Self, String>)
        ensures
            height == 0 ==> (r matches Err(e) && e@ == "Matrix height can not be null"@),
            height > 0 && width == 0 ==> (r matches Err(e) && e@
                == "Matrix width can not be null"@),
            height > 0 && width > 0 && data@.len() != width * height ==> (r matches Err(e) && e@
                == "Data size does not match matrix size"@),
            height > 0 && width > 0 && data@.len() == width * height ==> (r matches Ok(mat)
                && mat.wf() && mat.width == width && mat.height == height && mat@ == data@),
    {
        if height == 0 {
            return Err(String::from_str("Matrix height can not be null"));
        }

        if width == 0 {
            return Err(String::from_str("Matrix width can not be null"));
        }

        let data_len = data.len();
        let matches_size = match width.checked_mul(height) {
            Some(size) => data_len == size,
            None => false,
        };
        if !matches_size {
            return Err(String::from_str("Data size does not match matrix size"));
        }

        Ok(Self { height, width, m: data })
    }

    /// Get the value of a matrix cell by coordinate
    pub fn get_by_coordinate(&self, coordinate: &Coordinate) -> (r: &T)
        requires
            self.wf(),
            coordinate.0 < self.width,
            coordinate.1 < self.height,
        ensures
            *r == self@[coordinate.1 * self.width + coordinate.0],
    {
        let index = self.coordinate_to_index(coordinate);
        &self.m[index]
    }

    /// Get the value of a matrix cell by index
    pub fn get_by_index(&self, index: usize) -> (r: &T)
        requires
            index < self@.len(),
        ensures
            *r == self@[index as int],
    {
        &self.m[index]
    }

    /// Replace the value of a matrix cell, leaving every other cell as
    /// it was
    pub fn set(&mut self, coordinate: &Coordinate, value: T)
        requires
            old(self).wf(),
            coordinate.0 < old(self).width,
            coordinate.1 < old(self).height,
        ensures
            final(self).wf(),
            final(self).width == old(self).width,
            final(self).height == old(self).height,
            final(self)@ == old(self)@.update(
                coordinate.1 * old(self).width + coordinate.0,
                value,
            ),
    {
        let index = self.coordinate_to_index(coordinate);
        self.m.set(index, value);
    }

    /// Turn an index into the equivalent coordinate for the current matrix
    pub fn index_to_coordinate(&self, index: usize) -> (r: Coordinate)
        requires
            self.width > 0,
        ensures
            r.0 == index as int % self.width as int,
            r.1 == index as int / self.width as int,
            r.0 < self.width,
    {
        let y = index / self.width;
        let x = index % self.width;

        Coordinate(x, y)
    }

    /// Turn a coordinate into the equivalent index for the current matrix
    pub fn coordinate_to_index(&self, coordinate: &Coordinate) -> (r: usize)
        requires
            self.wf(),
            coordinate.0 < self.width,
            coordinate.1 < self.height,
        ensures
            r == coordinate.1 * self.width + coordinate.0,
            r < self@.len(),
    {
        let Coordinate(x, y) = coordinate;
        proof {
            assert(self.m.len() <= usize::MAX);
            lemma_row_major_index_in_range(
                self.width as int,
                self.height as int,
                coordinate.0 as int,
                coordinate.1 as int,
            );
        }
        *y * self.width + *x
    }

    /// The matrix's cells as a flat row-major buffer, consuming the matrix
    pub fn into_iter(self) -> (r: Vec<T>)
        ensures
            r@ == self@,
    {
        self.m
    }

    /// The matrix's cells as a flat row-major buffer, borrowed
    pub fn iter(&self) -> (r: &Vec<T>)
        ensures
            r@ == self@,
    {
        &self.m
    }
}

/// A cell's row-major index lies inside the buffer of its matrix: with
/// `x < width` and `y < height`, `y * width + x < width * height`.
pub proof fn lemma_row_major_index_in_range(width: int, height: int, x: int, y: int)
    requires
        0 <= x < width,
        0 <= y < height,
    ensures
        0 <= y * width + x < width * height,
{
    vstd::arithmetic::mul::lemma_mul_inequality(y + 1, height, width);
    assert((y + 1) * width == y * width + width) by (nonlinear_arith);
    vstd::arithmetic::mul::lemma_mul_is_commutative(height, width);
    vstd::arithmetic::mul::lemma_mul_nonnegative(y, width);
}

} // verus!
