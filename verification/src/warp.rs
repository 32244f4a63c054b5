//! The lattice the Colour Warper's grid views drag: a grid of vertices, each
//! holding a displacement, stored row by row. What a displacement is, and
//! how the lattice is sampled between vertices, is floating point and lives
//! elsewhere; the shape of the grid and which vertex is where is here.

use vstd::prelude::*;

verus! {

/// The largest grid either axis may have: the lattice travels to the GPU
/// inside the curve table, whose rows are 256 values wide.
pub const MAX_DIVISIONS: u32 = 16;

/// The grid the warper opens with, on both axes.
pub const DEFAULT_DIVISIONS: u32 = 6;

/// A requested number of divisions, kept between two and [`MAX_DIVISIONS`].
pub open spec fn clamp_divisions(n: u32) -> u32 {
    if n < 2 {
        2
    } else if n > MAX_DIVISIONS {
        MAX_DIVISIONS
    } else {
        n
    }
}

/// A requested number of divisions is kept when the grid allows it, and
/// otherwise becomes the allowed number nearest to it: the result is always
/// between two and [`MAX_DIVISIONS`], and no allowed number is closer to the
/// request.
pub proof fn lemma_divisions_are_the_nearest_allowed(n: u32, m: u32)
    requires
        2 <= m <= MAX_DIVISIONS,
    ensures
        2 <= clamp_divisions(n) <= MAX_DIVISIONS,
        2 <= n <= MAX_DIVISIONS ==> clamp_divisions(n) == n,
        (if clamp_divisions(n) >= n { clamp_divisions(n) - n } else { n - clamp_divisions(n) }) <= (if m >= n {
            m - n
        } else {
            n - m
        }),
{
}

proof fn lemma_small_grid(cols: u32, rows: u32)
    requires
        cols <= MAX_DIVISIONS,
        rows <= MAX_DIVISIONS,
    ensures
        cols * rows <= 256,
{
    assert(cols * rows <= 16 * 16) by (nonlinear_arith)
        requires
            cols <= 16,
            rows <= 16,
    ;
}

/// A grid of `cols` by `rows` vertices, row-major, each holding an `O`.
#[derive(Debug, PartialEq)]
pub struct Lattice<O> {
    cols: u32,
    rows: u32,
    offsets: Vec<O>,
}

impl<O: Clone> Clone for Lattice<O> {
    fn clone(&self) -> (r: Self)
        ensures
            r.spec_cols() == self.spec_cols(),
            r.spec_rows() == self.spec_rows(),
            r.vertices().len() == self.vertices().len(),
            forall|i: int|
                0 <= i < self.vertices().len() ==> cloned::<O>(self.vertices()[i], #[trigger] r.vertices()[i]),
    {
        proof {
            use_type_invariant(self);
        }
        Lattice { cols: self.cols, rows: self.rows, offsets: self.offsets.clone() }
    }
}

impl<O> Lattice<O> {
    /// Never degenerate, never enormous, and one offset per vertex.
    #[verifier::type_invariant]
    spec fn well_formed(self) -> bool {
        &&& 2 <= self.cols <= MAX_DIVISIONS
        &&& 2 <= self.rows <= MAX_DIVISIONS
        &&& self.offsets@.len() == self.cols * self.rows
    }

    pub closed spec fn spec_cols(self) -> u32 {
        self.cols
    }

    pub closed spec fn spec_rows(self) -> u32 {
        self.rows
    }

    /// The offsets, row by row.
    pub closed spec fn vertices(self) -> Seq<O> {
        self.offsets@
    }

    /// A lattice of the requested size, clamped, with every vertex at `zero`.
    pub fn identity(cols: u32, rows: u32, zero: O) -> (r: Self)
        where
            O: Copy,
        ensures
            r.spec_cols() == clamp_divisions(cols),
            r.spec_rows() == clamp_divisions(rows),
            2 <= cols <= MAX_DIVISIONS ==> r.spec_cols() == cols,
            2 <= rows <= MAX_DIVISIONS ==> r.spec_rows() == rows,
            r.vertices().len() == r.spec_cols() * r.spec_rows(),
            forall|i: int| 0 <= i < r.vertices().len() ==> r.vertices()[i] == zero,
    {
        let cols = if cols < 2 { 2 } else if cols > MAX_DIVISIONS { MAX_DIVISIONS } else { cols };
        let rows = if rows < 2 { 2 } else if rows > MAX_DIVISIONS { MAX_DIVISIONS } else { rows };
        proof {
            lemma_small_grid(cols, rows);
        }
        let n = (cols * rows) as usize;
        let mut offsets: Vec<O> = Vec::new();
        let mut k: usize = 0;
        while k < n
            invariant
                k <= n,
                offsets@.len() == k,
                forall|i: int| 0 <= i < k ==> offsets@[i] == zero,
            decreases n - k,
        {
            offsets.push(zero);
            k = k + 1;
        }
        Lattice { cols, rows, offsets }
    }

    /// A lattice from its stored parts, if they describe one: both sides
    /// between two and [`MAX_DIVISIONS`], and one offset per vertex.
    pub fn from_parts(cols: u32, rows: u32, offsets: Vec<O>) -> (r: Option<Self>)
        ensures
            match r {
                Some(l) => l.spec_cols() == cols && l.spec_rows() == rows && l.vertices() == offsets@,
                None => !(2 <= cols <= MAX_DIVISIONS && 2 <= rows <= MAX_DIVISIONS && offsets@.len() == cols
                    * rows),
            },
    {
        if 2 <= cols && cols <= MAX_DIVISIONS && 2 <= rows && rows <= MAX_DIVISIONS {
            proof {
                lemma_small_grid(cols, rows);
            }
            if offsets.len() == (cols * rows) as usize {
                return Some(Lattice { cols, rows, offsets });
            }
        }
        None
    }

    pub fn cols(&self) -> (r: u32)
        ensures
            r == self.spec_cols(),
            2 <= r <= MAX_DIVISIONS,
    {
        proof {
            use_type_invariant(self);
        }
        self.cols
    }

    pub fn rows(&self) -> (r: u32)
        ensures
            r == self.spec_rows(),
            2 <= r <= MAX_DIVISIONS,
    {
        proof {
            use_type_invariant(self);
        }
        self.rows
    }

    /// Every offset, row by row: `cols * rows` of them.
    pub fn offsets(&self) -> (r: &[O])
        ensures
            r@ == self.vertices(),
            r@.len() == self.spec_cols() * self.spec_rows(),
    {
        proof {
            use_type_invariant(self);
        }
        self.offsets.as_slice()
    }

    /// Where vertex `col`, `row` sits among the offsets, if it is on the
    /// grid.
    pub fn index(&self, col: u32, row: u32) -> (r: Option<usize>)
        ensures
            match r {
                Some(i) => col < self.spec_cols() && row < self.spec_rows() && i == row * self.spec_cols() + col
                    && i < self.vertices().len(),
                None => !(col < self.spec_cols() && row < self.spec_rows()),
            },
    {
        proof {
            use_type_invariant(self);
        }
        if col < self.cols && row < self.rows {
            proof {
                lemma_small_grid(self.cols, self.rows);
                assert(row * self.cols + col < self.cols * self.rows) by (nonlinear_arith)
                    requires
                        col < self.cols,
                        row < self.rows,
                ;
            }
            Some((row * self.cols + col) as usize)
        } else {
            None
        }
    }

    /// The offset at vertex `col`, `row`, if it is on the grid.
    pub fn at(&self, col: u32, row: u32) -> (r: Option<&O>)
        ensures
            match r {
                Some(o) => col < self.spec_cols() && row < self.spec_rows() && *o == self.vertices()[row
                    * self.spec_cols() + col],
                None => !(col < self.spec_cols() && row < self.spec_rows()),
            },
    {
        match self.index(col, row) {
            Some(i) => Some(&self.offsets[i]),
            None => None,
        }
    }

    /// Move vertex `col`, `row`; a vertex off the grid changes nothing.
    pub fn set(&mut self, col: u32, row: u32, offset: O)
        ensures
            final(self).spec_cols() == old(self).spec_cols(),
            final(self).spec_rows() == old(self).spec_rows(),
            col < old(self).spec_cols() && row < old(self).spec_rows() ==> final(self).vertices() == old(
                self,
            ).vertices().update(row * old(self).spec_cols() + col, offset),
            !(col < old(self).spec_cols() && row < old(self).spec_rows()) ==> final(self).vertices() == old(
                self,
            ).vertices(),
    {
        proof {
            use_type_invariant(&*self);
        }
        match self.index(col, row) {
            Some(i) => {
                self.offsets[i] = offset;
            },
            None => {},
        }
    }

    /// Put every vertex back to `value`.
    pub fn fill(&mut self, value: O)
        where
            O: Copy,
        ensures
            final(self).spec_cols() == old(self).spec_cols(),
            final(self).spec_rows() == old(self).spec_rows(),
            final(self).vertices().len() == old(self).vertices().len(),
            forall|i: int| 0 <= i < final(self).vertices().len() ==> final(self).vertices()[i] == value,
    {
        proof {
            use_type_invariant(&*self);
        }
        let n = self.offsets.len();
        let mut k: usize = 0;
        while k < n
            invariant
                k <= n,
                n == self.offsets@.len(),
                self.cols == old(self).cols,
                self.rows == old(self).rows,
                forall|i: int| 0 <= i < k ==> self.offsets@[i] == value,
            decreases n - k,
        {
            proof {
                use_type_invariant(&*self);
            }
            self.offsets[k] = value;
            k = k + 1;
        }
    }
}

} // verus!
