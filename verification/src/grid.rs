use vstd::prelude::*;
use vstd::arithmetic::div_mod::lemma_fundamental_div_mod;
use vstd::arithmetic::div_mod::lemma_fundamental_div_mod_converse;
use vstd::pervasive::VecAdditionalExecFns;
use crate::coord::Coord;

verus! {

/// The coordinate whose row-major index is `i` in a grid `w` cells wide.
pub open spec fn row_major_coord(w: int, i: int) -> Coord {
    Coord { x: (i % w) as i32, y: (i / w) as i32 }
}

/// A fixed-size rectangular container addressed by `Coord`, stored in
/// row-major order. Every coordinate within the declared bounds maps to
/// exactly one cell; lookups outside the bounds are absent (`get`) or
/// ruled out by precondition (`get_checked`).
pub struct Grid<T> {
    width: usize,
    height: usize,
    cells: Vec<T>,
}

impl<T> Grid<T> {
    /// The number of columns.
    pub closed spec fn spec_width(&self) -> int {
        self.width as int
    }

    /// The number of rows.
    pub closed spec fn spec_height(&self) -> int {
        self.height as int
    }

    /// Well-formed: both dimensions fit in a signed 32-bit coordinate and
    /// the backing store holds exactly one cell per coordinate.
    pub closed spec fn wf(&self) -> bool {
        &&& self.width <= 0x7fff_ffff
        &&& self.height <= 0x7fff_ffff
        &&& self.cells@.len() == self.spec_width() * self.spec_height()
    }

    /// Whether a coordinate lies within the declared bounds.
    pub open spec fn in_bounds(&self, c: Coord) -> bool {
        0 <= c.x < self.spec_width() && 0 <= c.y < self.spec_height()
    }

    /// Row-major index of a coordinate.
    pub open spec fn cell_index(&self, c: Coord) -> int {
        c.y * self.spec_width() + c.x
    }

    /// The coordinate whose row-major index is `i`.
    pub open spec fn coord_at(&self, i: int) -> Coord {
        row_major_coord(self.spec_width(), i)
    }

    /// The cell stored at an in-bounds coordinate.
    pub closed spec fn spec_get(&self, c: Coord) -> T {
        self.cells@[self.cell_index(c)]
    }

    /// A well-formed grid's dimensions fit in signed 32-bit coordinates,
    /// and its cell count fits in a `usize`.
    pub proof fn lemma_wf_dims(&self)
        requires
            self.wf(),
        ensures
            0 <= self.spec_width() <= 0x7fff_ffff,
            0 <= self.spec_height() <= 0x7fff_ffff,
            0 <= self.spec_width() * self.spec_height() <= usize::MAX,
    {
        broadcast use vstd::std_specs::vec::axiom_spec_len;

        assert(vstd::std_specs::vec::spec_vec_len(&self.cells) == self.cells@.len());
    }

    /// Row-major indexing is a bijection between in-bounds coordinates and
    /// positions of the backing store.
    pub proof fn lemma_index_bijective(&self, c: Coord)
        requires
            self.wf(),
            self.in_bounds(c),
        ensures
            0 <= self.cell_index(c) < self.spec_width() * self.spec_height(),
            self.coord_at(self.cell_index(c)) == c,
    {
        let w = self.spec_width();
        let h = self.spec_height();
        let i = self.cell_index(c);
        assert(0 <= c.y * w + c.x < h * w) by (nonlinear_arith)
            requires
                0 <= c.x < w,
                0 <= c.y < h,
        ;
        lemma_fundamental_div_mod_converse(i, w, c.y as int, c.x as int);
    }

    pub fn width(&self) -> (w: usize)
        ensures
            w == self.spec_width(),
    {
        self.width
    }

    pub fn height(&self) -> (h: usize)
        ensures
            h == self.spec_height(),
    {
        self.height
    }

    /// Bounds-checked, non-panicking lookup.
    pub fn get(&self, c: Coord) -> (r: Option<&T>)
        requires
            self.wf(),
        ensures
            match r {
                Some(v) => self.in_bounds(c) && *v == self.spec_get(c),
                None => !self.in_bounds(c),
            },
    {
        proof {
            self.lemma_wf_dims();
        }
        if c.x >= 0 && c.y >= 0 && (c.x as usize) < self.width && (c.y as usize) < self.height {
            proof {
                self.lemma_index_bijective(c);
            }
            let i = (c.y as usize) * self.width + (c.x as usize);
            Some(&self.cells[i])
        } else {
            None
        }
    }

    /// Checked lookup: the caller must already have shown the coordinate
    /// in bounds.
    pub fn get_checked(&self, c: Coord) -> (r: &T)
        requires
            self.wf(),
            self.in_bounds(c),
        ensures
            *r == self.spec_get(c),
    {
        proof {
            self.lemma_wf_dims();
            self.lemma_index_bijective(c);
        }
        let i = (c.y as usize) * self.width + (c.x as usize);
        &self.cells[i]
    }

    /// Replaces the cell at an in-bounds coordinate, leaving every other
    /// cell and the dimensions unchanged.
    pub fn set(&mut self, c: Coord, v: T)
        requires
            old(self).wf(),
            old(self).in_bounds(c),
        ensures
            final(self).wf(),
            final(self).spec_width() == old(self).spec_width(),
            final(self).spec_height() == old(self).spec_height(),
            final(self).spec_get(c) == v,
            forall|c2: Coord|
                final(self).in_bounds(c2) && c2 != c ==> final(self).spec_get(c2) == old(
                    self,
                ).spec_get(c2),
    {
        proof {
            self.lemma_wf_dims();
            self.lemma_index_bijective(c);
        }
        let i = (c.y as usize) * self.width + (c.x as usize);
        self.cells.set(i, v);
        proof {
            assert forall|c2: Coord| self.in_bounds(c2) && c2 != c implies self.spec_get(c2)
                == old(self).spec_get(c2) by {
                old(self).lemma_index_bijective(c2);
                old(self).lemma_index_bijective(c);
            }
        }
    }

    /// Builds a grid by invoking `fill` on every coordinate in row-major
    /// order; the result has one cell per in-bounds coordinate and no
    /// others.
    pub fn construct<F: Fn(Coord) -> T>(width: usize, height: usize, fill: F) -> (g: Grid<T>)
        requires
            width <= 0x7fff_ffff,
            height <= 0x7fff_ffff,
            width * height <= usize::MAX,
            forall|c: Coord|
                0 <= c.x < width && 0 <= c.y < height ==> call_requires(fill, (c,)),
        ensures
            g.wf(),
            g.spec_width() == width,
            g.spec_height() == height,
            forall|c: Coord|
                g.in_bounds(c) ==> call_ensures(fill, (c,), #[trigger] g.spec_get(c)),
    {
        let total = width * height;
        let mut cells: Vec<T> = Vec::new();
        let mut k: usize = 0;
        while k < total
            invariant
                total == width * height,
                width <= 0x7fff_ffff,
                height <= 0x7fff_ffff,
                k <= total,
                cells@.len() == k,
                forall|c: Coord|
                    0 <= c.x < width && 0 <= c.y < height ==> call_requires(fill, (c,)),
                forall|i: int|
                    0 <= i < k ==> call_ensures(
                        fill,
                        (row_major_coord(width as int, i),),
                        #[trigger] cells@[i],
                    ),
            decreases total - k,
        {
            proof {
                assert(width > 0) by (nonlinear_arith)
                    requires
                        k < total,
                        total == width * height,
                        k >= 0,
                ;
                lemma_fundamental_div_mod(k as int, width as int);
                assert((k as int) / (width as int) < height as int) by (nonlinear_arith)
                    requires
                        k < width * height,
                        width > 0,
                        k as int == (width as int) * ((k as int) / (width as int)) + (
                        k as int) % (width as int),
                        0 <= (k as int) % (width as int) < width as int,
                ;
            }
            let x = k % width;
            let y = k / width;
            let c = Coord { x: x as i32, y: y as i32 };
            cells.push(fill(c));
            k = k + 1;
        }
        let g = Grid { width, height, cells };
        proof {
            assert forall|c: Coord| g.in_bounds(c) implies call_ensures(
                fill,
                (c,),
                g.spec_get(c),
            ) by {
                g.lemma_index_bijective(c);
            }
        }
        g
    }

    /// Derives a grid of identical dimensions from `src`, invoking `f` on
    /// each coordinate together with the source cell there.
    pub fn map_with_coord<S: Copy, F: Fn(Coord, S) -> T>(src: &Grid<S>, f: F) -> (g: Grid<T>)
        requires
            src.wf(),
            forall|c: Coord|
                src.in_bounds(c) ==> call_requires(f, (c, #[trigger] src.spec_get(c))),
        ensures
            g.wf(),
            g.spec_width() == src.spec_width(),
            g.spec_height() == src.spec_height(),
            forall|c: Coord|
                g.in_bounds(c) ==> call_ensures(
                    f,
                    (c, src.spec_get(c)),
                    #[trigger] g.spec_get(c),
                ),
    {
        let width = src.width;
        let height = src.height;
        proof {
            src.lemma_wf_dims();
        }
        let total = width * height;
        let mut cells: Vec<T> = Vec::new();
        let mut k: usize = 0;
        while k < total
            invariant
                src.wf(),
                total == width * height,
                width == src.spec_width(),
                height == src.spec_height(),
                k <= total,
                cells@.len() == k,
                forall|c: Coord|
                    src.in_bounds(c) ==> call_requires(f, (c, #[trigger] src.spec_get(c))),
                forall|i: int|
                    0 <= i < k ==> call_ensures(
                        f,
                        (
                            row_major_coord(width as int, i),
                            src.spec_get(row_major_coord(width as int, i)),
                        ),
                        #[trigger] cells@[i],
                    ),
            decreases total - k,
        {
            proof {
                assert(width > 0) by (nonlinear_arith)
                    requires
                        k < total,
                        total == width * height,
                        k >= 0,
                ;
                lemma_fundamental_div_mod(k as int, width as int);
                assert((k as int) / (width as int) < height as int) by (nonlinear_arith)
                    requires
                        k < width * height,
                        width > 0,
                        k as int == (width as int) * ((k as int) / (width as int)) + (
                        k as int) % (width as int),
                        0 <= (k as int) % (width as int) < width as int,
                ;
            }
            let x = k % width;
            let y = k / width;
            let c = Coord { x: x as i32, y: y as i32 };
            let s = *src.get_checked(c);
            cells.push(f(c, s));
            k = k + 1;
        }
        let g = Grid { width, height, cells };
        proof {
            assert forall|c: Coord| g.in_bounds(c) implies call_ensures(
                f,
                (c, src.spec_get(c)),
                g.spec_get(c),
            ) by {
                g.lemma_index_bijective(c);
            }
        }
        g
    }

    /// Assembles a grid from an already-built row-major backing store.
    pub(crate) fn from_parts(width: usize, height: usize, cells: Vec<T>) -> (g: Grid<T>)
        requires
            width <= 0x7fff_ffff,
            height <= 0x7fff_ffff,
            cells@.len() == width * height,
        ensures
            g.wf(),
            g.spec_width() == width,
            g.spec_height() == height,
            forall|c: Coord|
                g.in_bounds(c) ==> #[trigger] g.spec_get(c) == cells@[g.cell_index(c)],
    {
        Grid { width, height, cells }
    }

    /// Full traversal in row-major order: every coordinate paired with a
    /// copy of the cell there.
    pub fn enumerate(&self) -> (r: Vec<(Coord, T)>) where T: Copy
        requires
            self.wf(),
        ensures
            r@.len() == self.spec_width() * self.spec_height(),
            forall|i: int|
                0 <= i < r@.len() ==> #[trigger] r@[i] == (
                    self.coord_at(i),
                    self.spec_get(self.coord_at(i)),
                ),
    {
        let width = self.width;
        let height = self.height;
        proof {
            self.lemma_wf_dims();
        }
        let total = width * height;
        let mut r: Vec<(Coord, T)> = Vec::new();
        let mut k: usize = 0;
        while k < total
            invariant
                self.wf(),
                total == width * height,
                width == self.spec_width(),
                height == self.spec_height(),
                k <= total,
                r@.len() == k,
                forall|i: int|
                    0 <= i < k ==> #[trigger] r@[i] == (
                        self.coord_at(i),
                        self.spec_get(self.coord_at(i)),
                    ),
            decreases total - k,
        {
            proof {
                assert(width > 0) by (nonlinear_arith)
                    requires
                        k < total,
                        total == width * height,
                        k >= 0,
                ;
                lemma_fundamental_div_mod(k as int, width as int);
                assert((k as int) / (width as int) < height as int) by (nonlinear_arith)
                    requires
                        k < width * height,
                        width > 0,
                        k as int == (width as int) * ((k as int) / (width as int)) + (
                        k as int) % (width as int),
                        0 <= (k as int) % (width as int) < width as int,
                ;
            }
            let x = k % width;
            let y = k / width;
            let c = Coord { x: x as i32, y: y as i32 };
            let v = *self.get_checked(c);
            r.push((c, v));
            k = k + 1;
        }
        r
    }
}

} // verus!
