//! Integer coordinates and a dense, fixed-size 2D grid.
use vstd::prelude::*;

verus! {

/// A tile position, `(x, y)`.
#[derive(Clone, Copy, PartialEq, Eq, Structural, Debug, Hash)]
pub struct Coords(pub i32, pub i32);

/// Mathematical picture of a grid: its dimensions and one value per
/// in-bounds position.
#[verifier::ext_equal]
pub struct GridView<T> {
    pub width: int,
    pub height: int,
    pub cells: Map<(int, int), T>,
}

impl<T> GridView<T> {
    /// A `w` by `h` grid whose every cell is `t`.
    pub open spec fn uniform(w: int, h: int, t: T) -> GridView<T> {
        GridView { width: w, height: h, cells: Map::new(|k: (int, int)| 0 <= k.0 < w && 0 <= k.1 < h, |k: (int, int)| t) }
    }

    pub open spec fn in_bounds(&self, x: int, y: int) -> bool {
        0 <= x < self.width && 0 <= y < self.height
    }

    pub open spec fn has(&self, p: Coords) -> bool {
        self.in_bounds(p.0 as int, p.1 as int)
    }

    pub open spec fn at(&self, x: int, y: int) -> T {
        self.cells[(x, y)]
    }

    pub open spec fn tile(&self, p: Coords) -> T {
        self.at(p.0 as int, p.1 as int)
    }

    /// The same grid with the cell at `p` replaced by `t`.
    pub open spec fn set(self, p: Coords, t: T) -> GridView<T> {
        GridView { width: self.width, height: self.height, cells: self.cells.insert((p.0 as int, p.1 as int), t) }
    }

    /// A `w` by `h` grid whose cells are taken from `cells` row by row.
    pub open spec fn from_rows(w: int, h: int, cells: Seq<T>) -> GridView<T> {
        GridView {
            width: w,
            height: h,
            cells: Map::new(|k: (int, int)| 0 <= k.0 < w && 0 <= k.1 < h, |k: (int, int)| cells[row_major(w, k.0, k.1)]),
        }
    }

    /// The cells row by row, bottom row first.
    pub open spec fn rows(self) -> Seq<T> {
        Seq::new((self.width * self.height) as nat, |i: int| self.at(i % self.width, i / self.width))
    }

    /// Dimensions fit the coordinate type and the cells cover exactly the
    /// in-bounds positions.
    pub open spec fn wf(&self) -> bool {
        &&& 0 <= self.width <= i32::MAX
        &&& 0 <= self.height <= i32::MAX
        &&& self.width * self.height <= usize::MAX
        &&& forall|k: (int, int)| #[trigger] self.cells.dom().contains(k) <==> self.in_bounds(k.0, k.1)
    }
}

/// Position of cell `(x, y)` in the row-major storage of a grid `w` wide.
pub open spec fn row_major(w: int, x: int, y: int) -> int {
    y * w + x
}

proof fn lemma_row_major_bounds(w: int, h: int, x: int, y: int)
    requires
        0 <= x < w,
        0 <= y < h,
    ensures
        0 <= row_major(w, x, y) < w * h,
{
    assert(0 <= y * w) by (nonlinear_arith)
        requires
            0 <= y,
            0 <= w,
    ;
    assert(y * w + x < w * h) by (nonlinear_arith)
        requires
            0 <= x < w,
            0 <= y < h,
    ;
}

proof fn lemma_row_major_injective(w: int, x1: int, y1: int, x2: int, y2: int)
    requires
        0 <= x1 < w,
        0 <= x2 < w,
        0 <= y1,
        0 <= y2,
        row_major(w, x1, y1) == row_major(w, x2, y2),
    ensures
        x1 == x2 && y1 == y2,
{
    if y1 < y2 {
        assert(y1 * w + w <= y2 * w) by (nonlinear_arith)
            requires
                y1 < y2,
                0 <= w,
        ;
    } else if y2 < y1 {
        assert(y2 * w + w <= y1 * w) by (nonlinear_arith)
            requires
                y2 < y1,
                0 <= w,
        ;
    }
}

/// Storage position `i` of a `w` by `h` grid names an in-bounds cell,
/// column `i % w` of row `i / w`.
pub(crate) proof fn lemma_index_coords(w: int, h: int, i: int)
    requires
        0 <= i < w * h,
        0 <= w,
        0 <= h,
    ensures
        0 <= i % w < w,
        0 <= i / w < h,
{
    if w == 0 {
        assert(w * h == 0);
    }
    assert(0 <= i / w < h) by (nonlinear_arith)
        requires
            0 <= i < w * h,
            0 < w,
    ;
    assert(0 <= i % w < w) by (nonlinear_arith)
        requires
            0 < w,
            0 <= i,
    ;
}

/// The row-major position of an in-bounds cell lies in the storage and
/// gives the cell back by `%` and `/`.
pub(crate) proof fn lemma_coords_index(w: int, h: int, x: int, y: int)
    requires
        0 <= x < w,
        0 <= y < h,
    ensures
        0 <= y * w + x < w * h,
        (y * w + x) % w == x,
        (y * w + x) / w == y,
{
    assert(0 <= y * w + x < w * h) by (nonlinear_arith)
        requires
            0 <= x < w,
            0 <= y < h,
    ;
    vstd::arithmetic::div_mod::lemma_fundamental_div_mod_converse(y * w + x, w, y, x);
}

/// Listing a grid's cells row by row and building a grid from that list
/// gives the grid back.
pub proof fn lemma_rows_round_trip<T>(m: GridView<T>)
    requires
        m.wf(),
    ensures
        m.rows().len() == m.width * m.height,
        GridView::from_rows(m.width, m.height, m.rows()) == m,
{
    let n = GridView::from_rows(m.width, m.height, m.rows());
    assert(0 <= m.width * m.height) by (nonlinear_arith)
        requires
            0 <= m.width,
            0 <= m.height,
    ;
    assert forall|k: (int, int)| #[trigger] n.cells.dom().contains(k) <==> m.cells.dom().contains(k) by {}
    assert forall|k: (int, int)| n.cells.dom().contains(k) implies #[trigger] n.cells[k] == m.cells[k] by {
        lemma_coords_index(m.width, m.height, k.0, k.1);
    }
    assert(n.cells =~= m.cells);
    assert(n =~= m);
}

/// A dense grid of `w * h` cells stored row by row; its size is fixed when
/// it is made.
pub struct Array2d<T> {
    w: u32,
    h: u32,
    v: Vec<T>,
}

impl<T> View for Array2d<T> {
    type V = GridView<T>;

    closed spec fn view(&self) -> GridView<T> {
        GridView {
            width: self.w as int,
            height: self.h as int,
            cells: Map::new(
                |k: (int, int)| 0 <= k.0 < self.w && 0 <= k.1 < self.h,
                |k: (int, int)| self.v@[row_major(self.w as int, k.0, k.1)],
            ),
        }
    }
}

impl<T> Array2d<T> {
    #[verifier::type_invariant]
    closed spec fn inv(&self) -> bool {
        &&& self.v.len() == self.w * self.h
        &&& self.w <= i32::MAX
        &&& self.h <= i32::MAX
    }

    /// A grid `w` wide and `h` high whose cells are taken from `v` row by row.
    pub fn from_vec(w: u32, h: u32, v: Vec<T>) -> (r: Array2d<T>)
        requires
            w <= i32::MAX,
            h <= i32::MAX,
            v@.len() == w * h,
        ensures
            r@.wf(),
            r@ == GridView::from_rows(w as int, h as int, v@),
    {
        let r = Array2d { w, h, v };
        proof {
            assert(r@.cells =~= GridView::from_rows(w as int, h as int, v@).cells);
            assert(r@ =~= GridView::from_rows(w as int, h as int, v@));
        }
        r
    }

    /// Width and height.
    pub fn size(&self) -> (r: (u32, u32))
        ensures
            r.0 == self@.width,
            r.1 == self@.height,
            self@.wf(),
    {
        proof {
            use_type_invariant(self);
        }
        (self.w, self.h)
    }

    pub fn in_range(&self, p: Coords) -> (r: bool)
        ensures
            r == self@.has(p),
            self@.wf(),
    {
        proof {
            use_type_invariant(self);
        }
        0 <= p.0 && 0 <= p.1 && (p.0 as u32) < self.w && (p.1 as u32) < self.h
    }

    fn index_of(&self, p: Coords) -> (i: usize)
        requires
            self@.has(p),
        ensures
            i == row_major(self@.width, p.0 as int, p.1 as int),
            i < self.v.len(),
    {
        proof {
            use_type_invariant(self);
            lemma_row_major_bounds(self.w as int, self.h as int, p.0 as int, p.1 as int);
        }
        (p.1 as usize) * (self.w as usize) + (p.0 as usize)
    }

    /// The cell at `p`.
    pub fn at(&self, p: Coords) -> (r: &T)
        requires
            self@.has(p),
        ensures
            *r == self@.tile(p),
            self@.wf(),
    {
        proof {
            use_type_invariant(self);
        }
        let i = self.index_of(p);
        &self.v[i]
    }

    /// The cell at `p`, or `None` where `p` lies outside the grid.
    pub fn get(&self, p: Coords) -> (r: Option<&T>)
        ensures
            r == (if self@.has(p) { Some(&self@.tile(p)) } else { None::<&T> }),
    {
        if self.in_range(p) {
            Some(self.at(p))
        } else {
            None
        }
    }

    /// Replaces the cell at `p`.
    pub fn set(&mut self, p: Coords, t: T)
        requires
            old(self)@.has(p),
        ensures
            final(self)@ == old(self)@.set(p, t),
            final(self)@.wf(),
    {
        proof {
            use_type_invariant(&*self);
        }
        let i = self.index_of(p);
        let mut taken = Array2d { w: 0, h: 0, v: Vec::new() };
        core::mem::swap(self, &mut taken);
        let Array2d { w, h, mut v } = taken;
        v.set(i, t);
        *self = Array2d { w, h, v };
        proof {
            let w = self.w as int;
            let h = self.h as int;
            assert forall|k: (int, int)| 0 <= k.0 < w && 0 <= k.1 < h implies #[trigger] self@.cells[k] == old(self)@.set(p, t).cells[k] by {
                lemma_row_major_bounds(w, h, k.0, k.1);
                if k != (p.0 as int, p.1 as int) {
                    if row_major(w, k.0, k.1) == row_major(w, p.0 as int, p.1 as int) {
                        lemma_row_major_injective(w, k.0, k.1, p.0 as int, p.1 as int);
                    }
                }
            }
            assert(self@.cells =~= old(self)@.set(p, t).cells);
            use_type_invariant(&*self);
        }
    }
}

impl<T: Copy> Array2d<T> {
    /// A grid `w` wide and `h` high with every cell equal to `init`.
    pub fn new(w: u32, h: u32, init: T) -> (r: Array2d<T>)
        requires
            w <= i32::MAX,
            h <= i32::MAX,
            w * h <= usize::MAX,
        ensures
            r@.wf(),
            r@ == GridView::uniform(w as int, h as int, init),
    {
        let n: usize = (w as usize) * (h as usize);
        let mut v: Vec<T> = Vec::new();
        while v.len() < n
            invariant
                v.len() <= n,
                forall|i: int| 0 <= i < v.len() ==> v@[i] == init,
            decreases n - v.len(),
        {
            v.push(init);
        }
        let r = Array2d { w, h, v };
        proof {
            assert forall|k: (int, int)| r@.in_bounds(k.0, k.1) implies #[trigger] r@.cells[k] == init by {
                lemma_row_major_bounds(w as int, h as int, k.0, k.1);
            }
            assert(r@.cells =~= GridView::uniform(w as int, h as int, init).cells);
            assert(r@ =~= GridView::uniform(w as int, h as int, init));
        }
        r
    }
}

} // verus!
