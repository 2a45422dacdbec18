//! Square grids of cells and their double-buffered pairs.
//!
//! A grid of side `n` stores its cells row by row: the cell at column `x` and
//! row `y` has the index `y * n + x`. Lookups outside the grid are clamped to
//! the nearest edge cell.

use vstd::prelude::*;
use crate::error::ConfigError;
use crate::fixed::Fx;

verus! {

/// The largest supported grid side.
pub const MAX_SIDE: usize = 16384;

/// A coordinate limited to the range of a grid of side `n`.
pub open spec fn clamp_coord(n: nat, c: int) -> int {
    if c < 0 {
        0
    } else if c >= n {
        n - 1
    } else {
        c
    }
}

/// The position of cell `(x, y)` in the row-major sequence of cells.
pub open spec fn cell_index(n: nat, x: int, y: int) -> int {
    y * n + x
}

/// The value of a field at `(x, y)`, with both coordinates clamped to the grid.
pub open spec fn lookup<T>(f: Seq<T>, n: nat, x: int, y: int) -> T {
    f[cell_index(n, clamp_coord(n, x), clamp_coord(n, y))]
}

/// Whether `f` holds exactly the cells of a grid of side `n`.
pub open spec fn is_field<T>(f: Seq<T>, n: nat) -> bool {
    0 < n <= MAX_SIDE && f.len() == n * n
}

/// The field of side `n` that has the value `c` at every cell.
pub open spec fn uniform_field(n: nat, c: Fx) -> Seq<Fx> {
    Seq::new(n * n, |i: int| c)
}

/// The field of side `n` that is zero everywhere.
pub open spec fn zero_field(n: nat) -> Seq<Fx> {
    uniform_field(n, Fx::zero())
}

/// Cells inside the grid have an index inside the sequence.
pub proof fn lemma_index_in_range(n: nat, x: int, y: int)
    requires
        0 <= x < n,
        0 <= y < n,
    ensures
        0 <= y * n,
        0 <= cell_index(n, x, y) < n * n,
        cell_index(n, x, y) % (n as int) == x,
        cell_index(n, x, y) / (n as int) == y,
        n <= MAX_SIDE ==> n * n <= MAX_SIDE * MAX_SIDE,
{
    assert(0 <= y * n && y * n + n <= n * n) by (nonlinear_arith)
        requires
            0 <= y < n,
    ;
    assert(n <= MAX_SIDE ==> n * n <= MAX_SIDE * MAX_SIDE) by (nonlinear_arith);
    vstd::arithmetic::div_mod::lemma_fundamental_div_mod_converse(y * n + x, n as int, y, x);
}

/// Every index of the sequence is the index of one cell inside the grid.
pub proof fn lemma_coords_of_index(n: nat, i: int)
    requires
        0 < n,
        0 <= i < n * n,
    ensures
        0 <= i % (n as int) < n,
        0 <= i / (n as int) < n,
        cell_index(n, i % (n as int), i / (n as int)) == i,
{
    let d = n as int;
    vstd::arithmetic::div_mod::lemma_fundamental_div_mod(i, d);
    vstd::arithmetic::div_mod::lemma_mod_pos_bound(i, d);
    let q = i / d;
    let r = i % d;
    assert(i == d * q + r);
    assert(0 <= q < d) by (nonlinear_arith)
        requires
            i == d * q + r,
            0 <= r < d,
            0 <= i < d * d,
    ;
    assert(q * d == d * q) by (nonlinear_arith);
}

/// A square grid of cells.
pub struct Grid<T> {
    side: usize,
    cells: Vec<T>,
}

impl<T: Copy> View for Grid<T> {
    type V = Seq<T>;

    closed spec fn view(&self) -> Seq<T> {
        self.cells@
    }
}

impl<T: Copy> Grid<T> {
    /// The number of cells along one edge.
    pub closed spec fn spec_side(&self) -> nat {
        self.side as nat
    }

    /// The side is supported and the grid holds `side * side` cells.
    pub open spec fn wf(&self) -> bool {
        is_field(self@, self.spec_side())
    }

    /// The value at `(x, y)`, with both coordinates clamped to the grid.
    pub open spec fn at(&self, x: int, y: int) -> T {
        lookup(self@, self.spec_side(), x, y)
    }

    /// A grid of side `n` with every cell set to `value`. It is refused when
    /// `n` is zero or larger than `MAX_SIDE`.
    pub fn filled(n: usize, value: T) -> (r: Result<Grid<T>, ConfigError>)
        ensures
            (n == 0 || n > MAX_SIDE) <==> r is Err,
            r is Err ==> r == Err::<Grid<T>, ConfigError>(ConfigError::GridSize),
            r is Ok ==> r->Ok_0.wf() && r->Ok_0.spec_side() == n && r->Ok_0@ == Seq::new(
                (n * n) as nat,
                |i: int| value,
            ),
    {
        if n == 0 || n > MAX_SIDE {
            return Err(ConfigError::GridSize);
        }
        assert(n * n <= MAX_SIDE * MAX_SIDE) by (nonlinear_arith)
            requires
                n <= MAX_SIDE,
        ;
        let total: usize = n * n;
        let mut cells: Vec<T> = Vec::with_capacity(total);
        let mut i: usize = 0;
        while i < total
            invariant
                i <= total,
                cells.len() == i,
                forall|j: int| 0 <= j < i ==> cells@[j] == value,
            decreases total - i,
        {
            cells.push(value);
            i += 1;
        }
        let grid = Grid { side: n, cells };
        assert(grid@ =~= Seq::new((n * n) as nat, |i: int| value));
        Ok(grid)
    }

    pub fn side(&self) -> (n: usize)
        ensures
            n == self.spec_side(),
    {
        self.side
    }

    /// The number of cells.
    pub fn len(&self) -> (total: usize)
        requires
            self.wf(),
        ensures
            total == self.spec_side() * self.spec_side(),
            total == self@.len(),
    {
        self.cells.len()
    }

    /// The value of the cell with the given row-major index.
    pub fn get_index(&self, i: usize) -> (value: T)
        requires
            i < self@.len(),
        ensures
            value == self@[i as int],
    {
        self.cells[i]
    }

    /// Sets the cell with the given row-major index.
    pub fn set_index(&mut self, i: usize, value: T)
        requires
            i < old(self)@.len(),
        ensures
            final(self)@ == old(self)@.update(i as int, value),
            final(self).spec_side() == old(self).spec_side(),
    {
        self.cells[i] = value;
    }

    /// The value of the cell at column `x` and row `y`.
    pub fn get(&self, x: usize, y: usize) -> (value: T)
        requires
            self.wf(),
            x < self.spec_side(),
            y < self.spec_side(),
        ensures
            value == self@[cell_index(self.spec_side(), x as int, y as int)],
            value == self.at(x as int, y as int),
    {
        proof {
            lemma_index_in_range(self.spec_side(), x as int, y as int);
        }
        self.cells[y * self.side + x]
    }

    /// The value at `(x, y)`, where coordinates outside the grid stand for the
    /// nearest edge cell.
    pub fn get_clamped(&self, x: i64, y: i64) -> (value: T)
        requires
            self.wf(),
        ensures
            value == self.at(x as int, y as int),
    {
        let cx: usize = clamp_to_side(self.side, x);
        let cy: usize = clamp_to_side(self.side, y);
        self.get(cx, cy)
    }

    /// Sets the cell at column `x` and row `y`.
    pub fn set(&mut self, x: usize, y: usize, value: T)
        requires
            old(self).wf(),
            x < old(self).spec_side(),
            y < old(self).spec_side(),
        ensures
            final(self).wf(),
            final(self).spec_side() == old(self).spec_side(),
            final(self)@ == old(self)@.update(
                cell_index(old(self).spec_side(), x as int, y as int),
                value,
            ),
    {
        proof {
            lemma_index_in_range(self.spec_side(), x as int, y as int);
        }
        let i: usize = y * self.side + x;
        self.cells[i] = value;
    }

    /// Sets every cell to `value`.
    pub fn fill(&mut self, value: T)
        requires
            old(self).wf(),
        ensures
            final(self).wf(),
            final(self).spec_side() == old(self).spec_side(),
            final(self)@ == Seq::new(old(self)@.len(), |i: int| value),
    {
        let total: usize = self.cells.len();
        let mut i: usize = 0;
        while i < total
            invariant
                i <= total,
                self.cells.len() == total,
                self.side == old(self).side,
                forall|j: int| 0 <= j < i ==> self.cells@[j] == value,
            decreases total - i,
        {
            self.cells[i] = value;
            i += 1;
        }
        assert(self@ =~= Seq::new(old(self)@.len(), |i: int| value));
    }
}

/// The coordinate `c` limited to the range of a grid of side `n`.
pub fn clamp_to_side(n: usize, c: i64) -> (r: usize)
    requires
        0 < n <= MAX_SIDE,
    ensures
        r == clamp_coord(n as nat, c as int),
        r < n,
{
    if c < 0 {
        0
    } else if c >= n as i64 {
        n - 1
    } else {
        c as usize
    }
}

/// Two generations of one field: the committed one, which stages read, and the
/// staged one, which they write.
pub struct DoubleBuffered<T> {
    current: Grid<T>,
    next: Grid<T>,
}

impl<T: Copy> DoubleBuffered<T> {
    /// The committed generation.
    pub closed spec fn committed(&self) -> Grid<T> {
        self.current
    }

    /// The staged generation.
    pub closed spec fn staged(&self) -> Grid<T> {
        self.next
    }

    /// The side shared by both generations.
    pub open spec fn spec_side(&self) -> nat {
        self.committed().spec_side()
    }

    /// Both generations are well-formed grids of the same side.
    pub open spec fn wf(&self) -> bool {
        &&& self.committed().wf()
        &&& self.staged().wf()
        &&& self.staged().spec_side() == self.committed().spec_side()
    }

    /// A field of side `n` with both generations set to `value`. It is refused
    /// when `n` is zero or larger than `MAX_SIDE`.
    pub fn filled(n: usize, value: T) -> (r: Result<DoubleBuffered<T>, ConfigError>)
        ensures
            (n == 0 || n > MAX_SIDE) <==> r is Err,
            r is Err ==> r == Err::<DoubleBuffered<T>, ConfigError>(ConfigError::GridSize),
            r is Ok ==> {
                let f = r->Ok_0;
                &&& f.wf()
                &&& f.spec_side() == n
                &&& f.committed()@ == Seq::new((n * n) as nat, |i: int| value)
                &&& f.staged()@ == Seq::new((n * n) as nat, |i: int| value)
            },
    {
        let current = match Grid::filled(n, value) {
            Ok(g) => g,
            Err(e) => {
                return Err(e);
            },
        };
        let next = match Grid::filled(n, value) {
            Ok(g) => g,
            Err(e) => {
                return Err(e);
            },
        };
        Ok(DoubleBuffered { current, next })
    }

    pub fn side(&self) -> (n: usize)
        ensures
            n == self.spec_side(),
    {
        self.current.side()
    }

    /// The committed generation, read-only.
    pub fn current(&self) -> (g: &Grid<T>)
        ensures
            *g == self.committed(),
    {
        &self.current
    }

    /// The committed value at `(x, y)`.
    pub fn read(&self, x: usize, y: usize) -> (value: T)
        requires
            self.wf(),
            x < self.spec_side(),
            y < self.spec_side(),
        ensures
            value == self.committed().at(x as int, y as int),
    {
        self.current.get(x, y)
    }

    /// Stages `value` for the cell at `(x, y)`; the committed generation is
    /// untouched until the next `commit`.
    pub fn write(&mut self, x: usize, y: usize, value: T)
        requires
            old(self).wf(),
            x < old(self).spec_side(),
            y < old(self).spec_side(),
        ensures
            final(self).wf(),
            final(self).committed() == old(self).committed(),
            final(self).staged().spec_side() == old(self).staged().spec_side(),
            final(self).staged()@ == old(self).staged()@.update(
                cell_index(old(self).spec_side(), x as int, y as int),
                value,
            ),
    {
        self.next.set(x, y, value);
    }

    /// The committed generation to read from, together with the staged
    /// generation to write to.
    pub fn parts(&mut self) -> (r: (&Grid<T>, &mut Grid<T>))
        ensures
            *r.0 == old(self).committed(),
            *r.1 == old(self).staged(),
            final(self).committed() == old(self).committed(),
            final(self).staged() == *final(r.1),
    {
        (&self.current, &mut self.next)
    }

    /// Promotes the staged generation to the committed one. The generation
    /// that was committed before becomes the staging area.
    pub fn commit(&mut self)
        ensures
            final(self).committed() == old(self).staged(),
            final(self).staged() == old(self).committed(),
    {
        std::mem::swap(&mut self.current, &mut self.next);
    }
}

} // verus!
