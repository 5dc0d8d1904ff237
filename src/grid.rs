//! The board: cells, directions and the wrap-around step between cells.
use vstd::prelude::*;

verus! {

/// Number of cells across the board.
pub const GRID_WIDTH: i32 = 70;

/// Number of cells down the board.
pub const GRID_HEIGHT: i32 = 50;

/// Number of cells on the board.
pub const GRID_CELLS: usize = 3500;

/// A cell of the board, column `x` and row `y`, both counted from the top left.
#[derive(Clone, Copy, Debug, PartialEq, Eq, Structural)]
pub struct Point {
    pub x: i32,
    pub y: i32,
}

/// One of the four unit moves; `Up` decreases the row.
#[derive(Clone, Copy, Debug, PartialEq, Eq, Structural)]
pub enum Dir {
    Up,
    Down,
    Left,
    Right,
}

impl Dir {
    /// Column change of one step.
    pub open spec fn dx(self) -> int {
        match self {
            Dir::Left => -1,
            Dir::Right => 1,
            _ => 0,
        }
    }

    /// Row change of one step.
    pub open spec fn dy(self) -> int {
        match self {
            Dir::Up => -1,
            Dir::Down => 1,
            _ => 0,
        }
    }

    /// The direction pointing the other way.
    pub open spec fn reverse(self) -> Dir {
        match self {
            Dir::Up => Dir::Down,
            Dir::Down => Dir::Up,
            Dir::Left => Dir::Right,
            Dir::Right => Dir::Left,
        }
    }

    pub fn opposite(self) -> (r: Dir)
        ensures
            r == self.reverse(),
    {
        match self {
            Dir::Up => Dir::Down,
            Dir::Down => Dir::Up,
            Dir::Left => Dir::Right,
            Dir::Right => Dir::Left,
        }
    }

    /// The step as a (column, row) vector.
    pub fn delta(self) -> (r: (i32, i32))
        ensures
            r.0 == self.dx(),
            r.1 == self.dy(),
    {
        match self {
            Dir::Up => (0, -1),
            Dir::Down => (0, 1),
            Dir::Left => (-1, 0),
            Dir::Right => (1, 0),
        }
    }
}

/// The cell lies on the board.
pub open spec fn in_bounds(p: Point) -> bool {
    0 <= p.x < GRID_WIDTH && 0 <= p.y < GRID_HEIGHT
}

/// Every cell of `cells` lies on the board.
pub open spec fn all_in_bounds(cells: Seq<Point>) -> bool {
    forall|i: int| 0 <= i < cells.len() ==> in_bounds(#[trigger] cells[i])
}

/// The cell one step from `p` along `d`; leaving the board over one edge
/// re-enters it over the opposite edge.
pub open spec fn step(p: Point, d: Dir) -> Point {
    Point {
        x: ((p.x + d.dx()) % (GRID_WIDTH as int)) as i32,
        y: ((p.y + d.dy()) % (GRID_HEIGHT as int)) as i32,
    }
}

/// Where a cell of the board is numbered row after row, within each column.
pub open spec fn cell_index(p: Point) -> int {
    p.x * GRID_HEIGHT + p.y
}

/// Distinct cells of the board have distinct numbers in `0..GRID_CELLS`.
pub proof fn lemma_cell_index(p: Point, q: Point)
    requires
        in_bounds(p),
        in_bounds(q),
    ensures
        0 <= cell_index(p) < GRID_CELLS,
        cell_index(p) == cell_index(q) ==> p == q,
{
    assert(0 <= p.x * 50 <= 69 * 50) by (nonlinear_arith)
        requires
            0 <= p.x < 70,
    ;
    assert(cell_index(p) == cell_index(q) ==> p.x == q.x) by (nonlinear_arith)
        requires
            0 <= p.y < 50,
            0 <= q.y < 50,
            cell_index(p) == p.x * 50 + p.y,
            cell_index(q) == q.x * 50 + q.y,
    ;
}

/// A run of distinct cells of the board is no longer than the board.
pub proof fn lemma_distinct_cells_fit(cells: Seq<Point>)
    requires
        all_in_bounds(cells),
        cells.no_duplicates(),
    ensures
        cells.len() <= GRID_CELLS,
{
    let idx = cells.map_values(|p: Point| cell_index(p));
    assert forall|i: int, j: int| 0 <= i < idx.len() && 0 <= j < idx.len() && i != j implies idx[i]
        != idx[j] by {
        lemma_cell_index(cells[i], cells[j]);
    }
    assert(idx.no_duplicates());
    idx.unique_seq_to_set();
    assert forall|k: int| idx.to_set().contains(k) implies vstd::set_lib::set_int_range(
        0,
        GRID_CELLS as int,
    ).contains(k) by {
        let i = idx.index_of(k);
        lemma_cell_index(cells[i], cells[i]);
    }
    vstd::set_lib::lemma_int_range(0, GRID_CELLS as int);
    vstd::set_lib::lemma_len_subset(idx.to_set(), vstd::set_lib::set_int_range(0, GRID_CELLS as int));
}

/// The cell one step from `pos` along `dir`, wrapping round the board's edges.
pub fn update_pos(pos: Point, dir: Dir) -> (r: Point)
    requires
        in_bounds(pos),
    ensures
        r == step(pos, dir),
        in_bounds(r),
{
    let (dx, dy) = dir.delta();
    let nx = pos.x + dx;
    let ny = pos.y + dy;
    if nx >= GRID_WIDTH {
        Point { x: 0, y: pos.y }
    } else if nx < 0 {
        Point { x: GRID_WIDTH - 1, y: pos.y }
    } else if ny >= GRID_HEIGHT {
        Point { x: pos.x, y: 0 }
    } else if ny < 0 {
        Point { x: pos.x, y: GRID_HEIGHT - 1 }
    } else {
        Point { x: nx, y: ny }
    }
}

/// Whether no cell occurs twice in `cells`.
pub fn cells_distinct(cells: &Vec<Point>) -> (r: bool)
    requires
        all_in_bounds(cells@),
    ensures
        r == cells@.no_duplicates(),
{
    let mut seen: Vec<bool> = vec![false; GRID_CELLS];
    let mut i: usize = 0;
    while i < cells.len()
        invariant
            i <= cells@.len(),
            all_in_bounds(cells@),
            seen@.len() == GRID_CELLS,
            cells@.subrange(0, i as int).no_duplicates(),
            forall|k: int|
                0 <= k < GRID_CELLS ==> (#[trigger] seen@[k] <==> exists|j: int|
                    0 <= j < i && cell_index(cells@[j]) == k),
        decreases cells@.len() - i,
    {
        let p = cells[i];
        proof {
            lemma_cell_index(p, p);
        }
        let k = (p.x * GRID_HEIGHT + p.y) as usize;
        if seen[k] {
            let ghost j = choose|j: int| 0 <= j < i && cell_index(cells@[j]) == k;
            proof {
                lemma_cell_index(cells@[j], p);
            }
            return false;
        }
        proof {
            assert forall|j: int| 0 <= j < i implies cells@[j] != p by {
                if cells@[j] == p {
                    assert(seen@[k as int]);
                }
            }
            assert(cells@.subrange(0, i + 1) == cells@.subrange(0, i as int).push(p));
        }
        seen.set(k, true);
        i = i + 1;
    }
    assert(cells@.subrange(0, i as int) == cells@);
    true
}

} // verus!
