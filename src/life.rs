use vstd::prelude::*;

use array2d::Array2D;

verus! {

// ---------------------------------------------------------------------------
// Cells, directions and points
// ---------------------------------------------------------------------------

/// The state of one cell of the board.
#[derive(Debug, Clone, Copy, PartialEq, Eq, Structural)]
pub enum Cell {
    Dead,
    Alive,
}

impl Cell {
    pub fn is_alive(&self) -> (r: bool)
        ensures
            r == (*self == Cell::Alive),
    {
        *self == Cell::Alive
    }

    pub fn is_dead(&self) -> (r: bool)
        ensures
            r == (*self == Cell::Dead),
    {
        !self.is_alive()
    }
}

/// One of the eight compass directions from a cell to a neighbour.
#[derive(Debug, Clone, Copy, PartialEq, Eq, Structural)]
pub enum Direction {
    N,
    NE,
    E,
    SE,
    S,
    SW,
    W,
    NW,
}

/// The eight directions, clockwise from north.
pub open spec fn all_directions() -> Seq<Direction> {
    seq![
        Direction::N,
        Direction::NE,
        Direction::E,
        Direction::SE,
        Direction::S,
        Direction::SW,
        Direction::W,
        Direction::NW,
    ]
}

impl Direction {
    /// The step that the direction takes, as (row change, column change);
    /// north is towards higher rows, east towards higher columns.
    pub open spec fn spec_delta(self) -> (int, int) {
        match self {
            Direction::N => (1, 0),
            Direction::NE => (1, 1),
            Direction::E => (0, 1),
            Direction::SE => (-1, 1),
            Direction::S => (-1, 0),
            Direction::SW => (-1, -1),
            Direction::W => (0, -1),
            Direction::NW => (1, -1),
        }
    }

    pub fn delta(&self) -> (r: (isize, isize))
        ensures
            r.0 == self.spec_delta().0,
            r.1 == self.spec_delta().1,
    {
        match self {
            Direction::N => (1, 0),
            Direction::NE => (1, 1),
            Direction::E => (0, 1),
            Direction::SE => (-1, 1),
            Direction::S => (-1, 0),
            Direction::SW => (-1, -1),
            Direction::W => (0, -1),
            Direction::NW => (1, -1),
        }
    }

    /// The eight directions, clockwise from north.
    pub fn all() -> (r: Vec<Direction>)
        ensures
            r@ == all_directions(),
    {
        let r = vec![
            Direction::N,
            Direction::NE,
            Direction::E,
            Direction::SE,
            Direction::S,
            Direction::SW,
            Direction::W,
            Direction::NW,
        ];
        assert(r@ =~= all_directions());
        r
    }
}

/// A position on the board: a column and a row.
#[derive(Debug, Clone, Copy, PartialEq, Eq, Structural)]
pub struct Point {
    col: usize,
    row: usize,
}

impl Point {
    pub closed spec fn spec_col(&self) -> usize {
        self.col
    }

    pub closed spec fn spec_row(&self) -> usize {
        self.row
    }

    /// The (column, row) of the neighbour one step in direction `d`, if
    /// neither coordinate leaves the range of `usize`.
    pub open spec fn neighbor_coords(self, d: Direction) -> Option<(usize, usize)> {
        let col = self.spec_col() + d.spec_delta().1;
        let row = self.spec_row() + d.spec_delta().0;
        if 0 <= col <= usize::MAX && 0 <= row <= usize::MAX {
            Some((col as usize, row as usize))
        } else {
            None
        }
    }

    pub fn new(col: usize, row: usize) -> (p: Point)
        ensures
            p.col() == col,
            p.row() == row,
    {
        Point { col, row }
    }

    #[verifier::when_used_as_spec(spec_col)]
    pub fn col(&self) -> (r: usize)
        ensures
            r == self.spec_col(),
    {
        self.col
    }

    #[verifier::when_used_as_spec(spec_row)]
    pub fn row(&self) -> (r: usize)
        ensures
            r == self.spec_row(),
    {
        self.row
    }

    /// The neighbour one step in direction `d`, or `None` where a coordinate
    /// would fall below zero or overflow.
    pub fn get_neighbor(&self, d: &Direction) -> (r: Option<Point>)
        ensures
            match r {
                Some(q) => self.neighbor_coords(*d) == Some((q.col(), q.row())),
                None => self.neighbor_coords(*d) is None,
            },
    {
        let (dr, dc) = d.delta();
        let row = self.row.checked_add_signed(dr);
        let col = self.col.checked_add_signed(dc);
        match (row, col) {
            (Some(r), Some(c)) => Some(Point { col: c, row: r }),
            _ => None,
        }
    }
}

// ---------------------------------------------------------------------------
// The grid of cells, held in an `Array2D`
// ---------------------------------------------------------------------------

#[verifier::external_type_specification]
#[verifier::external_body]
#[verifier::reject_recursive_types(T)]
pub struct ExArray2D<T>(Array2D<T>);

#[verifier::external_type_specification]
#[verifier::external_body]
pub struct ExArray2DError(array2d::Error);

/// The rows of a grid, each a sequence of its cells by column.
pub uninterp spec fn grid_rows(a: Array2D<Cell>) -> Seq<Seq<Cell>>;

/// The cell at (`col`, `row`) of `rows`, if that position lies on it.
pub open spec fn cell_at(rows: Seq<Seq<Cell>>, col: int, row: int) -> Option<Cell> {
    if 0 <= row < rows.len() && 0 <= col < rows[row].len() {
        Some(rows[row][col])
    } else {
        None
    }
}

/// Relies on Array2D::filled_with: `num_rows` rows of `num_columns` copies of
/// `element`.
#[verifier::external_body]
fn grid_filled_with(element: Cell, num_rows: usize, num_columns: usize) -> (r: Array2D<Cell>)
    requires
        num_rows * num_columns <= usize::MAX,
    ensures
        grid_rows(r) == Seq::new(num_rows as nat, |i: int| Seq::new(num_columns as nat, |j: int| element)),
{
    Array2D::filled_with(element, num_rows, num_columns)
}

/// Relies on Array2D::get: the element at (`row`, `column`) when both are in
/// bounds, else `None`.
#[verifier::external_body]
fn grid_get(a: &Array2D<Cell>, row: usize, column: usize) -> (r: Option<Cell>)
    ensures
        r == cell_at(grid_rows(*a), column as int, row as int),
{
    a.get(row, column).copied()
}

/// Relies on Array2D::set: replaces the element at (`row`, `column`) when both
/// are in bounds; otherwise returns an error and changes nothing.
#[verifier::external_body]
fn grid_set(a: &mut Array2D<Cell>, row: usize, column: usize, element: Cell) -> (r: Result<(), array2d::Error>)
    ensures
        cell_at(grid_rows(*old(a)), column as int, row as int) is Some ==> r is Ok
            && grid_rows(*final(a)) == grid_rows(*old(a)).update(
            row as int,
            grid_rows(*old(a))[row as int].update(column as int, element),
        ),
        cell_at(grid_rows(*old(a)), column as int, row as int) is None ==> r is Err && grid_rows(
            *final(a),
        ) == grid_rows(*old(a)),
{
    a.set(row, column, element)
}

/// Relies on Array2D::elements_row_major_iter: every element, row after row.
#[verifier::external_body]
fn grid_row_major(a: &Array2D<Cell>) -> (r: Vec<Cell>)
    ensures
        r@ == grid_rows(*a).flatten(),
{
    a.elements_row_major_iter().copied().collect()
}

// ---------------------------------------------------------------------------
// The board
// ---------------------------------------------------------------------------

/// The number of live cells among `cells`.
pub open spec fn alive_in(cells: Seq<Cell>) -> nat {
    cells.filter(|c: Cell| c == Cell::Alive).len()
}

/// Whether the neighbour of `p` in direction `d` lies on the board
/// and is alive.
pub open spec fn neighbor_alive(rows: Seq<Seq<Cell>>, p: Point, d: Direction) -> bool {
    match p.neighbor_coords(d) {
        Some((col, row)) => cell_at(rows, col as int, row as int) == Some(Cell::Alive),
        None => false,
    }
}

/// The directions among `ds` whose neighbour of `p` is alive.
pub open spec fn alive_directions(rows: Seq<Seq<Cell>>, p: Point, ds: Seq<Direction>) -> Seq<Direction> {
    ds.filter(|d: Direction| neighbor_alive(rows, p, d))
}

/// A rectangular board of cells, `width` columns by `height` rows.
#[derive(Debug)]
pub struct GameState {
    width: usize,
    height: usize,
    cells: Array2D<Cell>,
}

impl GameState {
    /// The board as rows of cells.
    pub closed spec fn board(&self) -> Seq<Seq<Cell>> {
        grid_rows(self.cells)
    }

    pub closed spec fn spec_width(&self) -> usize {
        self.width
    }

    pub closed spec fn spec_height(&self) -> usize {
        self.height
    }

    /// The board has `height` rows of `width` cells each.
    pub open spec fn wf(&self) -> bool {
        &&& self.board().len() == self.spec_height()
        &&& forall|i: int| 0 <= i < self.spec_height() ==> (#[trigger] self.board()[i]).len() == self.spec_width()
        &&& self.spec_width() * self.spec_height() <= usize::MAX
    }

    /// A board of `width` by `height` dead cells.
    pub fn new(width: usize, height: usize) -> (g: GameState)
        requires
            width * height <= usize::MAX,
        ensures
            g.wf(),
            g.spec_width() == width,
            g.spec_height() == height,
            forall|i: int, j: int|
                0 <= i < height && 0 <= j < width ==> #[trigger] g.board()[i][j] == Cell::Dead,
    {
        proof {
            assert(height * width == width * height) by (nonlinear_arith);
        }
        GameState { width, height, cells: grid_filled_with(Cell::Dead, height, width) }
    }

    /// Advances the board by one generation. No transition rule is defined
    /// yet, so the board stays as it is.
    pub fn update(&mut self)
        ensures
            final(self).board() == old(self).board(),
            final(self).spec_width() == old(self).spec_width(),
            final(self).spec_height() == old(self).spec_height(),
    {
    }

    #[verifier::when_used_as_spec(spec_width)]
    pub fn width(&self) -> (r: usize)
        ensures
            r == self.spec_width(),
    {
        self.width
    }

    #[verifier::when_used_as_spec(spec_height)]
    pub fn height(&self) -> (r: usize)
        ensures
            r == self.spec_height(),
    {
        self.height
    }

    /// The cell at `p`, or `None` where `p` lies off the board.
    pub fn get_cell(&self, p: Point) -> (r: Option<Cell>)
        ensures
            r == cell_at(self.board(), p.col() as int, p.row() as int),
    {
        grid_get(&self.cells, p.row(), p.col())
    }

    /// Sets the cell at `p`, which must lie on the board.
    pub fn set_cell(&mut self, p: Point, value: Cell)
        requires
            old(self).wf(),
            p.col() < old(self).spec_width(),
            p.row() < old(self).spec_height(),
        ensures
            final(self).wf(),
            final(self).spec_width() == old(self).spec_width(),
            final(self).spec_height() == old(self).spec_height(),
            final(self).board() == old(self).board().update(
                p.row() as int,
                old(self).board()[p.row() as int].update(p.col() as int, value),
            ),
    {
        let r = grid_set(&mut self.cells, p.row(), p.col(), value);
        assert(r is Ok);
        assert forall|i: int| 0 <= i < self.spec_height() implies (#[trigger] self.board()[i]).len()
            == self.spec_width() by {
            if i == p.row() {
            } else {
                assert(self.board()[i] == old(self).board()[i]);
            }
        }
    }
    /// The number of the eight neighbours of `p` that lie on the board and are
    /// alive.
    pub fn alive_neighbor_count(&self, p: Point) -> (r: usize)
        ensures
            r == alive_directions(self.board(), p, all_directions()).len(),
    {
        let dirs = Direction::all();
        let mut count: usize = 0;
        let mut i: usize = 0;
        while i < dirs.len()
            invariant
                i <= dirs.len(),
                dirs@ == all_directions(),
                count == alive_directions(self.board(), p, dirs@.take(i as int)).len(),
                count <= i,
            decreases dirs.len() - i,
        {
            let d = dirs[i];
            proof {
                reveal(Seq::filter);
                assert(dirs@.take(i + 1).drop_last() =~= dirs@.take(i as int));
            }
            match p.get_neighbor(&d) {
                Some(q) => match self.get_cell(q) {
                    Some(c) => {
                        if c.is_alive() {
                            count = count + 1;
                        }
                    },
                    None => {},
                },
                None => {},
            }
            i = i + 1;
        }
        assert(dirs@.take(dirs.len() as int) =~= dirs@);
        count
    }

    /// The number of live cells on the board.
    pub fn alive_cell_count(&self) -> (r: usize)
        ensures
            r == alive_in(self.board().flatten()),
    {
        let cells = grid_row_major(&self.cells);
        let mut count: usize = 0;
        let mut i: usize = 0;
        while i < cells.len()
            invariant
                i <= cells.len(),
                cells@ == self.board().flatten(),
                count == alive_in(cells@.take(i as int)),
                count <= i,
            decreases cells.len() - i,
        {
            proof {
                reveal(Seq::filter);
                assert(cells@.take(i + 1).drop_last() =~= cells@.take(i as int));
            }
            if cells[i].is_alive() {
                count = count + 1;
            }
            i = i + 1;
        }
        assert(cells@.take(cells.len() as int) =~= cells@);
        count
    }
}

} // verus!
