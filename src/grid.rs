use crate::cell::{Cell, State};
use crate::rule::{rule_output, wolfram};
use vstd::prelude::*;

verus! {

/// Seed overrides for row 0: each entry sets the cell at a column to a state,
/// applied in order, so a later entry for a column wins.
pub type InitialCellConfig = Vec<(State, usize)>;

/// Which neighbour of a cell could not be found.
#[derive(Copy, Clone, Debug, PartialEq, Eq, Structural)]
pub enum Side {
    Left,
    Right,
}

/// Why a stepping pass was abandoned.
#[derive(Copy, Clone, Debug, PartialEq, Eq, Structural)]
pub enum GridError {
    /// A seed entry names a column outside the board.
    InitialCellOutOfBounds { column: usize, width: usize },
    /// A row had a different length from the row it is derived from.
    NeighborResolutionFailure { side: Side, row: usize },
    /// A row that had to be read or written is not on the board.
    RowAccessFailure { row: usize },
}

/// The board: `epochs` generations of `width` cells each, generation 0 first.
pub struct Grid {
    width: usize,
    epochs: usize,
    board: Vec<Vec<Cell>>,
    cell_count: usize,
}

/// What a board holds, as mathematical values.
pub struct GridModel {
    pub width: nat,
    pub epochs: nat,
    /// `states[i][j]`: the state of column `j` in generation `i`.
    pub states: Seq<Seq<State>>,
    /// `ids[i][j]`: the identifier of column `j` in generation `i`.
    pub ids: Seq<Seq<usize>>,
}

impl GridModel {
    /// `epochs` rows of `width` cells each, for states and identifiers alike.
    pub open spec fn wf(self) -> bool {
        &&& self.states.len() == self.epochs
        &&& self.ids.len() == self.epochs
        &&& forall|i: int| 0 <= i < self.epochs ==> #[trigger] self.states[i].len() == self.width
        &&& forall|i: int| 0 <= i < self.epochs ==> #[trigger] self.ids[i].len() == self.width
    }
}

pub open spec fn row_states(row: Seq<Cell>) -> Seq<State> {
    row.map_values(|c: Cell| c.state)
}

pub open spec fn row_ids(row: Seq<Cell>) -> Seq<usize> {
    row.map_values(|c: Cell| c.id)
}

impl View for Grid {
    type V = GridModel;

    closed spec fn view(&self) -> GridModel {
        GridModel {
            width: self.width as nat,
            epochs: self.epochs as nat,
            states: self.board@.map_values(|r: Vec<Cell>| row_states(r@)),
            ids: self.board@.map_values(|r: Vec<Cell>| row_ids(r@)),
        }
    }
}

/// Column of the left neighbour of column `j` in a row of `n` cells; column 0
/// wraps to the last column.
pub open spec fn left_of(n: int, j: int) -> int {
    if j == 0 {
        n - 1
    } else {
        j - 1
    }
}

/// Column of the right neighbour of column `j` in a row of `n` cells; the last
/// column wraps to column 0.
pub open spec fn right_of(n: int, j: int) -> int {
    if j == n - 1 {
        0
    } else {
        j + 1
    }
}

/// The generation that follows `prev` under `rule`, with wraparound at both ends.
pub open spec fn next_row(prev: Seq<State>, rule: u8) -> Seq<State> {
    Seq::new(
        prev.len(),
        |j: int|
            rule_output(
                rule,
                prev[left_of(prev.len() as int, j)],
                prev[j],
                prev[right_of(prev.len() as int, j)],
            ),
    )
}

/// Generation `k` grown from the seed row under `rule`.
pub open spec fn generation(seed: Seq<State>, rule: u8, k: nat) -> Seq<State>
    decreases k,
{
    if k == 0 {
        seed
    } else {
        next_row(generation(seed, rule, (k - 1) as nat), rule)
    }
}

/// Every seed entry names a column of a row `width` cells wide.
pub open spec fn seed_in_bounds(cells: Seq<(State, usize)>, width: nat) -> bool {
    forall|k: int| 0 <= k < cells.len() ==> (#[trigger] cells[k]).1 < width
}

/// Entry `k` is the first seed entry whose column lies outside the row.
pub open spec fn first_out_of_bounds(cells: Seq<(State, usize)>, width: nat, k: int) -> bool {
    &&& 0 <= k < cells.len()
    &&& cells[k].1 >= width
    &&& forall|m: int| 0 <= m < k ==> (#[trigger] cells[m]).1 < width
}

/// `row` with the seed entries written over it in order.
pub open spec fn apply_seed(row: Seq<State>, cells: Seq<(State, usize)>) -> Seq<State>
    decreases cells.len(),
{
    if cells.len() == 0 {
        row
    } else {
        apply_seed(row, cells.drop_last()).update(cells.last().1 as int, cells.last().0)
    }
}

/// `m` with the seed entries written over row 0 (a board without rows stays
/// as it is).
pub open spec fn with_seed(m: GridModel, cells: Seq<(State, usize)>) -> GridModel {
    if m.epochs == 0 {
        m
    } else {
        GridModel { states: m.states.update(0, apply_seed(m.states[0], cells)), ..m }
    }
}

/// `m` with every row after row 0 derived from the one before it under
/// `rule`. Row 0 and the identifiers stay where they were.
pub open spec fn evolved(m: GridModel, rule: u8) -> GridModel {
    GridModel {
        states: Seq::new(m.epochs, |i: int| generation(m.states[0], rule, i as nat)),
        ..m
    }
}

/// Seeding `m` with `cells` succeeds: every entry names a column of the row,
/// and there is a row 0 to write into wherever there is an entry.
pub open spec fn seed_ok(m: GridModel, cells: Seq<(State, usize)>) -> bool {
    &&& seed_in_bounds(cells, m.width)
    &&& (m.epochs == 0 ==> cells.len() == 0)
}

/// The error that seeding `m` with `cells` fails with, where it fails.
pub open spec fn seed_error(m: GridModel, cells: Seq<(State, usize)>, e: GridError) -> bool {
    if seed_in_bounds(cells, m.width) {
        e == GridError::RowAccessFailure { row: 0 }
    } else {
        exists|k: int|
            first_out_of_bounds(cells, m.width, k) && e == (GridError::InitialCellOutOfBounds {
                column: cells[k].1,
                width: m.width as usize,
            })
    }
}

/// A fresh board: every cell OFF, identifiers ascending in row-major order.
pub open spec fn fresh(width: nat, epochs: nat) -> GridModel {
    GridModel {
        width,
        epochs,
        states: Seq::new(epochs, |i: int| Seq::new(width, |j: int| State::OFF)),
        ids: Seq::new(epochs, |i: int| Seq::new(width, |j: int| (i * width + j) as usize)),
    }
}

impl Grid {
    /// Writes into `update_row` the generation that follows `prev_row`, keeping
    /// the identifiers of `update_row`.
    fn do_wolfram_row(prev_row: &Vec<Cell>, update_row: &mut Vec<Cell>, rule: u8, row: usize) -> (r:
        Result<(), GridError>)
        ensures
            prev_row@.len() == old(update_row)@.len() ==> r is Ok,
            prev_row@.len() < old(update_row)@.len() ==> r == Err::<(), GridError>(
                GridError::NeighborResolutionFailure { side: Side::Right, row },
            ),
            prev_row@.len() > old(update_row)@.len() ==> r == Err::<(), GridError>(
                GridError::NeighborResolutionFailure { side: Side::Left, row },
            ),
            r is Ok ==> row_states(final(update_row)@) == next_row(row_states(prev_row@), rule),
            row_ids(final(update_row)@) == row_ids(old(update_row)@),
            r is Err ==> final(update_row)@ == old(update_row)@,
    {
        let n = prev_row.len();
        if n < update_row.len() {
            return Err(GridError::NeighborResolutionFailure { side: Side::Right, row });
        }
        if n > update_row.len() {
            return Err(GridError::NeighborResolutionFailure { side: Side::Left, row });
        }
        let ghost prev = row_states(prev_row@);
        let ghost ids = row_ids(update_row@);
        for j in 0..n
            invariant
                n == prev_row@.len(),
                update_row@.len() == n,
                prev == row_states(prev_row@),
                row_ids(update_row@) == ids,
                forall|k: int| 0 <= k < j ==> #[trigger] update_row@[k].state == next_row(prev, rule)[k],
        {
            let lhs: usize = if j == 0 { n - 1 } else { j - 1 };
            let rhs: usize = if j == n - 1 { 0 } else { j + 1 };
            let next = wolfram(rule, (&prev_row[lhs].state, &prev_row[j].state, &prev_row[rhs].state));
            let id = update_row[j].id;
            update_row.set(j, Cell { id, state: next });
            assert(row_ids(update_row@) =~= ids);
        }
        assert(row_states(update_row@) =~= next_row(prev, rule));
        Ok(())
    }
}

impl Grid {
    fn get_next_cell_id(&mut self) -> (id: usize)
        requires
            old(self).cell_count < usize::MAX,
        ensures
            id == old(self).cell_count,
            final(self).cell_count == old(self).cell_count + 1,
            final(self).width == old(self).width,
            final(self).epochs == old(self).epochs,
            final(self).board == old(self).board,
    {
        let id = self.cell_count;
        self.cell_count += 1;
        id
    }

    /// A board of `epochs` rows of `width` cells, every cell OFF, each cell
    /// with its own identifier, ascending row by row.
    pub fn new(width: usize, epochs: usize) -> (g: Self)
        requires
            width * epochs <= usize::MAX,
        ensures
            g@ == fresh(width as nat, epochs as nat),
    {
        let mut grid = Self { width, epochs, cell_count: 0, board: Vec::new() };
        for i in 0..epochs
            invariant
                width * epochs <= usize::MAX,
                grid.width == width,
                grid.epochs == epochs,
                grid.board@.len() == i,
                grid.cell_count == i * width,
                forall|r: int|
                    #![trigger grid.board@[r]]
                    0 <= r < i ==> grid.board@[r]@.len() == width && forall|c: int|
                        0 <= c < width ==> #[trigger] grid.board@[r]@[c] == (Cell {
                            id: (r * width + c) as usize,
                            state: State::OFF,
                        }),
        {
            assert((i + 1) * width <= epochs * width) by (nonlinear_arith)
                requires
                    i < epochs,
            ;
            assert((i + 1) * width == i * width + width) by (nonlinear_arith);
            let mut row: Vec<Cell> = Vec::new();
            for c in 0..width
                invariant
                    width * epochs <= usize::MAX,
                    (i + 1) * width <= epochs * width,
                    (i + 1) * width == i * width + width,
                    grid.width == width,
                    grid.epochs == epochs,
                    grid.board@.len() == i,
                    grid.cell_count == i * width + c,
                    row@.len() == c,
                    forall|k: int|
                        0 <= k < c ==> #[trigger] row@[k] == (Cell {
                            id: (i * width + k) as usize,
                            state: State::OFF,
                        }),
                    forall|r: int|
                        #![trigger grid.board@[r]]
                        0 <= r < i ==> grid.board@[r]@.len() == width && forall|c: int|
                            0 <= c < width ==> #[trigger] grid.board@[r]@[c] == (Cell {
                                id: (r * width + c) as usize,
                                state: State::OFF,
                            }),
            {
                let id = grid.get_next_cell_id();
                row.push(Cell::default_grid_cell(id));
            }
            grid.board.push(row);
        }
        let ghost m = fresh(width as nat, epochs as nat);
        assert forall|r: int| 0 <= r < epochs implies #[trigger] grid@.states[r] =~= m.states[r] by {
            assert(grid.board@[r]@.len() == width);
        }
        assert forall|r: int| 0 <= r < epochs implies #[trigger] grid@.ids[r] =~= m.ids[r] by {
            assert(grid.board@[r]@.len() == width);
        }
        assert(grid@.states =~= m.states);
        assert(grid@.ids =~= m.ids);
        grid
    }
}

/// The generation of a row of states keeps its length.
pub proof fn lemma_generation_len(seed: Seq<State>, rule: u8, k: nat)
    ensures
        generation(seed, rule, k).len() == seed.len(),
    decreases k,
{
    if k > 0 {
        lemma_generation_len(seed, rule, (k - 1) as nat);
    }
}

impl Grid {
    /// Writes the seed entries over row 0, in order. Nothing is written
    /// unless every entry can be.
    pub fn seed(&mut self, cells: &Vec<(State, usize)>) -> (r: Result<(), GridError>)
        requires
            old(self)@.wf(),
        ensures
            final(self)@.wf(),
            r is Ok <==> seed_ok(old(self)@, cells@),
            r is Ok ==> final(self)@ == with_seed(old(self)@, cells@),
            r matches Err(e) ==> final(self)@ == old(self)@ && seed_error(old(self)@, cells@, e),
    {
        let n = cells.len();
        let ghost m0 = self@;
        for k in 0..n
            invariant
                n == cells@.len(),
                self@ == m0,
                m0.wf(),
                forall|m: int| 0 <= m < k ==> (#[trigger] cells@[m]).1 < self.width,
        {
            let (_, column) = cells[k];
            if column >= self.width {
                assert(first_out_of_bounds(cells@, self@.width, k as int));
                return Err(GridError::InitialCellOutOfBounds { column, width: self.width });
            }
        }
        if n == 0 {
            assert(cells@ =~= Seq::<(State, usize)>::empty());
            proof {
                if self@.epochs > 0 {
                    assert(self@.states =~= self@.states.update(0, self@.states[0]));
                }
            }
            return Ok(());
        }
        if self.board.len() == 0 {
            return Err(GridError::RowAccessFailure { row: 0 });
        }
        assert(self@.states[0].len() == self.width);
        assert(row_states(self.board@[0]@).len() == self.width);
        let mut row: Vec<Cell> = Vec::new();
        std::mem::swap(&mut row, &mut self.board[0]);
        let ghost row0 = row@;
        for k in 0..n
            invariant
                n == cells@.len(),
                seed_in_bounds(cells@, self.width as nat),
                row@.len() == self.width,
                row0.len() == self.width,
                row_ids(row@) == row_ids(row0),
                row_states(row@) == apply_seed(row_states(row0), cells@.take(k as int)),
        {
            let (state, column) = cells[k];
            let id = row[column].id;
            row.set(column, Cell { id, state });
            proof {
                assert(cells@.take(k + 1).drop_last() =~= cells@.take(k as int));
                assert(row_ids(row@) =~= row_ids(row0));
                assert(row_states(row@) =~= apply_seed(row_states(row0), cells@.take(k + 1)));
            }
        }
        self.board.set(0, row);
        proof {
            assert(cells@.take(n as int) =~= cells@);
            assert(self@.states =~= with_seed(m0, cells@).states);
            assert(self@.ids =~= m0.ids);
        }
        Ok(())
    }
}

impl Grid {
    /// Derives every row after row 0 from the row before it, in order.
    fn do_board_tick(&mut self, rule: u8) -> (r: Result<(), GridError>)
        requires
            old(self)@.wf(),
        ensures
            r is Ok,
            final(self)@.wf(),
            final(self)@ == evolved(old(self)@, rule),
    {
        let ghost m0 = self@;
        let n = self.board.len();
        let mut i: usize = 1;
        while i < n
            invariant
                1 <= i,
                n == 0 || i <= n,
                m0.wf(),
                n == m0.epochs,
                self.width == m0.width,
                self.epochs == m0.epochs,
                self.board@.len() == n,
                self@.ids == m0.ids,
                self@.wf(),
                forall|k: int|
                    0 <= k < i && k < n ==> #[trigger] self@.states[k] == generation(m0.states[0], rule, k as nat),
                forall|k: int| i <= k < n ==> #[trigger] self@.states[k] == m0.states[k],
            decreases n - i,
        {
            assert(self@.states[i - 1].len() == self.width && self@.states[i as int].len() == self.width);
            assert(row_states(self.board@[i - 1]@).len() == self.width);
            assert(row_states(self.board@[i as int]@).len() == self.width);
            let ghost before = self@;
            let mut update_row: Vec<Cell> = Vec::new();
            std::mem::swap(&mut update_row, &mut self.board[i]);
            let res = Self::do_wolfram_row(&self.board[i - 1], &mut update_row, rule, i);
            self.board.set(i, update_row);
            if let Err(e) = res {
                return Err(e);
            }
            i = i + 1;
            proof {
                assert(self@.states =~= before.states.update(i - 1, next_row(before.states[i - 2], rule)));
                assert(self@.ids =~= before.ids);
            }
        }
        proof {
            let target = evolved(m0, rule);
            if n > 0 {
                assert(self@.states[0] == generation(m0.states[0], rule, 0));
            }
            assert(self@.states =~= target.states);
        }
        Ok(())
    }

    /// Seeds row 0 with `initial_cells` (none when absent), then derives each
    /// later row from the one before it under `rule`.
    pub fn run_wolfram_rule(self, rule: u8, initial_cells: Option<InitialCellConfig>) -> (r: Result<
        Self,
        GridError,
    >)
        requires
            self@.wf(),
        ensures
            ({
                let cells = match initial_cells {
                    Some(c) => c@,
                    None => Seq::empty(),
                };
                &&& r is Ok <==> seed_ok(self@, cells)
                &&& r matches Ok(g) ==> g@.wf() && g@ == evolved(with_seed(self@, cells), rule)
                &&& r matches Err(e) ==> seed_error(self@, cells, e)
            }),
    {
        let mut grid = self;
        match initial_cells {
            Some(init_cells) => {
                if let Err(e) = grid.seed(&init_cells) {
                    return Err(e);
                }
            },
            None => {
                proof {
                    if grid@.epochs > 0 {
                        assert(grid@.states =~= grid@.states.update(0, grid@.states[0]));
                    }
                }
            },
        }
        let _ = grid.do_board_tick(rule);
        Ok(grid)
    }
}

impl Grid {
    pub fn width(&self) -> (r: usize)
        ensures
            r == self@.width,
    {
        self.width
    }

    pub fn epochs(&self) -> (r: usize)
        ensures
            r == self@.epochs,
    {
        self.epochs
    }

    /// The rows of the board, generation 0 first.
    pub fn board(&self) -> (r: &Vec<Vec<Cell>>)
        ensures
            r@.len() == self@.states.len(),
            forall|i: int|
                0 <= i < r@.len() ==> row_states(#[trigger] r@[i]@) == self@.states[i] && row_ids(r@[i]@)
                    == self@.ids[i],
    {
        &self.board
    }
}

} // verus!
