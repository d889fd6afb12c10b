use crate::cell::{Cell, State};
use crate::grid::{
    evolved, generation, left_of, lemma_generation_len, next_row, right_of, row_states, seed_error, seed_ok,
    with_seed, GridError, GridModel,
};
use crate::render::{render_rows, render_text};
use crate::rule::{bit_set, pattern_index, rule_output};
use vstd::prelude::*;

verus! {

/// Determinism: boards of the same size whose row 0 agrees end up with the
/// same states after seeding with the same entries and running the same rule,
/// whatever their other rows held before.
pub proof fn lemma_runs_agree(a: GridModel, b: GridModel, rule: u8, cells: Seq<(State, usize)>)
    requires
        a.wf(),
        b.wf(),
        a.width == b.width,
        a.epochs == b.epochs,
        a.epochs > 0 ==> a.states[0] == b.states[0],
    ensures
        evolved(with_seed(a, cells), rule).states == evolved(with_seed(b, cells), rule).states,
{
    assert(evolved(with_seed(a, cells), rule).states =~= evolved(with_seed(b, cells), rule).states);
}

/// Identifiers take no part in a transition: giving one cell of a row another
/// identifier leaves the next generation as it was.
pub proof fn lemma_id_change_keeps_step(row: Seq<Cell>, j: int, new_id: usize, rule: u8)
    requires
        0 <= j < row.len(),
    ensures
        next_row(row_states(row.update(j, Cell { id: new_id, state: row[j].state })), rule) == next_row(
            row_states(row),
            rule,
        ),
{
    assert(row_states(row.update(j, Cell { id: new_id, state: row[j].state })) =~= row_states(row));
}

/// Wraparound: in a row of `w` cells the left neighbour of column 0 is column
/// `w - 1` and the right neighbour of column `w - 1` is column 0, so the ends
/// of each generation are computed from the far end of the previous one.
pub proof fn lemma_wraparound(seed: Seq<State>, rule: u8, i: nat)
    requires
        seed.len() >= 1,
        i >= 1,
    ensures
        left_of(seed.len() as int, 0) == seed.len() - 1,
        right_of(seed.len() as int, seed.len() - 1) == 0,
        ({
            let w = seed.len() as int;
            let prev = generation(seed, rule, (i - 1) as nat);
            let cur = generation(seed, rule, i);
            &&& cur.len() == w
            &&& cur[0] == rule_output(rule, prev[w - 1], prev[0], prev[right_of(w, 0)])
            &&& cur[w - 1] == rule_output(rule, prev[left_of(w, w - 1)], prev[w - 1], prev[0])
        }),
{
    lemma_generation_len(seed, rule, (i - 1) as nat);
    lemma_generation_len(seed, rule, i);
}

proof fn lemma_zero_bits(k: u8)
    by (bit_vector)
    ensures
        (0u8 >> k) & 1u8 == 0u8,
{
}

proof fn lemma_full_bits(k: u8)
    by (bit_vector)
    requires
        k < 8,
    ensures
        (255u8 >> k) & 1u8 == 1u8,
{
}

/// Rule 0 switches every cell off in every generation after the seed row.
pub proof fn lemma_rule_zero(seed: Seq<State>, i: nat)
    requires
        i >= 1,
    ensures
        generation(seed, 0, i) == Seq::new(seed.len(), |j: int| State::OFF),
{
    let prev = generation(seed, 0, (i - 1) as nat);
    assert forall|j: int| 0 <= j < prev.len() implies #[trigger] next_row(prev, 0)[j] == State::OFF by {
        let p = pattern_index(prev[left_of(prev.len() as int, j)], prev[j], prev[right_of(prev.len() as int, j)]);
        lemma_zero_bits((7 - p) as u8);
        assert(!bit_set(0, (7 - p) as nat));
    }
    lemma_generation_len(seed, 0, (i - 1) as nat);
    assert(generation(seed, 0, i) =~= Seq::new(seed.len(), |j: int| State::OFF));
}

/// Rule 255 switches every cell on in every generation after the seed row.
pub proof fn lemma_rule_full(seed: Seq<State>, i: nat)
    requires
        i >= 1,
    ensures
        generation(seed, 255, i) == Seq::new(seed.len(), |j: int| State::ON),
{
    let prev = generation(seed, 255, (i - 1) as nat);
    assert forall|j: int| 0 <= j < prev.len() implies #[trigger] next_row(prev, 255)[j] == State::ON by {
        let p = pattern_index(prev[left_of(prev.len() as int, j)], prev[j], prev[right_of(prev.len() as int, j)]);
        lemma_full_bits((7 - p) as u8);
        assert(bit_set(255, (7 - p) as nat));
    }
    lemma_generation_len(seed, 255, (i - 1) as nat);
    assert(generation(seed, 255, i) =~= Seq::new(seed.len(), |j: int| State::ON));
}

/// Bounds checking: a seed entry at column `width` or beyond makes seeding
/// fail, and the failure names a column outside the row.
pub proof fn lemma_seed_past_width_fails(m: GridModel, cells: Seq<(State, usize)>, k: int, e: GridError)
    requires
        0 <= k < cells.len(),
        cells[k].1 >= m.width,
        seed_error(m, cells, e),
    ensures
        !seed_ok(m, cells),
        e matches GridError::InitialCellOutOfBounds { column, width } && column >= width && width == m.width,
{
}

proof fn lemma_render_rows_agree(a: GridModel, b: GridModel, k: nat)
    requires
        a.states == b.states,
        a.epochs == b.epochs,
    ensures
        render_rows(a, k) == render_rows(b, k),
    decreases k,
{
    if k > 0 {
        lemma_render_rows_agree(a, b, (k - 1) as nat);
    }
}

/// Rendering is a function of the board's states: rendering the same board
/// twice, or two boards that differ only in identifiers, gives the same text.
pub proof fn lemma_render_repeatable(a: GridModel, b: GridModel)
    requires
        a.states == b.states,
        a.epochs == b.epochs,
    ensures
        render_text(a) == render_text(b),
{
    lemma_render_rows_agree(a, b, a.states.len());
}

} // verus!
