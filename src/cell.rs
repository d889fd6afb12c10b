use vstd::prelude::*;

verus! {

/// The two states a cell can be in.
#[derive(Copy, Clone, Debug, PartialEq, Eq, Structural)]
pub enum State {
    ON,
    OFF,
}

/// One slot of the board: a diagnostic identifier and a state.
///
/// The identifier never takes part in a transition; only `state` does.
#[derive(Copy, Clone, Debug, PartialEq, Eq, Structural)]
pub struct Cell {
    pub id: usize,
    pub state: State,
}

impl Cell {
    pub fn new(id: usize, state: State) -> (r: Self)
        ensures
            r.id == id,
            r.state == state,
    {
        Self { id, state }
    }

    /// A cell as a fresh board holds it: switched off.
    pub fn default_grid_cell(id: usize) -> (r: Self)
        ensures
            r.id == id,
            r.state == State::OFF,
    {
        Self { id, state: State::OFF }
    }
}

} // verus!
