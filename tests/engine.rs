use cellato::cell::{Cell, State};
use cellato::grid::{Grid, GridError};
use cellato::rule::{slow_wolfram, wolfram, WolframRule};
use cellato::session::{on_key, CellatoResult, KeyAction, RuleCycling};

fn states(grid: &Grid) -> Vec<Vec<State>> {
    grid.board().iter().map(|row| row.iter().map(|c| c.state).collect()).collect()
}

fn row_of(text: &str) -> Vec<State> {
    text.chars().map(|c| if c == '*' { State::ON } else { State::OFF }).collect()
}

fn run(width: usize, epochs: usize, rule: u8, seed: Vec<(State, usize)>) -> Result<Grid, GridError> {
    Grid::new(width, epochs).run_wolfram_rule(rule, Some(seed))
}

#[test]
fn golden_rule_one_width_five() {
    let grid = run(5, 2, 1, vec![(State::ON, 2)]).ok().unwrap();
    let s = states(&grid);
    assert_eq!(s.len(), 2);
    assert_eq!(s[0], vec![State::OFF, State::OFF, State::ON, State::OFF, State::OFF]);
    assert_eq!(s[1], vec![State::ON, State::OFF, State::OFF, State::OFF, State::ON]);
}

#[test]
fn rule_ninety_sierpinski_rows() {
    let grid = run(7, 4, 90, vec![(State::ON, 3)]).ok().unwrap();
    let s = states(&grid);
    assert_eq!(s[0], row_of("   *   "));
    assert_eq!(s[1], row_of("  * *  "));
    assert_eq!(s[2], row_of(" *   * "));
    assert_eq!(s[3], row_of("* * * *"));
}

#[test]
fn two_runs_give_identical_boards() {
    for rule in [0u8, 1, 30, 90, 110, 184, 255] {
        let seed = vec![(State::ON, 1), (State::ON, 6), (State::OFF, 1), (State::ON, 3)];
        let a = run(9, 12, rule, seed.clone()).ok().unwrap();
        let b = run(9, 12, rule, seed).ok().unwrap();
        assert_eq!(states(&a), states(&b));
        assert_eq!(a.render(), b.render());
    }
}

#[test]
fn identifiers_are_row_major_and_kept_by_stepping() {
    let fresh = Grid::new(4, 3);
    let grid = fresh.run_wolfram_rule(30, Some(vec![(State::ON, 2)])).ok().unwrap();
    for (r, row) in grid.board().iter().enumerate() {
        for (c, cell) in row.iter().enumerate() {
            assert_eq!(cell.id, r * 4 + c);
        }
    }
}

#[test]
fn identifiers_do_not_enter_the_transition() {
    let a = Cell::new(0, State::ON);
    let b = Cell::new(999, State::ON);
    let off = Cell::default_grid_cell(7);
    assert_eq!(off.state, State::OFF);
    assert_eq!(off.id, 7);
    for rule in 0..=255u8 {
        assert_eq!(
            wolfram(rule, (&off.state, &a.state, &off.state)),
            wolfram(rule, (&off.state, &b.state, &off.state))
        );
    }
}

#[test]
fn left_edge_wraps_to_last_column() {
    // Rule 240 copies the left neighbour, so the pattern moves one column right.
    let grid = run(3, 3, 240, vec![(State::ON, 2)]).ok().unwrap();
    let s = states(&grid);
    assert_eq!(s[1], row_of("*  "));
    assert_eq!(s[2], row_of(" * "));
}

#[test]
fn right_edge_wraps_to_first_column() {
    // Rule 170 copies the right neighbour, so the pattern moves one column left.
    let grid = run(4, 2, 170, vec![(State::ON, 0)]).ok().unwrap();
    assert_eq!(states(&grid)[1], row_of("   *"));
}

#[test]
fn width_one_sees_itself_on_both_sides() {
    let grid = run(1, 3, 1, vec![]).ok().unwrap();
    let s = states(&grid);
    assert_eq!(s[0], vec![State::OFF]);
    assert_eq!(s[1], vec![State::ON]);
    assert_eq!(s[2], vec![State::OFF]);
}

#[test]
fn rule_zero_clears_every_later_row() {
    let seed = vec![(State::ON, 0), (State::ON, 2), (State::ON, 5)];
    let grid = run(6, 5, 0, seed).ok().unwrap();
    let s = states(&grid);
    assert_eq!(s[0], row_of("* *  *"));
    for row in &s[1..] {
        assert_eq!(row, &vec![State::OFF; 6]);
    }
}

#[test]
fn rule_full_fills_every_later_row() {
    let grid = run(6, 5, 255, vec![]).ok().unwrap();
    let s = states(&grid);
    assert_eq!(s[0], vec![State::OFF; 6]);
    for row in &s[1..] {
        assert_eq!(row, &vec![State::ON; 6]);
    }
}

#[test]
fn seed_at_width_is_out_of_bounds() {
    let r = run(5, 2, 1, vec![(State::ON, 5)]);
    assert_eq!(r.err(), Some(GridError::InitialCellOutOfBounds { column: 5, width: 5 }));
}

#[test]
fn first_bad_seed_entry_is_reported() {
    let r = run(5, 2, 1, vec![(State::ON, 1), (State::ON, 8), (State::ON, 6)]);
    assert_eq!(r.err(), Some(GridError::InitialCellOutOfBounds { column: 8, width: 5 }));
}

#[test]
fn failed_seed_leaves_board_untouched() {
    let mut grid = Grid::new(5, 2);
    let before = states(&grid);
    let r = grid.seed(&vec![(State::ON, 1), (State::ON, 5)]);
    assert_eq!(r, Err(GridError::InitialCellOutOfBounds { column: 5, width: 5 }));
    assert_eq!(states(&grid), before);
}

#[test]
fn later_seed_entry_wins() {
    let grid = run(4, 1, 0, vec![(State::ON, 1), (State::OFF, 1), (State::ON, 3)]).ok().unwrap();
    assert_eq!(states(&grid)[0], row_of("   *"));
}

#[test]
fn no_seed_leaves_row_zero_off() {
    let grid = Grid::new(3, 2).run_wolfram_rule(1, None).ok().unwrap();
    assert_eq!(states(&grid), vec![vec![State::OFF; 3], vec![State::ON; 3]]);
}

#[test]
fn seed_without_rows_has_no_row_zero() {
    let r = run(3, 0, 1, vec![(State::ON, 1)]);
    assert_eq!(r.err(), Some(GridError::RowAccessFailure { row: 0 }));
    let empty = run(3, 0, 1, vec![]).ok().unwrap();
    assert_eq!(empty.board().len(), 0);
    assert_eq!(empty.render(), "");
}

#[test]
fn dimensions_are_kept() {
    let grid = run(8, 3, 30, vec![(State::ON, 4)]).ok().unwrap();
    assert_eq!(grid.width(), 8);
    assert_eq!(grid.epochs(), 3);
    assert!(grid.board().iter().all(|row| row.len() == 8));
}

#[test]
fn render_exact_text() {
    let grid = run(5, 2, 1, vec![(State::ON, 2)]).ok().unwrap();
    assert_eq!(grid.render(), "\n0=  *  =0\n1=*   *=1");
}

#[test]
fn render_pads_indices_to_the_largest() {
    let grid = run(2, 11, 0, vec![(State::ON, 0)]).ok().unwrap();
    let text = grid.render();
    let lines: Vec<&str> = text.split('\n').collect();
    assert_eq!(lines.len(), 12);
    assert_eq!(lines[0], "");
    assert_eq!(lines[1], "00=* =00");
    assert_eq!(lines[2], "01=  =01");
    assert_eq!(lines[11], "10=  =10");
}

#[test]
fn render_twice_is_identical() {
    let grid = run(13, 7, 110, vec![(State::ON, 12)]).ok().unwrap();
    assert_eq!(grid.render(), grid.render());
}

#[test]
fn wolfram_pattern_table() {
    let on = State::ON;
    let off = State::OFF;
    // Rule 30 = 00011110.
    assert_eq!(wolfram(30, (&on, &on, &on)), off);
    assert_eq!(wolfram(30, (&on, &on, &off)), off);
    assert_eq!(wolfram(30, (&on, &off, &on)), off);
    assert_eq!(wolfram(30, (&on, &off, &off)), on);
    assert_eq!(wolfram(30, (&off, &on, &on)), on);
    assert_eq!(wolfram(30, (&off, &on, &off)), on);
    assert_eq!(wolfram(30, (&off, &off, &on)), on);
    assert_eq!(wolfram(30, (&off, &off, &off)), off);
    assert_eq!(wolfram(1, (&off, &off, &off)), on);
    assert_eq!(wolfram(128, (&on, &on, &on)), on);
}

#[test]
fn flags_and_rule_number_agree() {
    let rule30 = WolframRule(false, false, false, true, true, true, true, false);
    assert_eq!(u8::from(rule30), 30);
    assert_eq!(u8::from(WolframRule(true, false, false, false, false, false, false, false)), 128);
    assert_eq!(u8::from(WolframRule(false, false, false, false, false, false, false, true)), 1);
    let states = [State::ON, State::OFF];
    for l in states {
        for c in states {
            for r in states {
                assert_eq!(slow_wolfram(rule30, (&l, &c, &r)), wolfram(30, (&l, &c, &r)));
            }
        }
    }
}

#[test]
fn exit_codes() {
    assert_eq!(CellatoResult::Success.code(), 0);
    assert_eq!(CellatoResult::InvalidCommand.code(), 64);
    assert_eq!(CellatoResult::GridError.code(), 70);
}

#[test]
fn keys_step_the_rule() {
    assert_eq!(on_key(41, 'n', RuleCycling::Wrap), KeyAction::Redraw(42));
    assert_eq!(on_key(41, 'b', RuleCycling::Clamp), KeyAction::Redraw(40));
    assert_eq!(on_key(41, 'e', RuleCycling::Wrap), KeyAction::Quit);
    assert_eq!(on_key(41, 'x', RuleCycling::Wrap), KeyAction::InvalidKey);
}

#[test]
fn rule_cycling_at_the_ends() {
    assert_eq!(on_key(255, 'n', RuleCycling::Wrap), KeyAction::Redraw(0));
    assert_eq!(on_key(0, 'b', RuleCycling::Wrap), KeyAction::Redraw(255));
    assert_eq!(on_key(255, 'n', RuleCycling::Clamp), KeyAction::Redraw(255));
    assert_eq!(on_key(0, 'b', RuleCycling::Clamp), KeyAction::Redraw(0));
}
