use crate::cell::State;
use crate::grid::{row_states, Grid, GridModel};
use vstd::prelude::*;

verus! {

/// The decimal digit `d` as a character.
pub open spec fn digit_char(d: nat) -> char {
    seq!['0', '1', '2', '3', '4', '5', '6', '7', '8', '9'][d as int]
}

/// The decimal form of `n`, without leading zeros.
pub open spec fn decimal(n: nat) -> Seq<char>
    decreases n,
{
    if n < 10 {
        seq![digit_char(n)]
    } else {
        decimal(n / 10).push(digit_char(n % 10))
    }
}

/// The decimal form of `n`, with zeros in front up to `w` characters.
pub open spec fn zero_padded(n: nat, w: nat) -> Seq<char> {
    let d = decimal(n);
    if d.len() >= w {
        d
    } else {
        Seq::new((w - d.len()) as nat, |k: int| '0') + d
    }
}

/// How many characters each generation index takes: as many as the largest
/// index of the board.
pub open spec fn index_width(epochs: nat) -> nat {
    if epochs == 0 {
        0
    } else {
        decimal((epochs - 1) as nat).len()
    }
}

/// The glyph of a cell: `*` when ON, a space when OFF.
pub open spec fn glyph(s: State) -> char {
    if s == State::ON {
        '*'
    } else {
        ' '
    }
}

/// The line of generation `i`: a line break, the index, `=`, one glyph per
/// cell, `=`, and the index again.
pub open spec fn render_line(row: Seq<State>, i: nat, w: nat) -> Seq<char> {
    seq!['\n'] + zero_padded(i, w) + seq!['='] + row.map_values(|s: State| glyph(s)) + seq!['=']
        + zero_padded(i, w)
}

/// The lines of the first `k` generations of `m`.
pub open spec fn render_rows(m: GridModel, k: nat) -> Seq<char>
    decreases k,
{
    if k == 0 {
        Seq::empty()
    } else {
        render_rows(m, (k - 1) as nat) + render_line(m.states[k - 1], (k - 1) as nat, index_width(m.epochs))
    }
}

/// The text of a whole board.
pub open spec fn render_text(m: GridModel) -> Seq<char> {
    render_rows(m, m.states.len())
}

proof fn lemma_decimal_len(n: nat)
    ensures
        1 <= decimal(n).len() <= n + 1,
        n < 10 ==> decimal(n).len() == 1,
        n >= 10 ==> decimal(n).len() == decimal(n / 10).len() + 1,
    decreases n,
{
    if n >= 10 {
        lemma_decimal_len(n / 10);
    }
}

fn digit_text(d: usize) -> (r: &'static str)
    requires
        d < 10,
    ensures
        r@ == seq![digit_char(d as nat)],
{
    proof {
        reveal_strlit("0");
        reveal_strlit("1");
        reveal_strlit("2");
        reveal_strlit("3");
        reveal_strlit("4");
        reveal_strlit("5");
        reveal_strlit("6");
        reveal_strlit("7");
        reveal_strlit("8");
        reveal_strlit("9");
    }
    let r = match d {
        0 => "0",
        1 => "1",
        2 => "2",
        3 => "3",
        4 => "4",
        5 => "5",
        6 => "6",
        7 => "7",
        8 => "8",
        _ => "9",
    };
    assert(r@ =~= seq![digit_char(d as nat)]);
    r
}

/// Appends the decimal form of `n`.
fn push_decimal(out: &mut String, n: usize)
    ensures
        final(out)@ == old(out)@ + decimal(n as nat),
    decreases n,
{
    if n >= 10 {
        push_decimal(out, n / 10);
    }
    out.append(digit_text(n % 10));
    assert(final(out)@ =~= old(out)@ + decimal(n as nat));
}

/// Number of characters in the decimal form of `n`.
fn decimal_len(n: usize) -> (r: usize)
    ensures
        r == decimal(n as nat).len(),
    decreases n,
{
    proof {
        lemma_decimal_len(n as nat);
    }
    if n < 10 {
        1
    } else {
        let k = decimal_len(n / 10);
        proof {
            lemma_decimal_len((n / 10) as nat);
        }
        k + 1
    }
}

/// Appends the decimal form of `n` with zeros in front up to `w` characters.
fn push_padded(out: &mut String, n: usize, w: usize)
    ensures
        final(out)@ == old(out)@ + zero_padded(n as nat, w as nat),
{
    let d = decimal_len(n);
    if d < w {
        let zeros = w - d;
        for k in 0..zeros
            invariant
                out@ == old(out)@ + Seq::new(k as nat, |i: int| '0'),
        {
            proof {
                reveal_strlit("0");
            }
            out.append("0");
            assert(out@ =~= old(out)@ + Seq::new((k + 1) as nat, |i: int| '0'));
        }
    }
    push_decimal(out, n);
    assert(out@ =~= old(out)@ + zero_padded(n as nat, w as nat));
}

impl Grid {
    /// The board as text: for each generation a line break, its zero-padded
    /// index, `=`, a `*` for each ON cell and a space for each OFF one, `=`,
    /// and the index again.
    pub fn render(&self) -> (r: String)
        requires
            self@.wf(),
        ensures
            r@ == render_text(self@),
    {
        let board = self.board();
        let epochs = self.epochs();
        let w: usize = if epochs == 0 { 0 } else { decimal_len(epochs - 1) };
        let mut out = String::new();
        let n = board.len();
        for i in 0..n
            invariant
                n == board@.len(),
                n == self@.states.len(),
                w == index_width(self@.epochs),
                forall|k: int| 0 <= k < n ==> row_states(#[trigger] board@[k]@) == self@.states[k],
                out@ == render_rows(self@, i as nat),
        {
            proof {
                reveal_strlit("\n");
                reveal_strlit("=");
            }
            out.append("\n");
            push_padded(&mut out, i, w);
            out.append("=");
            let row = &board[i];
            let ghost mid = out@;
            let ghost states = row_states(row@);
            for j in 0..row.len()
                invariant
                    states == row_states(row@),
                    out@ == mid + states.take(j as int).map_values(|s: State| glyph(s)),
            {
                proof {
                    reveal_strlit("*");
                    reveal_strlit(" ");
                }
                if row[j].state == State::ON {
                    out.append("*");
                } else {
                    out.append(" ");
                }
                assert(states.take(j + 1) =~= states.take(j as int).push(states[j as int]));
                assert(out@ =~= mid + states.take(j + 1).map_values(|s: State| glyph(s)));
            }
            assert(states.take(row@.len() as int) =~= states);
            out.append("=");
            push_padded(&mut out, i, w);
            assert(out@ =~= render_rows(self@, (i + 1) as nat));
        }
        out
    }
}

} // verus!
