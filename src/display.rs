//! A fixed-width text grid of a board.
use crate::board::{values_of_cells, Board};
use vstd::prelude::*;
use vstd::string::StringExecFns;

verus! {

/// `n` spaces.
pub open spec fn spaces(n: nat) -> Seq<char> {
    Seq::new(n, |i: int| ' ')
}

/// The decimal digit `d`.
pub open spec fn digit_char(d: nat) -> char {
    if d == 0 {
        '0'
    } else if d == 1 {
        '1'
    } else if d == 2 {
        '2'
    } else if d == 3 {
        '3'
    } else if d == 4 {
        '4'
    } else if d == 5 {
        '5'
    } else if d == 6 {
        '6'
    } else if d == 7 {
        '7'
    } else if d == 8 {
        '8'
    } else {
        '9'
    }
}

/// The decimal digits of `v`, most significant first.
pub open spec fn decimal(v: nat) -> Seq<char>
    decreases v,
{
    if v < 10 {
        seq![digit_char(v)]
    } else {
        decimal(v / 10).push(digit_char(v % 10))
    }
}

/// The spaces before a tile value, so that values up to 32768 end in the same column.
pub open spec fn prefix_width(v: nat) -> nat {
    if v < 10 {
        5
    } else if v < 100 {
        4
    } else if v < 1000 {
        3
    } else if v < 10000 {
        2
    } else {
        1
    }
}

/// One cell: a border, then the value right-aligned in 7 columns; blank when empty.
pub open spec fn cell_text(v: nat) -> Seq<char> {
    if v == 0 {
        seq!['║'] + spaces(7)
    } else {
        seq!['║'] + spaces(prefix_width(v)) + decimal(v) + seq![' ']
    }
}

/// A horizontal rule of the grid, with its corner and junction characters.
pub open spec fn rule_text(left: char, mid: char, right: char) -> Seq<char> {
    let bars = Seq::new(7, |i: int| '═');
    seq![left] + bars + seq![mid] + bars + seq![mid] + bars + seq![mid] + bars + seq![right]
        + seq!['\n']
}

/// The rule under row `k`.
pub open spec fn rule_under(k: int) -> Seq<char> {
    if k < 3 {
        rule_text('╠', '╬', '╣')
    } else {
        rule_text('╚', '╩', '╝')
    }
}

/// The grid of the tile values `t` down to the rule under row `k - 1`: the top rule, then
/// for each row its four cells, a closing border and the rule under it.
pub open spec fn rows_text(t: Seq<u16>, k: int) -> Seq<char>
    decreases k,
{
    if k <= 0 {
        seq!['\n'] + rule_text('╔', '╦', '╗')
    } else {
        let j = 4 * (k - 1);
        rows_text(t, k - 1) + cell_text(t[j] as nat) + cell_text(t[j + 1] as nat) + cell_text(
            t[j + 2] as nat,
        ) + cell_text(t[j + 3] as nat) + seq!['║', '\n'] + rule_under(k - 1)
    }
}

/// The whole grid of the tile values `t`.
pub open spec fn grid_text(t: Seq<u16>) -> Seq<char> {
    rows_text(t, 4)
}

/// The decimal digit `d`, as text.
fn digit_str(d: u16) -> (r: &'static str)
    requires
        d < 10,
    ensures
        r@ == seq![digit_char(d as nat)],
{
    proof {
        reveal_strlit("0");
        reveal_strlit("1");
        reveal_strlit("2");
        reveal_strlit("3");
        reveal_strlit("4");
        reveal_strlit("5");
        reveal_strlit("6");
        reveal_strlit("7");
        reveal_strlit("8");
        reveal_strlit("9");
    }
    match d {
        0 => "0",
        1 => "1",
        2 => "2",
        3 => "3",
        4 => "4",
        5 => "5",
        6 => "6",
        7 => "7",
        8 => "8",
        9 => "9",
        _ => "9",
    }
}

/// Appends the decimal digits of `v`.
fn push_decimal(s: &mut String, v: u16)
    ensures
        final(s)@ == old(s)@ + decimal(v as nat),
    decreases v,
{
    if v >= 10 {
        push_decimal(s, v / 10);
    }
    s.append(digit_str(v % 10));
    assert(final(s)@ =~= old(s)@ + decimal(v as nat));
}

/// The spaces before a tile value in the grid.
pub fn get_spaces_prefix(tile: u16) -> (r: &'static str)
    ensures
        r@ == spaces(prefix_width(tile as nat)),
{
    proof {
        reveal_strlit("     ");
        reveal_strlit("    ");
        reveal_strlit("   ");
        reveal_strlit("  ");
        reveal_strlit(" ");
    }
    let r = if tile < 10 {
        "     "
    } else if tile < 100 {
        "    "
    } else if tile < 1000 {
        "   "
    } else if tile < 10000 {
        "  "
    } else {
        " "
    };
    assert(r@ =~= spaces(prefix_width(tile as nat)));
    r
}

/// Appends the cell of value `v`.
fn push_cell(s: &mut String, v: u16)
    ensures
        final(s)@ == old(s)@ + cell_text(v as nat),
{
    if v == 0 {
        proof {
            reveal_strlit("║       ");
        }
        s.append("║       ");
        assert(final(s)@ =~= old(s)@ + cell_text(v as nat));
    } else {
        proof {
            reveal_strlit("║");
            reveal_strlit(" ");
        }
        s.append("║");
        s.append(get_spaces_prefix(v));
        push_decimal(s, v);
        s.append(" ");
        assert(final(s)@ =~= old(s)@ + cell_text(v as nat));
    }
}

/// Appends the border that closes a row.
fn push_row_end(s: &mut String)
    ensures
        final(s)@ == old(s)@ + seq!['║', '\n'],
{
    proof {
        reveal_strlit("║\n");
    }
    s.append("║\n");
    assert("║\n"@ =~= seq!['║', '\n']);
}

/// Appends the rule under row `k`.
fn push_rule(s: &mut String, k: usize)
    ensures
        final(s)@ == old(s)@ + rule_under(k as int),
{
    if k < 3 {
        proof {
            reveal_strlit("╠═══════╬═══════╬═══════╬═══════╣\n");
        }
        s.append("╠═══════╬═══════╬═══════╬═══════╣\n");
        assert("╠═══════╬═══════╬═══════╬═══════╣\n"@ =~= rule_text('╠', '╬', '╣'));
    } else {
        proof {
            reveal_strlit("╚═══════╩═══════╩═══════╩═══════╝\n");
        }
        s.append("╚═══════╩═══════╩═══════╩═══════╝\n");
        assert("╚═══════╩═══════╩═══════╩═══════╝\n"@ =~= rule_text('╚', '╩', '╝'));
    }
}

impl Board {
    /// The board as a grid of text, one line per row, with the values right-aligned and
    /// empty cells left blank.
    pub fn to_grid_string(self) -> (r: String)
        ensures
            r@ == grid_text(values_of_cells(self@)),
    {
        let tiles = self.to_tiles();
        let ghost t = tiles@;
        let mut s = String::new();
        proof {
            reveal_strlit("\n╔═══════╦═══════╦═══════╦═══════╗\n");
        }
        s.append("\n╔═══════╦═══════╦═══════╦═══════╗\n");
        assert(s@ =~= rows_text(t, 0));
        let mut k: usize = 0;
        while k < 4
            invariant
                k <= 4,
                t == tiles@,
                t.len() == 16,
                s@ == rows_text(t, k as int),
            decreases 4 - k,
        {
            push_cell(&mut s, tiles[4 * k]);
            push_cell(&mut s, tiles[4 * k + 1]);
            push_cell(&mut s, tiles[4 * k + 2]);
            push_cell(&mut s, tiles[4 * k + 3]);
            push_row_end(&mut s);
            push_rule(&mut s, k);
            k += 1;
        }
        s
    }
}

} // verus!
