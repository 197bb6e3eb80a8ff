//! Rows of the board, packed as four 4-bit exponents in a `u16`, and the slide-and-merge
//! rule applied to one row.
use vstd::arithmetic::power2::{lemma2_to64, pow2};
use vstd::prelude::*;

verus! {

/// The largest exponent a cell can hold: a tile of value 2^15 = 32768.
pub const MAX_EXPONENT: u8 = 15;

/// Number of distinct packed rows.
pub const ROW_COUNT: usize = 65536;

/// The four exponents of a packed row, leftmost cell first (the leftmost cell is held by
/// the most significant nibble).
pub open spec fn row_cells(row: u16) -> Seq<nat> {
    seq![
        ((row >> 12u16) & 0xFu16) as nat,
        ((row >> 8u16) & 0xFu16) as nat,
        ((row >> 4u16) & 0xFu16) as nat,
        (row & 0xFu16) as nat,
    ]
}

/// The non-empty cells of `s`, in order.
pub open spec fn compact(s: Seq<nat>) -> Seq<nat>
    decreases s.len(),
{
    if s.len() == 0 {
        s
    } else if s[0] == 0 {
        compact(s.drop_first())
    } else {
        seq![s[0]] + compact(s.drop_first())
    }
}

/// Merges equal neighbours of an already compacted line, scanning from its front: each tile
/// merges at most once, and two tiles of the largest exponent do not merge (their sum
/// cannot be represented).
pub open spec fn merge_pairs(s: Seq<nat>) -> Seq<nat>
    decreases s.len(),
{
    if s.len() < 2 {
        s
    } else if s[0] == s[1] && s[0] < MAX_EXPONENT {
        seq![(s[0] + 1) as nat] + merge_pairs(s.subrange(2, s.len() as int))
    } else {
        seq![s[0]] + merge_pairs(s.drop_first())
    }
}

/// `s` followed by empty cells up to length `n`.
pub open spec fn pad_empty(s: Seq<nat>, n: nat) -> Seq<nat> {
    s + Seq::new((n - s.len()) as nat, |k: int| 0nat)
}

/// A line slid towards its front (index 0): compaction, then merging, then compaction.
pub open spec fn slide_left(s: Seq<nat>) -> Seq<nat> {
    pad_empty(merge_pairs(compact(s)), s.len())
}

/// A line slid towards its back: the mirror image of sliding the mirrored line.
pub open spec fn slide_right(s: Seq<nat>) -> Seq<nat> {
    slide_left(s.reverse()).reverse()
}

/// Exponents as naturals.
pub open spec fn nats(s: Seq<u8>) -> Seq<nat> {
    s.map_values(|x: u8| x as nat)
}

proof fn lemma_pack_row_bits(a: u16, b: u16, c: u16, d: u16, r: u16)
    by (bit_vector)
    requires
        a < 16,
        b < 16,
        c < 16,
        d < 16,
        r == (a << 12u16) | (b << 8u16) | (c << 4u16) | d,
    ensures
        (r >> 12u16) & 0xFu16 == a,
        (r >> 8u16) & 0xFu16 == b,
        (r >> 4u16) & 0xFu16 == c,
        r & 0xFu16 == d,
{
}

proof fn lemma_row_cell_bits(row: u16, j: u16, r: u16)
    by (bit_vector)
    requires
        j < 4,
        r == (row >> ((12 - 4 * j) as u16)) & 0xFu16,
    ensures
        r < 16,
        j == 0 ==> r == (row >> 12u16) & 0xFu16,
        j == 1 ==> r == (row >> 8u16) & 0xFu16,
        j == 2 ==> r == (row >> 4u16) & 0xFu16,
        j == 3 ==> r == row & 0xFu16,
{
}

proof fn lemma_set_in_row_bits(row: u16, idx: u16, value: u16, r: u16)
    by (bit_vector)
    requires
        idx < 4,
        value < 16,
        r == (row & !(0xFu16 << ((4 * (3 - idx)) as u16))) | (value << ((4 * (3 - idx)) as u16)),
    ensures
        (r >> 12u16) & 0xFu16 == (if idx == 0 { value } else { (row >> 12u16) & 0xFu16 }),
        (r >> 8u16) & 0xFu16 == (if idx == 1 { value } else { (row >> 8u16) & 0xFu16 }),
        (r >> 4u16) & 0xFu16 == (if idx == 2 { value } else { (row >> 4u16) & 0xFu16 }),
        r & 0xFu16 == (if idx == 3 { value } else { row & 0xFu16 }),
{
}

/// Packs four exponents into a row, leftmost first.
pub fn pack_row(a: u8, b: u8, c: u8, d: u8) -> (r: u16)
    requires
        a < 16,
        b < 16,
        c < 16,
        d < 16,
    ensures
        row_cells(r) == seq![a as nat, b as nat, c as nat, d as nat],
{
    let r: u16 = ((a as u16) << 12u16) | ((b as u16) << 8u16) | ((c as u16) << 4u16) | (d as u16);
    proof {
        lemma_pack_row_bits(a as u16, b as u16, c as u16, d as u16, r);
    }
    assert(row_cells(r) =~= seq![a as nat, b as nat, c as nat, d as nat]);
    r
}

/// The exponent in cell `j` (from the left) of a packed row.
pub fn row_cell(row: u16, j: u8) -> (r: u8)
    requires
        j < 4,
    ensures
        r as nat == row_cells(row)[j as int],
        r < 16,
{
    let v: u16 = (row >> (12 - 4 * j as u16)) & 0xF;
    proof {
        lemma_row_cell_bits(row, j as u16, v);
    }
    v as u8
}

/// Returns `row` with cell `idx` (from the left) holding the exponent `value`.
pub fn set_value_in_row(row: u16, idx: u8, value: u8) -> (r: u16)
    requires
        idx < 4,
        value < 16,
    ensures
        row_cells(r) == row_cells(row).update(idx as int, value as nat),
{
    let shift: u16 = 4 * (3 - idx as u16);
    // 0000 at the cell, 1s everywhere else
    let clear_mask: u16 = !(0b1111u16 << shift);
    let update_mask: u16 = (value as u16) << shift;
    let r = (row & clear_mask) | update_mask;
    proof {
        lemma_set_in_row_bits(row, idx as u16, value as u16, r);
    }
    assert(row_cells(r) =~= row_cells(row).update(idx as int, value as nat));
    r
}

proof fn lemma_compact_step(s: Seq<nat>, i: int)
    requires
        0 <= i < s.len(),
    ensures
        compact(s.subrange(i, s.len() as int)) == (if s[i] == 0 {
            compact(s.subrange(i + 1, s.len() as int))
        } else {
            seq![s[i]] + compact(s.subrange(i + 1, s.len() as int))
        }),
{
    let t = s.subrange(i, s.len() as int);
    assert(t.drop_first() =~= s.subrange(i + 1, s.len() as int));
}

proof fn lemma_merge_front(p: nat, v: nat, rest: Seq<nat>)
    ensures
        merge_pairs(seq![p] + (seq![v] + rest)) == (if p == v && p < MAX_EXPONENT {
            seq![(p + 1) as nat] + merge_pairs(rest)
        } else {
            seq![p] + merge_pairs(seq![v] + rest)
        }),
{
    let s = seq![p] + (seq![v] + rest);
    assert(s.subrange(2, s.len() as int) =~= rest);
    assert(s.drop_first() =~= seq![v] + rest);
}

/// The pending tile of the sliding loop, as a line of zero or one cell.
spec fn pending_line(p: u8) -> Seq<nat> {
    if p == 0 {
        Seq::empty()
    } else {
        seq![p as nat]
    }
}

/// The row slid to the left: tiles move to the leftmost free cells and equal neighbours
/// merge once, from the left.
pub fn get_left_move(row: u16) -> (r: u16)
    ensures
        row_cells(r) == slide_left(row_cells(row)),
{
    let ghost cells = row_cells(row);
    let mut out: Vec<u8> = Vec::new();
    let mut pending: u8 = 0;
    let mut i: u8 = 0;
    assert(cells.subrange(0, 4) =~= cells);
    while i < 4
        invariant
            i <= 4,
            pending < 16,
            cells == row_cells(row),
            out.len() + (if pending == 0 { 0int } else { 1int }) <= i,
            forall|t: int| 0 <= t < out.len() ==> 0 < #[trigger] out[t] < 16,
            merge_pairs(compact(cells)) == nats(out@) + merge_pairs(
                pending_line(pending) + compact(cells.subrange(i as int, 4)),
            ),
        decreases 4 - i,
    {
        let v = row_cell(row, i);
        let ghost rest = compact(cells.subrange(i + 1, 4));
        proof {
            lemma_compact_step(cells, i as int);
        }
        if v != 0 {
            if pending == v && v < MAX_EXPONENT {
                proof {
                    lemma_merge_front(pending as nat, v as nat, rest);
                }
                let ghost before = out@;
                out.push(v + 1);
                pending = 0;
                assert(nats(out@) =~= nats(before) + seq![(v + 1) as nat]);
                assert(pending_line(pending) + rest =~= rest);
            } else {
                if pending != 0 {
                    proof {
                        lemma_merge_front(pending as nat, v as nat, rest);
                    }
                    let ghost before = out@;
                    out.push(pending);
                    assert(nats(out@) =~= nats(before) + seq![pending as nat]);
                } else {
                    assert(pending_line(pending) + (seq![v as nat] + rest) =~= seq![v as nat] + rest);
                }
                pending = v;
                assert(pending_line(pending) + rest =~= seq![v as nat] + rest);
            }
        } else {
        }
        i += 1;
    }
    assert(cells.subrange(4, 4) =~= Seq::<nat>::empty());
    assert(pending_line(pending) + compact(Seq::<nat>::empty()) =~= pending_line(pending));
    if pending != 0 {
        let ghost before = out@;
        out.push(pending);
        assert(nats(out@) =~= nats(before) + seq![pending as nat]);
    }
    let a = if out.len() > 0 { out[0] } else { 0 };
    let b = if out.len() > 1 { out[1] } else { 0 };
    let c = if out.len() > 2 { out[2] } else { 0 };
    let d = if out.len() > 3 { out[3] } else { 0 };
    let r = pack_row(a, b, c, d);
    assert(seq![a as nat, b as nat, c as nat, d as nat] =~= slide_left(cells));
    r
}

/// The row with its cells in reverse order.
pub fn invert_row(row: u16) -> (r: u16)
    ensures
        row_cells(r) == row_cells(row).reverse(),
{
    let r = pack_row(row_cell(row, 3), row_cell(row, 2), row_cell(row, 1), row_cell(row, 0));
    assert(row_cells(r) =~= row_cells(row).reverse());
    r
}

/// The row slid to the right.
pub fn get_right_move(row: u16) -> (r: u16)
    ensures
        row_cells(r) == slide_right(row_cells(row)),
{
    invert_row(get_left_move(invert_row(row)))
}

/// For every packed row, the row slid to the left, indexed by the row.
pub fn build_left_moves_table() -> (t: Vec<u16>)
    ensures
        t.len() == ROW_COUNT,
        forall|r: int|
            0 <= r < ROW_COUNT ==> row_cells(#[trigger] t[r]) == slide_left(row_cells(r as u16)),
{
    let mut t: Vec<u16> = Vec::with_capacity(ROW_COUNT);
    let mut x: usize = 0;
    while x < ROW_COUNT
        invariant
            x <= ROW_COUNT,
            t.len() == x,
            forall|r: int|
                0 <= r < x ==> row_cells(#[trigger] t[r]) == slide_left(row_cells(r as u16)),
        decreases ROW_COUNT - x,
    {
        t.push(get_left_move(x as u16));
        x += 1;
    }
    t
}

/// For every packed row, the row slid to the right, indexed by the row.
pub fn build_right_moves_table() -> (t: Vec<u16>)
    ensures
        t.len() == ROW_COUNT,
        forall|r: int|
            0 <= r < ROW_COUNT ==> row_cells(#[trigger] t[r]) == slide_right(row_cells(r as u16)),
{
    let mut t: Vec<u16> = Vec::with_capacity(ROW_COUNT);
    let mut x: usize = 0;
    while x < ROW_COUNT
        invariant
            x <= ROW_COUNT,
            t.len() == x,
            forall|r: int|
                0 <= r < x ==> row_cells(#[trigger] t[r]) == slide_right(row_cells(r as u16)),
        decreases ROW_COUNT - x,
    {
        t.push(get_right_move(x as u16));
        x += 1;
    }
    t
}

/// The value of a tile of exponent `e`: 0 for an empty cell, else 2^e.
pub open spec fn tile_value(e: nat) -> nat {
    if e == 0 {
        0
    } else {
        pow2(e)
    }
}

/// `v` is a value a cell can hold: 0, or a power of two from 2 to 32768.
pub open spec fn is_tile_value(v: nat) -> bool {
    exists|e: nat| e <= MAX_EXPONENT && tile_value(e) == v
}

/// The exponent of a valid tile value.
pub open spec fn exponent_of_value(v: nat) -> nat {
    choose|e: nat| e <= MAX_EXPONENT && tile_value(e) == v
}

/// Distinct exponents give distinct tile values.
pub proof fn lemma_tile_value_injective(e1: nat, e2: nat)
    requires
        e1 <= MAX_EXPONENT,
        e2 <= MAX_EXPONENT,
        tile_value(e1) == tile_value(e2),
    ensures
        e1 == e2,
{
    lemma2_to64();
}

/// The exponent of a valid tile value gives that value back, and is the only one that does.
pub proof fn lemma_exponent_of_value(v: nat)
    requires
        is_tile_value(v),
    ensures
        exponent_of_value(v) <= MAX_EXPONENT,
        tile_value(exponent_of_value(v)) == v,
        forall|e: nat| e <= MAX_EXPONENT && tile_value(e) == v ==> e == exponent_of_value(v),
{
    let e0 = exponent_of_value(v);
    assert forall|e: nat| e <= MAX_EXPONENT && tile_value(e) == v implies e == e0 by {
        lemma_tile_value_injective(e, e0);
    }
}

/// The exponent of a tile value, or `None` when the value is neither 0 nor a power of two
/// from 2 to 32768.
pub fn exponent_of(value: u16) -> (r: Option<u8>)
    ensures
        r.is_some() == is_tile_value(value as nat),
        r matches Some(e) ==> e <= MAX_EXPONENT && e as nat == exponent_of_value(value as nat),
{
    proof {
        lemma2_to64();
    }
    let r = match value {
        0 => Some(0),
        2 => Some(1),
        4 => Some(2),
        8 => Some(3),
        16 => Some(4),
        32 => Some(5),
        64 => Some(6),
        128 => Some(7),
        256 => Some(8),
        512 => Some(9),
        1024 => Some(10),
        2048 => Some(11),
        4096 => Some(12),
        8192 => Some(13),
        16384 => Some(14),
        32768 => Some(15),
        _ => None,
    };
    proof {
        match r {
            Some(e) => {
                assert(tile_value(e as nat) == value as nat);
                lemma_exponent_of_value(value as nat);
            },
            None => {
                if is_tile_value(value as nat) {
                    let e = exponent_of_value(value as nat);
                    assert(e <= 15 && tile_value(e) == value as nat);
                    assert(false);
                }
            },
        }
    }
    r
}

/// The exponent of a tile value.
pub fn get_exponent(value: u16) -> (r: u64)
    requires
        is_tile_value(value as nat),
    ensures
        r <= MAX_EXPONENT,
        r as nat == exponent_of_value(value as nat),
        tile_value(r as nat) == value,
{
    proof {
        lemma_exponent_of_value(value as nat);
    }
    match exponent_of(value) {
        Some(e) => e as u64,
        None => 0,
    }
}

proof fn lemma_shifted_two_bits(e: u16, r: u16)
    by (bit_vector)
    requires
        1 <= e <= 15,
        r == 2u16 << ((e - 1) as u16),
    ensures
        e == 1 ==> r == 2,
        e == 2 ==> r == 4,
        e == 3 ==> r == 8,
        e == 4 ==> r == 16,
        e == 5 ==> r == 32,
        e == 6 ==> r == 64,
        e == 7 ==> r == 128,
        e == 8 ==> r == 256,
        e == 9 ==> r == 512,
        e == 10 ==> r == 1024,
        e == 11 ==> r == 2048,
        e == 12 ==> r == 4096,
        e == 13 ==> r == 8192,
        e == 14 ==> r == 16384,
        e == 15 ==> r == 32768,
{
}

/// The value of a tile of exponent `e`.
pub fn value_of_exponent(e: u8) -> (r: u16)
    requires
        e <= MAX_EXPONENT,
    ensures
        r as nat == tile_value(e as nat),
{
    if e == 0 {
        0
    } else {
        let r: u16 = 2u16 << (e as u16 - 1);
        proof {
            lemma_shifted_two_bits(e as u16, r);
            lemma2_to64();
        }
        r
    }
}

proof fn lemma_compact_len(s: Seq<nat>)
    ensures
        compact(s).len() <= s.len(),
    decreases s.len(),
{
    if s.len() > 0 {
        lemma_compact_len(s.drop_first());
    }
}

/// Every tile of `s` lies before every empty cell.
pub open spec fn packed_to_front(s: Seq<nat>) -> bool {
    forall|i: int, j: int| 0 <= i < j < s.len() && #[trigger] s[i] == 0 ==> #[trigger] s[j] == 0
}

/// No two neighbouring tiles of `s` are equal.
pub open spec fn no_equal_neighbours(s: Seq<nat>) -> bool {
    forall|i: int| 0 <= i < s.len() - 1 && #[trigger] s[i] != 0 ==> s[i] != s[i + 1]
}

proof fn lemma_compact_packed(s: Seq<nat>)
    requires
        packed_to_front(s),
    ensures
        compact(s).len() <= s.len(),
        compact(s) == s.subrange(0, compact(s).len() as int),
        forall|i: int| compact(s).len() <= i < s.len() ==> s[i] == 0,
        forall|i: int| 0 <= i < compact(s).len() ==> #[trigger] compact(s)[i] != 0,
    decreases s.len(),
{
    lemma_compact_len(s);
    if s.len() > 0 {
        let d = s.drop_first();
        assert(packed_to_front(d)) by {
            assert forall|i: int, j: int| 0 <= i < j < d.len() && #[trigger] d[i] == 0 implies
                #[trigger] d[j] == 0 by {
                assert(s[i + 1] == 0 ==> s[j + 1] == 0);
            }
        }
        lemma_compact_packed(d);
        lemma_compact_len(d);
        if s[0] == 0 {
            assert forall|i: int| 0 <= i < s.len() implies s[i] == 0 by {
                assert(s[0] == 0 ==> s[i] == 0);
            }
            if compact(d).len() > 0 {
                assert(compact(d)[0] == d[0]);
            }
            assert(compact(s) =~= s.subrange(0, 0));
        } else {
            assert(compact(s) =~= s.subrange(0, compact(s).len() as int));
            assert forall|i: int| compact(s).len() <= i < s.len() implies s[i] == 0 by {
                assert(s[i] == d[i - 1]);
            }
        }
    }
}

proof fn lemma_merge_no_pairs(t: Seq<nat>)
    requires
        forall|i: int| 0 <= i < t.len() - 1 ==> #[trigger] t[i] != t[i + 1],
    ensures
        merge_pairs(t) == t,
    decreases t.len(),
{
    if t.len() >= 2 {
        let d = t.drop_first();
        assert(t[0] != t[1]);
        assert forall|i: int| 0 <= i < d.len() - 1 implies #[trigger] d[i] != d[i + 1] by {
            assert(t[i + 1] != t[i + 2]);
        }
        lemma_merge_no_pairs(d);
        assert(seq![t[0]] + d =~= t);
    }
}

/// A row whose tiles already lie against the edge it slides to, with no two equal
/// neighbours, does not change when slid to that edge.
pub proof fn lemma_terminal_line_unchanged(s: Seq<nat>)
    ensures
        packed_to_front(s) && no_equal_neighbours(s) ==> slide_left(s) == s,
        packed_to_front(s.reverse()) && no_equal_neighbours(s.reverse()) ==> slide_right(s) == s,
{
    if packed_to_front(s) && no_equal_neighbours(s) {
        lemma_slide_terminal(s);
    }
    if packed_to_front(s.reverse()) && no_equal_neighbours(s.reverse()) {
        lemma_slide_terminal(s.reverse());
        assert(s.reverse().reverse() =~= s);
    }
}

proof fn lemma_slide_terminal(s: Seq<nat>)
    requires
        packed_to_front(s),
        no_equal_neighbours(s),
    ensures
        slide_left(s) == s,
{
    lemma_compact_packed(s);
    let t = compact(s);
    assert forall|i: int| 0 <= i < t.len() - 1 implies #[trigger] t[i] != t[i + 1] by {
        assert(t[i] == s[i] && t[i + 1] == s[i + 1]);
        assert(t[i] != 0);
    }
    lemma_merge_no_pairs(t);
    assert(slide_left(s) =~= s);
}

} // verus!
