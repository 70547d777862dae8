//! The mathematical model of the simulation: what one generation step
//! computes, how neighbors are counted on the torus, and what bulk cell
//! activation does.

use vstd::arithmetic::div_mod::lemma_div_pos_is_pos;
use vstd::arithmetic::div_mod::lemma_fundamental_div_mod;
use vstd::arithmetic::div_mod::lemma_fundamental_div_mod_converse;
use vstd::arithmetic::div_mod::lemma_mod_bound;
use vstd::arithmetic::div_mod::lemma_mod_multiples_vanish;
use vstd::arithmetic::div_mod::lemma_small_mod;
use vstd::prelude::*;

verus! {

/// The B3/S23 rule for one cell: an alive cell survives with 2 or 3 live
/// neighbors, a dead cell is born with exactly 3, and every other cell is
/// dead in the next generation.
pub open spec fn next_state(alive: bool, live: nat) -> bool {
    if alive {
        live == 2 || live == 3
    } else {
        live == 3
    }
}

/// One summand of the neighbor count: the cell at row offset `dr` and
/// column offset `dc` from `(r, c)`, wrapped toroidally. The `(0, 0)`
/// offset pair contributes nothing; it is compared by value, so on a
/// one-cell-wide or one-cell-tall grid (where the offset `dim - 1` is
/// itself 0) the coinciding pair drops out as well.
pub open spec fn neighbor_term(
    g: Seq<bool>,
    w: int,
    h: int,
    r: int,
    c: int,
    dr: int,
    dc: int,
) -> nat {
    if dr == 0 && dc == 0 {
        0
    } else if g[((r + dr) % h) * w + ((c + dc) % w)] {
        1
    } else {
        0
    }
}

/// The number of live neighbors of `(r, c)` in the toroidal Moore
/// neighborhood: row offsets `{h - 1, 0, 1}` and column offsets
/// `{w - 1, 0, 1}`, each added modulo the dimension. On grids where the
/// offsets coincide (width or height below 3) a neighbor is counted once
/// per coinciding offset pair.
pub open spec fn live_neighbors(g: Seq<bool>, w: int, h: int, r: int, c: int) -> nat {
    neighbor_term(g, w, h, r, c, h - 1, w - 1) + neighbor_term(g, w, h, r, c, h - 1, 0)
        + neighbor_term(g, w, h, r, c, h - 1, 1) + neighbor_term(g, w, h, r, c, 0, w - 1)
        + neighbor_term(g, w, h, r, c, 0, 0) + neighbor_term(g, w, h, r, c, 0, 1)
        + neighbor_term(g, w, h, r, c, 1, w - 1) + neighbor_term(g, w, h, r, c, 1, 0)
        + neighbor_term(g, w, h, r, c, 1, 1)
}

/// One generation step over the whole grid: every cell's next value is the
/// rule applied to its current value and its current neighbor count.
pub open spec fn tick_spec(g: Seq<bool>, w: int, h: int) -> Seq<bool> {
    Seq::new(g.len(), |i: int| next_state(g[i], live_neighbors(g, w, h, i / w, i % w)))
}

/// `n` generation steps in a row.
pub open spec fn tick_iter(g: Seq<bool>, w: int, h: int, n: nat) -> Seq<bool>
    decreases n,
{
    if n == 0 {
        g
    } else {
        tick_spec(tick_iter(g, w, h, (n - 1) as nat), w, h)
    }
}

/// The row-major flat index of a (row, column) pair.
pub open spec fn pair_index(p: (u32, u32), w: int) -> int {
    p.0 * w + p.1
}

/// Bulk activation: every cell named by some pair in `pairs` becomes
/// alive; every other cell keeps its value.
pub open spec fn bulk_set(g: Seq<bool>, w: int, pairs: Seq<(u32, u32)>) -> Seq<bool> {
    Seq::new(
        g.len(),
        |i: int|
            g[i] || exists|k: int|
                0 <= k < pairs.len() && #[trigger] pair_index(pairs[k], w) == i,
    )
}

/// An anchor coordinate shifted by a signed offset, wrapped toroidally:
/// `(coord + delta) mod dim`, reduced to `[0, dim)`.
pub open spec fn wrap_add(coord: u32, delta: int, dim: int) -> u32
    recommends
        1 <= dim,
{
    (((coord + delta) % dim) as u32)
}

/// The cells a pattern's offsets name around an anchor, each wrapped into
/// the grid.
pub open spec fn target_cells(
    offsets: Seq<(i32, i32)>,
    row: u32,
    col: u32,
    w: int,
    h: int,
) -> Seq<(u32, u32)> {
    offsets.map(|k: int, o: (i32, i32)| (wrap_add(row, o.0 as int, h), wrap_add(col, o.1 as int, w)))
}

/// Executable toroidal wrapping of an anchor coordinate by a signed offset.
pub fn wrap_offset(coord: u32, delta: i32, dim: u32) -> (r: u32)
    requires
        1 <= dim,
    ensures
        r == wrap_add(coord, delta as int, dim as int),
        r < dim,
{
    let d = dim as u64;
    if delta >= 0 {
        let t = coord as u64 + delta as u64;
        (t % d) as u32
    } else {
        let neg = (-(delta as i64)) as u64;
        proof {
            assert(neg * d >= neg && neg * d <= 0x8000_0000u64 * 0xFFFF_FFFFu64)
                by (nonlinear_arith)
                requires
                    1 <= d <= 0xFFFF_FFFFu64,
                    1 <= neg <= 0x8000_0000u64,
            ;
        }
        let t = coord as u64 + neg * d - neg;
        proof {
            assert(neg * d == d * neg) by (nonlinear_arith);
            lemma_mod_multiples_vanish(neg as int, coord as int + delta as int, d as int);
        }
        (t % d) as u32
    }
}

/// A row-major index stays inside the buffer.
pub proof fn lemma_row_major_bound(r: int, c: int, w: int, h: int)
    requires
        0 <= r < h,
        0 <= c < w,
    ensures
        0 <= r * w + c < h * w,
{
    assert(r * w + c < h * w) by (nonlinear_arith)
        requires
            0 <= r < h,
            0 <= c < w,
    ;
}

/// The birth rule: after one tick, a cell that was dead is alive exactly
/// when it had three live neighbors; with two or four it stays dead.
pub proof fn lemma_birth_rule(g: Seq<bool>, w: int, h: int, i: int)
    requires
        0 <= i < g.len(),
        !g[i],
    ensures
        tick_spec(g, w, h)[i] == (live_neighbors(g, w, h, i / w, i % w) == 3),
{
}

/// A still life: a grid that one tick leaves unchanged is unchanged by any
/// number of ticks.
pub proof fn lemma_still_life(g: Seq<bool>, w: int, h: int, n: nat)
    requires
        tick_spec(g, w, h) == g,
    ensures
        tick_iter(g, w, h, n) == g,
    decreases n,
{
    if n > 0 {
        lemma_still_life(g, w, h, (n - 1) as nat);
    }
}

/// A grid whose only alive cells are the 2x2 block with top-left corner
/// `(r, c)`.
pub open spec fn block_grid(w: int, h: int, r: int, c: int) -> Seq<bool> {
    Seq::new(
        (w * h) as nat,
        |i: int|
            i == r * w + c || i == r * w + c + 1 || i == (r + 1) * w + c || i == (r + 1) * w + c
                + 1,
    )
}

/// The three toroidal row (or column) offsets around an in-range
/// coordinate, written without the modulo.
proof fn lemma_wrap_near(a: int, h: int)
    requires
        0 <= a < h,
        3 <= h,
    ensures
        (a + (h - 1)) % h == if a == 0 {
            h - 1
        } else {
            a - 1
        },
        (a + 1) % h == if a == h - 1 {
            0
        } else {
            a + 1
        },
        (a + 0) % h == a,
{
    lemma_small_mod(a as nat, h as nat);
    if a == 0 {
        lemma_small_mod((h - 1) as nat, h as nat);
    } else {
        lemma_mod_multiples_vanish(1, a - 1, h);
        lemma_small_mod((a - 1) as nat, h as nat);
    }
    if a == h - 1 {
        lemma_mod_multiples_vanish(1, 0, h);
        lemma_small_mod(0, h as nat);
    } else {
        lemma_small_mod((a + 1) as nat, h as nat);
    }
}

/// Which cells of a block grid are alive, by coordinates: exactly the four
/// block positions.
proof fn lemma_block_cell(w: int, h: int, r: int, c: int, a: int, b: int)
    requires
        0 <= a < h,
        0 <= b < w,
        0 <= r,
        r + 1 < h,
        0 <= c,
        c + 1 < w,
    ensures
        block_grid(w, h, r, c)[a * w + b] == ((a == r || a == r + 1) && (b == c || b == c + 1)),
{
    lemma_row_major_bound(a, b, w, h);
    assert(h * w == w * h) by (nonlinear_arith);
    lemma_fundamental_div_mod_converse(a * w + b, w, a, b);
    lemma_fundamental_div_mod_converse(r * w + c, w, r, c);
    lemma_fundamental_div_mod_converse(r * w + c + 1, w, r, c + 1);
    lemma_fundamental_div_mod_converse((r + 1) * w + c, w, r + 1, c);
    lemma_fundamental_div_mod_converse((r + 1) * w + c + 1, w, r + 1, c + 1);
}

/// One tick leaves one cell of a lone 2x2 block grid unchanged: block
/// cells have exactly three live neighbors, every other cell at most two.
#[verifier::rlimit(100)]
#[verifier::spinoff_prover]
proof fn lemma_block_cell_step(w: int, h: int, r: int, c: int, a: int, b: int)
    requires
        4 <= w,
        4 <= h,
        0 <= r,
        r + 1 < h,
        0 <= c,
        c + 1 < w,
        0 <= a < h,
        0 <= b < w,
    ensures
        next_state(
            block_grid(w, h, r, c)[a * w + b],
            live_neighbors(block_grid(w, h, r, c), w, h, a, b),
        ) == block_grid(w, h, r, c)[a * w + b],
{
    let g = block_grid(w, h, r, c);
    lemma_wrap_near(a, h);
    lemma_wrap_near(b, w);
    let ru = if a == 0 {
        h - 1
    } else {
        a - 1
    };
    let rd = if a == h - 1 {
        0
    } else {
        a + 1
    };
    let cl = if b == 0 {
        w - 1
    } else {
        b - 1
    };
    let cr = if b == w - 1 {
        0
    } else {
        b + 1
    };
    lemma_block_cell(w, h, r, c, ru, cl);
    lemma_block_cell(w, h, r, c, ru, b);
    lemma_block_cell(w, h, r, c, ru, cr);
    lemma_block_cell(w, h, r, c, a, cl);
    lemma_block_cell(w, h, r, c, a, b);
    lemma_block_cell(w, h, r, c, a, cr);
    lemma_block_cell(w, h, r, c, rd, cl);
    lemma_block_cell(w, h, r, c, rd, b);
    lemma_block_cell(w, h, r, c, rd, cr);
    if (a == r || a == r + 1) && (b == c || b == c + 1) {
        assert(live_neighbors(g, w, h, a, b) == 3);
    } else {
        assert(live_neighbors(g, w, h, a, b) <= 2);
    }
}

/// A lone 2x2 block is unchanged by one tick.
pub proof fn lemma_block_fixed_point(w: int, h: int, r: int, c: int)
    requires
        4 <= w,
        4 <= h,
        0 <= r,
        r + 1 < h,
        0 <= c,
        c + 1 < w,
    ensures
        tick_spec(block_grid(w, h, r, c), w, h) == block_grid(w, h, r, c),
{
    let g = block_grid(w, h, r, c);
    assert forall|i: int| 0 <= i < g.len() implies tick_spec(g, w, h)[i] == g[i] by {
        lemma_fundamental_div_mod(i, w);
        lemma_mod_bound(i, w);
        lemma_div_pos_is_pos(i, w);
        let a = i / w;
        let b = i % w;
        assert(a < h) by (nonlinear_arith)
            requires
                i == w * a + b,
                0 <= b,
                i < w * h,
                0 < w,
        ;
        lemma_block_cell_step(w, h, r, c, a, b);
        assert(a * w == w * a) by (nonlinear_arith);
    };
    assert(tick_spec(g, w, h) =~= g);
}

/// Block stability: a lone 2x2 block of alive cells, ticked any number of
/// times, remains unchanged (a still life).
pub proof fn lemma_block_still_life(w: int, h: int, r: int, c: int, n: nat)
    requires
        4 <= w,
        4 <= h,
        0 <= r,
        r + 1 < h,
        0 <= c,
        c + 1 < w,
    ensures
        tick_iter(block_grid(w, h, r, c), w, h, n) == block_grid(w, h, r, c),
{
    lemma_block_fixed_point(w, h, r, c);
    lemma_still_life(block_grid(w, h, r, c), w, h, n);
}

/// Bulk activation with an empty list changes nothing.
pub proof fn lemma_bulk_set_empty(g: Seq<bool>, w: int, pairs: Seq<(u32, u32)>)
    requires
        pairs.len() == 0,
    ensures
        bulk_set(g, w, pairs) == g,
{
    assert forall|i: int| 0 <= i < g.len() implies bulk_set(g, w, pairs)[i] == g[i] by {
        assert(!exists|k: int| 0 <= k < pairs.len() && #[trigger] pair_index(pairs[k], w) == i);
    };
    assert(bulk_set(g, w, pairs) =~= g);
}

/// Bulk activation of one more listed pair sets exactly that pair's cell.
pub proof fn lemma_bulk_set_step(g: Seq<bool>, w: int, pairs: Seq<(u32, u32)>, i: int)
    requires
        0 <= i < pairs.len(),
        0 <= pair_index(pairs[i], w) < g.len(),
    ensures
        bulk_set(g, w, pairs.take(i + 1)) == bulk_set(g, w, pairs.take(i)).update(
            pair_index(pairs[i], w),
            true,
        ),
{
    let a = bulk_set(g, w, pairs.take(i + 1));
    let b = bulk_set(g, w, pairs.take(i)).update(pair_index(pairs[i], w), true);
    let t = pair_index(pairs[i], w);
    assert forall|j: int| 0 <= j < g.len() implies a[j] == b[j] by {
        assert(forall|k: int| 0 <= k < i + 1 ==> pairs.take(i + 1)[k] == pairs[k]);
        assert(forall|k: int| 0 <= k < i ==> pairs.take(i)[k] == pairs[k]);
        if j == t {
            assert(pair_index(pairs.take(i + 1)[i], w) == j);
            assert(a[j]);
        } else {
            if exists|k: int|
                0 <= k < i + 1 && #[trigger] pair_index(pairs.take(i + 1)[k], w) == j {
                let k = choose|k: int|
                    0 <= k < i + 1 && #[trigger] pair_index(pairs.take(i + 1)[k], w) == j;
                assert(k != i);
                assert(pair_index(pairs.take(i)[k], w) == j);
            }
            if exists|k: int| 0 <= k < i && #[trigger] pair_index(pairs.take(i)[k], w) == j {
                let k = choose|k: int|
                    0 <= k < i && #[trigger] pair_index(pairs.take(i)[k], w) == j;
                assert(pair_index(pairs.take(i + 1)[k], w) == j);
            }
        }
    };
    assert(a =~= b);
}

/// Bulk activation depends only on which cells the list names: two
/// coordinate lists with the same members set the same cells, so naming a
/// coordinate twice is the same as naming it once.
pub proof fn lemma_bulk_set_members(
    g: Seq<bool>,
    w: int,
    p1: Seq<(u32, u32)>,
    p2: Seq<(u32, u32)>,
)
    requires
        forall|x: (u32, u32)| p1.contains(x) <==> p2.contains(x),
    ensures
        bulk_set(g, w, p1) == bulk_set(g, w, p2),
{
    assert forall|i: int| 0 <= i < g.len() implies bulk_set(g, w, p1)[i] == bulk_set(
        g,
        w,
        p2,
    )[i] by {
        if exists|k: int| 0 <= k < p1.len() && #[trigger] pair_index(p1[k], w) == i {
            let k = choose|k: int| 0 <= k < p1.len() && #[trigger] pair_index(p1[k], w) == i;
            assert(p1.contains(p1[k]));
            let k2 = choose|k2: int| 0 <= k2 < p2.len() && p2[k2] == p1[k];
            assert(pair_index(p2[k2], w) == i);
        }
        if exists|k: int| 0 <= k < p2.len() && #[trigger] pair_index(p2[k], w) == i {
            let k = choose|k: int| 0 <= k < p2.len() && #[trigger] pair_index(p2[k], w) == i;
            assert(p2.contains(p2[k]));
            let k2 = choose|k2: int| 0 <= k2 < p1.len() && p1[k2] == p2[k];
            assert(pair_index(p1[k2], w) == i);
        }
    };
    assert(bulk_set(g, w, p1) =~= bulk_set(g, w, p2));
}

} // verus!
