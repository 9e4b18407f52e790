//! Mathematical model of the universe: a row-major sequence of cell states
//! plus the grid dimensions and the generation counter, together with the
//! transition rule and the effect of every operation, stated as spec functions.

use vstd::prelude::*;

verus! {

/// Abstract state of a universe: dimensions, row-major cell grid
/// (index `r * width + c`), and the generation counter.
#[verifier::ext_equal]
pub struct UniverseView {
    pub width: nat,
    pub height: nat,
    pub cells: Seq<bool>,
    pub ticks: nat,
}

/// Well-formed universe: positive dimensions, a cell count that fits the
/// machine arithmetic of the implementation, and a grid of exactly
/// `width * height` cells.
pub open spec fn wf_view(v: UniverseView) -> bool {
    &&& v.width >= 1
    &&& v.height >= 1
    &&& v.width * v.height <= u32::MAX
    &&& v.cells.len() == v.width * v.height
}

/// The cell at row `r`, column `c` of the row-major grid.
pub open spec fn alive_at(v: UniverseView, r: int, c: int) -> bool {
    v.cells[r * v.width + c]
}

pub open spec fn b2i(b: bool) -> int {
    if b {
        1
    } else {
        0
    }
}

/// Toroidal step: index plus offset, taken modulo the dimension.
pub open spec fn wrap(i: int, d: int, m: int) -> int {
    (i + d) % m
}

/// Number of live cells among the 8 toroidally-wrapped neighbors of `(r, c)`:
/// row offsets `{height-1, 0, 1}` crossed with column offsets `{width-1, 0, 1}`,
/// the `(0, 0)` pair (the cell itself) excluded.
pub open spec fn neighbor_count(v: UniverseView, r: int, c: int) -> int {
    let h = v.height as int;
    let w = v.width as int;
    b2i(alive_at(v, wrap(r, h - 1, h), wrap(c, w - 1, w))) + b2i(
        alive_at(v, wrap(r, h - 1, h), wrap(c, 0, w)),
    ) + b2i(alive_at(v, wrap(r, h - 1, h), wrap(c, 1, w))) + b2i(
        alive_at(v, wrap(r, 0, h), wrap(c, w - 1, w)),
    ) + b2i(alive_at(v, wrap(r, 0, h), wrap(c, 1, w))) + b2i(
        alive_at(v, wrap(r, 1, h), wrap(c, w - 1, w)),
    ) + b2i(alive_at(v, wrap(r, 1, h), wrap(c, 0, w))) + b2i(
        alive_at(v, wrap(r, 1, h), wrap(c, 1, w)),
    )
}

/// The B3/S23 rule: a live cell survives with 2 or 3 live neighbors,
/// a dead cell is born with exactly 3.
pub open spec fn life_rule(alive: bool, neighbors: int) -> bool {
    if alive {
        neighbors == 2 || neighbors == 3
    } else {
        neighbors == 3
    }
}

/// One full generation step: every cell is recomputed from the *current*
/// grid, and the counter advances by one.
pub open spec fn next_gen(v: UniverseView) -> UniverseView {
    let w = v.width as int;
    UniverseView {
        cells: Seq::new(
            v.cells.len(),
            |i: int| life_rule(v.cells[i], neighbor_count(v, i / w, i % w)),
        ),
        ticks: (v.ticks + 1) as nat,
        ..v
    }
}

/// The deterministic seed: the cell at flat index `i` is alive exactly when
/// `i` is even or a multiple of 7.
pub open spec fn seeded(i: int) -> bool {
    i % 2 == 0 || i % 7 == 0
}

pub open spec fn seeded_grid(n: nat) -> Seq<bool> {
    Seq::new(n, |i: int| seeded(i))
}

pub open spec fn dead_grid(n: nat) -> Seq<bool> {
    Seq::new(n, |i: int| false)
}

/// The current grid reseeded deterministically; dimensions and counter kept.
pub open spec fn reseeded(v: UniverseView) -> UniverseView {
    UniverseView { cells: seeded_grid((v.width * v.height) as nat), ..v }
}

/// Every cell dead; dimensions and counter kept.
pub open spec fn cleared(v: UniverseView) -> UniverseView {
    UniverseView { cells: dead_grid((v.width * v.height) as nat), ..v }
}

/// Width replaced; the grid is reallocated all-dead at the new size.
pub open spec fn with_width(v: UniverseView, w: nat) -> UniverseView {
    UniverseView { width: w, cells: dead_grid((w * v.height) as nat), ..v }
}

/// Height replaced; the grid is reallocated all-dead at the new size.
pub open spec fn with_height(v: UniverseView, h: nat) -> UniverseView {
    UniverseView { height: h, cells: dead_grid((v.width * h) as nat), ..v }
}

/// The single cell `(r, c)` flipped.
pub open spec fn toggled(v: UniverseView, r: int, c: int) -> UniverseView {
    let i = r * v.width + c;
    UniverseView { cells: v.cells.update(i, !v.cells[i]), ..v }
}

/// One cell of a stamped pattern: the offsets are wrapped toroidally
/// around `(r, c)` and the addressed cell is overwritten with `alive`.
pub open spec fn stamped(
    v: UniverseView,
    r: int,
    c: int,
    dr: int,
    dc: int,
    alive: bool,
) -> UniverseView {
    let h = v.height as int;
    let w = v.width as int;
    let i = wrap(r, dr, h) * w + wrap(c, dc, w);
    UniverseView { cells: v.cells.update(i, alive), ..v }
}

/// The canonical 3x3 glider written around `(r, c)`, row-major, every one of
/// the 9 footprint cells overwritten (dead cells of the pattern included):
/// ```text
/// dead  dead  alive
/// alive dead  alive
/// dead  alive alive
/// ```
pub open spec fn glider_stamped(v: UniverseView, r: int, c: int) -> UniverseView {
    let h = v.height as int;
    let w = v.width as int;
    let v1 = stamped(v, r, c, h - 1, w - 1, false);
    let v2 = stamped(v1, r, c, h - 1, 0, false);
    let v3 = stamped(v2, r, c, h - 1, 1, true);
    let v4 = stamped(v3, r, c, 0, w - 1, true);
    let v5 = stamped(v4, r, c, 0, 0, false);
    let v6 = stamped(v5, r, c, 0, 1, true);
    let v7 = stamped(v6, r, c, 1, w - 1, false);
    let v8 = stamped(v7, r, c, 1, 0, true);
    stamped(v8, r, c, 1, 1, true)
}

/// The cell `(r, c)` set alive.
pub open spec fn marked(v: UniverseView, r: int, c: int) -> UniverseView {
    UniverseView { cells: v.cells.update(r * v.width + c, true), ..v }
}

/// Every listed coordinate set alive, in list order.
pub open spec fn marked_all(v: UniverseView, coords: Seq<(u32, u32)>) -> UniverseView
    decreases coords.len(),
{
    if coords.len() == 0 {
        v
    } else {
        marked(
            marked_all(v, coords.drop_last()),
            coords.last().0 as int,
            coords.last().1 as int,
        )
    }
}

/// Whether some listed coordinate addresses flat index `i` of a grid
/// `w` cells wide.
pub open spec fn lists_index(coords: Seq<(u32, u32)>, w: nat, i: int) -> bool {
    exists|k: int| 0 <= k < coords.len() && coords[k].0 * w + coords[k].1 == i
}

/// A row-major index computed from an in-range coordinate lies inside the grid.
pub proof fn lemma_flat_in_range(w: int, h: int, r: int, c: int)
    requires
        1 <= w,
        1 <= h,
        0 <= r < h,
        0 <= c < w,
    ensures
        0 <= r * w + c < w * h,
{
    assert(r * w + c < w * h) by (nonlinear_arith)
        requires
            1 <= w,
            1 <= h,
            0 <= r < h,
            0 <= c < w,
    ;
    assert(0 <= r * w + c) by (nonlinear_arith)
        requires
            0 <= r,
            0 <= c,
            1 <= w,
    ;
}

/// The glyph the text rendering uses for one cell.
pub open spec fn glyph(b: bool) -> char {
    if b {
        '◼'
    } else {
        '◻'
    }
}

/// The first `c` glyphs of row `r` of the rendering.
pub open spec fn row_prefix(v: UniverseView, r: int, c: int) -> Seq<char>
    decreases c,
{
    if c <= 0 {
        Seq::empty()
    } else {
        row_prefix(v, r, c - 1).push(glyph(alive_at(v, r, c - 1)))
    }
}

/// The first `r` rendered rows, each of `width` glyphs followed by a newline.
pub open spec fn rows_prefix(v: UniverseView, r: int) -> Seq<char>
    decreases r,
{
    if r <= 0 {
        Seq::empty()
    } else {
        rows_prefix(v, r - 1) + row_prefix(v, r - 1, v.width as int).push('\n')
    }
}

/// The full text rendering: `height` rows, top to bottom.
pub open spec fn rendered(v: UniverseView) -> Seq<char> {
    rows_prefix(v, v.height as int)
}

/// One operation of the engine's public surface.
pub enum Op {
    Tick,
    Reset,
    Dead,
    ToggleCell(u32, u32),
    AddGlider(u32, u32),
    SetWidth(u32),
    SetHeight(u32),
    SetCells(Seq<(u32, u32)>),
}

/// The effect of one operation on the abstract state. Each executable
/// operation's `ensures` equates its post-state with this function, so the
/// engine is a deterministic state machine over `UniverseView`.
pub open spec fn apply_op(v: UniverseView, op: Op) -> UniverseView {
    match op {
        Op::Tick => next_gen(v),
        Op::Reset => reseeded(v),
        Op::Dead => cleared(v),
        Op::ToggleCell(r, c) => toggled(v, r as int, c as int),
        Op::AddGlider(r, c) => glider_stamped(v, r as int, c as int),
        Op::SetWidth(w) => with_width(v, w as nat),
        Op::SetHeight(h) => with_height(v, h as nat),
        Op::SetCells(cs) => marked_all(v, cs),
    }
}

/// A whole sequence of operations applied in order.
pub open spec fn apply_ops(v: UniverseView, ops: Seq<Op>) -> UniverseView
    decreases ops.len(),
{
    if ops.len() == 0 {
        v
    } else {
        apply_ops(apply_op(v, ops.first()), ops.drop_first())
    }
}

/// How many of the listed operations are generation advances.
pub open spec fn num_ticks(ops: Seq<Op>) -> nat
    decreases ops.len(),
{
    if ops.len() == 0 {
        0
    } else {
        num_ticks(ops.drop_first()) + if ops.first() is Tick {
            1nat
        } else {
            0nat
        }
    }
}

} // verus!
