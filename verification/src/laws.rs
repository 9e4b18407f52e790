//! Global laws of the engine, stated over the abstract model and proved once.
//! Every executable operation's `ensures` equates its post-state with the
//! corresponding case of `apply_op`, so these laws carry over to the
//! executable engine.

use crate::model::{
    alive_at, apply_op, apply_ops, b2i, lemma_flat_in_range, lists_index, marked, marked_all,
    neighbor_count, num_ticks, wf_view, wrap, Op, UniverseView,
};
use vstd::arithmetic::div_mod::lemma_small_mod;
use vstd::prelude::*;

verus! {

/// Determinism: the engine is a state machine whose transition `apply_op` is
/// a mathematical function of the pre-state and the operation alone, so two
/// universes with equal models that are fed the same sequence of operations
/// reach equal models — equal cell grids and equal generation counters.
pub proof fn lemma_deterministic(v1: UniverseView, v2: UniverseView, ops: Seq<Op>)
    requires
        v1 == v2,
    ensures
        apply_ops(v1, ops) == apply_ops(v2, ops),
{
}

/// The generation counter counts exactly the `Tick` operations of a history:
/// reset, clear, toggle, glider stamping, resizing and `set_cells` leave it
/// untouched, and every tick adds one.
pub proof fn lemma_generation_counter(v: UniverseView, ops: Seq<Op>)
    ensures
        apply_ops(v, ops).ticks == v.ticks + num_ticks(ops),
    decreases ops.len(),
{
    if ops.len() != 0 {
        let op = ops.first();
        let v1 = apply_op(v, op);
        if op is SetCells {
            lemma_marked_all_keeps_ticks(v, op->SetCells_0);
        }
        assert(v1.ticks == v.ticks + num_ticks(ops) - num_ticks(ops.drop_first()));
        lemma_generation_counter(v1, ops.drop_first());
    }
}

/// `marked_all` never touches the generation counter.
proof fn lemma_marked_all_keeps_ticks(v: UniverseView, coords: Seq<(u32, u32)>)
    ensures
        marked_all(v, coords).ticks == v.ticks,
    decreases coords.len(),
{
    if coords.len() != 0 {
        lemma_marked_all_keeps_ticks(v, coords.drop_last());
    }
}

/// Toroidal wraparound: the neighbor count at the origin examines the
/// opposite corner `(height-1, width-1)` — both axes wrap at once — so a
/// live far corner contributes to the origin's count.
pub proof fn lemma_corner_wraps(v: UniverseView)
    requires
        wf_view(v),
        alive_at(v, v.height - 1, v.width - 1),
    ensures
        wrap(0, v.height - 1, v.height as int) == v.height - 1,
        wrap(0, v.width - 1, v.width as int) == v.width - 1,
        neighbor_count(v, 0, 0) >= 1,
{
    lemma_small_mod((v.height - 1) as nat, v.height);
    lemma_small_mod((v.width - 1) as nat, v.width);
}

/// For a grid at least 2x2, the eight neighbor positions of the origin are
/// exactly the wrapped cells on the opposite edges and around `(1, 1)`: the
/// count decomposes cell by cell, the far corner `(height-1, width-1)` first.
pub proof fn lemma_origin_neighbor_cells(v: UniverseView)
    requires
        wf_view(v),
        v.width >= 2,
        v.height >= 2,
    ensures
        neighbor_count(v, 0, 0) == b2i(alive_at(v, v.height - 1, v.width - 1)) + b2i(
            alive_at(v, v.height - 1, 0),
        ) + b2i(alive_at(v, v.height - 1, 1)) + b2i(alive_at(v, 0, v.width - 1)) + b2i(
            alive_at(v, 0, 1),
        ) + b2i(alive_at(v, 1, v.width - 1)) + b2i(alive_at(v, 1, 0)) + b2i(alive_at(v, 1, 1)),
{
    lemma_small_mod((v.height - 1) as nat, v.height);
    lemma_small_mod((v.width - 1) as nat, v.width);
    lemma_small_mod(1, v.height);
    lemma_small_mod(1, v.width);
    lemma_small_mod(0, v.height);
    lemma_small_mod(0, v.width);
}

/// Pointwise effect of `set_cells`: a cell is alive after `marked_all`
/// exactly when it was alive before or some listed coordinate addresses it;
/// dimensions, counter and grid size are untouched.
pub proof fn lemma_marked_all_pointwise(v: UniverseView, coords: Seq<(u32, u32)>)
    requires
        wf_view(v),
        forall|k: int|
            0 <= k < coords.len() ==> coords[k].0 < v.height && coords[k].1 < v.width,
    ensures
        marked_all(v, coords).width == v.width,
        marked_all(v, coords).height == v.height,
        marked_all(v, coords).ticks == v.ticks,
        marked_all(v, coords).cells.len() == v.cells.len(),
        forall|i: int|
            0 <= i < v.cells.len() ==> marked_all(v, coords).cells[i] == (v.cells[i]
                || lists_index(coords, v.width, i)),
    decreases coords.len(),
{
    if coords.len() == 0 {
        assert(forall|i: int| !lists_index(coords, v.width, i));
    } else {
        let prefix = coords.drop_last();
        let r = coords.last().0 as int;
        let c = coords.last().1 as int;
        let last_idx = r * v.width + c;
        lemma_marked_all_pointwise(v, prefix);
        lemma_flat_in_range(v.width as int, v.height as int, r, c);
        let m = marked(marked_all(v, prefix), r, c);
        assert forall|i: int| 0 <= i < v.cells.len() implies m.cells[i] == (v.cells[i]
            || lists_index(coords, v.width, i)) by {
            if i == last_idx {
                assert(lists_index(coords, v.width, i)) by {
                    assert(coords[coords.len() - 1].0 * v.width + coords[coords.len() - 1].1
                        == i);
                }
            } else {
                assert(lists_index(prefix, v.width, i) <==> lists_index(coords, v.width, i)) by {
                    if lists_index(prefix, v.width, i) {
                        let k = choose|k: int|
                            0 <= k < prefix.len() && prefix[k].0 * v.width + prefix[k].1 == i;
                        assert(coords[k].0 * v.width + coords[k].1 == i);
                    }
                    if lists_index(coords, v.width, i) {
                        let k = choose|k: int|
                            0 <= k < coords.len() && coords[k].0 * v.width + coords[k].1 == i;
                        if k < coords.len() - 1 {
                            assert(prefix[k].0 * v.width + prefix[k].1 == i);
                        }
                    }
                }
            }
        }
    }
}

/// Idempotence of `set_cells`: marking the same coordinate list alive twice
/// leaves exactly the grid that marking it once leaves.
pub proof fn lemma_set_cells_idempotent(v: UniverseView, coords: Seq<(u32, u32)>)
    requires
        wf_view(v),
        forall|k: int|
            0 <= k < coords.len() ==> coords[k].0 < v.height && coords[k].1 < v.width,
    ensures
        marked_all(marked_all(v, coords), coords) == marked_all(v, coords),
{
    let v1 = marked_all(v, coords);
    lemma_marked_all_pointwise(v, coords);
    lemma_marked_all_pointwise(v1, coords);
    assert forall|i: int| 0 <= i < v1.cells.len() implies marked_all(v1, coords).cells[i]
        == v1.cells[i] by {
        assert(v1.cells[i] == (v.cells[i] || lists_index(coords, v.width, i)));
        assert(marked_all(v1, coords).cells[i] == (v1.cells[i] || lists_index(
            coords,
            v1.width,
            i,
        )));
    }
    assert(marked_all(v1, coords).cells =~= v1.cells);
    assert(marked_all(v1, coords) =~= v1);
}

} // verus!
