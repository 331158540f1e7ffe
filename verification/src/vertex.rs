//! Vertex generation: the data-parallel map-filter over the cell sequence.

use vstd::prelude::*;
use crate::shape::GridShape;
use rayon::iter::IntoParallelRefIterator;
use rayon::iter::ParallelIterator;

verus! {

/// One generated vertex: the color the caller's color function produced for
/// the cell, and the cell's grid coordinates.  The normalized device
/// position is the exact fraction ((2*col - width)/width, (2*row - height)/height),
/// i.e. x = 2*col/width - 1 and y = 2*row/height - 1; the GPU-facing layer
/// performs that division in floating point.
#[derive(Clone, Copy, Debug)]
pub struct Vertex<C> {
    pub color: C,
    pub col: usize,
    pub row: usize,
}

/// The vertex a cell at row-major index `i` contributes, given its color `c`.
pub open spec fn vertex_model<C>(i: int, w: int, c: C) -> Vertex<C> {
    Vertex { color: c, col: (i % w) as usize, row: (i / w) as usize }
}

/// The full vertex sequence for a sequence of per-cell outcomes: cells whose
/// outcome is `Some(color)` contribute one vertex each, in index order.
pub open spec fn vertices_spec<C>(opts: Seq<Option<C>>, w: int) -> Seq<Vertex<C>>
    decreases opts.len(),
{
    if opts.len() == 0 {
        Seq::empty()
    } else {
        let pre = vertices_spec(opts.drop_last(), w);
        match opts.last() {
            Some(c) => pre.push(vertex_model(opts.len() - 1, w, c)),
            None => pre,
        }
    }
}

/// How many cells passed the filter.
pub open spec fn count_some<C>(opts: Seq<Option<C>>) -> int
    decreases opts.len(),
{
    if opts.len() == 0 {
        0
    } else {
        count_some(opts.drop_last()) + if opts.last() is Some {
            1int
        } else {
            0int
        }
    }
}

/// What one per-cell outcome means in terms of the caller's two functions:
/// `Some(c)` only for a cell the filter admitted, with `c` a color the color
/// function produced for it; `None` only for a cell the filter rejected.
pub open spec fn eval_matches<T, C, FC: Fn(&T) -> C, FF: Fn(&T) -> bool>(
    cell_color: FC,
    filter: FF,
    cell: T,
    o: Option<C>,
) -> bool {
    match o {
        Some(c) => call_ensures(filter, (&cell,), true) && call_ensures(cell_color, (&cell,), c),
        None => call_ensures(filter, (&cell,), false),
    }
}

/// The per-cell unit of the data-parallel phase: evaluate the filter, and the
/// color function only for an admitted cell.
pub fn eval_cell<T, C, FC: Fn(&T) -> C, FF: Fn(&T) -> bool>(
    cell: &T,
    cell_color: &FC,
    filter: &FF,
) -> (o: Option<C>)
    requires
        call_requires(*filter, (cell,)),
        call_requires(*cell_color, (cell,)),
    ensures
        eval_matches(*cell_color, *filter, *cell, o),
{
    if filter(cell) {
        Some(cell_color(cell))
    } else {
        None
    }
}

proof fn lemma_vertices_spec_take_step<C>(opts: Seq<Option<C>>, w: int, k: int)
    requires
        0 <= k < opts.len(),
    ensures
        vertices_spec(opts.take(k + 1), w) == (match opts[k] {
            Some(c) => vertices_spec(opts.take(k), w).push(vertex_model(k, w, c)),
            None => vertices_spec(opts.take(k), w),
        }),
{
    let t = opts.take(k + 1);
    assert(t.drop_last() =~= opts.take(k));
    assert(t.last() == opts[k]);
}

/// The vertex count equals the number of cells that passed the filter.
pub proof fn lemma_vertices_spec_len<C>(opts: Seq<Option<C>>, w: int)
    ensures
        vertices_spec(opts, w).len() == count_some(opts),
    decreases opts.len(),
{
    if opts.len() > 0 {
        lemma_vertices_spec_len(opts.drop_last(), w);
    }
}

/// The join point of the parallel phase: turn the per-cell outcomes into the
/// contiguous vertex sequence, one vertex per admitted cell, in index order,
/// each at the position its row-major index dictates.
pub fn assemble<C>(opts: Vec<Option<C>>, shape: &GridShape) -> (verts: Vec<Vertex<C>>)
    requires
        shape.wf(),
        opts@.len() == shape.cell_count_spec(),
    ensures
        verts@ == vertices_spec(opts@, shape.width as int),
        verts@.len() == count_some(opts@),
{
    let width = shape.width;
    let ghost all = opts@;
    let mut verts: Vec<Vertex<C>> = Vec::new();
    let mut i: usize = 0;
    for o in it: opts.into_iter()
        invariant
            it.seq() == all,
            shape.wf(),
            width == shape.width,
            i == it.index(),
            i <= all.len(),
            all.len() <= usize::MAX,
            verts@ == vertices_spec(all.take(i as int), width as int),
    {
        proof {
            lemma_vertices_spec_take_step(all, width as int, i as int);
        }
        match o {
            Some(c) => {
                let col: usize = i % width;
                let row: usize = i / width;
                verts.push(Vertex { color: c, col, row });
            },
            None => {},
        }
        proof {
            assert(i < all.len());
        }
        i = i + 1;
    }
    proof {
        assert(all.take(all.len() as int) =~= all);
        lemma_vertices_spec_len(all, width as int);
    }
    verts
}

/// Relies on rayon's `par_iter().map(..).collect::<Vec<_>>()`: an
/// order-preserving parallel map over the slice (rayon's indexed parallel
/// iterators collect their results in the order of the input), whose closure
/// only calls the verified `eval_cell`.  Hence the result has one outcome per
/// cell, at the cell's own index, each satisfying `eval_cell`'s contract.
#[verifier::external_body]
fn par_eval<T: Sync, C: Send, FC: Fn(&T) -> C + Sync, FF: Fn(&T) -> bool + Sync>(
    cells: &[T],
    cell_color: &FC,
    filter: &FF,
) -> (opts: Vec<Option<C>>)
    requires
        forall|i: int| 0 <= i < cells@.len() ==> call_requires(*filter, (&cells@[i],)),
        forall|i: int| 0 <= i < cells@.len() ==> call_requires(*cell_color, (&cells@[i],)),
    ensures
        opts@.len() == cells@.len(),
        forall|i: int|
            0 <= i < cells@.len() ==> eval_matches(*cell_color, *filter, cells@[i], #[trigger] opts@[i]),
{
    cells.par_iter().map(|c| eval_cell(c, cell_color, filter)).collect()
}

proof fn lemma_count_some_all<C>(opts: Seq<Option<C>>)
    requires
        forall|i: int| 0 <= i < opts.len() ==> (#[trigger] opts[i]) is Some,
    ensures
        count_some(opts) == opts.len(),
    decreases opts.len(),
{
    if opts.len() > 0 {
        lemma_count_some_all(opts.drop_last());
    }
}

proof fn lemma_count_some_none<C>(opts: Seq<Option<C>>)
    requires
        forall|i: int| 0 <= i < opts.len() ==> (#[trigger] opts[i]) is None,
    ensures
        count_some(opts) == 0,
    decreases opts.len(),
{
    if opts.len() > 0 {
        lemma_count_some_none(opts.drop_last());
    }
}

/// The whole generation phase: the data-parallel map-filter over the cell
/// sequence, then the join into one contiguous vertex sequence.  The result
/// is `vertices_spec` of some per-cell outcome sequence in which every
/// outcome obeys the caller's filter and color function; a filter that
/// admits every cell yields one vertex per cell, one that admits none yields
/// no vertex at all, whatever the scheduling of the parallel workers.
pub fn generate_vertices<T: Sync, C: Send, FC: Fn(&T) -> C + Sync, FF: Fn(&T) -> bool + Sync>(
    cells: &[T],
    shape: &GridShape,
    cell_color: &FC,
    filter: &FF,
) -> (verts: Vec<Vertex<C>>)
    requires
        shape.wf(),
        cells@.len() == shape.cell_count_spec(),
        forall|i: int| 0 <= i < cells@.len() ==> call_requires(*filter, (&cells@[i],)),
        forall|i: int| 0 <= i < cells@.len() ==> call_requires(*cell_color, (&cells@[i],)),
    ensures
        exists|opts: Seq<Option<C>>|
            {
                &&& opts.len() == cells@.len()
                &&& (forall|i: int|
                    0 <= i < opts.len() ==> eval_matches(
                        *cell_color,
                        *filter,
                        cells@[i],
                        #[trigger] opts[i],
                    ))
                &&& verts@ == vertices_spec(opts, shape.width as int)
                &&& verts@.len() == count_some(opts)
            },
        verts@.len() <= cells@.len(),
        (forall|c: &T, r: bool| call_ensures(*filter, (c,), r) ==> r) ==> verts@.len()
            == cells@.len(),
        (forall|c: &T, r: bool| call_ensures(*filter, (c,), r) ==> !r) ==> verts@.len() == 0,
{
    let opts = par_eval(cells, cell_color, filter);
    let ghost opts_seq = opts@;
    let verts = assemble(opts, shape);
    proof {
        lemma_count_some_le(opts_seq);
        if forall|c: &T, r: bool| call_ensures(*filter, (c,), r) ==> r {
            assert forall|i: int| 0 <= i < opts_seq.len() implies (#[trigger] opts_seq[i])
                is Some by {
                if opts_seq[i] is None {
                    assert(call_ensures(*filter, (&cells@[i],), false));
                }
            }
            lemma_count_some_all(opts_seq);
        }
        if forall|c: &T, r: bool| call_ensures(*filter, (c,), r) ==> !r {
            assert forall|i: int| 0 <= i < opts_seq.len() implies (#[trigger] opts_seq[i])
                is None by {
                if opts_seq[i] is Some {
                    assert(call_ensures(*filter, (&cells@[i],), true));
                }
            }
            lemma_count_some_none(opts_seq);
        }
    }
    verts
}

proof fn lemma_count_some_le<C>(opts: Seq<Option<C>>)
    ensures
        count_some(opts) <= opts.len(),
    decreases opts.len(),
{
    if opts.len() > 0 {
        lemma_count_some_le(opts.drop_last());
    }
}

/// The position a cell's row-major index dictates, spelled out: for a grid
/// `w` wide and `h` high and an index `i < w * h`, the vertex sits in column
/// `i % w` of row `i / w`, its normalized device coordinates are the exact
/// fractions x = (2*col - w)/w and y = (2*row - h)/h, and both numerators lie
/// in [-den, den), so both coordinates lie in [-1, 1).
pub proof fn lemma_vertex_model_fields<C>(i: int, w: int, h: int, c: C)
    requires
        0 < w,
        0 < h,
        0 <= i < w * h,
        w * h <= usize::MAX,
    ensures
        vertex_model(i, w, c).color == c,
        vertex_model(i, w, c).col == i % w,
        vertex_model(i, w, c).row == i / w,
        vertex_model(i, w, c).col < w,
        vertex_model(i, w, c).row < h,
        vertex_model(i, w, c).row * w + vertex_model(i, w, c).col == i,
        -w <= 2 * (vertex_model(i, w, c).col as int) - w < w,
        -h <= 2 * (vertex_model(i, w, c).row as int) - h < h,
{
    broadcast use vstd::arithmetic::div_mod::lemma_mod_bound;
    broadcast use vstd::arithmetic::div_mod::lemma_fundamental_div_mod;

    assert(w <= w * h && h <= w * h) by (nonlinear_arith)
        requires
            0 < w,
            0 < h,
    ;
    assert(0 <= i % w < w);
    assert(i == w * (i / w) + i % w);
    assert(0 <= i / w) by {
        if i / w < 0 {
            assert(w * (i / w) <= -w) by (nonlinear_arith)
                requires
                    0 < w,
                    i / w <= -1,
            ;
        }
    }
    assert(i / w < h) by {
        if i / w >= h {
            assert(w * (i / w) >= w * h) by (nonlinear_arith)
                requires
                    0 < w,
                    i / w >= h,
            ;
        }
    }
    let v = vertex_model(i, w, c);
    assert(v.col == i % w && v.row == i / w);
    assert(v.row * w + v.col == (i / w) * w + i % w);
    assert((i / w) * w == w * (i / w)) by (nonlinear_arith);
}

/// Every generated vertex comes from a cell the filter admitted: the j-th
/// vertex equals `vertex_model(i, w, c)` for some index `i` whose outcome
/// was `Some(c)`.
pub proof fn lemma_vertices_spec_from_cells<C>(opts: Seq<Option<C>>, w: int)
    ensures
        forall|j: int|
            0 <= j < vertices_spec(opts, w).len() ==> exists|i: int|
                {
                    &&& 0 <= i < opts.len()
                    &&& #[trigger] opts[i] == Some((#[trigger] vertices_spec(opts, w)[j]).color)
                    &&& vertices_spec(opts, w)[j] == vertex_model(
                        i,
                        w,
                        vertices_spec(opts, w)[j].color,
                    )
                },
    decreases opts.len(),
{
    if opts.len() > 0 {
        let pre = opts.drop_last();
        lemma_vertices_spec_from_cells(pre, w);
        let vs = vertices_spec(opts, w);
        let pvs = vertices_spec(pre, w);
        assert forall|j: int| 0 <= j < vs.len() implies exists|i: int|
            {
                &&& 0 <= i < opts.len()
                &&& #[trigger] opts[i] == Some((#[trigger] vs[j]).color)
                &&& vs[j] == vertex_model(i, w, vs[j].color)
            } by {
            if j < pvs.len() {
                assert(vs[j] == pvs[j]);
                let i = choose|i: int|
                    {
                        &&& 0 <= i < pre.len()
                        &&& #[trigger] pre[i] == Some(pvs[j].color)
                        &&& pvs[j] == vertex_model(i, w, pvs[j].color)
                    };
                assert(opts[i] == pre[i]);
                assert(opts[i] == Some(vs[j].color) && vs[j] == vertex_model(i, w, vs[j].color));
            } else {
                let c = opts.last()->0;
                let i = opts.len() - 1;
                assert(opts[i] == Some(c));
                assert(vs[j] == vertex_model(i, w, c));
            }
        }
    }
}

/// Changing only the color function moves no vertex: two outcome sequences
/// that admit exactly the same cells yield equally many vertices, at the
/// same grid coordinates pair by pair; only the colors may differ.
pub proof fn lemma_colors_do_not_move_vertices<C1, C2>(
    opts1: Seq<Option<C1>>,
    opts2: Seq<Option<C2>>,
    w: int,
)
    requires
        opts1.len() == opts2.len(),
        forall|i: int| 0 <= i < opts1.len() ==> ((#[trigger] opts1[i]) is Some <==> (#[trigger] opts2[i]) is Some),
    ensures
        vertices_spec(opts1, w).len() == vertices_spec(opts2, w).len(),
        forall|j: int|
            0 <= j < vertices_spec(opts1, w).len() ==> {
                &&& (#[trigger] vertices_spec(opts1, w)[j]).col == vertices_spec(opts2, w)[j].col
                &&& vertices_spec(opts1, w)[j].row == vertices_spec(opts2, w)[j].row
            },
    decreases opts1.len(),
{
    if opts1.len() > 0 {
        lemma_colors_do_not_move_vertices(opts1.drop_last(), opts2.drop_last(), w);
        assert(opts1.last() == opts1[opts1.len() - 1]);
        assert(opts2.last() == opts2[opts2.len() - 1]);
    }
}

/// Every vertex of a generated sequence lies at the exact position its cell
/// index dictates: column below the width, row below the height, its cell
/// admitted with its color, and both position numerators within [-den, den),
/// so both normalized device coordinates lie in [-1, 1).
pub proof fn lemma_positions_in_range<C>(opts: Seq<Option<C>>, w: int, h: int)
    requires
        0 < w,
        0 < h,
        opts.len() == w * h,
        w * h <= usize::MAX,
    ensures
        forall|j: int|
            0 <= j < vertices_spec(opts, w).len() ==> {
                let v = #[trigger] vertices_spec(opts, w)[j];
                &&& v.col < w
                &&& v.row < h
                &&& 0 <= v.row * w + v.col < opts.len()
                &&& opts[v.row * w + v.col] == Some(v.color)
                &&& -w <= 2 * (v.col as int) - w < w
                &&& -h <= 2 * (v.row as int) - h < h
            },
{
    lemma_vertices_spec_from_cells(opts, w);
    let vs = vertices_spec(opts, w);
    assert forall|j: int| 0 <= j < vs.len() implies {
        let v = #[trigger] vs[j];
        &&& v.col < w
        &&& v.row < h
        &&& 0 <= v.row * w + v.col < opts.len()
        &&& opts[v.row * w + v.col] == Some(v.color)
        &&& -w <= 2 * (v.col as int) - w < w
        &&& -h <= 2 * (v.row as int) - h < h
    } by {
        let i = choose|i: int|
            {
                &&& 0 <= i < opts.len()
                &&& #[trigger] opts[i] == Some(vs[j].color)
                &&& vs[j] == vertex_model(i, w, vs[j].color)
            };
        lemma_vertex_model_fields(i, w, h, vs[j].color);
    }
}

/// Determinism of repeated calls: with a filter whose verdict is a function
/// of the cell alone, two runs of the generation phase over the same cell
/// sequence admit exactly the same cells, and so yield equally many
/// vertices at the same grid coordinates, pair by pair.
pub proof fn lemma_repeated_calls_agree<T, C, FC: Fn(&T) -> C, FF: Fn(&T) -> bool>(
    cell_color: FC,
    filter: FF,
    cells: Seq<T>,
    opts1: Seq<Option<C>>,
    opts2: Seq<Option<C>>,
    w: int,
)
    requires
        opts1.len() == cells.len(),
        opts2.len() == cells.len(),
        forall|i: int|
            0 <= i < cells.len() ==> eval_matches(cell_color, filter, cells[i], #[trigger] opts1[i]),
        forall|i: int|
            0 <= i < cells.len() ==> eval_matches(cell_color, filter, cells[i], #[trigger] opts2[i]),
        forall|c: &T, r1: bool, r2: bool|
            call_ensures(filter, (c,), r1) && call_ensures(filter, (c,), r2) ==> r1 == r2,
    ensures
        vertices_spec(opts1, w).len() == vertices_spec(opts2, w).len(),
        forall|j: int|
            0 <= j < vertices_spec(opts1, w).len() ==> {
                &&& (#[trigger] vertices_spec(opts1, w)[j]).col == vertices_spec(opts2, w)[j].col
                &&& vertices_spec(opts1, w)[j].row == vertices_spec(opts2, w)[j].row
            },
{
    assert forall|i: int|
        0 <= i < opts1.len() implies ((#[trigger] opts1[i]) is Some <==> (#[trigger] opts2[i])
        is Some) by {
        if opts1[i] is Some && opts2[i] is None {
            assert(call_ensures(filter, (&cells[i],), true));
            assert(call_ensures(filter, (&cells[i],), false));
        }
        if opts1[i] is None && opts2[i] is Some {
            assert(call_ensures(filter, (&cells[i],), false));
            assert(call_ensures(filter, (&cells[i],), true));
        }
    }
    lemma_colors_do_not_move_vertices(opts1, opts2, w);
}

} // verus!
