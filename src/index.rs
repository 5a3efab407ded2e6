//! Strided index decomposition: a flat position into per-dimension coordinates.
use vstd::prelude::*;
use vstd::arithmetic::div_mod::{lemma_fundamental_div_mod, lemma_fundamental_div_mod_converse};

verus! {

/// Coordinates of `flat` against `strides`, most significant dimension first:
/// each coordinate is the remaining position divided by its stride, and the
/// remainder carries on to the next dimension.
pub open spec fn decompose_spec(flat: nat, strides: Seq<usize>) -> Seq<nat>
    decreases strides.len(),
{
    if strides.len() == 0 {
        seq![]
    } else {
        seq![flat / (strides[0] as nat)] + decompose_spec(
            flat % (strides[0] as nat),
            strides.drop_first(),
        )
    }
}

/// The flat position that `coords` name through `strides`.
pub open spec fn recompose_spec(coords: Seq<nat>, strides: Seq<usize>) -> int
    decreases strides.len(),
{
    if strides.len() == 0 || coords.len() == 0 {
        0
    } else {
        coords[0] * strides[0] + recompose_spec(coords.drop_first(), strides.drop_first())
    }
}

/// Number of elements of a tensor of the given shape.
pub open spec fn shape_size(shape: Seq<usize>) -> nat
    decreases shape.len(),
{
    if shape.len() == 0 {
        1
    } else {
        (shape[0] as nat) * shape_size(shape.drop_first())
    }
}

/// Row-major (contiguous) strides of `shape`: each stride is the size of the
/// dimensions inside it.
pub open spec fn contiguous_strides_spec(shape: Seq<usize>) -> Seq<nat> {
    Seq::new(shape.len(), |d: int| shape_size(shape.subrange(d + 1, shape.len() as int)))
}

/// Every stride of `shape`, and its total size, fit in a `usize`.
pub open spec fn strides_fit(shape: Seq<usize>) -> bool {
    forall|d: int|
        0 <= d <= shape.len() ==> #[trigger] shape_size(shape.subrange(d, shape.len() as int))
            <= usize::MAX
}

pub open spec fn strides_positive(strides: Seq<usize>) -> bool {
    forall|d: int| 0 <= d < strides.len() ==> strides[d] > 0
}

pub open spec fn nat_view(v: Seq<usize>) -> Seq<nat> {
    v.map_values(|x: usize| x as nat)
}

/// Splits a flat position into one coordinate per stride.
pub fn decompose(flat: usize, strides: &Vec<usize>) -> (r: Vec<usize>)
    requires
        strides_positive(strides@),
    ensures
        nat_view(r@) == decompose_spec(flat as nat, strides@),
{
    let n = strides.len();
    let mut r: Vec<usize> = Vec::with_capacity(n);
    let mut rem: usize = flat;
    let mut d: usize = 0;
    assert(strides@.subrange(0, n as int) =~= strides@);
    assert(nat_view(r@) + decompose_spec(flat as nat, strides@) =~= decompose_spec(
        flat as nat,
        strides@,
    ));
    while d < n
        invariant
            n == strides.len(),
            d <= n,
            strides_positive(strides@),
            decompose_spec(flat as nat, strides@) == nat_view(r@) + decompose_spec(
                rem as nat,
                strides@.subrange(d as int, n as int),
            ),
        decreases n - d,
    {
        let s = strides[d];
        let ghost tail = strides@.subrange(d as int, n as int);
        assert(tail.drop_first() =~= strides@.subrange(d + 1, n as int));
        assert(tail[0] == s);
        let ghost old_r = nat_view(r@);
        let ghost rest = decompose_spec((rem % s) as nat, tail.drop_first());
        assert(decompose_spec(rem as nat, tail) == seq![(rem / s) as nat] + rest);
        r.push(rem / s);
        proof {
            assert(nat_view(r@) =~= old_r + seq![(rem / s) as nat]);
            assert(old_r + (seq![(rem / s) as nat] + rest) =~= nat_view(r@) + rest);
        }
        rem = rem % s;
        d = d + 1;
    }
    assert(strides@.subrange(n as int, n as int) =~= Seq::<usize>::empty());
    assert(nat_view(r@) + Seq::<nat>::empty() =~= nat_view(r@));
    r
}

/// Row-major strides of `shape`.
pub fn contiguous_strides(shape: &Vec<usize>) -> (r: Vec<usize>)
    requires
        strides_fit(shape@),
    ensures
        nat_view(r@) == contiguous_strides_spec(shape@),
{
    let n = shape.len();
    let mut r: Vec<usize> = vec![1usize; n];
    let mut acc: usize = 1;
    let mut d: usize = n;
    proof {
        assert(shape@.subrange(n as int, n as int) =~= Seq::<usize>::empty());
    }
    while d > 0
        invariant
            n == shape.len(),
            d <= n,
            r@.len() == n,
            strides_fit(shape@),
            acc as nat == shape_size(shape@.subrange(d as int, n as int)),
            forall|k: int|
                d <= k < n ==> #[trigger] r@[k] as nat == shape_size(
                    shape@.subrange(k + 1, n as int),
                ),
        decreases d,
    {
        d = d - 1;
        r.set(d, acc);
        proof {
            let tail = shape@.subrange(d as int, n as int);
            assert(tail.drop_first() =~= shape@.subrange(d + 1, n as int));
            assert(shape_size(shape@.subrange(d as int, n as int)) <= usize::MAX);
            assert(shape_size(tail) == (tail[0] as nat) * shape_size(tail.drop_first()));
            assert(tail[0] == shape[d as int]);
            assert(acc * shape[d as int] == (tail[0] as nat) * shape_size(tail.drop_first()))
                by (nonlinear_arith)
                requires
                    acc as nat == shape_size(tail.drop_first()),
                    tail[0] == shape[d as int],
            ;
        }
        acc = acc * shape[d];
    }
    proof {
        assert(nat_view(r@) =~= contiguous_strides_spec(shape@));
    }
    r
}

/// Number of elements of a tensor of the given shape.
pub fn num_elements(shape: &Vec<usize>) -> (r: usize)
    requires
        strides_fit(shape@),
    ensures
        r as nat == shape_size(shape@),
{
    let n = shape.len();
    let mut acc: usize = 1;
    let mut d: usize = n;
    assert(shape@.subrange(n as int, n as int) =~= Seq::<usize>::empty());
    while d > 0
        invariant
            n == shape.len(),
            d <= n,
            strides_fit(shape@),
            acc as nat == shape_size(shape@.subrange(d as int, n as int)),
        decreases d,
    {
        d = d - 1;
        let ghost tail = shape@.subrange(d as int, n as int);
        assert(tail.drop_first() =~= shape@.subrange(d + 1, n as int));
        assert(shape_size(tail) <= usize::MAX);
        assert(shape_size(tail) == (tail[0] as nat) * shape_size(tail.drop_first()));
        assert(acc * shape[d as int] == (tail[0] as nat) * shape_size(tail.drop_first()))
            by (nonlinear_arith)
            requires
                acc as nat == shape_size(tail.drop_first()),
                tail[0] == shape[d as int],
        ;
        acc = acc * shape[d];
    }
    assert(shape@.subrange(0, n as int) =~= shape@);
    acc
}

/// Decomposing a flat position and recomposing its coordinates gives the
/// position back, for the contiguous strides of any shape without empty
/// dimensions and any position inside that shape.
pub proof fn lemma_decompose_recompose(shape: Seq<usize>, strides: Seq<usize>, flat: nat)
    requires
        shape.len() > 0,
        forall|d: int| 0 <= d < shape.len() ==> shape[d] > 0,
        nat_view(strides) == contiguous_strides_spec(shape),
        flat < shape_size(shape),
    ensures
        recompose_spec(decompose_spec(flat, strides), strides) == flat,
{
    let n = shape.len() as int;
    assert(strides.len() == n) by {
        assert(nat_view(strides).len() == strides.len());
    }
    assert forall|d: int| 0 <= d < n implies strides[d] > 0 by {
        assert(nat_view(strides)[d] == strides[d] as nat);
        lemma_size_positive(shape.subrange(d + 1, n));
    }
    assert(strides[n - 1] == 1) by {
        assert(nat_view(strides)[n - 1] == strides[n - 1] as nat);
        assert(shape.subrange(n, n) =~= Seq::<usize>::empty());
    }
    lemma_round_trip(strides, flat);
}

proof fn lemma_size_positive(shape: Seq<usize>)
    requires
        forall|d: int| 0 <= d < shape.len() ==> shape[d] > 0,
    ensures
        shape_size(shape) > 0,
    decreases shape.len(),
{
    if shape.len() > 0 {
        lemma_size_positive(shape.drop_first());
        assert((shape[0] as nat) * shape_size(shape.drop_first()) > 0) by (nonlinear_arith)
            requires
                shape[0] > 0,
                shape_size(shape.drop_first()) > 0,
        ;
    }
}

/// Round trip over any positive strides whose innermost stride is one.
proof fn lemma_round_trip(strides: Seq<usize>, flat: nat)
    requires
        strides.len() > 0,
        strides_positive(strides),
        strides[strides.len() - 1] == 1,
    ensures
        recompose_spec(decompose_spec(flat, strides), strides) == flat,
    decreases strides.len(),
{
    let s0 = strides[0] as nat;
    let coords = decompose_spec(flat, strides);
    let rest = strides.drop_first();
    let tail = decompose_spec(flat % s0, rest);
    assert(coords == seq![flat / s0] + tail);
    assert(coords.drop_first() =~= tail);
    lemma_fundamental_div_mod(flat as int, s0 as int);
    if strides.len() == 1 {
        assert(flat % s0 == 0);
        assert(recompose_spec(tail, rest) == 0);
    } else {
        lemma_round_trip(rest, flat % s0);
    }
    assert(recompose_spec(coords, strides) == (flat / s0) * s0 + recompose_spec(tail, rest));
    assert((flat / s0) * s0 == s0 * (flat / s0)) by (nonlinear_arith);
}

/// Position `(bc * rows + r) * cols + c` splits back into `(bc, r, c)`.
pub(crate) proof fn lemma_split(bc: int, r: int, c: int, rows: int, cols: int)
    requires
        bc >= 0,
        0 <= r < rows,
        0 <= c < cols,
    ensures
        ((bc * rows + r) * cols + c) / (rows * cols) == bc,
        (((bc * rows + r) * cols + c) % (rows * cols)) / cols == r,
        (((bc * rows + r) * cols + c) % (rows * cols)) % cols == c,
{
    let o = (bc * rows + r) * cols + c;
    assert(o == bc * (rows * cols) + (r * cols + c)) by (nonlinear_arith)
        requires
            o == (bc * rows + r) * cols + c,
    ;
    assert(0 <= r * cols + c < rows * cols) by (nonlinear_arith)
        requires
            0 <= r < rows,
            0 <= c < cols,
    ;
    lemma_fundamental_div_mod_converse(o, rows * cols, bc, r * cols + c);
    lemma_fundamental_div_mod_converse(r * cols + c, cols, r, c);
}

/// A position is the sum of its split parts.
pub(crate) proof fn lemma_join(o: int, rows: int, cols: int)
    requires
        o >= 0,
        rows >= 1,
        cols >= 1,
    ensures
        o == ((o / (rows * cols)) * rows + (o % (rows * cols)) / cols) * cols + (o % (rows * cols))
            % cols,
{
    let plane = rows * cols;
    assert(plane >= 1) by (nonlinear_arith)
        requires
            plane == rows * cols,
            rows >= 1,
            cols >= 1,
    ;
    lemma_fundamental_div_mod(o, plane);
    lemma_fundamental_div_mod(o % plane, cols);
    let q = o / plane;
    let m = o % plane;
    assert(o == plane * q + m);
    assert(m == cols * (m / cols) + m % cols);
    assert(o == (q * rows + m / cols) * cols + m % cols) by (nonlinear_arith)
        requires
            o == plane * q + m,
            plane == rows * cols,
            m == cols * (m / cols) + m % cols,
    ;
}

/// `x < rows * cols` has its row `x / cols` below `rows`.
pub(crate) proof fn lemma_row_bound(x: int, rows: int, cols: int)
    requires
        0 <= x < rows * cols,
        cols >= 1,
    ensures
        0 <= x / cols < rows,
{
    lemma_fundamental_div_mod(x, cols);
    assert(0 <= x / cols < rows) by (nonlinear_arith)
        requires
            x == cols * (x / cols) + x % cols,
            0 <= x % cols,
            0 <= x < rows * cols,
            cols >= 1,
    ;
}

} // verus!
