//! Spatial resampling of (batch, channels, height, width) tensors: the index
//! side of nearest, bilinear and bicubic interpolation. Nearest is a pure copy
//! and is done here; the weighted kinds get their taps and fractional weights
//! here as exact integers.
use vstd::prelude::*;
use vstd::arithmetic::div_mod::{lemma_fundamental_div_mod, lemma_fundamental_div_mod_converse};
use crate::index::{lemma_join, lemma_row_bound, lemma_split};

verus! {

/// A contiguous row-major tensor of rank four.
pub struct Tensor4<T> {
    pub shape: [usize; 4],
    pub data: Vec<T>,
}

pub open spec fn size4(shape: [usize; 4]) -> int {
    shape[0] * shape[1] * (shape[2] * shape[3])
}

impl<T> Tensor4<T> {
    /// The data holds exactly one element per position.
    pub open spec fn wf(&self) -> bool {
        self.data@.len() == size4(self.shape)
    }
}

/// (batch·channels, row, column) of flat position `i` in a tensor of `shape`.
pub open spec fn coords_of(shape: [usize; 4], i: int) -> (int, int, int) {
    let plane = shape[2] * shape[3];
    (i / plane, (i % plane) / (shape[3] as int), (i % plane) % (shape[3] as int))
}

/// Input row or column that output coordinate `o` copies, unaligned corners:
/// `floor(o * in_size / out_size)`.
pub open spec fn nearest_coord(in_size: int, out_size: int, o: int) -> int {
    (o * in_size) / out_size
}

/// Output shape: batch and channels kept, spatial size replaced.
pub open spec fn resized(shape: [usize; 4], output_size: [usize; 2]) -> [usize; 4] {
    [shape[0], shape[1], output_size[0], output_size[1]]
}

/// Input position that output position `i` copies in nearest resampling.
pub open spec fn nearest_source(shape: [usize; 4], output_size: [usize; 2], i: int) -> int {
    let (bc, h, w) = coords_of(resized(shape, output_size), i);
    (bc * shape[2] + nearest_coord(shape[2] as int, output_size[0] as int, h)) * shape[3]
        + nearest_coord(shape[3] as int, output_size[1] as int, w)
}

/// `floor(o * in_size / out_size)` for `o < out_size` stays below `in_size`.
proof fn lemma_nearest_in_range(in_size: int, out_size: int, o: int)
    requires
        in_size >= 1,
        0 <= o < out_size,
    ensures
        0 <= nearest_coord(in_size, out_size, o) < in_size,
{
    lemma_fundamental_div_mod(o * in_size, out_size);
    assert(0 <= (o * in_size) / out_size < in_size) by (nonlinear_arith)
        requires
            o * in_size == out_size * ((o * in_size) / out_size) + (o * in_size) % out_size,
            0 <= (o * in_size) % out_size,
            0 <= o < out_size,
            in_size >= 1,
    ;
}

/// Output position `i` splits into coordinates inside the output, and its
/// nearest source lies inside the input.
proof fn lemma_nearest_source_in_range(shape: [usize; 4], output_size: [usize; 2], i: int)
    requires
        shape[2] >= 1,
        shape[3] >= 1,
        0 <= i < size4(resized(shape, output_size)),
    ensures
        0 <= nearest_source(shape, output_size, i) < size4(shape),
{
    let oh = output_size[0] as int;
    let ow = output_size[1] as int;
    let bcn = shape[0] * shape[1];
    assert(oh * ow >= 1 && bcn >= 0 && ow >= 1) by (nonlinear_arith)
        requires
            0 <= i < bcn * (oh * ow),
            oh >= 0,
            ow >= 0,
            shape[0] >= 0,
            shape[1] >= 0,
            bcn == shape[0] * shape[1],
    ;
    lemma_row_bound(i, bcn, oh * ow);
    lemma_fundamental_div_mod(i, oh * ow);
    lemma_row_bound(i % (oh * ow), oh, ow);
    lemma_fundamental_div_mod(i % (oh * ow), ow);
    let (bc, h, w) = coords_of(resized(shape, output_size), i);
    lemma_nearest_in_range(shape[2] as int, oh, h);
    lemma_nearest_in_range(shape[3] as int, ow, w);
    let y = nearest_coord(shape[2] as int, oh, h);
    let x = nearest_coord(shape[3] as int, ow, w);
    assert(0 <= (bc * shape[2] + y) * shape[3] + x < bcn * (shape[2] * shape[3])) by (nonlinear_arith)
        requires
            0 <= bc < bcn,
            0 <= y < shape[2],
            0 <= x < shape[3],
    ;
}

/// With the output size equal to the input size, every position copies itself.
pub proof fn lemma_nearest_same_size(shape: [usize; 4], i: int)
    requires
        shape[2] >= 1,
        shape[3] >= 1,
        0 <= i < size4(shape),
    ensures
        nearest_source(shape, [shape[2], shape[3]], i) == i,
{
    let output_size = [shape[2], shape[3]];
    assert(resized(shape, output_size) =~= shape);
    let h_n = shape[2] as int;
    let w_n = shape[3] as int;
    let (bc, h, w) = coords_of(shape, i);
    lemma_nearest_source_in_range(shape, output_size, i);
    lemma_fundamental_div_mod_converse(h * h_n, h_n, h, 0);
    lemma_fundamental_div_mod_converse(w * w_n, w_n, w, 0);
    assert(h * h_n == h_n * h) by (nonlinear_arith);
    assert(w * w_n == w_n * w) by (nonlinear_arith);
    lemma_join(i, h_n, w_n);
}

/// Nearest-neighbour resampling of the two spatial axes to `output_size`.
pub fn nearest_interpolate<T: Copy>(x: &Tensor4<T>, output_size: [usize; 2]) -> (r: Tensor4<T>)
    requires
        x.wf(),
        x.shape[2] >= 1,
        x.shape[3] >= 1,
        size4(resized(x.shape, output_size)) <= usize::MAX,
    ensures
        r.wf(),
        r.shape == resized(x.shape, output_size),
        forall|i: int|
            0 <= i < r.data@.len() ==> #[trigger] r.data@[i] == x.data@[nearest_source(
                x.shape,
                output_size,
                i,
            )],
        output_size == [x.shape[2], x.shape[3]] ==> r.data@ == x.data@,
{
    let shape = [x.shape[0], x.shape[1], output_size[0], output_size[1]];
    let in_h = x.shape[2];
    let in_w = x.shape[3];
    let out_h = output_size[0];
    let out_w = output_size[1];
    assert(shape =~= resized(x.shape, output_size));
    let in_len = x.data.len();
    let b = x.shape[0];
    let c = x.shape[1];
    let total: usize = if b == 0 || c == 0 || out_h == 0 || out_w == 0 {
        assert(size4(shape) == 0) by (nonlinear_arith)
            requires
                b == 0 || c == 0 || out_h == 0 || out_w == 0,
                size4(shape) == b * c * (out_h * out_w),
        ;
        0
    } else {
        assert(b * c <= size4(shape) && out_h * out_w <= size4(shape)) by (nonlinear_arith)
            requires
                b >= 1,
                c >= 1,
                out_h >= 1,
                out_w >= 1,
                size4(shape) == b * c * (out_h * out_w),
        ;
        b * c * (out_h * out_w)
    };
    let mut data: Vec<T> = Vec::with_capacity(total);
    let mut i: usize = 0;
    while i < total
        invariant
            i <= total,
            total == size4(shape),
            shape == resized(x.shape, output_size),
            x.wf(),
            in_h == x.shape[2] >= 1,
            in_w == x.shape[3] >= 1,
            in_len == x.data@.len(),
            out_h == output_size[0],
            out_w == output_size[1],
            data@.len() == i,
            forall|k: int|
                0 <= k < i ==> #[trigger] data@[k] == x.data@[nearest_source(x.shape, output_size, k)],
        decreases total - i,
    {
        proof {
            lemma_nearest_source_in_range(x.shape, output_size, i as int);
            assert(out_h * out_w >= 1) by (nonlinear_arith)
                requires
                    i < x.shape[0] * x.shape[1] * (out_h * out_w),
            ;
            assert(out_h * out_w <= total) by (nonlinear_arith)
                requires
                    i < x.shape[0] * x.shape[1] * (out_h * out_w),
                    total == x.shape[0] * x.shape[1] * (out_h * out_w),
            ;
            assert(in_h * in_w <= x.data@.len()) by (nonlinear_arith)
                requires
                    x.data@.len() == x.shape[0] * x.shape[1] * (in_h * in_w),
                    i < x.shape[0] * x.shape[1] * (out_h * out_w),
            ;
        }
        let plane = out_h * out_w;
        let bc = i / plane;
        let rem = i % plane;
        let h = rem / out_w;
        let w = rem % out_w;
        proof {
            lemma_fundamental_div_mod(rem as int, out_w as int);
            assert(h < out_h) by (nonlinear_arith)
                requires
                    rem < out_h * out_w,
                    rem == out_w * h + w,
                    w >= 0,
            ;
            lemma_nearest_in_range(in_h as int, out_h as int, h as int);
            lemma_nearest_in_range(in_w as int, out_w as int, w as int);
            assert(coords_of(shape, i as int) == (bc as int, h as int, w as int));
            assert(h * in_h <= 0xffff_ffff_ffff_ffff * 0xffff_ffff_ffff_ffff) by (nonlinear_arith)
                requires
                    h <= 0xffff_ffff_ffff_ffff,
                    in_h <= 0xffff_ffff_ffff_ffff,
            ;
            assert(w * in_w <= 0xffff_ffff_ffff_ffff * 0xffff_ffff_ffff_ffff) by (nonlinear_arith)
                requires
                    w <= 0xffff_ffff_ffff_ffff,
                    in_w <= 0xffff_ffff_ffff_ffff,
            ;
        }
        let y = ((h as u128 * in_h as u128) / out_h as u128) as usize;
        let xi = ((w as u128 * in_w as u128) / out_w as u128) as usize;
        proof {
            let src = (bc * in_h + y) * in_w + xi;
            assert(src == nearest_source(x.shape, output_size, i as int));
            assert(bc * in_h <= bc * in_h + y <= (bc * in_h + y) * in_w <= src) by (nonlinear_arith)
                requires
                    src == (bc * in_h + y) * in_w + xi,
                    in_w >= 1,
                    bc >= 0,
                    in_h >= 0,
                    y >= 0,
                    xi >= 0,
            ;
        }
        let src = (bc * in_h + y) * in_w + xi;
        data.push(x.data[src]);
        i = i + 1;
    }
    proof {
        if output_size == [x.shape[2], x.shape[3]] {
            assert forall|k: int| 0 <= k < data@.len() implies data@[k] == x.data@[k] by {
                lemma_nearest_same_size(x.shape, k);
            }
            assert(data@ =~= x.data@);
        }
    }
    Tensor4 { shape, data }
}

/// Denominator of aligned-corner positions: `out_size - 1`, or one for a
/// single output sample, which then sits on the first input sample.
pub open spec fn aligned_den(out_size: int) -> int {
    if out_size > 1 { out_size - 1 } else { 1 }
}

/// Aligned-corner source position of output coordinate `o`, as a numerator
/// over `aligned_den(out_size)`: `o * (in_size - 1) / (out_size - 1)`.
pub open spec fn aligned_num(in_size: int, o: int) -> int {
    (in_size - 1) * o
}

/// The two input taps around one output coordinate and the weight of the
/// upper one, `weight_num / weight_den`, exact.
#[derive(Clone, Copy, Debug, PartialEq, Eq, Structural)]
pub struct LinearTap {
    pub lo: usize,
    pub hi: usize,
    pub weight_num: usize,
    pub weight_den: usize,
}

/// Floor and ceiling of the aligned-corner position and its fractional part.
pub open spec fn linear_tap_spec(in_size: int, out_size: int, o: int) -> LinearTap {
    let den = aligned_den(out_size);
    let num = aligned_num(in_size, o);
    let lo = num / den;
    let frac = num % den;
    LinearTap {
        lo: lo as usize,
        hi: (if frac > 0 { lo + 1 } else { lo }) as usize,
        weight_num: frac as usize,
        weight_den: den as usize,
    }
}

proof fn lemma_linear_tap_in_range(in_size: int, out_size: int, o: int)
    requires
        in_size >= 1,
        0 <= o < out_size,
    ensures
        ({
            let den = aligned_den(out_size);
            let num = aligned_num(in_size, o);
            &&& 0 <= num / den <= in_size - 1
            &&& num % den > 0 ==> num / den < in_size - 1
            &&& 0 <= num % den < den
        }),
{
    let den = aligned_den(out_size);
    let num = aligned_num(in_size, o);
    lemma_fundamental_div_mod(num, den);
    assert(0 <= o <= den);
    assert(0 <= num <= (in_size - 1) * den) by (nonlinear_arith)
        requires
            num == (in_size - 1) * o,
            0 <= o <= den,
            in_size >= 1,
    ;
    assert(0 <= num / den <= in_size - 1) by (nonlinear_arith)
        requires
            num == den * (num / den) + num % den,
            0 <= num % den < den,
            0 <= num <= (in_size - 1) * den,
    ;
    if num % den > 0 {
        assert(num / den < in_size - 1) by (nonlinear_arith)
            requires
                num == den * (num / den) + num % den,
                0 < num % den < den,
                0 <= num <= (in_size - 1) * den,
        ;
    }
}

/// Taps and weight of output coordinate `o` along one axis, aligned corners.
pub fn linear_tap(in_size: usize, out_size: usize, o: usize) -> (r: LinearTap)
    requires
        in_size >= 1,
        o < out_size,
    ensures
        r == linear_tap_spec(in_size as int, out_size as int, o as int),
        r.lo <= r.hi < in_size,
{
    proof {
        lemma_linear_tap_in_range(in_size as int, out_size as int, o as int);
        assert((in_size - 1) * o <= 0xffff_ffff_ffff_ffff * 0xffff_ffff_ffff_ffff) by (nonlinear_arith)
            requires
                in_size <= 0xffff_ffff_ffff_ffff,
                o <= 0xffff_ffff_ffff_ffff,
                in_size >= 1,
        ;
    }
    let den: usize = if out_size > 1 { out_size - 1 } else { 1 };
    let num = (in_size as u128 - 1) * o as u128;
    let lo = (num / den as u128) as usize;
    let frac = (num % den as u128) as usize;
    let hi = if frac > 0 { lo + 1 } else { lo };
    LinearTap { lo, hi, weight_num: frac, weight_den: den }
}

/// Output size equal to input size: every tap is exact, both taps are the
/// coordinate itself and the weight is zero.
pub proof fn lemma_linear_tap_same_size(size: int, o: int)
    requires
        0 <= o < size <= usize::MAX,
    ensures
        linear_tap_spec(size, size, o).lo == o,
        linear_tap_spec(size, size, o).hi == o,
        linear_tap_spec(size, size, o).weight_num == 0,
{
    let den = aligned_den(size);
    if size > 1 {
        assert((size - 1) * o == o * den + 0) by (nonlinear_arith)
            requires
                den == size - 1,
        ;
        lemma_fundamental_div_mod_converse((size - 1) * o, den, o, 0);
    } else {
        assert(o == 0);
        assert(aligned_num(size, o) == 0) by (nonlinear_arith)
            requires
                o == 0,
                aligned_num(size, o) == (size - 1) * o,
        ;
    }
}

/// Four taps of cubic convolution along one axis, `lo - 1 ..= lo + 2` clamped
/// to the input, and the fractional position `weight_num / weight_den`.
#[derive(Clone, Copy, Debug)]
pub struct CubicTaps {
    pub taps: [usize; 4],
    pub weight_num: usize,
    pub weight_den: usize,
}

/// `lo + k - 1` clamped to `[0, in_size - 1]`.
pub open spec fn clamped_tap(lo: int, k: int, in_size: int) -> int {
    let t = lo + k - 1;
    if t < 0 { 0 } else if t > in_size - 1 { in_size - 1 } else { t }
}

/// Lower tap of the aligned-corner position: its floor.
pub open spec fn aligned_floor(in_size: int, out_size: int, o: int) -> int {
    aligned_num(in_size, o) / aligned_den(out_size)
}

fn clamp_tap(lo: usize, k: usize, in_size: usize) -> (r: usize)
    requires
        lo < in_size,
        k < 4,
    ensures
        r == clamped_tap(lo as int, k as int, in_size as int),
{
    if k == 0 {
        if lo == 0 { 0 } else { lo - 1 }
    } else if k - 1 > in_size - 1 - lo {
        in_size - 1
    } else {
        lo + (k - 1)
    }
}

/// Cubic taps and fractional position of output coordinate `o`, aligned corners.
pub fn cubic_taps(in_size: usize, out_size: usize, o: usize) -> (r: CubicTaps)
    requires
        in_size >= 1,
        o < out_size,
    ensures
        forall|k: int|
            0 <= k < 4 ==> r.taps[k] as int == clamped_tap(
                aligned_floor(in_size as int, out_size as int, o as int),
                k,
                in_size as int,
            ),
        forall|k: int| 0 <= k < 4 ==> r.taps[k] < in_size,
        r.weight_num == aligned_num(in_size as int, o as int) % aligned_den(out_size as int),
        r.weight_den == aligned_den(out_size as int),
{
    let t = linear_tap(in_size, out_size, o);
    proof {
        lemma_linear_tap_in_range(in_size as int, out_size as int, o as int);
    }
    let taps = [
        clamp_tap(t.lo, 0, in_size),
        clamp_tap(t.lo, 1, in_size),
        clamp_tap(t.lo, 2, in_size),
        clamp_tap(t.lo, 3, in_size),
    ];
    let r = CubicTaps { taps, weight_num: t.weight_num, weight_den: t.weight_den };
    let ghost lo = aligned_floor(in_size as int, out_size as int, o as int);
    assert forall|k: int| 0 <= k < 4 implies r.taps[k] as int == clamped_tap(lo, k, in_size as int)
        && r.taps[k] < in_size by {
        if k == 0 {
            assert(r.taps[k] == taps[0]);
        } else if k == 1 {
            assert(r.taps[k] == taps[1]);
        } else if k == 2 {
            assert(r.taps[k] == taps[2]);
        } else {
            assert(r.taps[k] == taps[3]);
        }
    }
    r
}

/// Sampling exactly on an input grid point (a zero fractional part) puts the
/// second tap on that grid point itself; with output size equal to input size
/// every output coordinate is such a grid point, namely itself.
pub proof fn lemma_cubic_taps_on_grid(in_size: int, out_size: int, o: int)
    requires
        in_size >= 1,
        0 <= o < out_size <= usize::MAX,
        aligned_num(in_size, o) % aligned_den(out_size) == 0,
    ensures
        clamped_tap(aligned_floor(in_size, out_size, o), 1, in_size) * aligned_den(out_size)
            == aligned_num(in_size, o),
        in_size == out_size ==> clamped_tap(aligned_floor(in_size, out_size, o), 1, in_size) == o,
{
    lemma_linear_tap_in_range(in_size, out_size, o);
    let num = aligned_num(in_size, o);
    let den = aligned_den(out_size);
    lemma_fundamental_div_mod(num, den);
    assert((num / den) * den == den * (num / den)) by (nonlinear_arith);
    if in_size == out_size {
        lemma_linear_tap_same_size(in_size, o);
    }
}

/// Flat position of `(bc, row, col)` in a tensor of `shape`.
pub open spec fn flat_of(shape: [usize; 4], bc: int, row: int, col: int) -> int {
    (bc * shape[2] + row) * shape[3] + col
}

fn flat_index(shape: [usize; 4], bc: usize, row: usize, col: usize) -> (r: usize)
    requires
        bc < shape[0] * shape[1],
        row < shape[2],
        col < shape[3],
        size4(shape) <= usize::MAX,
    ensures
        r == flat_of(shape, bc as int, row as int, col as int),
        r < size4(shape),
{
    proof {
        let f = flat_of(shape, bc as int, row as int, col as int);
        assert(bc * shape[2] <= bc * shape[2] + row <= (bc * shape[2] + row) * shape[3] <= f < size4(shape))
            by (nonlinear_arith)
            requires
                f == (bc * shape[2] + row) * shape[3] + col,
                bc < shape[0] * shape[1],
                row < shape[2],
                col < shape[3],
                size4(shape) == shape[0] * shape[1] * (shape[2] * shape[3]),
        ;
    }
    (bc * shape[2] + row) * shape[3] + col
}

/// Splits output position `i` into `(bc, h, w)` of the output tensor.
fn output_coords(shape: [usize; 4], output_size: [usize; 2], i: usize) -> (r: (usize, usize, usize))
    requires
        i < size4(resized(shape, output_size)) <= usize::MAX,
    ensures
        (r.0 as int, r.1 as int, r.2 as int) == coords_of(resized(shape, output_size), i as int),
        r.0 < shape[0] * shape[1],
        r.1 < output_size[0],
        r.2 < output_size[1],
{
    let oh = output_size[0];
    let ow = output_size[1];
    let ghost bcn = shape[0] as int * shape[1] as int;
    proof {
        assert(oh * ow >= 1 && bcn >= 1) by (nonlinear_arith)
            requires
                0 <= i < bcn * (oh * ow),
                bcn >= 0,
                oh >= 0,
                ow >= 0,
        ;
        assert(oh * ow <= bcn * (oh * ow)) by (nonlinear_arith)
            requires
                bcn >= 1,
                oh * ow >= 1,
        ;
        lemma_row_bound(i as int, bcn, oh * ow);
        lemma_fundamental_div_mod(i as int, oh * ow);
        lemma_row_bound(i as int % (oh * ow), oh as int, ow as int);
        assert(oh * ow <= size4(resized(shape, output_size)));
    }
    let plane = oh * ow;
    let rem = i % plane;
    (i / plane, rem / ow, rem % ow)
}

/// The four corner positions of bilinear resampling for one output position,
/// ordered (lo, lo), (lo, hi), (hi, lo), (hi, hi) in (row, column), with the
/// row and column taps that weight them.
#[derive(Clone, Copy, Debug)]
pub struct BilinearSample {
    pub corners: [usize; 4],
    pub y: LinearTap,
    pub x: LinearTap,
}

/// Taps of output position `i` in bilinear resampling to `output_size`.
pub fn bilinear_sample(shape: [usize; 4], output_size: [usize; 2], i: usize) -> (r: BilinearSample)
    requires
        shape[2] >= 1,
        shape[3] >= 1,
        size4(shape) <= usize::MAX,
        i < size4(resized(shape, output_size)) <= usize::MAX,
    ensures
        ({
            let (bc, h, w) = coords_of(resized(shape, output_size), i as int);
            &&& r.y == linear_tap_spec(shape[2] as int, output_size[0] as int, h)
            &&& r.x == linear_tap_spec(shape[3] as int, output_size[1] as int, w)
            &&& r.corners[0] == flat_of(shape, bc, r.y.lo as int, r.x.lo as int)
            &&& r.corners[1] == flat_of(shape, bc, r.y.lo as int, r.x.hi as int)
            &&& r.corners[2] == flat_of(shape, bc, r.y.hi as int, r.x.lo as int)
            &&& r.corners[3] == flat_of(shape, bc, r.y.hi as int, r.x.hi as int)
        }),
        forall|k: int| 0 <= k < 4 ==> r.corners[k] < size4(shape),
{
    let (bc, h, w) = output_coords(shape, output_size, i);
    let y = linear_tap(shape[2], output_size[0], h);
    let x = linear_tap(shape[3], output_size[1], w);
    let corners = [
        flat_index(shape, bc, y.lo, x.lo),
        flat_index(shape, bc, y.lo, x.hi),
        flat_index(shape, bc, y.hi, x.lo),
        flat_index(shape, bc, y.hi, x.hi),
    ];
    let r = BilinearSample { corners, y, x };
    assert forall|k: int| 0 <= k < 4 implies r.corners[k] < size4(shape) by {
        if k == 0 {
            assert(r.corners[k] == corners[0]);
        } else if k == 1 {
            assert(r.corners[k] == corners[1]);
        } else if k == 2 {
            assert(r.corners[k] == corners[2]);
        } else {
            assert(r.corners[k] == corners[3]);
        }
    }
    r
}

/// The 4 × 4 neighbourhood of bicubic resampling for one output position:
/// position `row_bases[a] + cols[b]` is row tap `a`, column tap `b`.
#[derive(Clone, Copy, Debug)]
pub struct BicubicSample {
    pub row_bases: [usize; 4],
    pub cols: [usize; 4],
    pub y: CubicTaps,
    pub x: CubicTaps,
}

/// Taps of output position `i` in bicubic resampling to `output_size`.
pub fn bicubic_sample(shape: [usize; 4], output_size: [usize; 2], i: usize) -> (r: BicubicSample)
    requires
        shape[2] >= 1,
        shape[3] >= 1,
        size4(shape) <= usize::MAX,
        i < size4(resized(shape, output_size)) <= usize::MAX,
    ensures
        ({
            let (bc, h, w) = coords_of(resized(shape, output_size), i as int);
            &&& forall|k: int|
                0 <= k < 4 ==> r.y.taps[k] as int == clamped_tap(
                    aligned_floor(shape[2] as int, output_size[0] as int, h),
                    k,
                    shape[2] as int,
                )
            &&& forall|k: int|
                0 <= k < 4 ==> r.x.taps[k] as int == clamped_tap(
                    aligned_floor(shape[3] as int, output_size[1] as int, w),
                    k,
                    shape[3] as int,
                )
            &&& r.y.weight_num == aligned_num(shape[2] as int, h) % aligned_den(output_size[0] as int)
            &&& r.y.weight_den == aligned_den(output_size[0] as int)
            &&& r.x.weight_num == aligned_num(shape[3] as int, w) % aligned_den(output_size[1] as int)
            &&& r.x.weight_den == aligned_den(output_size[1] as int)
            &&& forall|a: int, b: int|
                #![trigger r.row_bases[a], r.cols[b]]
                0 <= a < 4 && 0 <= b < 4 ==> r.row_bases[a] + r.cols[b] == flat_of(
                    shape,
                    bc,
                    r.y.taps[a] as int,
                    r.x.taps[b] as int,
                ) && r.row_bases[a] + r.cols[b] < size4(shape)
        }),
{
    let (bc, h, w) = output_coords(shape, output_size, i);
    let y = cubic_taps(shape[2], output_size[0], h);
    let x = cubic_taps(shape[3], output_size[1], w);
    let row_bases = [
        flat_index(shape, bc, y.taps[0], 0),
        flat_index(shape, bc, y.taps[1], 0),
        flat_index(shape, bc, y.taps[2], 0),
        flat_index(shape, bc, y.taps[3], 0),
    ];
    let r = BicubicSample { row_bases, cols: x.taps, y, x };
    let ghost bcg = bc as int;
    assert forall|a: int, b: int|
        #![trigger r.row_bases[a], r.cols[b]]
        0 <= a < 4 && 0 <= b < 4 implies r.row_bases[a] + r.cols[b]
        == flat_of(shape, bcg, r.y.taps[a] as int, r.x.taps[b] as int) && r.row_bases[a]
        + r.cols[b] < size4(shape) by {
        if a == 0 {
            assert(r.row_bases[a] == row_bases[0]);
        } else if a == 1 {
            assert(r.row_bases[a] == row_bases[1]);
        } else if a == 2 {
            assert(r.row_bases[a] == row_bases[2]);
        } else {
            assert(r.row_bases[a] == row_bases[3]);
        }
        let ta = r.y.taps[a] as int;
        let tb = r.x.taps[b] as int;
        assert(r.row_bases[a] == flat_of(shape, bcg, ta, 0));
        assert(flat_of(shape, bcg, ta, 0) + tb == flat_of(shape, bcg, ta, tb));
        assert(flat_of(shape, bcg, ta, tb) < size4(shape)) by (nonlinear_arith)
            requires
                flat_of(shape, bcg, ta, tb) == (bcg * shape[2] + ta) * shape[3] + tb,
                0 <= bcg < shape[0] * shape[1],
                0 <= ta < shape[2],
                0 <= tb < shape[3],
                size4(shape) == shape[0] * shape[1] * (shape[2] * shape[3]),
        ;
    }
    r
}

} // verus!
