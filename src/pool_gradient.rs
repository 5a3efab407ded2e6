//! Max-pool gradient by window search, the computation the pool kernel
//! performs for one element of the input gradient: which output gradients
//! flow into that element.
use vstd::prelude::*;
use vstd::arithmetic::div_mod::{
    lemma_div_is_ordered, lemma_fundamental_div_mod, lemma_fundamental_div_mod_converse,
};
use crate::index::{lemma_join, lemma_row_bound, lemma_split};

verus! {

/// Largest kernel size, stride, padding and dilation: the kernel reads them as `i32`.
pub const MAX_PARAM: usize = 0x7fff_ffff;

/// Shapes and parameters of one 2-d max pooling, all as (batch, channels,
/// height, width) and (height, width) pairs.
#[derive(Clone, Copy, Debug)]
pub struct PoolGeometry {
    /// Shape of the pooling input (and of its gradient).
    pub x_shape: [usize; 4],
    /// Shape of the pooling output (and of its gradient and arg-max positions).
    pub grad_shape: [usize; 4],
    pub kernel_size: [usize; 2],
    pub stride: [usize; 2],
    pub padding: [usize; 2],
    pub dilation: [usize; 2],
}

/// First pooling-output position whose window can reach input coordinate
/// `coord`: `max(0, ceil((coord + padding - dilation * (kernel_size - 1)) / stride))`.
pub open spec fn window_start(coord: int, padding: int, dilation: int, kernel_size: int, stride: int) -> int {
    let a = coord + padding - dilation * (kernel_size - 1);
    let c = (a + stride - 1) / stride;
    if c < 0 { 0 } else { c }
}

/// One past the last pooling-output position whose window can reach `coord`:
/// `min(out_dim, floor((coord + padding) / stride) + 1)`.
pub open spec fn window_end(coord: int, padding: int, stride: int, out_dim: int) -> int {
    let e = (coord + padding) / stride + 1;
    if e < out_dim { e } else { out_dim }
}

impl PoolGeometry {
    pub open spec fn input_plane(self) -> int {
        self.x_shape[2] * self.x_shape[3]
    }

    pub open spec fn output_plane(self) -> int {
        self.grad_shape[2] * self.grad_shape[3]
    }

    pub open spec fn input_len(self) -> int {
        self.x_shape[0] * self.x_shape[1] * self.input_plane()
    }

    pub open spec fn output_len(self) -> int {
        self.grad_shape[0] * self.grad_shape[1] * self.output_plane()
    }

    /// Shapes agree on batch and channels, strides are positive, and every
    /// position fits in a `usize`.
    pub open spec fn valid(self) -> bool {
        &&& self.x_shape[0] == self.grad_shape[0]
        &&& self.x_shape[1] == self.grad_shape[1]
        &&& self.stride[0] >= 1
        &&& self.stride[1] >= 1
        &&& 1 <= self.kernel_size[0] <= MAX_PARAM
        &&& 1 <= self.kernel_size[1] <= MAX_PARAM
        &&& self.stride[0] <= MAX_PARAM
        &&& self.stride[1] <= MAX_PARAM
        &&& self.padding[0] <= MAX_PARAM
        &&& self.padding[1] <= MAX_PARAM
        &&& self.dilation[0] <= MAX_PARAM
        &&& self.dilation[1] <= MAX_PARAM
        &&& self.x_shape[3] >= 1
        &&& self.grad_shape[3] >= 1
        &&& self.input_len() <= usize::MAX
        &&& self.output_len() <= usize::MAX
        &&& self.input_plane() <= i64::MAX
    }

    /// (batch·channels, row, column) of input position `p`.
    pub open spec fn input_coords(self, p: int) -> (int, int, int) {
        let plane = self.input_plane();
        let w = self.x_shape[3] as int;
        (p / plane, (p % plane) / w, (p % plane) % w)
    }

    /// (batch·channels, row, column) of output position `o`.
    pub open spec fn output_coords(self, o: int) -> (int, int, int) {
        let plane = self.output_plane();
        let w = self.grad_shape[3] as int;
        (o / plane, (o % plane) / w, (o % plane) % w)
    }

    /// The gradient at output position `o` flows into input position `p`:
    /// same batch and channel, `o` inside the reverse window of `p`, and the
    /// arg-max recorded at `o` is `p`'s position within its plane.
    pub open spec fn contributes(self, indices: Seq<i64>, p: int, o: int) -> bool {
        let (bc, ih, iw) = self.input_coords(p);
        let (obc, oh, ow) = self.output_coords(o);
        &&& 0 <= o < indices.len()
        &&& obc == bc
        &&& window_start(
            ih,
            self.padding[0] as int,
            self.dilation[0] as int,
            self.kernel_size[0] as int,
            self.stride[0] as int,
        ) <= oh < window_end(ih, self.padding[0] as int, self.stride[0] as int, self.grad_shape[2] as int)
        &&& window_start(
            iw,
            self.padding[1] as int,
            self.dilation[1] as int,
            self.kernel_size[1] as int,
            self.stride[1] as int,
        ) <= ow < window_end(iw, self.padding[1] as int, self.stride[1] as int, self.grad_shape[3] as int)
        &&& indices[o] as int == ih * self.x_shape[3] + iw
    }
}

/// Window bounds of one axis, in exec arithmetic.
/// The start is clamped to the end, which leaves the window's positions unchanged.
fn axis_window(
    coord: usize,
    padding: usize,
    dilation: usize,
    kernel_size: usize,
    stride: usize,
    out_dim: usize,
) -> (r: (usize, usize))
    requires
        1 <= stride,
        1 <= kernel_size <= MAX_PARAM,
        dilation <= MAX_PARAM,
    ensures
        r.1 == window_end(coord as int, padding as int, stride as int, out_dim as int),
        r.0 == if window_start(
            coord as int,
            padding as int,
            dilation as int,
            kernel_size as int,
            stride as int,
        ) < r.1 {
            window_start(
                coord as int,
                padding as int,
                dilation as int,
                kernel_size as int,
                stride as int,
            )
        } else {
            r.1 as int
        },
{
    assert(dilation as i128 * (kernel_size as i128 - 1) <= MAX_PARAM * MAX_PARAM) by (nonlinear_arith)
        requires
            1 <= kernel_size <= MAX_PARAM,
            dilation <= MAX_PARAM,
    ;
    let reach = dilation as i128 * (kernel_size as i128 - 1);
    let a = coord as i128 + padding as i128 - reach;
    let e = (coord as u128 + padding as u128) / stride as u128 + 1;
    let end: usize = if e < out_dim as u128 { e as usize } else { out_dim };
    let start: usize = if a <= 0 {
        proof {
            let s = stride as int;
            assert((a + s - 1) / s <= 0) by (nonlinear_arith)
                requires a <= 0, s >= 1;
        }
        if 0 < end { 0 } else { end }
    } else {
        let c = (a + stride as i128 - 1) / stride as i128;
        if c < end as i128 { c as usize } else { end }
    };
    (start, end)
}

/// Positions of the output gradients that flow into input position `p`:
/// every position that contributes to `p`, each once, and nothing else.
pub fn max_pool2d_backward_sources(g: &PoolGeometry, indices: &Vec<i64>, p: usize) -> (r: Vec<usize>)
    requires
        g.valid(),
        indices@.len() == g.output_len(),
        p < g.input_len(),
    ensures
        forall|k: int| 0 <= k < r@.len() ==> g.contributes(indices@, p as int, #[trigger] r@[k] as int),
        forall|o: int| g.contributes(indices@, p as int, o) ==> r@.contains(o as usize),
        r@.no_duplicates(),
{
    let ghost pi = p as int;
    let w = g.x_shape[3];
    proof {
        let b0 = g.x_shape[0] as int;
        let b1 = g.x_shape[1] as int;
        let pl = g.x_shape[2] * w;
        assert(pl >= 1 && b0 * b1 >= 1 && pl <= g.input_len() && b0 * b1 <= g.input_len()) by (nonlinear_arith)
            requires
                0 <= p < g.input_len(),
                g.input_len() == b0 * b1 * pl,
                b0 >= 0,
                b1 >= 0,
                pl >= 0,
        ;
        assert(g.x_shape[2] * w >= 0) by (nonlinear_arith);
    }
    let bcn = g.x_shape[0] * g.x_shape[1];
    let plane = g.x_shape[2] * w;
    let bc = p / plane;
    let rem = p % plane;
    let ih = rem / w;
    let iw = rem % w;
    proof {
        lemma_fundamental_div_mod(rem as int, w as int);
        assert(bc < bcn) by (nonlinear_arith)
            requires
                p < bcn * plane,
                bc == p / plane,
                plane > 0,
        ;
    }
    assert(rem == ih * w + iw) by (nonlinear_arith)
        requires
            rem == w * (rem / w) + rem % w,
            ih == rem / w,
            iw == rem % w,
    ;
    assert(rem < plane);
    let current = rem as i64;
    let (hs, he) = axis_window(ih, g.padding[0], g.dilation[0], g.kernel_size[0], g.stride[0], g.grad_shape[2]);
    let (ws, we) = axis_window(iw, g.padding[1], g.dilation[1], g.kernel_size[1], g.stride[1], g.grad_shape[3]);
    let oh_n = g.grad_shape[2];
    let ow_n = g.grad_shape[3];
    assert(g.input_coords(pi) == (bc as int, ih as int, iw as int));
    let mut r: Vec<usize> = Vec::new();
    let mut oh = hs;
    while oh < he
        invariant
            hs <= oh,
            oh <= he || oh == hs,
            he <= oh_n,
            g.valid(),
            indices@.len() == g.output_len(),
            g.input_coords(pi) == (bc as int, ih as int, iw as int),
            current as int == ih * w + iw,
            bc < bcn,
            bcn == g.x_shape[0] * g.x_shape[1],
            oh_n == g.grad_shape[2],
            ow_n == g.grad_shape[3],
            w == g.x_shape[3],
            he == window_end(ih as int, g.padding[0] as int, g.stride[0] as int, oh_n as int),
            we == window_end(iw as int, g.padding[1] as int, g.stride[1] as int, ow_n as int),
            hs == (if window_start(ih as int, g.padding[0] as int, g.dilation[0] as int, g.kernel_size[0] as int, g.stride[0] as int) < he {
                window_start(ih as int, g.padding[0] as int, g.dilation[0] as int, g.kernel_size[0] as int, g.stride[0] as int)
            } else { he as int }),
            ws == (if window_start(iw as int, g.padding[1] as int, g.dilation[1] as int, g.kernel_size[1] as int, g.stride[1] as int) < we {
                window_start(iw as int, g.padding[1] as int, g.dilation[1] as int, g.kernel_size[1] as int, g.stride[1] as int)
            } else { we as int }),
            forall|k: int| 0 <= k < r@.len() ==> g.contributes(indices@, pi, #[trigger] r@[k] as int)
                && g.output_coords(r@[k] as int).1 < oh,
            forall|o: int| g.contributes(indices@, pi, o) && g.output_coords(o).1 < oh ==> r@.contains(o as usize),
            r@.no_duplicates(),
        decreases he - oh,
    {
        let mut ow = ws;
        while ow < we
            invariant
                hs <= oh < he,
                ws <= ow,
                ow <= we || ow == ws,
                he <= oh_n,
                we <= ow_n,
                g.valid(),
                indices@.len() == g.output_len(),
                g.input_coords(pi) == (bc as int, ih as int, iw as int),
                current as int == ih * w + iw,
                bc < bcn,
                bcn == g.x_shape[0] * g.x_shape[1],
                oh_n == g.grad_shape[2],
                ow_n == g.grad_shape[3],
                w == g.x_shape[3],
                he == window_end(ih as int, g.padding[0] as int, g.stride[0] as int, oh_n as int),
                we == window_end(iw as int, g.padding[1] as int, g.stride[1] as int, ow_n as int),
                hs == (if window_start(ih as int, g.padding[0] as int, g.dilation[0] as int, g.kernel_size[0] as int, g.stride[0] as int) < he {
                    window_start(ih as int, g.padding[0] as int, g.dilation[0] as int, g.kernel_size[0] as int, g.stride[0] as int)
                } else { he as int }),
                ws == (if window_start(iw as int, g.padding[1] as int, g.dilation[1] as int, g.kernel_size[1] as int, g.stride[1] as int) < we {
                    window_start(iw as int, g.padding[1] as int, g.dilation[1] as int, g.kernel_size[1] as int, g.stride[1] as int)
                } else { we as int }),
                forall|k: int| 0 <= k < r@.len() ==> g.contributes(indices@, pi, #[trigger] r@[k] as int)
                    && (g.output_coords(r@[k] as int).1 < oh || (g.output_coords(r@[k] as int).1 == oh
                    && g.output_coords(r@[k] as int).2 < ow)),
                forall|o: int| g.contributes(indices@, pi, o) && (g.output_coords(o).1 < oh || (
                    g.output_coords(o).1 == oh && g.output_coords(o).2 < ow)) ==> r@.contains(o as usize),
                r@.no_duplicates(),
            decreases we - ow,
        {
            proof {
                assert((bc * oh_n + oh) * ow_n + ow < g.output_len()) by (nonlinear_arith)
                    requires
                        bc < bcn,
                        oh < oh_n,
                        ow < ow_n,
                        g.output_len() == bcn * (oh_n * ow_n),
                ;
                assert(g.output_len() == bcn * (oh_n * ow_n)) by (nonlinear_arith)
                    requires
                        g.output_len() == g.grad_shape[0] * g.grad_shape[1] * (oh_n * ow_n),
                        bcn == g.grad_shape[0] * g.grad_shape[1],
                ;
                assert(bc * oh_n + oh <= (bc * oh_n + oh) * ow_n && bc * oh_n <= bc * oh_n + oh) by (nonlinear_arith)
                    requires
                        ow_n >= 1,
                        bc >= 0,
                        oh_n >= 0,
                        oh >= 0,
                ;
                lemma_split(bc as int, oh as int, ow as int, oh_n as int, ow_n as int);
            }
            let o = (bc * oh_n + oh) * ow_n + ow;
            assert(g.output_coords(o as int) == (bc as int, oh as int, ow as int));
            if indices[o] == current {
                let ghost before = r@;
                r.push(o);
                proof {
                    assert(g.contributes(indices@, pi, o as int));
                    assert forall|k: int| 0 <= k < before.len() implies before[k] != o by {
                        assert(g.contributes(indices@, pi, before[k] as int));
                    }
                    assert forall|a: int, b: int| 0 <= a < b < r@.len() implies r@[a] != r@[b] by {
                        if b < before.len() {
                            assert(before[a] != before[b]);
                        }
                    }
                    assert forall|x: int| g.contributes(indices@, pi, x) && (g.output_coords(x).1 < oh || (
                        g.output_coords(x).1 == oh && g.output_coords(x).2 < ow + 1)) implies r@.contains(x as usize) by {
                        if g.output_coords(x).1 == oh && g.output_coords(x).2 == ow {
                            lemma_join(x, oh_n as int, ow_n as int);
                            assert(r@[r@.len() - 1] == x as usize);
                        } else {
                            assert(before.contains(x as usize));
                            let k = choose|k: int| 0 <= k < before.len() && before[k] == x as usize;
                            assert(r@[k] == x as usize);
                        }
                    }
                }
            } else {
                proof {
                    assert forall|x: int| g.contributes(indices@, pi, x) && (g.output_coords(x).1 < oh || (
                        g.output_coords(x).1 == oh && g.output_coords(x).2 < ow + 1)) implies r@.contains(x as usize) by {
                        if g.output_coords(x).1 == oh && g.output_coords(x).2 == ow {
                            lemma_join(x, oh_n as int, ow_n as int);
                            assert(false);
                        }
                    }
                }
            }
            ow = ow + 1;
        }
        oh = oh + 1;
    }
    r
}

/// Along one axis, input coordinate `coord = out * stride + k * dilation - padding`,
/// reached by tap `k` of the window of output `out`, lies in the reverse window of
/// `coord`.
proof fn lemma_axis_cover(
    coord: int,
    out: int,
    k: int,
    padding: int,
    dilation: int,
    kernel_size: int,
    stride: int,
    out_dim: int,
)
    requires
        0 <= out < out_dim,
        0 <= k < kernel_size,
        dilation >= 0,
        stride >= 1,
        coord == out * stride + k * dilation - padding,
    ensures
        window_start(coord, padding, dilation, kernel_size, stride) <= out < window_end(
            coord,
            padding,
            stride,
            out_dim,
        ),
{
    let a = coord + padding - dilation * (kernel_size - 1);
    assert(a + stride - 1 <= out * stride + stride - 1) by (nonlinear_arith)
        requires
            a == coord + padding - dilation * (kernel_size - 1),
            coord == out * stride + k * dilation - padding,
            k < kernel_size,
            dilation >= 0,
    ;
    lemma_div_is_ordered(a + stride - 1, out * stride + stride - 1, stride);
    lemma_fundamental_div_mod_converse(out * stride + stride - 1, stride, out, stride - 1);
    assert(out * stride <= coord + padding) by (nonlinear_arith)
        requires
            coord == out * stride + k * dilation - padding,
            k >= 0,
            dilation >= 0,
    ;
    lemma_div_is_ordered(out * stride, coord + padding, stride);
    lemma_fundamental_div_mod_converse(out * stride, stride, out, 0);
}

/// Every pooling output's gradient reaches its arg-max: when output `o`
/// recorded as its maximum the input element at tap `(kh, kw)` of its window,
/// that element's window search finds `o`.
pub proof fn lemma_window_covers_arg_max(g: PoolGeometry, indices: Seq<i64>, o: int, kh: int, kw: int)
    requires
        g.valid(),
        indices.len() == g.output_len(),
        0 <= o < g.output_len(),
        0 <= kh < g.kernel_size[0],
        0 <= kw < g.kernel_size[1],
        0 <= g.output_coords(o).1 * g.stride[0] + kh * g.dilation[0] - g.padding[0] < g.x_shape[2],
        0 <= g.output_coords(o).2 * g.stride[1] + kw * g.dilation[1] - g.padding[1] < g.x_shape[3],
        indices[o] as int == (g.output_coords(o).1 * g.stride[0] + kh * g.dilation[0] - g.padding[0])
            * g.x_shape[3] + (g.output_coords(o).2 * g.stride[1] + kw * g.dilation[1] - g.padding[1]),
    ensures
        ({
            let (bc, oh, ow) = g.output_coords(o);
            let ih = oh * g.stride[0] + kh * g.dilation[0] - g.padding[0];
            let iw = ow * g.stride[1] + kw * g.dilation[1] - g.padding[1];
            let p = (bc * g.x_shape[2] + ih) * g.x_shape[3] + iw;
            &&& 0 <= p < g.input_len()
            &&& g.contributes(indices, p, o)
        }),
{
    let (bc, oh, ow) = g.output_coords(o);
    let h = g.x_shape[2] as int;
    let w = g.x_shape[3] as int;
    let oh_n = g.grad_shape[2] as int;
    let ow_n = g.grad_shape[3] as int;
    let ih = oh * g.stride[0] + kh * g.dilation[0] - g.padding[0];
    let iw = ow * g.stride[1] + kw * g.dilation[1] - g.padding[1];
    let p = (bc * h + ih) * w + iw;
    let bcn = g.x_shape[0] * g.x_shape[1];
    assert(g.output_len() == bcn * (oh_n * ow_n)) by (nonlinear_arith)
        requires
            g.output_len() == g.grad_shape[0] * g.grad_shape[1] * (oh_n * ow_n),
            bcn == g.grad_shape[0] * g.grad_shape[1],
    ;
    assert(oh_n * ow_n >= 1 && bcn >= 0) by (nonlinear_arith)
        requires
            0 <= o < bcn * (oh_n * ow_n),
            oh_n >= 0,
            ow_n >= 1,
            g.grad_shape[0] >= 0,
            g.grad_shape[1] >= 0,
            bcn == g.grad_shape[0] * g.grad_shape[1],
    ;
    lemma_row_bound(o, bcn, oh_n * ow_n);
    lemma_fundamental_div_mod(o, oh_n * ow_n);
    lemma_row_bound(o % (oh_n * ow_n), oh_n, ow_n);
    lemma_fundamental_div_mod(o % (oh_n * ow_n), ow_n);
    lemma_axis_cover(ih, oh, kh, g.padding[0] as int, g.dilation[0] as int, g.kernel_size[0] as int, g.stride[0] as int, oh_n);
    lemma_axis_cover(iw, ow, kw, g.padding[1] as int, g.dilation[1] as int, g.kernel_size[1] as int, g.stride[1] as int, ow_n);
    lemma_split(bc, ih, iw, h, w);
    assert(0 <= p < g.input_len()) by (nonlinear_arith)
        requires
            0 <= bc < bcn,
            0 <= ih < h,
            0 <= iw < w,
            p == (bc * h + ih) * w + iw,
            g.input_len() == bcn * (h * w),
    ;
    assert(g.input_len() == bcn * (h * w)) by (nonlinear_arith)
        requires
            g.input_len() == g.x_shape[0] * g.x_shape[1] * (h * w),
            bcn == g.x_shape[0] * g.x_shape[1],
    ;
    assert(g.input_coords(p) == (bc, ih, iw));
}

/// The gradient of each pooling output goes to one input element at most:
/// two input positions that both receive output `o` are the same.
pub proof fn lemma_gradient_delivered_once(g: PoolGeometry, indices: Seq<i64>, p_a: int, p_b: int, o: int)
    requires
        g.valid(),
        0 <= p_a < g.input_len(),
        0 <= p_b < g.input_len(),
        g.contributes(indices, p_a, o),
        g.contributes(indices, p_b, o),
    ensures
        p_a == p_b,
{
    let w = g.x_shape[3] as int;
    let plane = g.input_plane();
    assert(plane >= 1) by (nonlinear_arith)
        requires
            0 <= p_a < g.input_len(),
            g.input_len() == g.x_shape[0] * g.x_shape[1] * plane,
            plane == g.x_shape[2] * w,
            g.x_shape[0] >= 0,
            g.x_shape[1] >= 0,
            g.x_shape[2] >= 0,
            w >= 0,
    ;
    lemma_fundamental_div_mod(p_a, plane);
    lemma_fundamental_div_mod(p_b, plane);
    lemma_fundamental_div_mod(p_a % plane, w);
    lemma_fundamental_div_mod(p_b % plane, w);
    let (b1, h1, w1) = g.input_coords(p_a);
    let (b2, h2, w2) = g.input_coords(p_b);
    assert(h1 * w + w1 == h2 * w + w2);
    assert(p_a % plane == p_b % plane) by (nonlinear_arith)
        requires
            p_a % plane == w * h1 + w1,
            p_b % plane == w * h2 + w2,
            h1 * w + w1 == h2 * w + w2,
    ;
}

/// An input element that no pooling output recorded as its arg-max receives
/// no gradient at all.
pub proof fn lemma_unselected_gets_nothing(g: PoolGeometry, indices: Seq<i64>, p: int)
    requires
        forall|o: int|
            0 <= o < indices.len() && g.output_coords(o).0 == g.input_coords(p).0 ==> indices[o] as int
                != g.input_coords(p).1 * g.x_shape[3] + g.input_coords(p).2,
    ensures
        forall|o: int| !g.contributes(indices, p, o),
{
}

} // verus!
