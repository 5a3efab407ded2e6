//! The max-pool gradient kernel, built in the kernel IR: every invocation owns
//! one element of the input gradient and gathers the output gradients of the
//! pooling windows whose recorded arg-max is that element.
use vstd::prelude::*;
use crate::compiler::{
    compile, source_text, CompilationInfo, CompilationSettings, InputInfo, OutputInfo, Visibility,
};
use crate::index::{
    contiguous_strides, contiguous_strides_spec, nat_view, num_elements, shape_size, strides_fit,
};
use crate::ir::{BinaryOp, CompareOp, Elem, Instruction, Scope, ScopeModel, Variable};
use crate::launch::{launch_plan, launch_spec, LaunchPlan};
use crate::pool_gradient::MAX_PARAM;

verus! {

/// Variable ids that one expansion of the kernel body hands out.
pub const EXPAND_IDS: u32 = 64;

/// Runtime scalar slots, in the order the dispatcher binds them.
pub const SLOT_STRIDE_0: u32 = 0;
pub const SLOT_STRIDE_1: u32 = 1;
pub const SLOT_DILATION_0: u32 = 2;
pub const SLOT_DILATION_1: u32 = 3;
pub const SLOT_PADDING_0: u32 = 4;
pub const SLOT_PADDING_1: u32 = 5;

pub open spec fn uint_scalar(slot: u32) -> Variable {
    Variable::GlobalScalar { slot, elem: Elem::U32 }
}

pub open spec fn valid_kernel_size(k: usize) -> bool {
    1 <= k <= MAX_PARAM
}

pub open spec fn int_const(v: int) -> Variable {
    Variable::Constant { value: v as i64, elem: Elem::I32 }
}

pub open spec fn uint_const(v: int) -> Variable {
    Variable::Constant { value: v as i64, elem: Elem::U32 }
}

pub open spec fn binary(op: BinaryOp, lhs: Variable, rhs: Variable, out: Variable) -> Instruction {
    Instruction::Binary { op, lhs, rhs, out }
}

/// The instructions that bound the window of pooling outputs along one axis
/// that may have selected input coordinate `coord`:
/// `start = max(0, ceil((coord + padding - dilation * (kernel_size - 1)) / stride))`
/// and the exclusive `end = min(out_dim, floor((coord + padding) / stride) + 1)`.
/// The ceiling is taken as a truncating division of the numerator plus
/// `stride - 1`, which agrees with it wherever the clamp at zero does not apply.
pub open spec fn axis_range_model(
    sc: ScopeModel,
    coord: Variable,
    stride: Variable,
    dilation: Variable,
    padding: Variable,
    kernel_size: usize,
    out_dim: Variable,
) -> (ScopeModel, Variable, Variable) {
    let s_coord = sc.next_local(Elem::I32);
    let sc = sc.declare_local(Elem::I32).emit(Instruction::Cast { input: coord, out: s_coord });
    let s_stride = sc.next_local(Elem::I32);
    let sc = sc.declare_local(Elem::I32).emit(Instruction::Cast { input: stride, out: s_stride });
    let s_dilation = sc.next_local(Elem::I32);
    let sc = sc.declare_local(Elem::I32).emit(
        Instruction::Cast { input: dilation, out: s_dilation },
    );
    let s_padding = sc.next_local(Elem::I32);
    let sc = sc.declare_local(Elem::I32).emit(
        Instruction::Cast { input: padding, out: s_padding },
    );
    let reach = sc.next_local(Elem::I32);
    let sc = sc.declare_local(Elem::I32).emit(
        binary(BinaryOp::Mul, s_dilation, int_const(kernel_size - 1), reach),
    );
    let t = sc.next_local(Elem::I32);
    let sc = sc.declare_local(Elem::I32).emit(binary(BinaryOp::Add, s_coord, s_padding, t)).emit(
        binary(BinaryOp::Sub, t, reach, t),
    ).emit(binary(BinaryOp::Add, t, s_stride, t)).emit(binary(BinaryOp::Sub, t, int_const(1), t)).emit(
        binary(BinaryOp::Div, t, s_stride, t),
    ).emit(binary(BinaryOp::Max, t, int_const(0), t));
    let start = sc.next_local(Elem::U32);
    let sc = sc.declare_local(Elem::U32).emit(Instruction::Cast { input: t, out: start });
    let end = sc.next_local(Elem::U32);
    let sc = sc.declare_local(Elem::U32).emit(binary(BinaryOp::Add, coord, padding, end)).emit(
        binary(BinaryOp::Div, end, stride, end),
    ).emit(binary(BinaryOp::Add, end, uint_const(1), end)).emit(
        binary(BinaryOp::Min, end, out_dim, end),
    );
    (sc, start, end)
}

fn axis_range(
    scope: &mut Scope,
    coord: Variable,
    stride: Variable,
    dilation: Variable,
    padding: Variable,
    kernel_size: usize,
    out_dim: Variable,
) -> (r: (Variable, Variable))
    requires
        old(scope)@.next_id + 8 < u32::MAX,
        valid_kernel_size(kernel_size),
        coord.elem_spec() == Elem::U32,
        stride.elem_spec() == Elem::U32,
        dilation.elem_spec() == Elem::U32,
        padding.elem_spec() == Elem::U32,
        out_dim.elem_spec() == Elem::U32,
    ensures
        (final(scope)@, r.0, r.1) == axis_range_model(
            old(scope)@,
            coord,
            stride,
            dilation,
            padding,
            kernel_size,
            out_dim,
        ),
{
    let s_coord = scope.create_local(Elem::I32);
    scope.emit(Instruction::Cast { input: coord, out: s_coord });
    let s_stride = scope.create_local(Elem::I32);
    scope.emit(Instruction::Cast { input: stride, out: s_stride });
    let s_dilation = scope.create_local(Elem::I32);
    scope.emit(Instruction::Cast { input: dilation, out: s_dilation });
    let s_padding = scope.create_local(Elem::I32);
    scope.emit(Instruction::Cast { input: padding, out: s_padding });
    let reach = scope.create_local(Elem::I32);
    let extent = Variable::Constant { value: (kernel_size - 1) as i64, elem: Elem::I32 };
    scope.emit(Instruction::Binary { op: BinaryOp::Mul, lhs: s_dilation, rhs: extent, out: reach });
    let one = Variable::Constant { value: 1, elem: Elem::I32 };
    let zero = Variable::Constant { value: 0, elem: Elem::I32 };
    let t = scope.create_local(Elem::I32);
    scope.emit(Instruction::Binary { op: BinaryOp::Add, lhs: s_coord, rhs: s_padding, out: t });
    scope.emit(Instruction::Binary { op: BinaryOp::Sub, lhs: t, rhs: reach, out: t });
    scope.emit(Instruction::Binary { op: BinaryOp::Add, lhs: t, rhs: s_stride, out: t });
    scope.emit(Instruction::Binary { op: BinaryOp::Sub, lhs: t, rhs: one, out: t });
    scope.emit(Instruction::Binary { op: BinaryOp::Div, lhs: t, rhs: s_stride, out: t });
    scope.emit(Instruction::Binary { op: BinaryOp::Max, lhs: t, rhs: zero, out: t });
    let start = scope.create_local(Elem::U32);
    scope.emit(Instruction::Cast { input: t, out: start });
    let uone = Variable::Constant { value: 1, elem: Elem::U32 };
    let end = scope.create_local(Elem::U32);
    scope.emit(Instruction::Binary { op: BinaryOp::Add, lhs: coord, rhs: padding, out: end });
    scope.emit(Instruction::Binary { op: BinaryOp::Div, lhs: end, rhs: stride, out: end });
    scope.emit(Instruction::Binary { op: BinaryOp::Add, lhs: end, rhs: uone, out: end });
    scope.emit(Instruction::Binary { op: BinaryOp::Min, lhs: end, rhs: out_dim, out: end });
    (start, end)
}

/// The kernel body's bindings and its compile-time window size.
#[derive(Clone, Copy, Debug)]
pub struct MaxPool2dBackwardComputeShader {
    /// Arg-max positions recorded by the forward pass (`I32`).
    pub indices: Variable,
    /// Gradient of the pooling output.
    pub grad: Variable,
    /// Gradient of the pooling input, written by this kernel.
    pub output: Variable,
    pub kernel_size: [usize; 2],
}

/// The window bounds of both spatial axes: `(scope, oh_start, oh_end, ow_start, ow_end)`.
pub open spec fn loop_ranges_model(
    sc: ScopeModel,
    ih: Variable,
    iw: Variable,
    grad_shape_2: Variable,
    grad_shape_3: Variable,
    kernel_size_0: usize,
    kernel_size_1: usize,
) -> (ScopeModel, Variable, Variable, Variable, Variable) {
    let (sc, oh_start, oh_end) = axis_range_model(
        sc,
        ih,
        uint_scalar(SLOT_STRIDE_0),
        uint_scalar(SLOT_DILATION_0),
        uint_scalar(SLOT_PADDING_0),
        kernel_size_0,
        grad_shape_2,
    );
    let (sc, ow_start, ow_end) = axis_range_model(
        sc,
        iw,
        uint_scalar(SLOT_STRIDE_1),
        uint_scalar(SLOT_DILATION_1),
        uint_scalar(SLOT_PADDING_1),
        kernel_size_1,
        grad_shape_3,
    );
    (sc, oh_start, oh_end, ow_start, ow_end)
}

/// Declares a `U32` local, then appends `i`.
pub open spec fn uint_step(sc: ScopeModel, i: Instruction) -> ScopeModel {
    sc.declare_local(Elem::U32).emit(i)
}

/// The whole kernel body: bounds check, layout queries, decomposition of the
/// invocation id into `(b, c, ih, iw)`, window bounds, and the gather loop.
pub open spec fn expand_model(
    sc: ScopeModel,
    indices: Variable,
    grad: Variable,
    output: Variable,
    kernel_size_0: usize,
    kernel_size_1: usize,
) -> ScopeModel {
    let id = Variable::Id;
    let len = sc.next_local(Elem::U32);
    let sc = uint_step(sc, Instruction::Length { array: output, out: len });
    let in_bounds = sc.next_local(Elem::Bool);
    let sc = sc.declare_local(Elem::Bool).emit(
        Instruction::Compare { comparison: CompareOp::Lower, lhs: id, rhs: len, out: in_bounds },
    ).emit(Instruction::If { cond: in_bounds });
    let gs0 = sc.next_local(Elem::U32);
    let sc = uint_step(sc, Instruction::Stride { array: grad, dim: 0, out: gs0 });
    let gs1 = sc.next_local(Elem::U32);
    let sc = uint_step(sc, Instruction::Stride { array: grad, dim: 1, out: gs1 });
    let gs2 = sc.next_local(Elem::U32);
    let sc = uint_step(sc, Instruction::Stride { array: grad, dim: 2, out: gs2 });
    let gs3 = sc.next_local(Elem::U32);
    let sc = uint_step(sc, Instruction::Stride { array: grad, dim: 3, out: gs3 });
    let gh = sc.next_local(Elem::U32);
    let sc = uint_step(sc, Instruction::Shape { array: grad, dim: 2, out: gh });
    let gw = sc.next_local(Elem::U32);
    let sc = uint_step(sc, Instruction::Shape { array: grad, dim: 3, out: gw });
    let b = sc.next_local(Elem::U32);
    let sc = uint_step(sc, Instruction::Stride { array: output, dim: 0, out: b });
    let sc = sc.emit(binary(BinaryOp::Div, id, b, b));
    let t = sc.next_local(Elem::U32);
    let sc = uint_step(sc, Instruction::Shape { array: output, dim: 0, out: t }).emit(
        binary(BinaryOp::Modulo, b, t, b),
    );
    let c = sc.next_local(Elem::U32);
    let sc = uint_step(sc, Instruction::Stride { array: output, dim: 1, out: c }).emit(
        binary(BinaryOp::Div, id, c, c),
    ).emit(Instruction::Shape { array: output, dim: 1, out: t }).emit(
        binary(BinaryOp::Modulo, c, t, c),
    );
    let os2 = sc.next_local(Elem::U32);
    let sc = uint_step(sc, Instruction::Stride { array: output, dim: 2, out: os2 });
    let ih = sc.next_local(Elem::U32);
    let sc = uint_step(sc, binary(BinaryOp::Div, id, os2, ih)).emit(
        Instruction::Shape { array: output, dim: 2, out: t },
    ).emit(binary(BinaryOp::Modulo, ih, t, ih));
    let os3 = sc.next_local(Elem::U32);
    let sc = uint_step(sc, Instruction::Stride { array: output, dim: 3, out: os3 });
    let iw = sc.next_local(Elem::U32);
    let sc = uint_step(sc, binary(BinaryOp::Div, id, os3, iw)).emit(
        Instruction::Shape { array: output, dim: 3, out: t },
    ).emit(binary(BinaryOp::Modulo, iw, t, iw));
    let current = sc.next_local(Elem::U32);
    let sc = uint_step(sc, binary(BinaryOp::Mul, ih, os2, current)).emit(
        binary(BinaryOp::Mul, iw, os3, t),
    ).emit(binary(BinaryOp::Add, current, t, current));
    let (sc, oh_start, oh_end, ow_start, ow_end) = loop_ranges_model(
        sc,
        ih,
        iw,
        gh,
        gw,
        kernel_size_0,
        kernel_size_1,
    );
    let item = grad.elem_spec();
    let acc = sc.next_local(item);
    let sc = sc.declare_zero(item);
    let index = sc.next_local(Elem::U32);
    let sc = sc.declare_local(Elem::U32);
    let selected = sc.next_local(Elem::I32);
    let sc = sc.declare_local(Elem::I32);
    let is_max = sc.next_local(Elem::Bool);
    let sc = sc.declare_local(Elem::Bool);
    let value = sc.next_local(item);
    let sc = sc.declare_local(item);
    let oh = sc.next_local(Elem::U32);
    let sc = sc.open_loop(oh_start, oh_end);
    let ow = sc.next_local(Elem::U32);
    let sc = sc.open_loop(ow_start, ow_end).emit(binary(BinaryOp::Mul, b, gs0, index)).emit(
        binary(BinaryOp::Mul, c, gs1, t),
    ).emit(binary(BinaryOp::Add, index, t, index)).emit(binary(BinaryOp::Mul, oh, gs2, t)).emit(
        binary(BinaryOp::Add, index, t, index),
    ).emit(binary(BinaryOp::Mul, ow, gs3, t)).emit(binary(BinaryOp::Add, index, t, index)).emit(
        Instruction::Load { array: indices, index, out: selected },
    ).emit(Instruction::Cast { input: selected, out: t }).emit(
        Instruction::Compare { comparison: CompareOp::Equal, lhs: t, rhs: current, out: is_max },
    ).emit(Instruction::If { cond: is_max }).emit(
        Instruction::Load { array: grad, index, out: value },
    ).emit(binary(BinaryOp::Add, acc, value, acc)).emit(Instruction::EndBlock).emit(
        Instruction::EndBlock,
    ).emit(Instruction::EndBlock).emit(Instruction::Store { array: output, index: id, value: acc }).emit(
        Instruction::EndBlock,
    );
    sc
}

/// The bindings a kernel body expects: arg-max positions as `I32` input,
/// gradients of one numeric kind in and out.
pub open spec fn bindings_ok(indices: Variable, grad: Variable, output: Variable) -> bool {
    &&& indices is GlobalInputArray
    &&& indices.elem_spec() == Elem::I32
    &&& grad is GlobalInputArray
    &&& output is GlobalOutputArray
    &&& grad.elem_spec() == output.elem_spec()
    &&& grad.elem_spec() != Elem::Bool
}

impl MaxPool2dBackwardComputeShader {
    /// Emits the kernel body into `scope`.
    #[verifier::rlimit(100)]
    pub fn expand(self, scope: &mut Scope)
        requires
            old(scope)@.next_id + EXPAND_IDS < u32::MAX,
            old(scope)@.depth + 4 < u32::MAX,
            valid_kernel_size(self.kernel_size[0]),
            valid_kernel_size(self.kernel_size[1]),
            bindings_ok(self.indices, self.grad, self.output),
        ensures
            final(scope)@ == expand_model(
                old(scope)@,
                self.indices,
                self.grad,
                self.output,
                self.kernel_size[0],
                self.kernel_size[1],
            ),
    {
        let grad = self.grad;
        let output = self.output;
        let indices = self.indices;
        let id = Variable::Id;

        let len = scope.create_local(Elem::U32);
        scope.emit(Instruction::Length { array: output, out: len });
        let in_bounds = scope.create_local(Elem::Bool);
        scope.emit(Instruction::Compare { comparison: CompareOp::Lower, lhs: id, rhs: len, out: in_bounds });
        scope.emit(Instruction::If { cond: in_bounds });

        let gs0 = scope.create_local(Elem::U32);
        scope.emit(Instruction::Stride { array: grad, dim: 0, out: gs0 });
        let gs1 = scope.create_local(Elem::U32);
        scope.emit(Instruction::Stride { array: grad, dim: 1, out: gs1 });
        let gs2 = scope.create_local(Elem::U32);
        scope.emit(Instruction::Stride { array: grad, dim: 2, out: gs2 });
        let gs3 = scope.create_local(Elem::U32);
        scope.emit(Instruction::Stride { array: grad, dim: 3, out: gs3 });
        let gh = scope.create_local(Elem::U32);
        scope.emit(Instruction::Shape { array: grad, dim: 2, out: gh });
        let gw = scope.create_local(Elem::U32);
        scope.emit(Instruction::Shape { array: grad, dim: 3, out: gw });

        // (b, c, ih, iw) = (id / stride_d) % shape_d against the output layout.
        let b = scope.create_local(Elem::U32);
        scope.emit(Instruction::Stride { array: output, dim: 0, out: b });
        scope.emit(Instruction::Binary { op: BinaryOp::Div, lhs: id, rhs: b, out: b });
        let t = scope.create_local(Elem::U32);
        scope.emit(Instruction::Shape { array: output, dim: 0, out: t });
        scope.emit(Instruction::Binary { op: BinaryOp::Modulo, lhs: b, rhs: t, out: b });
        let c = scope.create_local(Elem::U32);
        scope.emit(Instruction::Stride { array: output, dim: 1, out: c });
        scope.emit(Instruction::Binary { op: BinaryOp::Div, lhs: id, rhs: c, out: c });
        scope.emit(Instruction::Shape { array: output, dim: 1, out: t });
        scope.emit(Instruction::Binary { op: BinaryOp::Modulo, lhs: c, rhs: t, out: c });
        let os2 = scope.create_local(Elem::U32);
        scope.emit(Instruction::Stride { array: output, dim: 2, out: os2 });
        let ih = scope.create_local(Elem::U32);
        scope.emit(Instruction::Binary { op: BinaryOp::Div, lhs: id, rhs: os2, out: ih });
        scope.emit(Instruction::Shape { array: output, dim: 2, out: t });
        scope.emit(Instruction::Binary { op: BinaryOp::Modulo, lhs: ih, rhs: t, out: ih });
        let os3 = scope.create_local(Elem::U32);
        scope.emit(Instruction::Stride { array: output, dim: 3, out: os3 });
        let iw = scope.create_local(Elem::U32);
        scope.emit(Instruction::Binary { op: BinaryOp::Div, lhs: id, rhs: os3, out: iw });
        scope.emit(Instruction::Shape { array: output, dim: 3, out: t });
        scope.emit(Instruction::Binary { op: BinaryOp::Modulo, lhs: iw, rhs: t, out: iw });

        // Position of this element inside its (h, w) plane, as the forward pass records it.
        let current = scope.create_local(Elem::U32);
        scope.emit(Instruction::Binary { op: BinaryOp::Mul, lhs: ih, rhs: os2, out: current });
        scope.emit(Instruction::Binary { op: BinaryOp::Mul, lhs: iw, rhs: os3, out: t });
        scope.emit(Instruction::Binary { op: BinaryOp::Add, lhs: current, rhs: t, out: current });

        let (oh_start, oh_end, ow_start, ow_end) = self.loop_ranges(scope, ih, iw, gh, gw);

        let item = grad.elem();
        let acc = scope.zero(item);
        let index = scope.create_local(Elem::U32);
        let selected = scope.create_local(Elem::I32);
        let is_max = scope.create_local(Elem::Bool);
        let value = scope.create_local(item);

        let oh = scope.range_loop(oh_start, oh_end);
        let ow = scope.range_loop(ow_start, ow_end);
        scope.emit(Instruction::Binary { op: BinaryOp::Mul, lhs: b, rhs: gs0, out: index });
        scope.emit(Instruction::Binary { op: BinaryOp::Mul, lhs: c, rhs: gs1, out: t });
        scope.emit(Instruction::Binary { op: BinaryOp::Add, lhs: index, rhs: t, out: index });
        scope.emit(Instruction::Binary { op: BinaryOp::Mul, lhs: oh, rhs: gs2, out: t });
        scope.emit(Instruction::Binary { op: BinaryOp::Add, lhs: index, rhs: t, out: index });
        scope.emit(Instruction::Binary { op: BinaryOp::Mul, lhs: ow, rhs: gs3, out: t });
        scope.emit(Instruction::Binary { op: BinaryOp::Add, lhs: index, rhs: t, out: index });
        scope.emit(Instruction::Load { array: indices, index, out: selected });
        scope.emit(Instruction::Cast { input: selected, out: t });
        scope.emit(Instruction::Compare { comparison: CompareOp::Equal, lhs: t, rhs: current, out: is_max });
        scope.emit(Instruction::If { cond: is_max });
        scope.emit(Instruction::Load { array: grad, index, out: value });
        scope.emit(Instruction::Binary { op: BinaryOp::Add, lhs: acc, rhs: value, out: acc });
        scope.emit(Instruction::EndBlock);
        scope.emit(Instruction::EndBlock);
        scope.emit(Instruction::EndBlock);
        scope.emit(Instruction::Store { array: output, index: id, value: acc });
        scope.emit(Instruction::EndBlock);
    }

    /// Emits the window bounds of both spatial axes, reading stride, dilation
    /// and padding from the runtime scalars; returns
    /// `(oh_start, oh_end, ow_start, ow_end)`, ends exclusive.
    pub fn loop_ranges(
        &self,
        scope: &mut Scope,
        ih: Variable,
        iw: Variable,
        grad_shape_2: Variable,
        grad_shape_3: Variable,
    ) -> (r: (Variable, Variable, Variable, Variable))
        requires
            old(scope)@.next_id + 16 < u32::MAX,
            valid_kernel_size(self.kernel_size[0]),
            valid_kernel_size(self.kernel_size[1]),
            ih.elem_spec() == Elem::U32,
            iw.elem_spec() == Elem::U32,
            grad_shape_2.elem_spec() == Elem::U32,
            grad_shape_3.elem_spec() == Elem::U32,
        ensures
            (final(scope)@, r.0, r.1, r.2, r.3) == loop_ranges_model(
                old(scope)@,
                ih,
                iw,
                grad_shape_2,
                grad_shape_3,
                self.kernel_size[0],
                self.kernel_size[1],
            ),
    {
        let kernel_size_0 = self.kernel_size[0];
        let kernel_size_1 = self.kernel_size[1];
        let (oh_start, oh_end) = axis_range(
            scope,
            ih,
            Variable::GlobalScalar { slot: SLOT_STRIDE_0, elem: Elem::U32 },
            Variable::GlobalScalar { slot: SLOT_DILATION_0, elem: Elem::U32 },
            Variable::GlobalScalar { slot: SLOT_PADDING_0, elem: Elem::U32 },
            kernel_size_0,
            grad_shape_2,
        );
        let (ow_start, ow_end) = axis_range(
            scope,
            iw,
            Variable::GlobalScalar { slot: SLOT_STRIDE_1, elem: Elem::U32 },
            Variable::GlobalScalar { slot: SLOT_DILATION_1, elem: Elem::U32 },
            Variable::GlobalScalar { slot: SLOT_PADDING_1, elem: Elem::U32 },
            kernel_size_1,
            grad_shape_3,
        );
        (oh_start, oh_end, ow_start, ow_end)
    }
}

/// The kernel kinds whose compiled text can be cached.
#[derive(Clone, Copy, Debug, PartialEq, Eq, Structural)]
pub enum KernelKind {
    MaxPool2dWithIndicesBackward,
}

/// What a kernel's compiled text depends on: its kind and its compile-time
/// parameters, never runtime shapes or scalars.
#[derive(Clone, Copy, Debug, PartialEq, Eq, Structural)]
pub struct KernelIdentity {
    pub kind: KernelKind,
    pub elem: Elem,
    pub kernel_size_0: usize,
    pub kernel_size_1: usize,
}

/// The max-pool gradient kernel for one element kind and window size.
#[derive(Clone, Copy, Debug)]
pub struct MaxPool2dWithIndicesBackwardEagerKernel {
    pub kernel_size: [usize; 2],
    pub elem: Elem,
}

pub open spec fn indices_binding() -> Variable {
    Variable::GlobalInputArray { slot: 0, elem: Elem::I32 }
}

pub open spec fn grad_binding(elem: Elem) -> Variable {
    Variable::GlobalInputArray { slot: 1, elem }
}

pub open spec fn output_binding(elem: Elem) -> Variable {
    Variable::GlobalOutputArray { slot: 0, elem }
}

/// Inputs in binding order: arg-max positions, gradient, the six runtime scalars.
pub open spec fn pool_inputs(elem: Elem) -> Seq<InputInfo> {
    seq![
        InputInfo::Array { elem: Elem::I32, visibility: Visibility::Read },
        InputInfo::Array { elem, visibility: Visibility::Read },
        InputInfo::Scalar { elem: Elem::U32, size: 6 },
    ]
}

pub open spec fn pool_outputs(elem: Elem) -> Seq<OutputInfo> {
    seq![OutputInfo::Array { elem }]
}

/// Source text of the max-pool gradient kernel.
pub open spec fn pool_backward_source(elem: Elem, kernel_size_0: usize, kernel_size_1: usize) -> Seq<
    char,
> {
    source_text(
        pool_inputs(elem),
        pool_outputs(elem),
        expand_model(
            ScopeModel::root_spec(),
            indices_binding(),
            grad_binding(elem),
            output_binding(elem),
            kernel_size_0,
            kernel_size_1,
        ),
        CompilationSettings::default_spec(),
    )
}

/// Source text that a kernel identity stands for.
pub open spec fn identity_source(id: KernelIdentity) -> Seq<char> {
    match id.kind {
        KernelKind::MaxPool2dWithIndicesBackward => pool_backward_source(
            id.elem,
            id.kernel_size_0,
            id.kernel_size_1,
        ),
    }
}

/// A gradient kind a kernel can accumulate.
pub open spec fn numeric_elem(elem: Elem) -> bool {
    elem != Elem::Bool
}

impl KernelIdentity {
    /// Parameters a kernel can be compiled with.
    pub open spec fn valid(self) -> bool {
        numeric_elem(self.elem) && valid_kernel_size(self.kernel_size_0) && valid_kernel_size(
            self.kernel_size_1,
        )
    }
}

impl MaxPool2dWithIndicesBackwardEagerKernel {
    pub open spec fn valid(&self) -> bool {
        self.id_spec().valid()
    }

    pub open spec fn id_spec(&self) -> KernelIdentity {
        KernelIdentity {
            kind: KernelKind::MaxPool2dWithIndicesBackward,
            elem: self.elem,
            kernel_size_0: self.kernel_size[0],
            kernel_size_1: self.kernel_size[1],
        }
    }

    pub fn new(kernel_size: [usize; 2], elem: Elem) -> (r: Self)
        ensures
            r.kernel_size == kernel_size,
            r.elem == elem,
    {
        MaxPool2dWithIndicesBackwardEagerKernel { kernel_size, elem }
    }

    /// The cache key: kind, element kind and window size.
    pub fn id(&self) -> (r: KernelIdentity)
        ensures
            r == self.id_spec(),
    {
        KernelIdentity {
            kind: KernelKind::MaxPool2dWithIndicesBackward,
            elem: self.elem,
            kernel_size_0: self.kernel_size[0],
            kernel_size_1: self.kernel_size[1],
        }
    }

    /// Builds the kernel body and compiles it with the default settings.
    pub fn source(&self) -> (r: String)
        requires
            self.valid(),
        ensures
            r@ == identity_source(self.id_spec()),
    {
        let mut scope = Scope::root();
        let elem = self.elem;
        let indices = Variable::GlobalInputArray { slot: 0, elem: Elem::I32 };
        let grad = Variable::GlobalInputArray { slot: 1, elem };
        let output = Variable::GlobalOutputArray { slot: 0, elem };
        let shader = MaxPool2dBackwardComputeShader {
            indices,
            grad,
            output,
            kernel_size: self.kernel_size,
        };
        shader.expand(&mut scope);
        let inputs = vec![
            InputInfo::Array { elem: Elem::I32, visibility: Visibility::Read },
            InputInfo::Array { elem, visibility: Visibility::Read },
            InputInfo::Scalar { elem: Elem::U32, size: 6 },
        ];
        let outputs = vec![OutputInfo::Array { elem }];
        assert(inputs@ =~= pool_inputs(elem));
        assert(outputs@ =~= pool_outputs(elem));
        let info = CompilationInfo { inputs, outputs, scope };
        compile(&info, CompilationSettings::default_settings())
    }
}

/// Kernel identity determines source text: two kernels with the same
/// identity compile to the same text, so a cache keyed by identity never
/// hands out text of another kernel.
pub proof fn lemma_identity_determines_source(
    a: MaxPool2dWithIndicesBackwardEagerKernel,
    b: MaxPool2dWithIndicesBackwardEagerKernel,
)
    requires
        a.id_spec() == b.id_spec(),
    ensures
        identity_source(a.id_spec()) == identity_source(b.id_spec()),
        a.elem == b.elem,
        a.kernel_size[0] == b.kernel_size[0],
        a.kernel_size[1] == b.kernel_size[1],
{
}

/// Everything needed to launch the max-pool gradient kernel once: the kernel
/// to resolve through its identity, the runtime scalars in binding order, the
/// layout of the output to allocate, and the launch geometry.
/// Bindings follow `pool_inputs` then `pool_outputs`: arg-max positions,
/// output gradient, scalars, input gradient.
pub struct DispatchPlan {
    pub kernel: MaxPool2dWithIndicesBackwardEagerKernel,
    /// `[stride_0, stride_1, dilation_0, dilation_1, padding_0, padding_1]`.
    pub scalars: Vec<u32>,
    pub output_shape: Vec<usize>,
    pub output_strides: Vec<usize>,
    pub launch: LaunchPlan,
}

/// Pooling parameters the kernel can run with.
pub open spec fn pool_params_ok(
    kernel_size: [usize; 2],
    stride: [usize; 2],
    padding: [usize; 2],
    dilation: [usize; 2],
) -> bool {
    &&& valid_kernel_size(kernel_size[0])
    &&& valid_kernel_size(kernel_size[1])
    &&& 1 <= stride[0] <= MAX_PARAM
    &&& 1 <= stride[1] <= MAX_PARAM
    &&& padding[0] <= MAX_PARAM
    &&& padding[1] <= MAX_PARAM
    &&& dilation[0] <= MAX_PARAM
    &&& dilation[1] <= MAX_PARAM
}

/// Plans the gradient of a 2-d max pooling with recorded arg-max positions,
/// for a pooling input of shape `x_shape` (batch, channels, height, width).
pub fn max_pool2d_with_indices_backward(
    x_shape: &Vec<usize>,
    elem: Elem,
    kernel_size: [usize; 2],
    stride: [usize; 2],
    padding: [usize; 2],
    dilation: [usize; 2],
) -> (r: DispatchPlan)
    requires
        x_shape@.len() == 4,
        strides_fit(x_shape@),
        numeric_elem(elem),
        pool_params_ok(kernel_size, stride, padding, dilation),
    ensures
        r.kernel.kernel_size == kernel_size,
        r.kernel.elem == elem,
        r.kernel.valid(),
        r.scalars@ == seq![
            stride[0] as u32,
            stride[1] as u32,
            dilation[0] as u32,
            dilation[1] as u32,
            padding[0] as u32,
            padding[1] as u32,
        ],
        r.output_shape@ == x_shape@,
        nat_view(r.output_strides@) == contiguous_strides_spec(x_shape@),
        r.launch == launch_spec(shape_size(x_shape@), CompilationSettings::default_spec()),
{
    let kernel = MaxPool2dWithIndicesBackwardEagerKernel::new(kernel_size, elem);
    let scalars = vec![
        stride[0] as u32,
        stride[1] as u32,
        dilation[0] as u32,
        dilation[1] as u32,
        padding[0] as u32,
        padding[1] as u32,
    ];
    let output_strides = contiguous_strides(x_shape);
    let num_elems = num_elements(x_shape);
    let launch = launch_plan(num_elems, CompilationSettings::default_settings());
    DispatchPlan { kernel, scalars, output_shape: x_shape.clone(), output_strides, launch }
}

} // verus!
