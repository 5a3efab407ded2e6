use pool_kernels::cache::KernelCache;
use pool_kernels::compiler::{compile, CompilationInfo, CompilationSettings, InputInfo, OutputInfo, Visibility};
use pool_kernels::ir::{BinaryOp, Elem, Instruction, Scope, Variable};
use pool_kernels::launch::{launch_plan, LaunchPlan};
use pool_kernels::pool_gradient::{max_pool2d_backward_sources, PoolGeometry};
use pool_kernels::pool_kernel::{
    max_pool2d_with_indices_backward, KernelIdentity, KernelKind,
    MaxPool2dWithIndicesBackwardEagerKernel,
};

struct Lcg(u64);

impl Lcg {
    fn next(&mut self) -> f32 {
        self.0 = self.0.wrapping_mul(6364136223846793005).wrapping_add(1442695040888963407);
        ((self.0 >> 40) as f32) / ((1u64 << 24) as f32)
    }
}

fn out_dim(n: usize, k: usize, s: usize, p: usize, d: usize) -> usize {
    (n + 2 * p - d * (k - 1) - 1) / s + 1
}

/// Forward max pooling recording each window's arg-max as a position in its plane.
fn forward_indices(x: &[f32], g: &PoolGeometry) -> Vec<i64> {
    let [b, c, h, w] = g.x_shape;
    let [_, _, oh_n, ow_n] = g.grad_shape;
    let mut out = Vec::with_capacity(b * c * oh_n * ow_n);
    for bc in 0..b * c {
        for oh in 0..oh_n {
            for ow in 0..ow_n {
                let mut best = f32::NEG_INFINITY;
                let mut best_idx = 0i64;
                for kh in 0..g.kernel_size[0] {
                    for kw in 0..g.kernel_size[1] {
                        let ih = (oh * g.stride[0] + kh * g.dilation[0]) as i64 - g.padding[0] as i64;
                        let iw = (ow * g.stride[1] + kw * g.dilation[1]) as i64 - g.padding[1] as i64;
                        if ih < 0 || iw < 0 || ih >= h as i64 || iw >= w as i64 {
                            continue;
                        }
                        let v = x[bc * h * w + ih as usize * w + iw as usize];
                        if v > best {
                            best = v;
                            best_idx = ih * w as i64 + iw;
                        }
                    }
                }
                out.push(best_idx);
            }
        }
    }
    out
}

/// Sequential scatter: each output gradient added at its arg-max.
fn reference_backward(g: &PoolGeometry, grad: &[f32], indices: &[i64]) -> Vec<f32> {
    let [b, c, h, w] = g.x_shape;
    let oplane = g.grad_shape[2] * g.grad_shape[3];
    let mut x_grad = vec![0.0f32; b * c * h * w];
    for o in 0..grad.len() {
        let bc = o / oplane;
        x_grad[bc * h * w + indices[o] as usize] += grad[o];
    }
    x_grad
}

fn gather_backward(g: &PoolGeometry, grad: &[f32], indices: &Vec<i64>) -> Vec<f32> {
    let [b, c, h, w] = g.x_shape;
    (0..b * c * h * w)
        .map(|p| max_pool2d_backward_sources(g, indices, p).iter().map(|&o| grad[o]).sum())
        .collect()
}

fn geometry(x_shape: [usize; 4], k: [usize; 2], s: [usize; 2], p: [usize; 2], d: [usize; 2]) -> PoolGeometry {
    let oh = out_dim(x_shape[2], k[0], s[0], p[0], d[0]);
    let ow = out_dim(x_shape[3], k[1], s[1], p[1], d[1]);
    PoolGeometry {
        x_shape,
        grad_shape: [x_shape[0], x_shape[1], oh, ow],
        kernel_size: k,
        stride: s,
        padding: p,
        dilation: d,
    }
}

fn check_against_reference(g: &PoolGeometry, seed: u64) {
    let mut rng = Lcg(seed);
    let n_in: usize = g.x_shape.iter().product();
    let n_out: usize = g.grad_shape.iter().product();
    let x: Vec<f32> = (0..n_in).map(|_| rng.next()).collect();
    let grad: Vec<f32> = (0..n_out).map(|_| rng.next()).collect();
    let indices = forward_indices(&x, g);
    let expected = reference_backward(g, &grad, &indices);
    let actual = gather_backward(g, &grad, &indices);
    assert_eq!(actual.len(), expected.len());
    for (a, e) in actual.iter().zip(expected.iter()) {
        assert!((a - e).abs() < 1e-3, "{} vs {}", a, e);
    }
}

#[test]
fn max_pool2d_with_indices_backward_should_work_with_multiple_invocations() {
    let g = geometry([32, 32, 32, 32], [3, 3], [2, 2], [1, 1], [1, 1]);
    assert_eq!(g.grad_shape, [32, 32, 16, 16]);
    check_against_reference(&g, 7);
    let plan = max_pool2d_with_indices_backward(&vec![32, 32, 32, 32], Elem::F32, [3, 3], [2, 2], [1, 1], [1, 1]);
    assert_eq!(plan.scalars, vec![2, 2, 1, 1, 1, 1]);
    assert_eq!(plan.output_shape, vec![32, 32, 32, 32]);
    assert_eq!(plan.output_strides, vec![32768, 1024, 32, 1]);
    assert_eq!(plan.launch, LaunchPlan { workgroups_x: 1024, workgroups_y: 1 });
}

#[test]
fn backward_with_stride_dilation_and_padding() {
    check_against_reference(&geometry([2, 3, 9, 11], [3, 2], [3, 2], [1, 1], [2, 3]), 11);
    check_against_reference(&geometry([1, 2, 10, 7], [2, 3], [1, 2], [0, 2], [3, 1]), 12);
    check_against_reference(&geometry([1, 1, 5, 5], [5, 5], [1, 1], [2, 2], [1, 1]), 13);
}

#[test]
fn backward_conserves_gradient_mass() {
    let g = geometry([2, 2, 8, 8], [2, 2], [2, 2], [0, 0], [1, 1]);
    let mut rng = Lcg(3);
    let x: Vec<f32> = (0..256).map(|_| rng.next()).collect();
    let grad: Vec<f32> = (0..64).map(|_| rng.next()).collect();
    let indices = forward_indices(&x, &g);
    let x_grad = gather_backward(&g, &grad, &indices);
    let total_in: f32 = x_grad.iter().sum();
    let total_out: f32 = grad.iter().sum();
    assert!((total_in - total_out).abs() < 1e-3);
    // Non-overlapping windows: exactly one element per window is non-zero.
    assert_eq!(x_grad.iter().filter(|v| **v != 0.0).count(), 64);
}

#[test]
fn unselected_position_receives_nothing() {
    let g = geometry([1, 1, 4, 4], [2, 2], [2, 2], [0, 0], [1, 1]);
    // every window picks its top-left element
    let indices = vec![0i64, 2, 8, 10];
    assert_eq!(max_pool2d_backward_sources(&g, &indices, 0), vec![0]);
    assert_eq!(max_pool2d_backward_sources(&g, &indices, 10), vec![3]);
    assert!(max_pool2d_backward_sources(&g, &indices, 1).is_empty());
    assert!(max_pool2d_backward_sources(&g, &indices, 15).is_empty());
}

#[test]
fn overlapping_windows_share_one_arg_max() {
    let g = geometry([1, 1, 3, 3], [2, 2], [1, 1], [0, 0], [1, 1]);
    // the centre is the maximum of all four windows
    let indices = vec![4i64, 4, 4, 4];
    assert_eq!(max_pool2d_backward_sources(&g, &indices, 4), vec![0, 1, 2, 3]);
    assert!(max_pool2d_backward_sources(&g, &indices, 0).is_empty());
}

#[test]
fn kernel_source_is_deterministic() {
    let a = MaxPool2dWithIndicesBackwardEagerKernel::new([3, 3], Elem::F32);
    let b = MaxPool2dWithIndicesBackwardEagerKernel::new([3, 3], Elem::F32);
    let text = a.source();
    assert_eq!(text, b.source());
    assert_eq!(text, a.source());
    assert_eq!(a.id(), b.id());
    assert_eq!(
        a.id(),
        KernelIdentity { kind: KernelKind::MaxPool2dWithIndicesBackward, elem: Elem::F32, kernel_size_0: 3, kernel_size_1: 3 }
    );
    let c = MaxPool2dWithIndicesBackwardEagerKernel::new([2, 3], Elem::F32);
    assert_ne!(c.source(), text);
    assert!(text.starts_with(
        "@binding(0) var<storage, read> input_0: array<i32>;\n\
         @binding(1) var<storage, read> input_1: array<f32>;\n\
         @binding(2) var<storage, read> scalars_u32: array<u32, 6>;\n\
         @binding(3) var<storage, read_write> output_0: array<f32>;\n\
         @compute @workgroup_size(32, 32, 1)\nfn main(id: u32) {\n\
         var l0: u32;\nl0 = arrayLength(&output_0);\nvar l1: bool;\nl1 = id < l0;\nif l1 {\n"
    ));
    assert!(text.contains("i32(2)"));
    assert!(c.source().contains("i32(1)"));
    assert!(text.contains("}\n}\n}\noutput_0[id] = l"));
    assert!(text.ends_with(";\n}\n}\n"));
}

#[test]
fn kernel_cache_compiles_once_per_identity() {
    let mut cache = KernelCache::new();
    let a = MaxPool2dWithIndicesBackwardEagerKernel::new([3, 3], Elem::F32);
    let first = cache.get_or_compile(&a);
    let again = cache.get_or_compile(&MaxPool2dWithIndicesBackwardEagerKernel::new([3, 3], Elem::F32));
    assert_eq!(first, again);
    assert_eq!(first, a.source());
    assert_eq!(cache.len(), 1);
    let other = cache.get_or_compile(&MaxPool2dWithIndicesBackwardEagerKernel::new([3, 3], Elem::I32));
    assert_ne!(other, first);
    assert_eq!(cache.len(), 2);
}

#[test]
fn compile_small_scope() {
    let mut scope = Scope::root();
    let input = Variable::GlobalInputArray { slot: 0, elem: Elem::U32 };
    let output = Variable::GlobalOutputArray { slot: 0, elem: Elem::U32 };
    let v = scope.create_local(Elem::U32);
    scope.emit(Instruction::Load { array: input, index: Variable::Id, out: v });
    scope.emit(Instruction::Binary { op: BinaryOp::Max, lhs: v, rhs: Variable::Constant { value: -3, elem: Elem::U32 }, out: v });
    let i = scope.range_loop(Variable::Constant { value: 0, elem: Elem::U32 }, v);
    scope.emit(Instruction::Binary { op: BinaryOp::Modulo, lhs: v, rhs: i, out: v });
    scope.emit(Instruction::EndBlock);
    scope.emit(Instruction::Store { array: output, index: Variable::Id, value: v });
    assert_eq!(scope.depth(), 0);
    assert_eq!(scope.instructions().len(), 7);
    let info = CompilationInfo {
        inputs: vec![InputInfo::Array { elem: Elem::U32, visibility: Visibility::Read }],
        outputs: vec![OutputInfo::Array { elem: Elem::U32 }],
        scope,
    };
    let text = compile(&info, CompilationSettings { workgroup_size_x: 64, workgroup_size_y: 1 });
    assert_eq!(
        text,
        "@binding(0) var<storage, read> input_0: array<u32>;\n\
         @binding(1) var<storage, read_write> output_0: array<u32>;\n\
         @compute @workgroup_size(64, 1, 1)\nfn main(id: u32) {\n\
         var l0: u32;\n\
         l0 = input_0[id];\n\
         l0 = max(l0, u32(-3));\n\
         for (var l1: u32 = u32(0); l1 < l0; l1++) {\n\
         l0 = l0 % l1;\n\
         }\n\
         output_0[id] = l0;\n\
         }\n"
    );
}

#[test]
fn launch_geometry_rounds_up() {
    let s = CompilationSettings::default_settings();
    assert_eq!(launch_plan(0, s), LaunchPlan { workgroups_x: 0, workgroups_y: 0 });
    assert_eq!(launch_plan(1, s), LaunchPlan { workgroups_x: 1, workgroups_y: 1 });
    assert_eq!(launch_plan(1025, s), LaunchPlan { workgroups_x: 2, workgroups_y: 1 });
    assert_eq!(launch_plan(1024 * 70000, s), LaunchPlan { workgroups_x: 65535, workgroups_y: 2 });
}
