//! Launch geometry: how many workgroups cover one output tensor.
use vstd::prelude::*;
use crate::compiler::CompilationSettings;

verus! {

/// Largest number of workgroups along one dispatch axis.
pub const MAX_WORKGROUPS_PER_DIM: usize = 65535;

/// Workgroups scheduled along x and y (z is always one).
#[derive(Clone, Copy, Debug, PartialEq, Eq, Structural)]
pub struct LaunchPlan {
    pub workgroups_x: usize,
    pub workgroups_y: usize,
}

pub open spec fn ceil_div(a: nat, b: nat) -> nat
    recommends
        b > 0,
{
    ((a + b - 1) / (b as int)) as nat
}

pub open spec fn invocations_per_group(settings: CompilationSettings) -> nat {
    (settings.workgroup_size_x as nat) * (settings.workgroup_size_y as nat)
}

/// Workgroups needed for `num_elems` invocations, laid out as a row of at most
/// `MAX_WORKGROUPS_PER_DIM` groups, repeated along y as often as needed.
pub open spec fn launch_spec(num_elems: nat, settings: CompilationSettings) -> LaunchPlan {
    let groups = ceil_div(num_elems, invocations_per_group(settings));
    let x = if groups < MAX_WORKGROUPS_PER_DIM { groups } else { MAX_WORKGROUPS_PER_DIM as nat };
    LaunchPlan {
        workgroups_x: x as usize,
        workgroups_y: if x == 0 { 0 } else { ceil_div(groups, x) as usize },
    }
}

/// Geometry for an output of `num_elems` elements. Every element gets an
/// invocation; the surplus of the last groups must do nothing.
pub fn launch_plan(num_elems: usize, settings: CompilationSettings) -> (r: LaunchPlan)
    requires
        settings.workgroup_size_x > 0,
        settings.workgroup_size_y > 0,
    ensures
        r == launch_spec(num_elems as nat, settings),
        r.workgroups_x * r.workgroups_y * invocations_per_group(settings) >= num_elems,
{
    let wx = settings.workgroup_size_x as u128;
    let wy = settings.workgroup_size_y as u128;
    assert(0 < wx * wy <= 0xffff_ffff_ffff_ffff) by (nonlinear_arith)
        requires
            0 < wx <= 0xffff_ffff,
            0 < wy <= 0xffff_ffff,
    ;
    let per = wx * wy;
    let n = num_elems as u128;
    let groups = (n + per - 1) / per;
    let x: u128 = if groups < MAX_WORKGROUPS_PER_DIM as u128 {
        groups
    } else {
        MAX_WORKGROUPS_PER_DIM as u128
    };
    let y: u128 = if x == 0 {
        0
    } else {
        (groups + x - 1) / x
    };
    proof {
        let p = per as int;
        assert(p > 0) by (nonlinear_arith)
            requires
                settings.workgroup_size_x > 0,
                settings.workgroup_size_y > 0,
                p == (settings.workgroup_size_x as int) * (settings.workgroup_size_y as int),
        ;
        assert(groups * p >= n) by (nonlinear_arith)
            requires
                p > 0,
                groups == (n + p - 1) / p,
        ;
        assert(groups <= n) by (nonlinear_arith)
            requires
                p > 0,
                groups == (n + p - 1) / p,
        ;
        if x > 0 {
            assert(x * y >= groups) by (nonlinear_arith)
                requires
                    x > 0,
                    y == (groups + x - 1) / (x as int),
            ;
            assert(y <= groups) by (nonlinear_arith)
                requires
                    x > 0,
                    y == (groups + x - 1) / (x as int),
            ;
            assert(x * y * p >= n) by (nonlinear_arith)
                requires
                    x * y >= groups,
                    groups * p >= n,
                    p > 0,
            ;
        }
    }
    LaunchPlan { workgroups_x: x as usize, workgroups_y: y as usize }
}

} // verus!
