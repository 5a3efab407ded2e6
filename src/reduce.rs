//! Sum along one dimension, as the steps a reduction kernel emits: a naive
//! strategy where one invocation scans the reduced dimension into a private
//! accumulator, and a shared-memory strategy where invocations merge into
//! shared slots and slot 0 is read out once an outside driver has collapsed
//! them.
use vstd::prelude::*;
use crate::ir::{BinaryOp, Elem, Instruction, Scope, ScopeModel, Variable};

verus! {

/// The sum reduction.
pub struct SumDim;

pub open spec fn numeric(e: Elem) -> bool {
    e != Elem::Bool
}

pub open spec fn add_into(acc: Variable, value: Variable) -> Instruction {
    Instruction::Binary { op: BinaryOp::Add, lhs: acc, rhs: value, out: acc }
}

/// `local = array[position]` into a fresh local.
pub open spec fn load_fresh(sc: ScopeModel, array: Variable, position: Variable) -> ScopeModel {
    sc.declare_local(array.elem_spec()).emit(
        Instruction::Load { array, index: position, out: sc.next_local(array.elem_spec()) },
    )
}

impl SumDim {
    /// Naive accumulator: a new local holding the identity, zero.
    pub fn initialize_naive(scope: &mut Scope, _input_elem: Elem, output_elem: Elem) -> (r: Variable)
        requires
            old(scope)@.next_id < u32::MAX,
        ensures
            r == old(scope)@.next_local(output_elem),
            final(scope)@ == old(scope)@.declare_zero(output_elem),
    {
        scope.zero(output_elem)
    }

    /// Naive update: `accumulator += value`.
    pub fn inner_loop_naive(scope: &mut Scope, accumulator: Variable, value: Variable, _i: Variable)
        requires
            accumulator is Local,
            numeric(accumulator.elem_spec()),
            value.elem_spec() == accumulator.elem_spec(),
        ensures
            final(scope)@ == old(scope)@.emit(add_into(accumulator, value)),
    {
        scope.emit(Instruction::Binary { op: BinaryOp::Add, lhs: accumulator, rhs: value, out: accumulator });
    }

    /// Naive read-out: `output[id] = accumulator`.
    pub fn assign_naive(scope: &mut Scope, output: Variable, accumulator: Variable, _shape_reduce_dim: Variable)
        requires
            output is GlobalOutputArray,
            accumulator.elem_spec() == output.elem_spec(),
        ensures
            final(scope)@ == old(scope)@.emit(
                Instruction::Store { array: output, index: Variable::Id, value: accumulator },
            ),
    {
        scope.emit(Instruction::Store { array: output, index: Variable::Id, value: accumulator });
    }

    /// Shared accumulator: a shared block of `shared_memory_size` slots whose
    /// slot `write_position` is set to zero.
    pub fn initialize_shared(
        scope: &mut Scope,
        shared_memory_size: u32,
        write_position: Variable,
        input_elem: Elem,
    ) -> (r: Variable)
        requires
            old(scope)@.next_id + 2 < u32::MAX,
            write_position.elem_spec() == Elem::U32,
        ensures
            r == old(scope)@.next_shared(input_elem, shared_memory_size),
            final(scope)@ == ({
                let sc = old(scope)@.declare_shared(input_elem, shared_memory_size);
                sc.declare_zero(input_elem).emit(
                    Instruction::Store {
                        array: r,
                        index: write_position,
                        value: sc.next_local(input_elem),
                    },
                )
            }),
    {
        let shared_memory = scope.create_shared(input_elem, shared_memory_size);
        let neutral = scope.zero(input_elem);
        scope.emit(Instruction::Store { array: shared_memory, index: write_position, value: neutral });
        shared_memory
    }

    /// Shared update: `shared[write_position] = shared[write_position] + value`.
    pub fn write_to_shared(
        scope: &mut Scope,
        shared_memory: Variable,
        write_position: Variable,
        value: Variable,
    )
        requires
            old(scope)@.next_id + 2 < u32::MAX,
            shared_memory is Shared,
            numeric(shared_memory.elem_spec()),
            value.elem_spec() == shared_memory.elem_spec(),
            write_position.elem_spec() == Elem::U32,
        ensures
            final(scope)@ == ({
                let e = value.elem_spec();
                let current = old(scope)@.next_local(e);
                let sc = old(scope)@.declare_local(e);
                let computed = sc.next_local(e);
                sc.declare_local(e).emit(
                    Instruction::Load { array: shared_memory, index: write_position, out: current },
                ).emit(
                    Instruction::Binary { op: BinaryOp::Add, lhs: current, rhs: value, out: computed },
                ).emit(Instruction::Store { array: shared_memory, index: write_position, value: computed })
            }),
    {
        let e = value.elem();
        let current = scope.create_local(e);
        let computed = scope.create_local(e);
        scope.emit(Instruction::Load { array: shared_memory, index: write_position, out: current });
        scope.emit(Instruction::Binary { op: BinaryOp::Add, lhs: current, rhs: value, out: computed });
        scope.emit(Instruction::Store { array: shared_memory, index: write_position, value: computed });
    }

    /// Reads `input[read_position]` into a new local.
    pub fn read_from_input(scope: &mut Scope, input: Variable, read_position: Variable, _i: Variable) -> (r: Variable)
        requires
            old(scope)@.next_id < u32::MAX,
            input.is_global_array(),
            read_position.elem_spec() == Elem::U32,
        ensures
            r == old(scope)@.next_local(input.elem_spec()),
            final(scope)@ == load_fresh(old(scope)@, input, read_position),
    {
        let value = scope.create_local(input.elem());
        scope.emit(Instruction::Load { array: input, index: read_position, out: value });
        value
    }

    /// Reads `shared[read_position]` into a new local.
    pub fn read_from_shared(scope: &mut Scope, shared_memory: Variable, read_position: Variable) -> (r: Variable)
        requires
            old(scope)@.next_id < u32::MAX,
            shared_memory is Shared,
            read_position.elem_spec() == Elem::U32,
        ensures
            r == old(scope)@.next_local(shared_memory.elem_spec()),
            final(scope)@ == load_fresh(old(scope)@, shared_memory, read_position),
    {
        let value = scope.create_local(shared_memory.elem());
        scope.emit(Instruction::Load { array: shared_memory, index: read_position, out: value });
        value
    }

    /// Shared read-out: `output[write_position] = shared[0]`.
    pub fn assign_shared(
        scope: &mut Scope,
        shared_memory: Variable,
        output: Variable,
        write_position: Variable,
        _shape_reduce_dim: Variable,
    )
        requires
            old(scope)@.next_id < u32::MAX,
            shared_memory is Shared,
            output is GlobalOutputArray,
            output.elem_spec() == shared_memory.elem_spec(),
            write_position.elem_spec() == Elem::U32,
        ensures
            final(scope)@ == load_fresh(
                old(scope)@,
                shared_memory,
                Variable::Constant { value: 0, elem: Elem::U32 },
            ).emit(
                Instruction::Store {
                    array: output,
                    index: write_position,
                    value: old(scope)@.next_local(output.elem_spec()),
                },
            ),
    {
        let final_value = scope.create_local(output.elem());
        let first = Variable::Constant { value: 0, elem: Elem::U32 };
        scope.emit(Instruction::Load { array: shared_memory, index: first, out: final_value });
        scope.emit(Instruction::Store { array: output, index: write_position, value: final_value });
    }
}

/// State of one invocation running straight-line instructions over
/// unbounded integers: locals, shared slots, the input array it reads, the
/// output array it writes, and its invocation id.
pub struct Machine {
    pub locals: Map<u32, int>,
    pub shared: Map<(u32, int), int>,
    pub input: Seq<int>,
    pub output: Map<int, int>,
    pub id: int,
}

pub open spec fn value_of(m: Machine, v: Variable) -> int {
    match v {
        Variable::Local { id, .. } => m.locals[id],
        Variable::Constant { value, .. } => value as int,
        Variable::Id => m.id,
        _ => 0,
    }
}

pub open spec fn apply(op: BinaryOp, a: int, b: int) -> int {
    match op {
        BinaryOp::Add => a + b,
        BinaryOp::Sub => a - b,
        BinaryOp::Mul => a * b,
        BinaryOp::Div => a / b,
        BinaryOp::Modulo => a % b,
        BinaryOp::Max => if a < b { b } else { a },
        BinaryOp::Min => if a < b { a } else { b },
    }
}

pub open spec fn set_local(m: Machine, out: Variable, v: int) -> Machine {
    match out {
        Variable::Local { id, .. } => Machine { locals: m.locals.insert(id, v), ..m },
        _ => m,
    }
}

/// Effect of one instruction. Declared locals start at zero; comparisons,
/// casts, layout queries and blocks are not modelled and leave the state.
pub open spec fn step(m: Machine, i: Instruction) -> Machine {
    match i {
        Instruction::Declare { var } => set_local(m, var, 0),
        Instruction::Assign { input, out } => set_local(m, out, value_of(m, input)),
        Instruction::Binary { op, lhs, rhs, out } => set_local(
            m,
            out,
            apply(op, value_of(m, lhs), value_of(m, rhs)),
        ),
        Instruction::Load { array, index, out } => set_local(
            m,
            out,
            match array {
                Variable::GlobalInputArray { .. } => m.input[value_of(m, index)],
                Variable::Shared { id, .. } => m.shared[(id, value_of(m, index))],
                _ => 0,
            },
        ),
        Instruction::Store { array, index, value } => match array {
            Variable::GlobalOutputArray { .. } => Machine {
                output: m.output.insert(value_of(m, index), value_of(m, value)),
                ..m
            },
            Variable::Shared { id, .. } => Machine {
                shared: m.shared.insert((id, value_of(m, index)), value_of(m, value)),
                ..m
            },
            _ => m,
        },
        _ => m,
    }
}

/// Runs `s` in order from `m`.
pub open spec fn run(m: Machine, s: Seq<Instruction>) -> Machine
    decreases s.len(),
{
    if s.len() == 0 {
        m
    } else {
        step(run(m, s.drop_last()), s.last())
    }
}

pub open spec fn sum(s: Seq<int>, n: nat) -> int
    decreases n,
{
    if n == 0 {
        0
    } else {
        sum(s, (n - 1) as nat) + s[n - 1]
    }
}

pub open spec fn position(k: int) -> Variable {
    Variable::Constant { value: k as i64, elem: Elem::U32 }
}

/// The naive steps over the first `n` input values: `initialize_naive`, then
/// `read_from_input` and `inner_loop_naive` for each value in turn.
pub open spec fn naive_scan(sc: ScopeModel, input: Variable, e: Elem, n: nat) -> ScopeModel
    decreases n,
{
    if n == 0 {
        sc.declare_zero(e)
    } else {
        let prev = naive_scan(sc, input, e, (n - 1) as nat);
        load_fresh(prev, input, position(n - 1)).emit(
            add_into(sc.next_local(e), prev.next_local(input.elem_spec())),
        )
    }
}

/// The shared steps over the first `n` input values: `initialize_shared` on
/// slot 0, then `read_from_input` and `write_to_shared` into slot 0 for each
/// value in turn.
pub open spec fn shared_merge(sc: ScopeModel, input: Variable, size: u32, n: nat) -> ScopeModel
    decreases n,
{
    let e = input.elem_spec();
    if n == 0 {
        let s1 = sc.declare_shared(e, size);
        s1.declare_zero(e).emit(
            Instruction::Store {
                array: sc.next_shared(e, size),
                index: position(0),
                value: s1.next_local(e),
            },
        )
    } else {
        let prev = shared_merge(sc, input, size, (n - 1) as nat);
        let v = prev.next_local(e);
        let s1 = load_fresh(prev, input, position(n - 1));
        let current = s1.next_local(e);
        let s2 = s1.declare_local(e);
        let computed = s2.next_local(e);
        s2.declare_local(e).emit(
            Instruction::Load { array: sc.next_shared(e, size), index: position(0), out: current },
        ).emit(
            Instruction::Binary { op: BinaryOp::Add, lhs: current, rhs: v, out: computed },
        ).emit(
            Instruction::Store { array: sc.next_shared(e, size), index: position(0), value: computed },
        )
    }
}

proof fn lemma_run_keeps_input(m: Machine, s: Seq<Instruction>)
    ensures
        run(m, s).input == m.input,
        run(m, s).id == m.id,
    decreases s.len(),
{
    if s.len() > 0 {
        lemma_run_keeps_input(m, s.drop_last());
    }
}

proof fn lemma_run_push(m: Machine, s: Seq<Instruction>, i: Instruction)
    ensures
        run(m, s.push(i)) == step(run(m, s), i),
{
    assert(s.push(i).drop_last() =~= s);
}

/// After the naive scan of `n` values from an empty scope, the accumulator
/// holds their sum, and `n + 1` ids have been handed out.
proof fn lemma_naive_scan(m: Machine, input: Variable, e: Elem, n: nat)
    requires
        input is GlobalInputArray,
        n <= m.input.len(),
        n < 0x7fff_ffff,
    ensures
        run(m, naive_scan(ScopeModel::root_spec(), input, e, n).instructions).locals[0] == sum(
            m.input,
            n,
        ),
        naive_scan(ScopeModel::root_spec(), input, e, n).next_id == n + 1,
    decreases n,
{
    let sc = ScopeModel::root_spec();
    if n == 0 {
        let s1 = sc.declare_local(e);
        lemma_run_push(m, sc.instructions, s1.instructions.last());
        assert(s1.instructions =~= sc.instructions.push(s1.instructions.last()));
        let s2 = s1.emit(
            Instruction::Assign { input: Variable::Constant { value: 0, elem: e }, out: sc.next_local(e) },
        );
        lemma_run_push(m, s1.instructions, s2.instructions.last());
        assert(s2 == naive_scan(sc, input, e, n));
        assert(run(m, s2.instructions) == step(run(m, s1.instructions), s2.instructions.last()));
        assert(run(m, s2.instructions).locals[0] == 0);
    } else {
        lemma_naive_scan(m, input, e, (n - 1) as nat);
        let prev = naive_scan(sc, input, e, (n - 1) as nat);
        let s1 = prev.declare_local(input.elem_spec());
        let v = prev.next_local(input.elem_spec());
        let s2 = s1.emit(Instruction::Load { array: input, index: position(n - 1), out: v });
        let s3 = s2.emit(add_into(sc.next_local(e), v));
        lemma_run_push(m, prev.instructions, Instruction::Declare { var: v });
        lemma_run_push(m, s1.instructions, Instruction::Load { array: input, index: position(n - 1), out: v });
        lemma_run_push(m, s2.instructions, add_into(sc.next_local(e), v));
        assert(v->Local_id == n);
        assert(s3 == naive_scan(sc, input, e, n));
        lemma_run_keeps_input(m, s1.instructions);
        let r0 = run(m, prev.instructions);
        let r1 = run(m, s1.instructions);
        let r2 = run(m, s2.instructions);
        assert(r1.locals[0] == r0.locals[0]);
        assert(r2.locals[0] == r0.locals[0]);
        assert(r2.locals[n as u32] == m.input[n - 1]);
    }
}

/// After the shared merge of `n` values from an empty scope, slot 0 of the
/// shared block holds their sum, and `2 + 3 n` ids have been handed out.
proof fn lemma_shared_merge(m: Machine, input: Variable, size: u32, n: nat)
    requires
        input is GlobalInputArray,
        n <= m.input.len(),
        n < 0x1fff_ffff,
    ensures
        run(m, shared_merge(ScopeModel::root_spec(), input, size, n).instructions).shared[(0u32, 0int)]
            == sum(m.input, n),
        shared_merge(ScopeModel::root_spec(), input, size, n).next_id == 2 + 3 * n,
    decreases n,
{
    let sc = ScopeModel::root_spec();
    let e = input.elem_spec();
    let slot = sc.next_shared(e, size);
    lemma_run_keeps_input(m, seq![]);
    if n == 0 {
        let s1 = sc.declare_shared(e, size);
        let s2 = s1.declare_local(e);
        let s3 = s2.emit(
            Instruction::Assign { input: Variable::Constant { value: 0, elem: e }, out: s1.next_local(e) },
        );
        let s4 = s3.emit(Instruction::Store { array: slot, index: position(0), value: s1.next_local(e) });
        assert(s1.instructions =~= sc.instructions.push(Instruction::Declare { var: slot }));
        lemma_run_push(m, sc.instructions, Instruction::Declare { var: slot });
        lemma_run_push(m, s1.instructions, s2.instructions.last());
        lemma_run_push(m, s2.instructions, s3.instructions.last());
        lemma_run_push(m, s3.instructions, s4.instructions.last());
        assert(s4 == shared_merge(sc, input, size, n));
    } else {
        lemma_shared_merge(m, input, size, (n - 1) as nat);
        let prev = shared_merge(sc, input, size, (n - 1) as nat);
        let v = prev.next_local(e);
        let s1 = prev.declare_local(e);
        let load = Instruction::Load { array: input, index: position(n - 1), out: v };
        let s2 = s1.emit(load);
        let current = s2.next_local(e);
        let s3 = s2.declare_local(e);
        let computed = s3.next_local(e);
        let s4 = s3.declare_local(e);
        let i5 = Instruction::Load { array: slot, index: position(0), out: current };
        let s5 = s4.emit(i5);
        let i6 = Instruction::Binary { op: BinaryOp::Add, lhs: current, rhs: v, out: computed };
        let s6 = s5.emit(i6);
        let i7 = Instruction::Store { array: slot, index: position(0), value: computed };
        let s7 = s6.emit(i7);
        assert(s7 == shared_merge(sc, input, size, n));
        lemma_run_push(m, prev.instructions, Instruction::Declare { var: v });
        lemma_run_push(m, s1.instructions, load);
        lemma_run_push(m, s2.instructions, Instruction::Declare { var: current });
        lemma_run_push(m, s3.instructions, Instruction::Declare { var: computed });
        lemma_run_push(m, s4.instructions, i5);
        lemma_run_push(m, s5.instructions, i6);
        lemma_run_push(m, s6.instructions, i7);
        lemma_run_keeps_input(m, s1.instructions);
        let r0 = run(m, prev.instructions);
        let r2 = run(m, s2.instructions);
        let r5 = run(m, s5.instructions);
        let r6 = run(m, s6.instructions);
        assert(r2.locals[v->Local_id] == m.input[n - 1]);
        assert(r5.locals[v->Local_id] == m.input[n - 1]);
        assert(r5.shared == r0.shared);
        assert(r5.locals[current->Local_id] == r0.shared[(0u32, 0int)]);
        assert(r6.locals[computed->Local_id] == r0.shared[(0u32, 0int)] + m.input[n - 1]);
    }
}

/// The whole naive program for one output element over `n` input values:
/// the scan, then `assign_naive`.
pub open spec fn naive_program(input: Variable, output: Variable, n: nat) -> Seq<Instruction> {
    let e = output.elem_spec();
    naive_scan(ScopeModel::root_spec(), input, e, n).emit(
        Instruction::Store {
            array: output,
            index: Variable::Id,
            value: ScopeModel::root_spec().next_local(e),
        },
    ).instructions
}

/// The whole shared-memory program for one output element over `n` input
/// values, all merged into slot 0: the merge, then `assign_shared`.
pub open spec fn shared_program(input: Variable, output: Variable, size: u32, n: nat) -> Seq<
    Instruction,
> {
    let sc = shared_merge(ScopeModel::root_spec(), input, size, n);
    let slot = ScopeModel::root_spec().next_shared(input.elem_spec(), size);
    load_fresh(sc, slot, position(0)).emit(
        Instruction::Store {
            array: output,
            index: Variable::Id,
            value: sc.next_local(slot.elem_spec()),
        },
    ).instructions
}

/// The naive and the shared-memory sum write the same value: the sum of the
/// reduced input values, exact over the integers.
pub proof fn lemma_sum_strategies_agree(
    m: Machine,
    input: Variable,
    output: Variable,
    size: u32,
    n: nat,
)
    requires
        input is GlobalInputArray,
        output is GlobalOutputArray,
        n <= m.input.len(),
        n < 0x1fff_ffff,
    ensures
        run(m, naive_program(input, output, n)).output[m.id] == sum(m.input, n),
        run(m, shared_program(input, output, size, n)).output[m.id] == sum(m.input, n),
{
    let root = ScopeModel::root_spec();
    let e = output.elem_spec();
    lemma_naive_scan(m, input, e, n);
    let scan = naive_scan(root, input, e, n);
    let store = Instruction::Store { array: output, index: Variable::Id, value: root.next_local(e) };
    lemma_run_push(m, scan.instructions, store);
    lemma_run_keeps_input(m, scan.instructions);

    lemma_shared_merge(m, input, size, n);
    let sc = shared_merge(root, input, size, n);
    let slot = root.next_shared(input.elem_spec(), size);
    let out_local = sc.next_local(slot.elem_spec());
    let s1 = sc.declare_local(slot.elem_spec());
    let load = Instruction::Load { array: slot, index: position(0), out: out_local };
    let s2 = s1.emit(load);
    let store2 = Instruction::Store { array: output, index: Variable::Id, value: out_local };
    lemma_run_push(m, sc.instructions, Instruction::Declare { var: out_local });
    lemma_run_push(m, s1.instructions, load);
    lemma_run_push(m, s2.instructions, store2);
    lemma_run_keeps_input(m, s2.instructions);
}

} // verus!
