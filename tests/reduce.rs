use std::collections::HashMap;
use pool_kernels::ir::{BinaryOp, Elem, Instruction, Scope, Variable};
use pool_kernels::reduce::SumDim;

#[test]
fn naive_sum_steps() {
    let mut scope = Scope::root();
    let input = Variable::GlobalInputArray { slot: 0, elem: Elem::F32 };
    let output = Variable::GlobalOutputArray { slot: 0, elem: Elem::F32 };
    let acc = SumDim::initialize_naive(&mut scope, Elem::F32, Elem::F32);
    let value = SumDim::read_from_input(&mut scope, input, Variable::Id, Variable::Id);
    SumDim::inner_loop_naive(&mut scope, acc, value, Variable::Id);
    SumDim::assign_naive(&mut scope, output, acc, Variable::Id);
    assert_eq!(acc, Variable::Local { id: 0, elem: Elem::F32 });
    assert_eq!(value, Variable::Local { id: 1, elem: Elem::F32 });
    assert_eq!(
        scope.instructions().clone(),
        vec![
            Instruction::Declare { var: acc },
            Instruction::Assign { input: Variable::Constant { value: 0, elem: Elem::F32 }, out: acc },
            Instruction::Declare { var: value },
            Instruction::Load { array: input, index: Variable::Id, out: value },
            Instruction::Binary { op: BinaryOp::Add, lhs: acc, rhs: value, out: acc },
            Instruction::Store { array: output, index: Variable::Id, value: acc },
        ]
    );
}

#[test]
fn shared_sum_steps() {
    let mut scope = Scope::root();
    let output = Variable::GlobalOutputArray { slot: 0, elem: Elem::I32 };
    let position = Variable::Constant { value: 5, elem: Elem::U32 };
    let shared = SumDim::initialize_shared(&mut scope, 64, position, Elem::I32);
    assert_eq!(shared, Variable::Shared { id: 0, size: 64, elem: Elem::I32 });
    let value = Variable::Constant { value: 7, elem: Elem::I32 };
    SumDim::write_to_shared(&mut scope, shared, position, value);
    let read = SumDim::read_from_shared(&mut scope, shared, position);
    SumDim::assign_shared(&mut scope, shared, output, Variable::Id, Variable::Id);
    let l = |id: u32| Variable::Local { id, elem: Elem::I32 };
    assert_eq!(read, l(4));
    assert_eq!(
        scope.instructions().clone(),
        vec![
            Instruction::Declare { var: shared },
            Instruction::Declare { var: l(1) },
            Instruction::Assign { input: Variable::Constant { value: 0, elem: Elem::I32 }, out: l(1) },
            Instruction::Store { array: shared, index: position, value: l(1) },
            Instruction::Declare { var: l(2) },
            Instruction::Declare { var: l(3) },
            Instruction::Load { array: shared, index: position, out: l(2) },
            Instruction::Binary { op: BinaryOp::Add, lhs: l(2), rhs: value, out: l(3) },
            Instruction::Store { array: shared, index: position, value: l(3) },
            Instruction::Declare { var: l(4) },
            Instruction::Load { array: shared, index: position, out: l(4) },
            Instruction::Declare { var: l(5) },
            Instruction::Load { array: shared, index: Variable::Constant { value: 0, elem: Elem::U32 }, out: l(5) },
            Instruction::Store { array: output, index: Variable::Id, value: l(5) },
        ]
    );
}

/// Runs straight-line instructions for one invocation over `f64` values.
fn interpret(instructions: &[Instruction], input: &[f64], id: usize) -> Vec<(usize, f64)> {
    let mut locals: HashMap<u32, f64> = HashMap::new();
    let mut shared: HashMap<(u32, usize), f64> = HashMap::new();
    let mut output = Vec::new();
    let value = |locals: &HashMap<u32, f64>, v: &Variable| -> f64 {
        match v {
            Variable::Local { id, .. } => locals[id],
            Variable::Constant { value, .. } => *value as f64,
            Variable::Id => id as f64,
            _ => panic!("not a value"),
        }
    };
    for i in instructions {
        match i {
            Instruction::Declare { var: Variable::Local { id, .. } } => {
                locals.insert(*id, 0.0);
            }
            Instruction::Declare { .. } => {}
            Instruction::Assign { input: v, out: Variable::Local { id, .. } } => {
                let x = value(&locals, v);
                locals.insert(*id, x);
            }
            Instruction::Binary { op: BinaryOp::Add, lhs, rhs, out: Variable::Local { id, .. } } => {
                let x = value(&locals, lhs) + value(&locals, rhs);
                locals.insert(*id, x);
            }
            Instruction::Load { array, index, out: Variable::Local { id, .. } } => {
                let k = value(&locals, index) as usize;
                let x = match array {
                    Variable::GlobalInputArray { .. } => input[k],
                    Variable::Shared { id: s, .. } => shared[&(*s, k)],
                    _ => panic!("not readable"),
                };
                locals.insert(*id, x);
            }
            Instruction::Store { array, index, value: v } => {
                let k = value(&locals, index) as usize;
                let x = value(&locals, v);
                match array {
                    Variable::GlobalOutputArray { .. } => output.push((k, x)),
                    Variable::Shared { id: s, .. } => {
                        shared.insert((*s, k), x);
                    }
                    _ => panic!("not writable"),
                }
            }
            other => panic!("unexpected {:?}", other),
        }
    }
    output
}

#[test]
fn naive_and_shared_sums_agree() {
    let input = vec![1.5, 2.0, -0.5, 4.25];
    let array = Variable::GlobalInputArray { slot: 0, elem: Elem::F32 };
    let output = Variable::GlobalOutputArray { slot: 0, elem: Elem::F32 };
    let at = |k: i64| Variable::Constant { value: k, elem: Elem::U32 };

    let mut naive = Scope::root();
    let acc = SumDim::initialize_naive(&mut naive, Elem::F32, Elem::F32);
    for k in 0..input.len() {
        let v = SumDim::read_from_input(&mut naive, array, at(k as i64), at(k as i64));
        SumDim::inner_loop_naive(&mut naive, acc, v, at(k as i64));
    }
    SumDim::assign_naive(&mut naive, output, acc, at(4));

    let mut shared = Scope::root();
    let slots = SumDim::initialize_shared(&mut shared, 8, at(0), Elem::F32);
    for k in 0..input.len() {
        let v = SumDim::read_from_input(&mut shared, array, at(k as i64), at(k as i64));
        SumDim::write_to_shared(&mut shared, slots, at(0), v);
    }
    SumDim::assign_shared(&mut shared, slots, output, Variable::Id, at(4));

    let a = interpret(naive.instructions(), &input, 2);
    let b = interpret(shared.instructions(), &input, 2);
    assert_eq!(a, vec![(2, 7.25)]);
    assert_eq!(b, vec![(2, 7.25)]);
}
