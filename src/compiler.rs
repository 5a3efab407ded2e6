//! Lowers a scope and its binding layout into kernel source text. The text is
//! a function of the layout, the instructions and the settings alone.
use vstd::prelude::*;
use crate::ir::{BinaryOp, CompareOp, Elem, Instruction, Scope, ScopeModel, Variable};
use crate::text::{
    decimal, elem_str, elem_text, push_decimal, push_signed, signed_decimal,
};

verus! {

#[derive(Clone, Copy, Debug, PartialEq, Eq, Structural)]
pub enum Visibility {
    Read,
    ReadWrite,
}

/// One entry of the input binding list.
#[derive(Clone, Copy, Debug, PartialEq, Eq, Structural)]
pub enum InputInfo {
    Array { elem: Elem, visibility: Visibility },
    /// A block of `size` runtime scalars of one kind.
    Scalar { elem: Elem, size: u32 },
}

/// One entry of the output binding list.
#[derive(Clone, Copy, Debug, PartialEq, Eq, Structural)]
pub enum OutputInfo {
    Array { elem: Elem },
}

/// Launch-geometry defaults, independent of the kernel's logic.
#[derive(Clone, Copy, Debug, PartialEq, Eq, Structural)]
pub struct CompilationSettings {
    pub workgroup_size_x: u32,
    pub workgroup_size_y: u32,
}

/// Default workgroup extent along x and y.
pub const WORKGROUP_DEFAULT: u32 = 32;

impl CompilationSettings {
    pub open spec fn default_spec() -> CompilationSettings {
        CompilationSettings { workgroup_size_x: WORKGROUP_DEFAULT, workgroup_size_y: WORKGROUP_DEFAULT }
    }

    /// A square workgroup of the default extent.
    pub fn default_settings() -> (r: CompilationSettings)
        ensures
            r == Self::default_spec(),
    {
        CompilationSettings { workgroup_size_x: WORKGROUP_DEFAULT, workgroup_size_y: WORKGROUP_DEFAULT }
    }
}

/// The binding layout and the body of one kernel. Binding slot `i` is
/// position `i` of the inputs followed by the outputs.
pub struct CompilationInfo {
    pub inputs: Vec<InputInfo>,
    pub outputs: Vec<OutputInfo>,
    pub scope: Scope,
}

#[verifier::opaque]
pub open spec fn var_text(v: Variable) -> Seq<char> {
    match v {
        Variable::Local { id, .. } => "l"@ + decimal(id as nat),
        Variable::GlobalInputArray { slot, .. } => "input_"@ + decimal(slot as nat),
        Variable::GlobalOutputArray { slot, .. } => "output_"@ + decimal(slot as nat),
        Variable::GlobalScalar { slot, elem } => "scalars_"@ + elem_text(elem) + "["@ + decimal(
            slot as nat,
        ) + "]"@,
        Variable::Shared { id, .. } => "shared_"@ + decimal(id as nat),
        Variable::Constant { value, elem } => elem_text(elem) + "("@ + signed_decimal(value as int)
            + ")"@,
        Variable::Id => "id"@,
    }
}

pub open spec fn binary_text(op: BinaryOp, lhs: Seq<char>, rhs: Seq<char>) -> Seq<char> {
    match op {
        BinaryOp::Add => lhs + " + "@ + rhs,
        BinaryOp::Sub => lhs + " - "@ + rhs,
        BinaryOp::Mul => lhs + " * "@ + rhs,
        BinaryOp::Div => lhs + " / "@ + rhs,
        BinaryOp::Modulo => lhs + " % "@ + rhs,
        BinaryOp::Max => "max("@ + lhs + ", "@ + rhs + ")"@,
        BinaryOp::Min => "min("@ + lhs + ", "@ + rhs + ")"@,
    }
}

pub open spec fn compare_text(op: CompareOp) -> Seq<char> {
    match op {
        CompareOp::Equal => " == "@,
        CompareOp::Lower => " < "@,
    }
}

/// One line of source text per instruction.
pub open spec fn instruction_text(i: Instruction) -> Seq<char> {
    match i {
        Instruction::Declare { var } => match var {
            Variable::Shared { size, elem, .. } => "var<workgroup> "@ + var_text(var) + ": array<"@
                + elem_text(elem) + ", "@ + decimal(size as nat) + ">;\n"@,
            _ => "var "@ + var_text(var) + ": "@ + elem_text(var.elem_spec()) + ";\n"@,
        },
        Instruction::Assign { input, out } => var_text(out) + " = "@ + var_text(input) + ";\n"@,
        Instruction::Binary { op, lhs, rhs, out } => var_text(out) + " = "@ + binary_text(
            op,
            var_text(lhs),
            var_text(rhs),
        ) + ";\n"@,
        Instruction::Compare { comparison, lhs, rhs, out } => var_text(out) + " = "@ + var_text(lhs)
            + compare_text(comparison) + var_text(rhs) + ";\n"@,
        Instruction::Cast { input, out } => var_text(out) + " = "@ + elem_text(out.elem_spec())
            + "("@ + var_text(input) + ");\n"@,
        Instruction::Load { array, index, out } => var_text(out) + " = "@ + var_text(array) + "["@
            + var_text(index) + "];\n"@,
        Instruction::Store { array, index, value } => var_text(array) + "["@ + var_text(index)
            + "] = "@ + var_text(value) + ";\n"@,
        Instruction::Stride { array, dim, out } => var_text(out) + " = stride("@ + var_text(array)
            + ", "@ + decimal(dim as nat) + ");\n"@,
        Instruction::Shape { array, dim, out } => var_text(out) + " = shape("@ + var_text(array)
            + ", "@ + decimal(dim as nat) + ");\n"@,
        Instruction::Length { array, out } => var_text(out) + " = arrayLength(&"@ + var_text(array)
            + ");\n"@,
        Instruction::RangeLoop { var, start, end } => "for (var "@ + var_text(var) + ": u32 = "@
            + var_text(start) + "; "@ + var_text(var) + " < "@ + var_text(end) + "; "@ + var_text(
            var,
        ) + "++) {\n"@,
        Instruction::If { cond } => "if "@ + var_text(cond) + " {\n"@,
        Instruction::EndBlock => "}\n"@,
    }
}

/// Text of a whole instruction list, in order.
pub open spec fn body_text(s: Seq<Instruction>) -> Seq<char>
    decreases s.len(),
{
    if s.len() == 0 {
        seq![]
    } else {
        body_text(s.drop_last()) + instruction_text(s.last())
    }
}

pub open spec fn visibility_text(v: Visibility) -> Seq<char> {
    match v {
        Visibility::Read => "read"@,
        Visibility::ReadWrite => "read_write"@,
    }
}

/// Declaration of the input at binding slot `slot`.
pub open spec fn input_text(info: InputInfo, slot: nat) -> Seq<char> {
    match info {
        InputInfo::Array { elem, visibility } => "@binding("@ + decimal(slot) + ") var<storage, "@
            + visibility_text(visibility) + "> input_"@ + decimal(slot) + ": array<"@ + elem_text(
            elem,
        ) + ">;\n"@,
        InputInfo::Scalar { elem, size } => "@binding("@ + decimal(slot) + ") var<storage, read> scalars_"@
            + elem_text(elem) + ": array<"@ + elem_text(elem) + ", "@ + decimal(size as nat)
            + ">;\n"@,
    }
}

/// Declaration of output number `index`, bound at slot `slot`.
pub open spec fn output_text(info: OutputInfo, index: nat, slot: nat) -> Seq<char> {
    match info {
        OutputInfo::Array { elem } => "@binding("@ + decimal(slot) + ") var<storage, read_write> output_"@
            + decimal(index) + ": array<"@ + elem_text(elem) + ">;\n"@,
    }
}

pub open spec fn inputs_text(inputs: Seq<InputInfo>) -> Seq<char>
    decreases inputs.len(),
{
    if inputs.len() == 0 {
        seq![]
    } else {
        inputs_text(inputs.drop_last()) + input_text(inputs.last(), (inputs.len() - 1) as nat)
    }
}

/// Output declarations; the first output takes the slot after the last input.
pub open spec fn outputs_text(outputs: Seq<OutputInfo>, first_slot: nat) -> Seq<char>
    decreases outputs.len(),
{
    if outputs.len() == 0 {
        seq![]
    } else {
        outputs_text(outputs.drop_last(), first_slot) + output_text(
            outputs.last(),
            (outputs.len() - 1) as nat,
            (first_slot + outputs.len() - 1) as nat,
        )
    }
}

pub open spec fn entry_text(settings: CompilationSettings) -> Seq<char> {
    "@compute @workgroup_size("@ + decimal(settings.workgroup_size_x as nat) + ", "@ + decimal(
        settings.workgroup_size_y as nat,
    ) + ", 1)\nfn main(id: u32) {\n"@
}

/// The complete source text of a kernel.
pub open spec fn source_text(
    inputs: Seq<InputInfo>,
    outputs: Seq<OutputInfo>,
    scope: ScopeModel,
    settings: CompilationSettings,
) -> Seq<char> {
    inputs_text(inputs) + outputs_text(outputs, inputs.len() as nat) + entry_text(settings) + body_text(
        scope.instructions,
    ) + "}\n"@
}

fn push_var(out: &mut String, v: Variable)
    ensures
        final(out)@ == old(out)@ + var_text(v),
{
    reveal(var_text);
    match v {
        Variable::Local { id, .. } => {
            out.append("l");
            push_decimal(out, id as u128);
        },
        Variable::GlobalInputArray { slot, .. } => {
            out.append("input_");
            push_decimal(out, slot as u128);
        },
        Variable::GlobalOutputArray { slot, .. } => {
            out.append("output_");
            push_decimal(out, slot as u128);
        },
        Variable::GlobalScalar { slot, elem } => {
            out.append("scalars_");
            out.append(elem_str(elem));
            out.append("[");
            push_decimal(out, slot as u128);
            out.append("]");
        },
        Variable::Shared { id, .. } => {
            out.append("shared_");
            push_decimal(out, id as u128);
        },
        Variable::Constant { value, elem } => {
            out.append(elem_str(elem));
            out.append("(");
            push_signed(out, value);
            out.append(")");
        },
        Variable::Id => {
            out.append("id");
        },
    }
    assert(final(out)@ =~= old(out)@ + var_text(v));
}

fn push_binary_op(out: &mut String, op: BinaryOp, lhs: Variable, rhs: Variable)
    ensures
        final(out)@ == old(out)@ + binary_text(op, var_text(lhs), var_text(rhs)),
{
    match op {
        BinaryOp::Max | BinaryOp::Min => {
            out.append(
                match op {
                    BinaryOp::Max => "max(",
                    _ => "min(",
                },
            );
            push_var(out, lhs);
            out.append(", ");
            push_var(out, rhs);
            out.append(")");
        },
        _ => {
            push_var(out, lhs);
            out.append(
                match op {
                    BinaryOp::Add => " + ",
                    BinaryOp::Sub => " - ",
                    BinaryOp::Mul => " * ",
                    BinaryOp::Div => " / ",
                    _ => " % ",
                },
            );
            push_var(out, rhs);
        },
    }
    assert(final(out)@ =~= old(out)@ + binary_text(op, var_text(lhs), var_text(rhs)));
}

fn push_declare(out: &mut String, i: Instruction)
    requires
        i is Declare,
    ensures
        final(out)@ == old(out)@ + instruction_text(i),
{
    match i {
        Instruction::Declare { var } => {
            match var {
                Variable::Shared { size, elem, .. } => {
                    out.append("var<workgroup> ");
                    push_var(out, var);
                    out.append(": array<");
                    out.append(elem_str(elem));
                    out.append(", ");
                    push_decimal(out, size as u128);
                    out.append(">;\n");
                },
                _ => {
                    out.append("var ");
                    push_var(out, var);
                    out.append(": ");
                    out.append(elem_str(var.elem()));
                    out.append(";\n");
                },
            }
            assert(out@ =~= old(out)@ + instruction_text(i));
        },
        _ => {},
    }
}

fn push_assign(out: &mut String, i: Instruction)
    requires
        i is Assign,
    ensures
        final(out)@ == old(out)@ + instruction_text(i),
{
    match i {
        Instruction::Assign { input, out: o } => {
            push_var(out, o);
            out.append(" = ");
            push_var(out, input);
            out.append(";\n");
            assert(out@ =~= old(out)@ + instruction_text(i));
        },
        _ => {},
    }
}

fn push_binary(out: &mut String, i: Instruction)
    requires
        i is Binary,
    ensures
        final(out)@ == old(out)@ + instruction_text(i),
{
    match i {
        Instruction::Binary { op, lhs, rhs, out: o } => {
            push_var(out, o);
            out.append(" = ");
            push_binary_op(out, op, lhs, rhs);
            out.append(";\n");
            assert(out@ =~= old(out)@ + instruction_text(i));
        },
        _ => {},
    }
}

fn push_compare(out: &mut String, i: Instruction)
    requires
        i is Compare,
    ensures
        final(out)@ == old(out)@ + instruction_text(i),
{
    match i {
        Instruction::Compare { comparison, lhs, rhs, out: o } => {
            push_var(out, o);
            out.append(" = ");
            push_var(out, lhs);
            out.append(
                match comparison {
                    CompareOp::Equal => " == ",
                    CompareOp::Lower => " < ",
                },
            );
            push_var(out, rhs);
            out.append(";\n");
            assert(out@ =~= old(out)@ + instruction_text(i));
        },
        _ => {},
    }
}

fn push_cast(out: &mut String, i: Instruction)
    requires
        i is Cast,
    ensures
        final(out)@ == old(out)@ + instruction_text(i),
{
    match i {
        Instruction::Cast { input, out: o } => {
            push_var(out, o);
            out.append(" = ");
            out.append(elem_str(o.elem()));
            out.append("(");
            push_var(out, input);
            out.append(");\n");
            assert(out@ =~= old(out)@ + instruction_text(i));
        },
        _ => {},
    }
}

fn push_load(out: &mut String, i: Instruction)
    requires
        i is Load,
    ensures
        final(out)@ == old(out)@ + instruction_text(i),
{
    match i {
        Instruction::Load { array, index, out: o } => {
            push_var(out, o);
            out.append(" = ");
            push_var(out, array);
            out.append("[");
            push_var(out, index);
            out.append("];\n");
            assert(out@ =~= old(out)@ + instruction_text(i));
        },
        _ => {},
    }
}

fn push_store(out: &mut String, i: Instruction)
    requires
        i is Store,
    ensures
        final(out)@ == old(out)@ + instruction_text(i),
{
    match i {
        Instruction::Store { array, index, value } => {
            push_var(out, array);
            out.append("[");
            push_var(out, index);
            out.append("] = ");
            push_var(out, value);
            out.append(";\n");
            assert(out@ =~= old(out)@ + instruction_text(i));
        },
        _ => {},
    }
}

fn push_stride(out: &mut String, i: Instruction)
    requires
        i is Stride,
    ensures
        final(out)@ == old(out)@ + instruction_text(i),
{
    match i {
        Instruction::Stride { array, dim, out: o } => {
            push_var(out, o);
            out.append(" = stride(");
            push_var(out, array);
            out.append(", ");
            push_decimal(out, dim as u128);
            out.append(");\n");
            assert(out@ =~= old(out)@ + instruction_text(i));
        },
        _ => {},
    }
}

fn push_shape(out: &mut String, i: Instruction)
    requires
        i is Shape,
    ensures
        final(out)@ == old(out)@ + instruction_text(i),
{
    match i {
        Instruction::Shape { array, dim, out: o } => {
            push_var(out, o);
            out.append(" = shape(");
            push_var(out, array);
            out.append(", ");
            push_decimal(out, dim as u128);
            out.append(");\n");
            assert(out@ =~= old(out)@ + instruction_text(i));
        },
        _ => {},
    }
}

fn push_length(out: &mut String, i: Instruction)
    requires
        i is Length,
    ensures
        final(out)@ == old(out)@ + instruction_text(i),
{
    match i {
        Instruction::Length { array, out: o } => {
            push_var(out, o);
            out.append(" = arrayLength(&");
            push_var(out, array);
            out.append(");\n");
            assert(out@ =~= old(out)@ + instruction_text(i));
        },
        _ => {},
    }
}

fn push_range_loop(out: &mut String, i: Instruction)
    requires
        i is RangeLoop,
    ensures
        final(out)@ == old(out)@ + instruction_text(i),
{
    match i {
        Instruction::RangeLoop { var, start, end } => {
            out.append("for (var ");
            push_var(out, var);
            out.append(": u32 = ");
            push_var(out, start);
            out.append("; ");
            push_var(out, var);
            out.append(" < ");
            push_var(out, end);
            out.append("; ");
            push_var(out, var);
            out.append("++) {\n");
            assert(out@ =~= old(out)@ + instruction_text(i));
        },
        _ => {},
    }
}

fn push_if(out: &mut String, i: Instruction)
    requires
        i is If,
    ensures
        final(out)@ == old(out)@ + instruction_text(i),
{
    match i {
        Instruction::If { cond } => {
            out.append("if ");
            push_var(out, cond);
            out.append(" {\n");
            assert(out@ =~= old(out)@ + instruction_text(i));
        },
        _ => {},
    }
}

fn push_end_block(out: &mut String, i: Instruction)
    requires
        i is EndBlock,
    ensures
        final(out)@ == old(out)@ + instruction_text(i),
{
    match i {
        Instruction::EndBlock => {
            out.append("}\n");
            assert(out@ =~= old(out)@ + instruction_text(i));
        },
        _ => {},
    }
}

/// Appends the line of one instruction.
pub fn push_instruction(out: &mut String, i: Instruction)
    ensures
        final(out)@ == old(out)@ + instruction_text(i),
{
    match i {
        Instruction::Declare { .. } => push_declare(out, i),
        Instruction::Assign { .. } => push_assign(out, i),
        Instruction::Binary { .. } => push_binary(out, i),
        Instruction::Compare { .. } => push_compare(out, i),
        Instruction::Cast { .. } => push_cast(out, i),
        Instruction::Load { .. } => push_load(out, i),
        Instruction::Store { .. } => push_store(out, i),
        Instruction::Stride { .. } => push_stride(out, i),
        Instruction::Shape { .. } => push_shape(out, i),
        Instruction::Length { .. } => push_length(out, i),
        Instruction::RangeLoop { .. } => push_range_loop(out, i),
        Instruction::If { .. } => push_if(out, i),
        Instruction::EndBlock => push_end_block(out, i),
    }
}

fn push_input(out: &mut String, info: InputInfo, slot: usize)
    ensures
        final(out)@ == old(out)@ + input_text(info, slot as nat),
{
    out.append("@binding(");
    push_decimal(out, slot as u128);
    match info {
        InputInfo::Array { elem, visibility } => {
            out.append(") var<storage, ");
            out.append(
                match visibility {
                    Visibility::Read => "read",
                    Visibility::ReadWrite => "read_write",
                },
            );
            out.append("> input_");
            push_decimal(out, slot as u128);
            out.append(": array<");
            out.append(elem_str(elem));
            out.append(">;\n");
        },
        InputInfo::Scalar { elem, size } => {
            out.append(") var<storage, read> scalars_");
            out.append(elem_str(elem));
            out.append(": array<");
            out.append(elem_str(elem));
            out.append(", ");
            push_decimal(out, size as u128);
            out.append(">;\n");
        },
    }
    assert(out@ =~= old(out)@ + input_text(info, slot as nat));
}

fn push_output(out: &mut String, info: OutputInfo, index: usize, slot: u128)
    ensures
        final(out)@ == old(out)@ + output_text(info, index as nat, slot as nat),
{
    match info {
        OutputInfo::Array { elem } => {
            out.append("@binding(");
            push_decimal(out, slot);
            out.append(") var<storage, read_write> output_");
            push_decimal(out, index as u128);
            out.append(": array<");
            out.append(elem_str(elem));
            out.append(">;\n");
        },
    }
    assert(out@ =~= old(out)@ + output_text(info, index as nat, slot as nat));
}

/// Lowers a kernel's binding layout and body into source text.
pub fn compile(info: &CompilationInfo, settings: CompilationSettings) -> (r: String)
    ensures
        r@ == source_text(info.inputs@, info.outputs@, info.scope@, settings),
{
    let mut out = String::new();
    let inputs = &info.inputs;
    let outputs = &info.outputs;
    let instructions = info.scope.instructions();
    let mut k: usize = 0;
    assert(out@ =~= inputs_text(inputs@.subrange(0, 0)));
    while k < inputs.len()
        invariant
            k <= inputs@.len(),
            out@ == inputs_text(inputs@.subrange(0, k as int)),
        decreases inputs.len() - k,
    {
        push_input(&mut out, inputs[k], k);
        proof {
            let next = inputs@.subrange(0, k + 1);
            assert(next.drop_last() =~= inputs@.subrange(0, k as int));
        }
        k = k + 1;
    }
    assert(inputs@.subrange(0, inputs@.len() as int) =~= inputs@);
    let ghost prefix = out@;
    let first_slot = inputs.len() as u128;
    let mut j: usize = 0;
    assert(out@ =~= prefix + outputs_text(outputs@.subrange(0, 0), first_slot as nat));
    while j < outputs.len()
        invariant
            j <= outputs@.len(),
            first_slot == inputs@.len(),
            first_slot <= usize::MAX,
            out@ == prefix + outputs_text(outputs@.subrange(0, j as int), first_slot as nat),
        decreases outputs.len() - j,
    {
        push_output(&mut out, outputs[j], j, first_slot + j as u128);
        proof {
            let next = outputs@.subrange(0, j + 1);
            assert(next.drop_last() =~= outputs@.subrange(0, j as int));
            assert(out@ =~= prefix + outputs_text(next, first_slot as nat));
        }
        j = j + 1;
    }
    assert(outputs@.subrange(0, outputs@.len() as int) =~= outputs@);
    out.append("@compute @workgroup_size(");
    push_decimal(&mut out, settings.workgroup_size_x as u128);
    out.append(", ");
    push_decimal(&mut out, settings.workgroup_size_y as u128);
    out.append(", 1)\nfn main(id: u32) {\n");
    let ghost head = inputs_text(inputs@) + outputs_text(outputs@, inputs@.len() as nat)
        + entry_text(settings);
    assert(out@ =~= head);
    let mut n: usize = 0;
    assert(out@ =~= head + body_text(instructions@.subrange(0, 0)));
    while n < instructions.len()
        invariant
            n <= instructions@.len(),
            out@ == head + body_text(instructions@.subrange(0, n as int)),
        decreases instructions.len() - n,
    {
        push_instruction(&mut out, instructions[n]);
        proof {
            let next = instructions@.subrange(0, n + 1);
            assert(next.drop_last() =~= instructions@.subrange(0, n as int));
            assert(out@ =~= head + body_text(next));
        }
        n = n + 1;
    }
    assert(instructions@.subrange(0, instructions@.len() as int) =~= instructions@);
    out.append("}\n");
    assert(out@ =~= source_text(inputs@, outputs@, info.scope@, settings));
    out
}

} // verus!
