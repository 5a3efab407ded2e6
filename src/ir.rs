//! Kernel intermediate representation: typed variables, instructions, and the
//! scope that records a kernel body as an ordered instruction list.
use vstd::prelude::*;

verus! {

/// Scalar element kind carried by a variable.
#[derive(Clone, Copy, Debug, PartialEq, Eq, Structural)]
pub enum Elem {
    F32,
    I32,
    U32,
    Bool,
}

/// A typed reference to a value that a kernel reads or writes.
#[derive(Clone, Copy, Debug, PartialEq, Eq, Structural)]
pub enum Variable {
    Local { id: u32, elem: Elem },
    GlobalInputArray { slot: u32, elem: Elem },
    GlobalOutputArray { slot: u32, elem: Elem },
    GlobalScalar { slot: u32, elem: Elem },
    Shared { id: u32, size: u32, elem: Elem },
    Constant { value: i64, elem: Elem },
    /// The linear index of the current invocation.
    Id,
}

impl Variable {
    pub open spec fn elem_spec(self) -> Elem {
        match self {
            Variable::Local { elem, .. } => elem,
            Variable::GlobalInputArray { elem, .. } => elem,
            Variable::GlobalOutputArray { elem, .. } => elem,
            Variable::GlobalScalar { elem, .. } => elem,
            Variable::Shared { elem, .. } => elem,
            Variable::Constant { elem, .. } => elem,
            Variable::Id => Elem::U32,
        }
    }

    /// The element kind of this variable.
    pub fn elem(&self) -> (r: Elem)
        ensures
            r == self.elem_spec(),
    {
        match self {
            Variable::Local { elem, .. } => *elem,
            Variable::GlobalInputArray { elem, .. } => *elem,
            Variable::GlobalOutputArray { elem, .. } => *elem,
            Variable::GlobalScalar { elem, .. } => *elem,
            Variable::Shared { elem, .. } => *elem,
            Variable::Constant { elem, .. } => *elem,
            Variable::Id => Elem::U32,
        }
    }

    pub open spec fn is_local(self) -> bool {
        self is Local
    }

    /// A global array bound by the dispatcher, whose layout can be queried.
    pub open spec fn is_global_array(self) -> bool {
        self is GlobalInputArray || self is GlobalOutputArray
    }

    pub open spec fn is_readable_array(self) -> bool {
        self.is_global_array() || self is Shared
    }

    pub open spec fn is_writable_array(self) -> bool {
        self is GlobalOutputArray || self is Shared
    }
}

#[derive(Clone, Copy, Debug, PartialEq, Eq, Structural)]
pub enum BinaryOp {
    Add,
    Sub,
    Mul,
    Div,
    Modulo,
    Max,
    Min,
}

#[derive(Clone, Copy, Debug, PartialEq, Eq, Structural)]
pub enum CompareOp {
    Equal,
    Lower,
}

/// One step of a kernel body. Loops and conditionals open a block that a
/// later `EndBlock` closes, so nesting is lexical.
#[derive(Clone, Copy, Debug, PartialEq, Eq, Structural)]
pub enum Instruction {
    Declare { var: Variable },
    Assign { input: Variable, out: Variable },
    Binary { op: BinaryOp, lhs: Variable, rhs: Variable, out: Variable },
    Compare { comparison: CompareOp, lhs: Variable, rhs: Variable, out: Variable },
    Cast { input: Variable, out: Variable },
    Load { array: Variable, index: Variable, out: Variable },
    Store { array: Variable, index: Variable, value: Variable },
    Stride { array: Variable, dim: u32, out: Variable },
    Shape { array: Variable, dim: u32, out: Variable },
    Length { array: Variable, out: Variable },
    RangeLoop { var: Variable, start: Variable, end: Variable },
    If { cond: Variable },
    EndBlock,
}

/// Operand kinds agree with what the operation requires; conversions are
/// always an explicit `Cast`.
pub open spec fn well_typed(i: Instruction) -> bool {
    match i {
        Instruction::Declare { var } => var.is_local() || var is Shared,
        Instruction::Assign { input, out } => out.is_local() && input.elem_spec()
            == out.elem_spec(),
        Instruction::Binary { lhs, rhs, out, .. } => out.is_local() && lhs.elem_spec()
            == out.elem_spec() && rhs.elem_spec() == out.elem_spec() && out.elem_spec()
            != Elem::Bool,
        Instruction::Compare { lhs, rhs, out, .. } => out.is_local() && out.elem_spec()
            == Elem::Bool && lhs.elem_spec() == rhs.elem_spec(),
        Instruction::Cast { out, .. } => out.is_local(),
        Instruction::Load { array, index, out } => array.is_readable_array() && out.is_local()
            && index.elem_spec() == Elem::U32 && out.elem_spec() == array.elem_spec(),
        Instruction::Store { array, index, value } => array.is_writable_array()
            && index.elem_spec() == Elem::U32 && value.elem_spec() == array.elem_spec(),
        Instruction::Stride { array, out, .. } => array.is_global_array() && out.is_local()
            && out.elem_spec() == Elem::U32,
        Instruction::Shape { array, out, .. } => array.is_global_array() && out.is_local()
            && out.elem_spec() == Elem::U32,
        Instruction::Length { array, out } => array.is_global_array() && out.is_local()
            && out.elem_spec() == Elem::U32,
        Instruction::RangeLoop { var, start, end } => var.is_local() && var.elem_spec()
            == Elem::U32 && start.elem_spec() == Elem::U32 && end.elem_spec() == Elem::U32,
        Instruction::If { cond } => cond.elem_spec() == Elem::Bool,
        Instruction::EndBlock => true,
    }
}

/// Opening (+1), closing (-1) or neither (0) a block.
pub open spec fn depth_change(i: Instruction) -> int {
    match i {
        Instruction::RangeLoop { .. } => 1,
        Instruction::If { .. } => 1,
        Instruction::EndBlock => -1,
        _ => 0,
    }
}

/// What a scope holds: its instructions, the next variable id to hand out,
/// and how many blocks are open.
pub struct ScopeModel {
    pub instructions: Seq<Instruction>,
    pub next_id: nat,
    pub depth: nat,
}

impl ScopeModel {
    /// A root scope: nothing recorded, nothing handed out, no block open.
    pub open spec fn root_spec() -> ScopeModel {
        ScopeModel { instructions: seq![], next_id: 0, depth: 0 }
    }

    /// The scope after appending `i`.
    pub open spec fn emit(self, i: Instruction) -> ScopeModel {
        ScopeModel {
            instructions: self.instructions.push(i),
            next_id: self.next_id,
            depth: (self.depth + depth_change(i)) as nat,
        }
    }

    /// The variable that the next allocation hands out.
    pub open spec fn next_local(self, elem: Elem) -> Variable {
        Variable::Local { id: self.next_id as u32, elem }
    }

    /// The scope after declaring the next local of kind `elem`.
    pub open spec fn declare_local(self, elem: Elem) -> ScopeModel {
        ScopeModel {
            instructions: self.instructions.push(
                Instruction::Declare { var: self.next_local(elem) },
            ),
            next_id: self.next_id + 1,
            depth: self.depth,
        }
    }

    /// The scope after declaring the next local of kind `elem` and setting it to zero.
    pub open spec fn declare_zero(self, elem: Elem) -> ScopeModel {
        self.declare_local(elem).emit(
            Instruction::Assign {
                input: Variable::Constant { value: 0, elem },
                out: self.next_local(elem),
            },
        )
    }

    pub open spec fn next_shared(self, elem: Elem, size: u32) -> Variable {
        Variable::Shared { id: self.next_id as u32, size, elem }
    }

    pub open spec fn declare_shared(self, elem: Elem, size: u32) -> ScopeModel {
        ScopeModel {
            instructions: self.instructions.push(
                Instruction::Declare { var: self.next_shared(elem, size) },
            ),
            next_id: self.next_id + 1,
            depth: self.depth,
        }
    }

    /// The scope after opening a loop over `[start, end)` whose counter is a new local.
    pub open spec fn open_loop(self, start: Variable, end: Variable) -> ScopeModel {
        ScopeModel {
            instructions: self.instructions.push(
                Instruction::RangeLoop { var: self.next_local(Elem::U32), start, end },
            ),
            next_id: self.next_id + 1,
            depth: self.depth + 1,
        }
    }

    /// Every instruction is well typed.
    pub open spec fn well_formed(self) -> bool {
        forall|k: int| 0 <= k < self.instructions.len() ==> well_typed(#[trigger] self.instructions[k])
    }
}

/// A kernel body under construction.
pub struct Scope {
    instructions: Vec<Instruction>,
    next_id: u32,
    depth: u32,
}

impl View for Scope {
    type V = ScopeModel;

    closed spec fn view(&self) -> ScopeModel {
        ScopeModel {
            instructions: self.instructions@,
            next_id: self.next_id as nat,
            depth: self.depth as nat,
        }
    }
}

impl Scope {
    /// An empty root scope.
    pub fn root() -> (r: Scope)
        ensures
            r@ == ScopeModel::root_spec(),
    {
        let r = Scope { instructions: Vec::new(), next_id: 0, depth: 0 };
        assert(r@.instructions =~= ScopeModel::root_spec().instructions);
        r
    }

    /// The recorded instructions, in order.
    pub fn instructions(&self) -> (r: &Vec<Instruction>)
        ensures
            r@ == self@.instructions,
    {
        &self.instructions
    }

    /// How many blocks are open.
    pub fn depth(&self) -> (r: u32)
        ensures
            r == self@.depth,
    {
        self.depth
    }

    /// Appends a well-typed instruction. Closing a block needs an open one.
    pub fn emit(&mut self, i: Instruction)
        requires
            well_typed(i),
            !(i is RangeLoop) && !(i is Declare),
            i is If ==> old(self)@.depth < u32::MAX,
            i is EndBlock ==> old(self)@.depth > 0,
        ensures
            final(self)@ == old(self)@.emit(i),
    {
        match i {
            Instruction::If { .. } => {
                self.depth = self.depth + 1;
            },
            Instruction::EndBlock => {
                self.depth = self.depth - 1;
            },
            _ => {},
        }
        self.instructions.push(i);
    }

    /// Declares a new local of kind `elem`.
    pub fn create_local(&mut self, elem: Elem) -> (r: Variable)
        requires
            old(self)@.next_id < u32::MAX,
        ensures
            r == old(self)@.next_local(elem),
            final(self)@ == old(self)@.declare_local(elem),
    {
        let var = Variable::Local { id: self.next_id, elem };
        self.instructions.push(Instruction::Declare { var });
        self.next_id = self.next_id + 1;
        var
    }

    /// Declares a new local of kind `elem` holding zero.
    pub fn zero(&mut self, elem: Elem) -> (r: Variable)
        requires
            old(self)@.next_id < u32::MAX,
        ensures
            r == old(self)@.next_local(elem),
            final(self)@ == old(self)@.declare_zero(elem),
    {
        let var = self.create_local(elem);
        self.emit(Instruction::Assign { input: Variable::Constant { value: 0, elem }, out: var });
        var
    }

    /// Declares a shared-memory block of `size` elements of kind `elem`.
    pub fn create_shared(&mut self, elem: Elem, size: u32) -> (r: Variable)
        requires
            old(self)@.next_id < u32::MAX,
        ensures
            r == old(self)@.next_shared(elem, size),
            final(self)@ == old(self)@.declare_shared(elem, size),
    {
        let var = Variable::Shared { id: self.next_id, size, elem };
        self.instructions.push(Instruction::Declare { var });
        self.next_id = self.next_id + 1;
        var
    }

    /// Opens a loop over `[start, end)`; returns its counter.
    pub fn range_loop(&mut self, start: Variable, end: Variable) -> (r: Variable)
        requires
            old(self)@.next_id < u32::MAX,
            old(self)@.depth < u32::MAX,
            start.elem_spec() == Elem::U32,
            end.elem_spec() == Elem::U32,
        ensures
            r == old(self)@.next_local(Elem::U32),
            final(self)@ == old(self)@.open_loop(start, end),
    {
        let var = Variable::Local { id: self.next_id, elem: Elem::U32 };
        self.instructions.push(Instruction::RangeLoop { var, start, end });
        self.next_id = self.next_id + 1;
        self.depth = self.depth + 1;
        var
    }
}

} // verus!
