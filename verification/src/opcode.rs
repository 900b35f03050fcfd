use vstd::prelude::*;

verus! {

/// One instruction of the stack machine. Operands are embedded: pool indices,
/// slot numbers, absolute jump targets or argument counts.
#[derive(Debug, PartialEq, Eq, Clone, Copy, Structural)]
pub enum OpCode {
    Constant(usize),
    Pop,
    Dup,
    Negate,
    Add,
    Sub,
    Mul,
    Div,
    Mod,
    True_,
    False_,
    Eql,
    Not,
    Greater,
    Less,
    DefineLocal(usize),
    GetLocal(usize),
    SetLocal(usize),
    Closure(usize, usize),
    GetUpvalue(usize),
    SetUpvalue(usize),
    CloseUpvalues(usize),
    Jump(usize),
    JumpIfTrue(usize),
    JumpIfFalse(usize),
    PushExceptionHandler(usize),
    PopExceptionHandler,
    Throw,
    Call(usize),
    Return_,
    Class,
    Inherit,
    DefineMethod(usize),
    GetProperty,
    SetProperty,
    GetSuper,
    GetIndex,
    SetIndex,
    Array(usize),
    Dict(usize),
    DefineGlobal(usize),
    SetGlobal(usize),
    GetGlobal(usize),
    Halt,
}

} // verus!
