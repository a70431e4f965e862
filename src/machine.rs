//! The meaning of one step of the executor, stated over a mathematical model
//! of its state.
use vstd::prelude::*;
use crate::ops::{
    BinOp, Op, OpType, Operand, UWord, UnOp, is_conditional, is_float, offset_operand,
    type_size, wrap_add,
};
use crate::values::{
    add_spec, convert_spec, div_spec, less_spec, mul_spec, not_spec, rem_spec, shl_spec,
    shr_spec, sub_spec, wrap,
};
use crate::memory::{MemoryError, le_bytes, le_value, splice};
use crate::files::{FilesError, FilesModel, after_read, after_write, next_byte, selected_handle};

verus! {

/// A function: the bytes its frame needs and its operations.
pub struct Function {
    pub frame_size: UWord,
    pub program: Vec<Op>,
}

impl Function {
    pub fn new(frame_size: UWord, program: Vec<Op>) -> (f: Function)
        ensures
            f.frame_size == frame_size,
            f.program@ == program@,
    {
        Function { frame_size, program }
    }
}

/// One record of the call stack.
#[derive(Clone, Copy, Debug, PartialEq, Eq, Structural)]
pub struct FunctionCall {
    /// Index of the called function.
    pub function: usize,
    /// Address where the call's frame begins.
    pub base_ptr: UWord,
    /// Address in the caller's frame where the return value goes.
    pub ret_val_ptr: UWord,
    /// Where the caller resumes.
    pub ret_program_counter: UWord,
}

#[derive(Clone, Copy, Debug, PartialEq, Eq, Structural)]
pub enum ExecutionError {
    EndOfProgram,
    MemoryError(MemoryError),
    FilesError(FilesError),
    IncorrectOperation(Op),
    UnknownFunction(UWord),
    OperationOverflow,
    DivisionByZero,
    NullPointerDereference,
    /// The operation needs host floating-point arithmetic, which the embedding
    /// program performs; nothing was changed.
    FloatingPoint(Op),
}

#[derive(Clone, Copy, Debug, PartialEq, Eq, Structural)]
pub enum ExecutionSuccess {
    Continue,
    End(UWord),
    Sleep(UWord),
}

pub type Executed = Result<ExecutionSuccess, ExecutionError>;

/// The executor's state as a mathematical value.
pub struct Machine {
    /// All bytes of the address space.
    pub mem: Seq<u8>,
    pub stack_len: nat,
    pub stack_limit: nat,
    pub pc: UWord,
    pub calls: Seq<FunctionCall>,
    pub prepared: bool,
    pub param_ptr: UWord,
    pub files: FilesModel,
    pub current_file: Option<UWord>,
}

/// The state after a step and what the step returned.
pub type Outcome = (Machine, Executed);

/// The call whose frame operands refer to: the caller while a call is
/// being prepared, the top call otherwise.
pub open spec fn current_call(m: Machine) -> Option<FunctionCall> {
    if m.prepared {
        if m.calls.len() >= 2 {
            Some(m.calls[m.calls.len() - 2])
        } else {
            None
        }
    } else if m.calls.len() >= 1 {
        Some(m.calls.last())
    } else {
        None
    }
}

pub open spec fn current_op(fs: Seq<Function>, m: Machine) -> Result<Op, ExecutionError> {
    match current_call(m) {
        None => Err(ExecutionError::EndOfProgram),
        Some(c) => if c.function < fs.len() && m.pc < fs[c.function as int].program@.len() {
            Ok(fs[c.function as int].program@[m.pc as int])
        } else {
            Err(ExecutionError::EndOfProgram)
        },
    }
}

/// The error for an operand that the operation cannot use.
pub open spec fn incorrect(fs: Seq<Function>, m: Machine) -> ExecutionError {
    match current_op(fs, m) {
        Ok(op) => ExecutionError::IncorrectOperation(op),
        Err(e) => e,
    }
}

pub open spec fn in_bounds(m: Machine, a: int, n: int) -> bool {
    0 <= a && 0 <= n && (a + n <= m.stack_len || (m.stack_limit <= a && a + n <= m.mem.len()))
}

pub open spec fn out_of_bounds(a: UWord) -> ExecutionError {
    ExecutionError::MemoryError(MemoryError::OutOfBounds(a))
}

/// The value of type `t` stored at address `a`.
pub open spec fn load(m: Machine, a: UWord, t: OpType) -> Result<u64, ExecutionError> {
    if in_bounds(m, a as int, type_size(t) as int) {
        Ok(le_value(m.mem.subrange(a as int, a + type_size(t))) as u64)
    } else {
        Err(out_of_bounds(a))
    }
}

/// The state with `v` stored as a value of type `t` at address `a`.
pub open spec fn store(m: Machine, a: UWord, t: OpType, v: u64) -> Machine {
    Machine { mem: splice(m.mem, a as int, le_bytes(v as nat, type_size(t))), ..m }
}

/// The value of type `t` that operand `o` reads.
pub open spec fn read_operand(fs: Seq<Function>, m: Machine, o: Operand, t: OpType) -> Result<
    u64,
    ExecutionError,
> {
    match o {
        Operand::Loc(u) => match current_call(m) {
            None => Err(ExecutionError::EndOfProgram),
            Some(c) => load(m, wrap_add(c.base_ptr, u), t),
        },
        Operand::Ind(u) => if u == 0 {
            Err(ExecutionError::NullPointerDereference)
        } else {
            match current_call(m) {
                None => Err(ExecutionError::EndOfProgram),
                Some(c) => match load(m, wrap_add(c.base_ptr, u), OpType::Uw) {
                    Err(e) => Err(e),
                    Ok(p) => load(m, p, t),
                },
            }
        },
        Operand::Ret(u) => match current_call(m) {
            None => Err(ExecutionError::EndOfProgram),
            Some(c) => load(m, wrap_add(c.ret_val_ptr, u), t),
        },
        Operand::Val(u) => Ok(wrap(t, u as int)),
        Operand::Ref(u) => match current_call(m) {
            None => Err(ExecutionError::EndOfProgram),
            Some(c) => Ok(wrap(t, wrap_add(c.base_ptr, u) as int)),
        },
        Operand::Glb(u) => load(m, u, t),
        Operand::Emp => Err(incorrect(fs, m)),
    }
}

/// The address that a write of type `t` to operand `o` stores at.
pub open spec fn address(fs: Seq<Function>, m: Machine, o: Operand, t: OpType) -> Result<
    UWord,
    ExecutionError,
> {
    let target: Result<UWord, ExecutionError> = match o {
        Operand::Loc(u) => match current_call(m) {
            None => Err(ExecutionError::EndOfProgram),
            Some(c) => Ok(wrap_add(c.base_ptr, u)),
        },
        Operand::Ind(u) => if u == 0 {
            Err(ExecutionError::NullPointerDereference)
        } else {
            match current_call(m) {
                None => Err(ExecutionError::EndOfProgram),
                Some(c) => load(m, wrap_add(c.base_ptr, u), OpType::Uw),
            }
        },
        Operand::Ret(u) => match current_call(m) {
            None => Err(ExecutionError::EndOfProgram),
            Some(c) => Ok(wrap_add(c.ret_val_ptr, u)),
        },
        Operand::Glb(u) => Ok(u),
        _ => Err(incorrect(fs, m)),
    };
    match target {
        Err(e) => Err(e),
        Ok(a) => if in_bounds(m, a as int, type_size(t) as int) {
            Ok(a)
        } else {
            Err(out_of_bounds(a))
        },
    }
}

/// The state after writing `v` as type `t` to operand `o`.
pub open spec fn write_operand(fs: Seq<Function>, m: Machine, o: Operand, t: OpType, v: u64) -> Result<
    Machine,
    ExecutionError,
> {
    match address(fs, m, o, t) {
        Err(e) => Err(e),
        Ok(a) => Ok(store(m, a, t, v)),
    }
}

/// Operand `a` displaced by the word that `off` reads.
pub open spec fn offset_target(fs: Seq<Function>, m: Machine, a: Operand, off: Operand) -> Result<
    Operand,
    ExecutionError,
> {
    match read_operand(fs, m, off, OpType::Uw) {
        Err(e) => Err(e),
        Ok(d) => Ok(offset_operand(a, d)),
    }
}

pub open spec fn un_target(fs: Seq<Function>, m: Machine, un: UnOp) -> Result<
    Operand,
    ExecutionError,
> {
    match un {
        UnOp::Plain { x } => Ok(x),
        UnOp::First { x, offset } => offset_target(fs, m, x, offset),
    }
}

pub open spec fn bin_targets(fs: Seq<Function>, m: Machine, bin: BinOp) -> Result<
    (Operand, Operand),
    ExecutionError,
> {
    match bin {
        BinOp::Plain { x, y } => Ok((x, y)),
        BinOp::First { x, y, offset } => match offset_target(fs, m, x, offset) {
            Err(e) => Err(e),
            Ok(x2) => Ok((x2, y)),
        },
        BinOp::Second { x, y, offset } => match offset_target(fs, m, y, offset) {
            Err(e) => Err(e),
            Ok(y2) => Ok((x, y2)),
        },
        BinOp::Both { x, y, offset } => match offset_target(fs, m, x, offset) {
            Err(e) => Err(e),
            Ok(x2) => match offset_target(fs, m, y, offset) {
                Err(e) => Err(e),
                Ok(y2) => Ok((x2, y2)),
            },
        },
    }
}

pub open spec fn advance(m: Machine) -> Machine {
    Machine { pc: wrap_add(m.pc, 1), ..m }
}

/// The first operation at or after `j` that is not conditional.
pub open spec fn first_unconditional(prog: Seq<Op>, j: int) -> Option<int>
    decreases prog.len() - j,
{
    if j < 0 || j >= prog.len() {
        None
    } else if !is_conditional(prog[j]) {
        Some(j)
    } else {
        first_unconditional(prog, j + 1)
    }
}

/// Where a failed condition at `pc` resumes: past the run of conditions that
/// follows it and past the one operation they guard.
pub open spec fn skip_target(prog: Seq<Op>, pc: int) -> Option<int> {
    match first_unconditional(prog, pc + 1) {
        None => None,
        Some(j) => Some(j + 1),
    }
}

pub open spec fn skip(fs: Seq<Function>, m: Machine) -> Result<Machine, ExecutionError> {
    match current_call(m) {
        None => Err(ExecutionError::EndOfProgram),
        Some(c) => match skip_target(fs[c.function as int].program@, m.pc as int) {
            None => Err(ExecutionError::EndOfProgram),
            Some(j) => Ok(Machine { pc: j as UWord, ..m }),
        },
    }
}

/// Continues after a condition that evaluated to `c`.
pub open spec fn branch(fs: Seq<Function>, m: Machine, c: bool) -> Outcome {
    if c {
        (advance(m), Ok(ExecutionSuccess::Continue))
    } else {
        match skip(fs, m) {
            Err(e) => (m, Err(e)),
            Ok(m2) => (m2, Ok(ExecutionSuccess::Continue)),
        }
    }
}

/// Continues after a write.
pub open spec fn after_store(m: Machine, w: Result<Machine, ExecutionError>) -> Outcome {
    match w {
        Err(e) => (m, Err(e)),
        Ok(m2) => (advance(m2), Ok(ExecutionSuccess::Continue)),
    }
}

/// The value a binary update leaves in its first operand.
pub open spec fn binary_result(op: Op, t: OpType, a: u64, b: u64) -> Result<u64, ExecutionError> {
    match op {
        Op::Add(..) => Ok(add_spec(t, a, b)),
        Op::Sub(..) => Ok(sub_spec(t, a, b)),
        Op::Mul(..) => Ok(mul_spec(t, a, b)),
        Op::Div(..) => if b == 0 {
            Err(ExecutionError::DivisionByZero)
        } else {
            Ok(div_spec(t, a, b))
        },
        Op::Mod(..) => if b == 0 {
            Err(ExecutionError::DivisionByZero)
        } else {
            Ok(rem_spec(t, a, b))
        },
        Op::And(..) => Ok(a & b),
        Op::Or(..) => Ok(a | b),
        Op::Xor(..) => Ok(a ^ b),
        _ => Ok(b),
    }
}

pub open spec fn step_binary(fs: Seq<Function>, m: Machine, op: Op, bin: BinOp, t: OpType) -> Outcome {
    match bin_targets(fs, m, bin) {
        Err(e) => (m, Err(e)),
        Ok((x, y)) => match read_operand(fs, m, x, t) {
            Err(e) => (m, Err(e)),
            Ok(a) => match read_operand(fs, m, y, t) {
                Err(e) => (m, Err(e)),
                Ok(b) => match binary_result(op, t, a, b) {
                    Err(e) => (m, Err(e)),
                    Ok(v) => after_store(m, write_operand(fs, m, x, t, v)),
                },
            },
        },
    }
}

pub open spec fn unary_result(op: Op, t: OpType, a: u64) -> u64 {
    match op {
        Op::Not(..) => not_spec(t, a),
        Op::Neg(..) => wrap(t, -a),
        Op::Inc(..) => wrap(t, a + 1),
        _ => wrap(t, a - 1),
    }
}

pub open spec fn step_unary(fs: Seq<Function>, m: Machine, op: Op, un: UnOp, t: OpType) -> Outcome {
    match un_target(fs, m, un) {
        Err(e) => (m, Err(e)),
        Ok(x) => match read_operand(fs, m, x, t) {
            Err(e) => (m, Err(e)),
            Ok(a) => after_store(m, write_operand(fs, m, x, t, unary_result(op, t, a))),
        },
    }
}

pub open spec fn step_shift(fs: Seq<Function>, m: Machine, left: bool, x: Operand, y: Operand, t: OpType) -> Outcome {
    match read_operand(fs, m, x, t) {
        Err(e) => (m, Err(e)),
        Ok(a) => match read_operand(fs, m, y, OpType::U8) {
            Err(e) => (m, Err(e)),
            Ok(s) => after_store(
                m,
                write_operand(fs, m, x, t, if left { shl_spec(t, a, s as u8) } else { shr_spec(t, a, s as u8) }),
            ),
        },
    }
}

pub open spec fn step_cnv(fs: Seq<Function>, m: Machine, x: Operand, y: Operand, t: OpType, u: OpType) -> Outcome {
    match read_operand(fs, m, y, t) {
        Err(e) => (m, Err(e)),
        Ok(a) => after_store(m, write_operand(fs, m, x, u, convert_spec(t, u, a))),
    }
}

/// The outcome of a unary test.
pub open spec fn unary_condition(op: Op, a: u64) -> bool {
    match op {
        Op::Ift(..) => a != 0,
        _ => a == 0,
    }
}

/// The outcome of a binary test.
pub open spec fn binary_condition(op: Op, t: OpType, a: u64, b: u64) -> bool {
    match op {
        Op::Ife(..) => a == b,
        Op::Ifl(..) => less_spec(t, a, b),
        Op::Ifg(..) => less_spec(t, b, a),
        Op::Ine(..) => a != b,
        Op::Inl(..) => !less_spec(t, a, b),
        Op::Ing(..) => !less_spec(t, b, a),
        Op::Ifa(..) => a & b != 0,
        Op::Ifo(..) => a | b != 0,
        Op::Ifx(..) => a ^ b != 0,
        Op::Ina(..) => a & b == 0,
        Op::Ino(..) => a | b == 0,
        _ => a ^ b == 0,
    }
}

pub open spec fn step_test_unary(fs: Seq<Function>, m: Machine, op: Op, un: UnOp, t: OpType) -> Outcome {
    match un_target(fs, m, un) {
        Err(e) => (m, Err(e)),
        Ok(x) => match read_operand(fs, m, x, t) {
            Err(e) => (m, Err(e)),
            Ok(a) => branch(fs, m, unary_condition(op, a)),
        },
    }
}

pub open spec fn step_test_binary(fs: Seq<Function>, m: Machine, op: Op, bin: BinOp, t: OpType) -> Outcome {
    match bin_targets(fs, m, bin) {
        Err(e) => (m, Err(e)),
        Ok((x, y)) => match read_operand(fs, m, x, t) {
            Err(e) => (m, Err(e)),
            Ok(a) => match read_operand(fs, m, y, t) {
                Err(e) => (m, Err(e)),
                Ok(b) => branch(fs, m, binary_condition(op, t, a, b)),
            },
        },
    }
}

/// The state after `App` pushed a call of function `id`.
pub open spec fn push_call(fs: Seq<Function>, m: Machine, id: UWord) -> Machine {
    let size = fs[id as int].frame_size;
    Machine {
        mem: splice(m.mem, m.stack_len as int, Seq::new(size as nat, |i: int| 0u8)),
        stack_len: (m.stack_len + size) as nat,
        calls: m.calls.push(
            FunctionCall {
                function: id as usize,
                base_ptr: m.stack_len as UWord,
                ret_val_ptr: 0,
                ret_program_counter: 0,
            },
        ),
        prepared: true,
        param_ptr: 0,
        ..m
    }
}

pub open spec fn step_app(fs: Seq<Function>, m: Machine, x: Operand) -> Outcome {
    match read_operand(fs, m, x, OpType::Uw) {
        Err(e) => (m, Err(e)),
        Ok(id) => if id >= fs.len() {
            (m, Err(ExecutionError::UnknownFunction(id)))
        } else if m.stack_len + fs[id as int].frame_size > m.stack_limit {
            (m, Err(ExecutionError::MemoryError(MemoryError::StackOverflow)))
        } else {
            (advance(push_call(fs, m, id)), Ok(ExecutionSuccess::Continue))
        },
    }
}

pub open spec fn step_par(fs: Seq<Function>, m: Machine, un: UnOp, t: OpType) -> Outcome {
    match current_call(m) {
        None => (m, Err(ExecutionError::EndOfProgram)),
        Some(c) => {
            let loc = wrap_add(m.param_ptr, fs[c.function as int].frame_size);
            match un_target(fs, m, un) {
                Err(e) => (m, Err(e)),
                Ok(x) => match read_operand(fs, m, x, t) {
                    Err(e) => (m, Err(e)),
                    Ok(v) => match write_operand(fs, m, Operand::Loc(loc), t, v) {
                        Err(e) => (m, Err(e)),
                        Ok(m2) => (
                            advance(Machine { param_ptr: wrap_add(m.param_ptr, type_size(t) as UWord), ..m2 }),
                            Ok(ExecutionSuccess::Continue),
                        ),
                    },
                },
            }
        },
    }
}

/// The state after `Clf` handed control to the top call.
pub open spec fn enter_call(m: Machine, ret_ptr: UWord) -> Machine {
    let top = m.calls.last();
    Machine {
        calls: m.calls.update(
            m.calls.len() - 1,
            FunctionCall { ret_val_ptr: ret_ptr, ret_program_counter: wrap_add(m.pc, 1), ..top },
        ),
        prepared: false,
        pc: 0,
        param_ptr: 0,
        ..m
    }
}

pub open spec fn step_clf(fs: Seq<Function>, m: Machine, x: Operand) -> Outcome {
    match read_operand(fs, m, x, OpType::Uw) {
        Err(e) => (m, Err(e)),
        Ok(r) => if m.calls.len() == 0 {
            (m, Err(ExecutionError::EndOfProgram))
        } else {
            (enter_call(m, r), Ok(ExecutionSuccess::Continue))
        },
    }
}

/// The state after the top call returned.
pub open spec fn leave_call(fs: Seq<Function>, m: Machine) -> Machine {
    let top = m.calls.last();
    Machine {
        calls: m.calls.drop_last(),
        pc: top.ret_program_counter,
        stack_len: (m.stack_len - fs[top.function as int].frame_size) as nat,
        prepared: false,
        ..m
    }
}

pub open spec fn step_ret(fs: Seq<Function>, m: Machine, un: UnOp, t: OpType) -> Outcome {
    if m.calls.len() == 0 {
        (m, Err(ExecutionError::EndOfProgram))
    } else if fs[m.calls.last().function as int].frame_size > m.stack_len {
        (m, Err(ExecutionError::MemoryError(MemoryError::StackUnderflow)))
    } else if un.x() == Operand::Emp {
        (leave_call(fs, m), Ok(ExecutionSuccess::Continue))
    } else {
        match un_target(fs, m, un) {
            Err(e) => (m, Err(e)),
            Ok(x) => match read_operand(fs, m, x, t) {
                Err(e) => (m, Err(e)),
                Ok(v) => match write_operand(fs, m, Operand::Ret(0), t, v) {
                    Err(e) => (m, Err(e)),
                    Ok(m2) => (leave_call(fs, m2), Ok(ExecutionSuccess::Continue)),
                },
            },
        }
    }
}

/// Stores the result `v` of reading a byte into the operands of `In`.
pub open spec fn store_input(fs: Seq<Function>, m1: Machine, v: Option<u8>, bin: BinOp) -> Outcome {
    let byte: u64 = match v {
        Some(b) => b as u64,
        None => 0,
    };
    let flag: u64 = if v.is_some() { 1 } else { 0 };
    match bin_targets(fs, m1, bin) {
        Err(e) => (m1, Err(e)),
        Ok((x, y)) => if y == Operand::Emp {
            match address(fs, m1, x, OpType::U8) {
                Err(e) => (m1, Err(e)),
                Ok(ax) => (advance(store(m1, ax, OpType::U8, byte)), Ok(ExecutionSuccess::Continue)),
            }
        } else {
            match address(fs, m1, y, OpType::U8) {
                Err(e) => (m1, Err(e)),
                Ok(ay) => match address(fs, m1, x, OpType::U8) {
                    Err(e) => (m1, Err(e)),
                    Ok(ax) => (
                        advance(store(store(m1, ay, OpType::U8, flag), ax, OpType::U8, byte)),
                        Ok(ExecutionSuccess::Continue),
                    ),
                },
            }
        },
    }
}

pub open spec fn step_in(fs: Seq<Function>, m: Machine, bin: BinOp) -> Outcome {
    match selected_handle(m.files, m.current_file) {
        Err(e) => (m, Err(ExecutionError::FilesError(e))),
        Ok(h) => store_input(fs, Machine { files: after_read(m.files, h), ..m }, next_byte(m.files, h), bin),
    }
}

pub open spec fn step_out(fs: Seq<Function>, m: Machine, un: UnOp) -> Outcome {
    match un_target(fs, m, un) {
        Err(e) => (m, Err(e)),
        Ok(x) => match read_operand(fs, m, x, OpType::U8) {
            Err(e) => (m, Err(e)),
            Ok(v) => match selected_handle(m.files, m.current_file) {
                Err(e) => (m, Err(ExecutionError::FilesError(e))),
                Ok(h) => (
                    advance(Machine { files: after_write(m.files, h, v as u8), ..m }),
                    Ok(ExecutionSuccess::Continue),
                ),
            },
        },
    }
}

pub open spec fn step_fls(m: Machine) -> Outcome {
    match selected_handle(m.files, m.current_file) {
        Err(e) => (m, Err(ExecutionError::FilesError(e))),
        Ok(_) => (advance(m), Ok(ExecutionSuccess::Continue)),
    }
}

pub open spec fn step_sfd(fs: Seq<Function>, m: Machine, x: Operand) -> Outcome {
    match read_operand(fs, m, x, OpType::Uw) {
        Err(e) => (m, Err(e)),
        Ok(h) => if h < m.files.len() && m.files[h as int].is_some() {
            (advance(Machine { current_file: Some(h), ..m }), Ok(ExecutionSuccess::Continue))
        } else {
            (m, Err(ExecutionError::FilesError(FilesError::UnknownHandle(h))))
        },
    }
}

pub open spec fn step_gfd(fs: Seq<Function>, m: Machine, x: Operand) -> Outcome {
    match m.current_file {
        None => (m, Err(ExecutionError::FilesError(FilesError::NoCurrentFile))),
        Some(h) => after_store(m, write_operand(fs, m, x, OpType::Uw, h)),
    }
}

/// Reads three word operands.
pub open spec fn read3(fs: Seq<Function>, m: Machine, x: Operand, y: Operand, z: Operand) -> Result<
    (u64, u64, u64),
    ExecutionError,
> {
    match read_operand(fs, m, x, OpType::Uw) {
        Err(e) => Err(e),
        Ok(a) => match read_operand(fs, m, y, OpType::Uw) {
            Err(e) => Err(e),
            Ok(b) => match read_operand(fs, m, z, OpType::Uw) {
                Err(e) => Err(e),
                Ok(c) => Ok((a, b, c)),
            },
        },
    }
}

pub open spec fn step_zer(fs: Seq<Function>, m: Machine, x: Operand, y: Operand) -> Outcome {
    match read_operand(fs, m, x, OpType::Uw) {
        Err(e) => (m, Err(e)),
        Ok(dest) => match read_operand(fs, m, y, OpType::Uw) {
            Err(e) => (m, Err(e)),
            Ok(n) => if in_bounds(m, dest as int, n as int) {
                (
                    advance(Machine { mem: splice(m.mem, dest as int, Seq::new(n as nat, |i: int| 0u8)), ..m }),
                    Ok(ExecutionSuccess::Continue),
                )
            } else {
                (m, Err(out_of_bounds(dest)))
            },
        },
    }
}

pub open spec fn step_cmp(fs: Seq<Function>, m: Machine, x: Operand, y: Operand, z: Operand) -> Outcome {
    match read3(fs, m, x, y, z) {
        Err(e) => (m, Err(e)),
        Ok((a, b, n)) => if !in_bounds(m, a as int, n as int) {
            (m, Err(out_of_bounds(a)))
        } else if !in_bounds(m, b as int, n as int) {
            (m, Err(out_of_bounds(b)))
        } else {
            branch(fs, m, m.mem.subrange(a as int, a + n) == m.mem.subrange(b as int, b + n))
        },
    }
}

pub open spec fn step_cpy(fs: Seq<Function>, m: Machine, x: Operand, y: Operand, z: Operand) -> Outcome {
    match read3(fs, m, x, y, z) {
        Err(e) => (m, Err(e)),
        Ok((dest, src, n)) => if !in_bounds(m, dest as int, n as int) {
            (m, Err(out_of_bounds(dest)))
        } else if !in_bounds(m, src as int, n as int) {
            (m, Err(out_of_bounds(src)))
        } else {
            (
                advance(Machine { mem: splice(m.mem, dest as int, m.mem.subrange(src as int, src + n)), ..m }),
                Ok(ExecutionSuccess::Continue),
            )
        },
    }
}

/// An operation whose meaning at its type needs floating-point arithmetic.
pub open spec fn needs_float(op: Op) -> bool {
    match op {
        Op::Add(_, t) | Op::Sub(_, t) | Op::Mul(_, t) | Op::Div(_, t) | Op::Mod(_, t)
        | Op::Neg(_, t) | Op::Inc(_, t) | Op::Dec(_, t) | Op::Ift(_, t) | Op::Iff(_, t)
        | Op::Ife(_, t) | Op::Ifl(_, t) | Op::Ifg(_, t) | Op::Ine(_, t) | Op::Inl(_, t)
        | Op::Ing(_, t) => is_float(t),
        Op::Cnv(_, _, t, u) => t != u && (is_float(t) || is_float(u)),
        _ => false,
    }
}

/// An operation that has no meaning at a floating-point type.
pub open spec fn integer_only(op: Op) -> bool {
    match op {
        Op::Shl(_, _, t) | Op::Shr(_, _, t) | Op::And(_, t) | Op::Or(_, t) | Op::Xor(_, t)
        | Op::Not(_, t) | Op::Ifa(_, t) | Op::Ifo(_, t) | Op::Ifx(_, t) | Op::Ina(_, t)
        | Op::Ino(_, t) | Op::Inx(_, t) => is_float(t),
        _ => false,
    }
}

/// Executes operation `op`, the current one.
pub open spec fn step_op(fs: Seq<Function>, m: Machine, op: Op) -> Outcome {
    if needs_float(op) {
        (m, Err(ExecutionError::FloatingPoint(op)))
    } else if integer_only(op) {
        (m, Err(ExecutionError::IncorrectOperation(op)))
    } else {
        match op {
            Op::Nop => (advance(m), Ok(ExecutionSuccess::Continue)),
            Op::End(x) => match read_operand(fs, m, x, OpType::Uw) {
                Err(e) => (m, Err(e)),
                Ok(v) => (m, Ok(ExecutionSuccess::End(v))),
            },
            Op::Slp(x) => match read_operand(fs, m, x, OpType::Uw) {
                Err(e) => (m, Err(e)),
                Ok(v) => (m, Ok(ExecutionSuccess::Sleep(v))),
            },
            Op::Mov(bin, t) | Op::Add(bin, t) | Op::Sub(bin, t) | Op::Mul(bin, t) | Op::Div(bin, t)
            | Op::Mod(bin, t) | Op::And(bin, t) | Op::Or(bin, t) | Op::Xor(bin, t) => step_binary(
                fs,
                m,
                op,
                bin,
                t,
            ),
            Op::Cnv(x, y, t, u) => step_cnv(fs, m, x, y, t, u),
            Op::Shl(x, y, t) => step_shift(fs, m, true, x, y, t),
            Op::Shr(x, y, t) => step_shift(fs, m, false, x, y, t),
            Op::Not(un, t) | Op::Neg(un, t) | Op::Inc(un, t) | Op::Dec(un, t) => step_unary(
                fs,
                m,
                op,
                un,
                t,
            ),
            Op::Go(x) => match read_operand(fs, m, x, OpType::Uw) {
                Err(e) => (m, Err(e)),
                Ok(v) => (Machine { pc: v, ..m }, Ok(ExecutionSuccess::Continue)),
            },
            Op::Ift(un, t) | Op::Iff(un, t) => step_test_unary(fs, m, op, un, t),
            Op::Ife(bin, t) | Op::Ifl(bin, t) | Op::Ifg(bin, t) | Op::Ine(bin, t) | Op::Inl(bin, t)
            | Op::Ing(bin, t) | Op::Ifa(bin, t) | Op::Ifo(bin, t) | Op::Ifx(bin, t) | Op::Ina(bin, t)
            | Op::Ino(bin, t) | Op::Inx(bin, t) => step_test_binary(fs, m, op, bin, t),
            Op::App(x) => step_app(fs, m, x),
            Op::Par(un, t) => step_par(fs, m, un, t),
            Op::Clf(x) => step_clf(fs, m, x),
            Op::Ret(un, t) => step_ret(fs, m, un, t),
            Op::In(bin) => step_in(fs, m, bin),
            Op::Out(un) => step_out(fs, m, un),
            Op::Fls => step_fls(m),
            Op::Sfd(x) => step_sfd(fs, m, x),
            Op::Gfd(x) => step_gfd(fs, m, x),
            Op::Zer(x, y) => step_zer(fs, m, x, y),
            Op::Cmp(x, y, z) => step_cmp(fs, m, x, y, z),
            Op::Cpy(x, y, z) => step_cpy(fs, m, x, y, z),
        }
    }
}

/// One step of the executor from state `m`.
pub open spec fn step(fs: Seq<Function>, m: Machine) -> Outcome {
    match current_op(fs, m) {
        Err(e) => (m, Err(e)),
        Ok(op) => step_op(fs, m, op),
    }
}

/// The layout of the call stack: every record names a function, and each
/// frame ends where the next one begins, the last one at the stack's top.
pub open spec fn frames_wf(fs: Seq<Function>, m: Machine) -> bool {
    &&& m.stack_len <= m.stack_limit <= m.mem.len() <= usize::MAX
    &&& forall|i: int| 0 <= i < m.calls.len() ==> #[trigger] m.calls[i].function < fs.len()
    &&& forall|i: int|
        0 <= i < m.calls.len() ==> #[trigger] m.calls[i].base_ptr + fs[m.calls[i].function as int].frame_size
            == if i + 1 < m.calls.len() {
            m.calls[i + 1].base_ptr as int
        } else {
            m.stack_len as int
        }
}

/// The invariant of every reachable state.
pub open spec fn machine_wf(fs: Seq<Function>, m: Machine) -> bool {
    &&& frames_wf(fs, m)
    &&& m.prepared ==> m.calls.len() >= 2
}

pub proof fn lemma_store_frames(fs: Seq<Function>, m: Machine, a: UWord, t: OpType, v: u64)
    requires
        frames_wf(fs, m),
        in_bounds(m, a as int, type_size(t) as int),
    ensures
        frames_wf(fs, store(m, a, t, v)),
        store(m, a, t, v).mem.len() == m.mem.len(),
{
}

pub proof fn lemma_push_frames(fs: Seq<Function>, m: Machine, id: UWord)
    requires
        frames_wf(fs, m),
        id < fs.len() <= usize::MAX,
        m.stack_len + fs[id as int].frame_size <= m.stack_limit,
    ensures
        frames_wf(fs, push_call(fs, m, id)),
{
    let m2 = push_call(fs, m, id);
    assert(m2.calls.last().base_ptr == m.stack_len);
    assert(m2.calls.last().function == id);
    assert forall|i: int| 0 <= i < m2.calls.len() implies #[trigger] m2.calls[i].base_ptr
        + fs[m2.calls[i].function as int].frame_size == if i + 1 < m2.calls.len() {
        m2.calls[i + 1].base_ptr as int
    } else {
        m2.stack_len as int
    } by {
        if i < m.calls.len() {
            assert(m.calls[i] == m2.calls[i]);
        }
        if i + 1 < m.calls.len() {
            assert(m.calls[i + 1] == m2.calls[i + 1]);
        }
    }
    assert forall|i: int| 0 <= i < m2.calls.len() implies #[trigger] m2.calls[i].function < fs.len() by {
        if i < m.calls.len() {
            assert(m.calls[i] == m2.calls[i]);
        }
    }
}

pub proof fn lemma_enter_frames(fs: Seq<Function>, m: Machine, r: UWord)
    requires
        frames_wf(fs, m),
        m.calls.len() >= 1,
    ensures
        frames_wf(fs, enter_call(m, r)),
        !enter_call(m, r).prepared,
{
    let m2 = enter_call(m, r);
    assert forall|i: int| 0 <= i < m2.calls.len() implies #[trigger] m2.calls[i].base_ptr
        + fs[m2.calls[i].function as int].frame_size == if i + 1 < m2.calls.len() {
        m2.calls[i + 1].base_ptr as int
    } else {
        m2.stack_len as int
    } by {
        assert(m.calls[i].base_ptr == m2.calls[i].base_ptr);
        assert(m.calls[i].function == m2.calls[i].function);
        if i + 1 < m2.calls.len() {
            assert(m.calls[i + 1].base_ptr == m2.calls[i + 1].base_ptr);
        }
    }
    assert forall|i: int| 0 <= i < m2.calls.len() implies #[trigger] m2.calls[i].function < fs.len() by {
        assert(m.calls[i].function == m2.calls[i].function);
    }
}

pub proof fn lemma_leave_frames(fs: Seq<Function>, m: Machine)
    requires
        frames_wf(fs, m),
        m.calls.len() >= 1,
    ensures
        frames_wf(fs, leave_call(fs, m)),
        !leave_call(fs, m).prepared,
        leave_call(fs, m).stack_len == m.calls.last().base_ptr,
{
    let m2 = leave_call(fs, m);
    let n = m.calls.len() - 1;
    assert(m.calls[n].base_ptr + fs[m.calls[n].function as int].frame_size == m.stack_len);
    assert forall|i: int| 0 <= i < m2.calls.len() implies #[trigger] m2.calls[i].base_ptr
        + fs[m2.calls[i].function as int].frame_size == if i + 1 < m2.calls.len() {
        m2.calls[i + 1].base_ptr as int
    } else {
        m2.stack_len as int
    } by {
        assert(m.calls[i] == m2.calls[i]);
        assert(m.calls[i].base_ptr + fs[m.calls[i].function as int].frame_size == m.calls[i
            + 1].base_ptr);
    }
    assert forall|i: int| 0 <= i < m2.calls.len() implies #[trigger] m2.calls[i].function < fs.len() by {
        assert(m.calls[i] == m2.calls[i]);
    }
}

/// A failed condition at `pc` resumes right after the first operation past
/// `pc` that is not a condition: every operation in between is a condition,
/// and exactly one unconditional operation is passed over.
pub proof fn lemma_skip_passes_one_guarded(prog: Seq<Op>, pc: int)
    requires
        0 <= pc,
        skip_target(prog, pc) is Some,
    ensures
        ({
            let j = skip_target(prog, pc).unwrap();
            &&& pc + 2 <= j <= prog.len()
            &&& !is_conditional(prog[j - 1])
            &&& forall|k: int| pc < k < j - 1 ==> is_conditional(#[trigger] prog[k])
        }),
{
    lemma_first_unconditional(prog, pc + 1);
}

proof fn lemma_first_unconditional(prog: Seq<Op>, j: int)
    requires
        0 <= j,
        first_unconditional(prog, j) is Some,
    ensures
        ({
            let u = first_unconditional(prog, j).unwrap();
            &&& j <= u < prog.len()
            &&& !is_conditional(prog[u])
            &&& forall|k: int| j <= k < u ==> is_conditional(#[trigger] prog[k])
        }),
    decreases prog.len() - j,
{
    if j < prog.len() && is_conditional(prog[j]) {
        lemma_first_unconditional(prog, j + 1);
    }
}

proof fn lemma_write_keeps_calls(fs: Seq<Function>, m: Machine, o: Operand, t: OpType, v: u64)
    requires
        write_operand(fs, m, o, t, v) is Ok,
    ensures
        write_operand(fs, m, o, t, v).unwrap().calls == m.calls,
        write_operand(fs, m, o, t, v).unwrap().stack_len == m.stack_len,
{
}

proof fn lemma_ret_pops(fs: Seq<Function>, m: Machine, un: UnOp, t: OpType)
    requires
        step_ret(fs, m, un, t).1 is Ok,
    ensures
        m.calls.len() >= 1,
        step_ret(fs, m, un, t).0.stack_len == m.stack_len - fs[m.calls.last().function as int].frame_size,
        step_ret(fs, m, un, t).0.calls == m.calls.drop_last(),
{
    if un.x() != Operand::Emp {
        let x2 = un_target(fs, m, un).unwrap();
        let v = read_operand(fs, m, x2, t).unwrap();
        lemma_write_keeps_calls(fs, m, Operand::Ret(0), t, v);
    }
}

/// A call returns the stack to the length it had before the call was made:
/// `App` records that length as the new frame's base, and a successful `Ret`
/// of that frame, whatever ran in between, shrinks the stack back to it.
pub proof fn lemma_return_restores_stack(
    fs: Seq<Function>,
    m: Machine,
    x: Operand,
    later: Machine,
    un: UnOp,
    t: OpType,
)
    requires
        machine_wf(fs, m),
        step_app(fs, m, x).1 is Ok,
        machine_wf(fs, later),
        later.calls.len() == step_app(fs, m, x).0.calls.len(),
        later.calls.last() == step_app(fs, m, x).0.calls.last(),
        step_ret(fs, later, un, t).1 is Ok,
    ensures
        step_ret(fs, later, un, t).0.stack_len == m.stack_len,
        step_ret(fs, later, un, t).0.calls.len() == m.calls.len(),
{
    let m1 = step_app(fs, m, x).0;
    assert(m1.calls.last().base_ptr == m.stack_len);
    assert(m1.calls.len() == m.calls.len() + 1);
    lemma_ret_pops(fs, later, un, t);
    let n = later.calls.len() - 1;
    assert(later.calls[n].base_ptr + fs[later.calls[n].function as int].frame_size == later.stack_len);
}

/// A step that fails changes nothing but, for `In`, the input stream it read:
/// no memory is written, the program counter stays on the failed operation,
/// and the call stack is as it was. This covers `DivisionByZero` and
/// `NullPointerDereference` in particular.
#[verifier::rlimit(100)]
pub proof fn lemma_failed_step_writes_nothing(fs: Seq<Function>, m: Machine)
    requires
        step(fs, m).1 is Err,
    ensures
        step(fs, m).0 == (Machine { files: step(fs, m).0.files, current_file: step(fs, m).0.current_file, ..m }),
{
}

} // verus!
