//! The instruction executor: one operation per call of `execute`.
use vstd::prelude::*;
use crate::ops::{BinOp, Op, OpType, Operand, UWord, UnOp, type_size, word_add};
use crate::values::{
    add_bits, and_bits, convert_bits, dec_bits, div_bits, fits, inc_bits, less_bits, mul_bits,
    neg_bits, not_bits, or_bits, rem_bits, shl_bits, shr_bits, sub_bits, wrap_nat, xor_bits,
};
use crate::memory::{Memory, MemoryError};
use crate::files::{Files, FilesError, Stream, stream_model};
use crate::machine::{
    ExecutionError, ExecutionSuccess, Executed, Function, FunctionCall, Machine, address,
    advance, bin_targets, binary_condition, binary_result, branch, current_call, current_op,
    enter_call, frames_wf, in_bounds, incorrect, integer_only, lemma_enter_frames,
    lemma_leave_frames, lemma_push_frames, lemma_store_frames, load, machine_wf, needs_float,
    offset_target, push_call, read_operand, skip, step, store, un_target, unary_result,
    write_operand, first_unconditional,
};

verus! {

/// Bytes of stack that `Executor::new` provides.
pub const STACK_LIMIT: usize = 2048;

/// Bytes of global memory that `Executor::new` provides.
pub const HEAP_LIMIT: usize = 2048;

pub struct Executor {
    functions: Vec<Function>,
    memory: Memory,
    program_counter: UWord,
    call_stack: Vec<FunctionCall>,
    prepared_call: bool,
    parameter_ptr: UWord,
    files: Files,
}

impl Executor {
    pub closed spec fn functions(&self) -> Seq<Function> {
        self.functions@
    }

    /// The executor's state as a mathematical value.
    pub closed spec fn machine(&self) -> Machine {
        Machine {
            mem: self.memory.bytes(),
            stack_len: self.memory.stack_len(),
            stack_limit: self.memory.stack_limit(),
            pc: self.program_counter,
            calls: self.call_stack@,
            prepared: self.prepared_call,
            param_ptr: self.parameter_ptr,
            files: self.files.model(),
            current_file: self.files.current_handle(),
        }
    }

    pub closed spec fn wf(&self) -> bool {
        &&& self.memory.wf()
        &&& self.files.wf()
        &&& machine_wf(self.functions@, self.machine())
    }

    /// An executor with the default stack and global memory sizes.
    pub fn new(functions: Vec<Function>) -> (e: Executor)
        ensures
            e.wf(),
            e.functions() == functions@,
            e.machine() == (Machine {
                mem: Seq::new((STACK_LIMIT + HEAP_LIMIT) as nat, |i: int| 0u8),
                stack_len: 0,
                stack_limit: STACK_LIMIT as nat,
                pc: 0,
                calls: Seq::empty(),
                prepared: false,
                param_ptr: 0,
                files: Seq::empty(),
                current_file: None,
            }),
    {
        Self::from_limits(functions, STACK_LIMIT, HEAP_LIMIT)
    }

    /// An executor with `stack_limit` bytes of stack and `heap_limit` bytes of
    /// global memory above it, all zero.
    pub fn from_limits(functions: Vec<Function>, stack_limit: usize, heap_limit: usize) -> (e: Executor)
        requires
            stack_limit + heap_limit <= usize::MAX,
        ensures
            e.wf(),
            e.functions() == functions@,
            e.machine() == (Machine {
                mem: Seq::new((stack_limit + heap_limit) as nat, |i: int| 0u8),
                stack_len: 0,
                stack_limit: stack_limit as nat,
                pc: 0,
                calls: Seq::empty(),
                prepared: false,
                param_ptr: 0,
                files: Seq::empty(),
                current_file: None,
            }),
    {
        let e = Executor {
            functions,
            memory: Memory::from_limits(stack_limit, heap_limit),
            program_counter: 0,
            call_stack: Vec::new(),
            prepared_call: false,
            parameter_ptr: 0,
            files: Files::new(),
        };
        proof {
            e.memory.lemma_wf();
        }
        e
    }

    /// In every state the executor can reach, a call being prepared sits on
    /// top of the caller that prepares it.
    pub proof fn lemma_prepared_call_has_caller(&self)
        requires
            self.wf(),
        ensures
            self.machine().prepared ==> self.machine().calls.len() >= 2,
    {
    }

    proof fn lemma_wf(&self)
        requires
            self.wf(),
        ensures
            frames_wf(self.functions@, self.machine()),
            self.functions@.len() <= usize::MAX,
            self.prepared_call ==> self.call_stack@.len() >= 2,
    {
        self.memory.lemma_wf();
        assert(self.functions@.len() == self.functions.len());
    }

    fn current_call_exec(&self) -> (r: Option<FunctionCall>)
        ensures
            r == current_call(self.machine()),
    {
        let n = self.call_stack.len();
        if self.prepared_call {
            if n >= 2 {
                Some(self.call_stack[n - 2])
            } else {
                None
            }
        } else if n >= 1 {
            Some(self.call_stack[n - 1])
        } else {
            None
        }
    }

    fn current_op_exec(&self) -> (r: Result<Op, ExecutionError>)
        ensures
            r == current_op(self.functions@, self.machine()),
    {
        match self.current_call_exec() {
            None => Err(ExecutionError::EndOfProgram),
            Some(c) => {
                if c.function < self.functions.len() {
                    let prog = &self.functions[c.function].program;
                    if self.program_counter < prog.len() as u64 {
                        Ok(prog[self.program_counter as usize])
                    } else {
                        Err(ExecutionError::EndOfProgram)
                    }
                } else {
                    Err(ExecutionError::EndOfProgram)
                }
            },
        }
    }

    fn incorrect_exec(&self) -> (r: ExecutionError)
        ensures
            r == incorrect(self.functions@, self.machine()),
    {
        match self.current_op_exec() {
            Ok(op) => ExecutionError::IncorrectOperation(op),
            Err(e) => e,
        }
    }

    fn load_exec(&self, a: UWord, t: OpType) -> (r: Result<u64, ExecutionError>)
        requires
            self.wf(),
        ensures
            r == load(self.machine(), a, t),
            r.is_ok() ==> fits(t, r.unwrap()),
    {
        match self.memory.get(a, t) {
            Ok(v) => Ok(v),
            Err(e) => Err(ExecutionError::MemoryError(e)),
        }
    }

    /// Reads operand `o` as a value of type `t`, in the current frame.
    pub fn get_val(&self, o: Operand, t: OpType) -> (r: Result<u64, ExecutionError>)
        requires
            self.wf(),
        ensures
            r == read_operand(self.functions(), self.machine(), o, t),
            r.is_ok() ==> fits(t, r.unwrap()),
    {
        match o {
            Operand::Loc(u) => match self.current_call_exec() {
                None => Err(ExecutionError::EndOfProgram),
                Some(c) => self.load_exec(word_add(c.base_ptr, u), t),
            },
            Operand::Ind(u) => {
                if u == 0 {
                    Err(ExecutionError::NullPointerDereference)
                } else {
                    match self.current_call_exec() {
                        None => Err(ExecutionError::EndOfProgram),
                        Some(c) => match self.load_exec(word_add(c.base_ptr, u), OpType::Uw) {
                            Err(e) => Err(e),
                            Ok(p) => self.load_exec(p, t),
                        },
                    }
                }
            },
            Operand::Ret(u) => match self.current_call_exec() {
                None => Err(ExecutionError::EndOfProgram),
                Some(c) => self.load_exec(word_add(c.ret_val_ptr, u), t),
            },
            Operand::Val(u) => Ok(wrap_nat(t, u as u128)),
            Operand::Ref(u) => match self.current_call_exec() {
                None => Err(ExecutionError::EndOfProgram),
                Some(c) => Ok(wrap_nat(t, word_add(c.base_ptr, u) as u128)),
            },
            Operand::Glb(u) => self.load_exec(u, t),
            Operand::Emp => Err(self.incorrect_exec()),
        }
    }

    fn address_exec(&self, o: Operand, t: OpType) -> (r: Result<UWord, ExecutionError>)
        requires
            self.wf(),
        ensures
            r == address(self.functions@, self.machine(), o, t),
    {
        let target: Result<UWord, ExecutionError> = match o {
            Operand::Loc(u) => match self.current_call_exec() {
                None => Err(ExecutionError::EndOfProgram),
                Some(c) => Ok(word_add(c.base_ptr, u)),
            },
            Operand::Ind(u) => {
                if u == 0 {
                    Err(ExecutionError::NullPointerDereference)
                } else {
                    match self.current_call_exec() {
                        None => Err(ExecutionError::EndOfProgram),
                        Some(c) => self.load_exec(word_add(c.base_ptr, u), OpType::Uw),
                    }
                }
            },
            Operand::Ret(u) => match self.current_call_exec() {
                None => Err(ExecutionError::EndOfProgram),
                Some(c) => Ok(word_add(c.ret_val_ptr, u)),
            },
            Operand::Glb(u) => Ok(u),
            _ => Err(self.incorrect_exec()),
        };
        match target {
            Err(e) => Err(e),
            Ok(a) => {
                if self.memory.check_bounds(a, t.size()) {
                    Ok(a)
                } else {
                    Err(ExecutionError::MemoryError(MemoryError::OutOfBounds(a)))
                }
            },
        }
    }

    fn store_exec(&mut self, a: UWord, t: OpType, v: u64)
        requires
            old(self).wf(),
            in_bounds(old(self).machine(), a as int, type_size(t) as int),
        ensures
            final(self).wf(),
            final(self).functions() == old(self).functions(),
            final(self).machine() == store(old(self).machine(), a, t, v),
            final(self).machine().mem.len() == old(self).machine().mem.len(),
    {
        proof {
            self.lemma_wf();
            lemma_store_frames(self.functions@, self.machine(), a, t, v);
        }
        let _ = self.memory.set(a, t, v);
    }

    /// Writes `v` as a value of type `t` to operand `o`, in the current frame.
    pub fn set_val(&mut self, o: Operand, t: OpType, v: u64) -> (r: Result<(), ExecutionError>)
        requires
            old(self).wf(),
        ensures
            final(self).wf(),
            final(self).functions() == old(self).functions(),
            match write_operand(old(self).functions(), old(self).machine(), o, t, v) {
                Ok(m) => r == Ok::<(), ExecutionError>(()) && final(self).machine() == m,
                Err(e) => r == Err::<(), ExecutionError>(e) && final(self).machine() == old(self).machine(),
            },
    {
        let a = self.address_exec(o, t)?;
        self.store_exec(a, t, v);
        Ok(())
    }

    fn offset_target_exec(&self, a: Operand, off: Operand) -> (r: Result<Operand, ExecutionError>)
        requires
            self.wf(),
        ensures
            r == offset_target(self.functions@, self.machine(), a, off),
    {
        let d = self.get_val(off, OpType::Uw)?;
        Ok(a.offset_by(d))
    }

    /// The operand that `un` designates once its offset is applied.
    pub fn resolve_un(&self, un: UnOp) -> (r: Result<Operand, ExecutionError>)
        requires
            self.wf(),
        ensures
            r == un_target(self.functions(), self.machine(), un),
    {
        match un {
            UnOp::Plain { x } => Ok(x),
            UnOp::First { x, offset } => self.offset_target_exec(x, offset),
        }
    }

    /// The operands that `bin` designates once its offset is applied.
    pub fn resolve_bin(&self, bin: BinOp) -> (r: Result<(Operand, Operand), ExecutionError>)
        requires
            self.wf(),
        ensures
            r == bin_targets(self.functions(), self.machine(), bin),
    {
        match bin {
            BinOp::Plain { x, y } => Ok((x, y)),
            BinOp::First { x, y, offset } => {
                let x2 = self.offset_target_exec(x, offset)?;
                Ok((x2, y))
            },
            BinOp::Second { x, y, offset } => {
                let y2 = self.offset_target_exec(y, offset)?;
                Ok((x, y2))
            },
            BinOp::Both { x, y, offset } => {
                let x2 = self.offset_target_exec(x, offset)?;
                let y2 = self.offset_target_exec(y, offset)?;
                Ok((x2, y2))
            },
        }
    }

    fn advance_exec(&mut self)
        requires
            old(self).wf(),
        ensures
            final(self).wf(),
            final(self).functions() == old(self).functions(),
            final(self).machine() == advance(old(self).machine()),
    {
        self.program_counter = word_add(self.program_counter, 1);
    }

    fn skip_exec(&mut self) -> (r: Result<(), ExecutionError>)
        requires
            old(self).wf(),
        ensures
            final(self).wf(),
            final(self).functions() == old(self).functions(),
            match skip(old(self).functions(), old(self).machine()) {
                Ok(m) => r.is_ok() && final(self).machine() == m,
                Err(e) => r == Err::<(), ExecutionError>(e) && final(self).machine() == old(self).machine(),
            },
    {
        proof {
            self.lemma_wf();
        }
        let c = match self.current_call_exec() {
            None => return Err(ExecutionError::EndOfProgram),
            Some(c) => c,
        };
        proof {
            let calls = self.call_stack@;
            if self.prepared_call {
                assert(calls[calls.len() - 2].function < self.functions@.len());
            } else {
                assert(calls[calls.len() - 1].function < self.functions@.len());
            }
        }
        let prog = &self.functions[c.function].program;
        let n = prog.len();
        if self.program_counter >= n as u64 {
            return Err(ExecutionError::EndOfProgram);
        }
        let mut j: usize = self.program_counter as usize + 1;
        while j < n && prog[j].is_conditional()
            invariant
                j <= n,
                n == prog@.len(),
                self.program_counter + 1 <= j,
                first_unconditional(prog@, j as int) == first_unconditional(
                    prog@,
                    self.program_counter + 1,
                ),
            decreases n - j,
        {
            j = j + 1;
        }
        if j >= n {
            Err(ExecutionError::EndOfProgram)
        } else {
            self.program_counter = (j + 1) as u64;
            Ok(())
        }
    }

    fn branch_exec(&mut self, c: bool) -> (r: Executed)
        requires
            old(self).wf(),
        ensures
            final(self).wf(),
            final(self).functions() == old(self).functions(),
            (final(self).machine(), r) == branch(old(self).functions(), old(self).machine(), c),
    {
        if c {
            self.advance_exec();
        } else {
            self.skip_exec()?;
        }
        Ok(ExecutionSuccess::Continue)
    }

    /// Finishes an operation that the embedding program carried out itself:
    /// moves on to the next operation.
    pub fn complete_step(&mut self)
        requires
            old(self).wf(),
        ensures
            final(self).wf(),
            final(self).functions() == old(self).functions(),
            final(self).machine() == advance(old(self).machine()),
    {
        self.advance_exec();
    }

    /// Finishes a test that the embedding program evaluated itself: moves on
    /// when it held, skips what it guards when it did not.
    pub fn complete_test(&mut self, c: bool) -> (r: Executed)
        requires
            old(self).wf(),
        ensures
            final(self).wf(),
            final(self).functions() == old(self).functions(),
            (final(self).machine(), r) == branch(old(self).functions(), old(self).machine(), c),
    {
        self.branch_exec(c)
    }

    fn exec_binary(&mut self, op: Op, bin: BinOp, t: OpType) -> (r: Executed)
        requires
            old(self).wf(),
        ensures
            final(self).wf(),
            final(self).functions() == old(self).functions(),
            (final(self).machine(), r) == crate::machine::step_binary(
                old(self).functions(),
                old(self).machine(),
                op,
                bin,
                t,
            ),
    {
        let (x, y) = self.resolve_bin(bin)?;
        let a = self.get_val(x, t)?;
        let b = self.get_val(y, t)?;
        let v = binary_value(op, t, a, b)?;
        self.set_val(x, t, v)?;
        self.advance_exec();
        Ok(ExecutionSuccess::Continue)
    }

    fn exec_unary(&mut self, op: Op, un: UnOp, t: OpType) -> (r: Executed)
        requires
            old(self).wf(),
        ensures
            final(self).wf(),
            final(self).functions() == old(self).functions(),
            (final(self).machine(), r) == crate::machine::step_unary(
                old(self).functions(),
                old(self).machine(),
                op,
                un,
                t,
            ),
    {
        let x = self.resolve_un(un)?;
        let a = self.get_val(x, t)?;
        let v = unary_value(op, t, a);
        self.set_val(x, t, v)?;
        self.advance_exec();
        Ok(ExecutionSuccess::Continue)
    }

    fn exec_shift(&mut self, left: bool, x: Operand, y: Operand, t: OpType) -> (r: Executed)
        requires
            old(self).wf(),
        ensures
            final(self).wf(),
            final(self).functions() == old(self).functions(),
            (final(self).machine(), r) == crate::machine::step_shift(
                old(self).functions(),
                old(self).machine(),
                left,
                x,
                y,
                t,
            ),
    {
        let a = self.get_val(x, t)?;
        let s = self.get_val(y, OpType::U8)?;
        let v = if left {
            shl_bits(t, a, s as u8)
        } else {
            shr_bits(t, a, s as u8)
        };
        self.set_val(x, t, v)?;
        self.advance_exec();
        Ok(ExecutionSuccess::Continue)
    }

    fn exec_cnv(&mut self, x: Operand, y: Operand, t: OpType, u: OpType) -> (r: Executed)
        requires
            old(self).wf(),
        ensures
            final(self).wf(),
            final(self).functions() == old(self).functions(),
            (final(self).machine(), r) == crate::machine::step_cnv(
                old(self).functions(),
                old(self).machine(),
                x,
                y,
                t,
                u,
            ),
    {
        let a = self.get_val(y, t)?;
        self.set_val(x, u, convert_bits(t, u, a))?;
        self.advance_exec();
        Ok(ExecutionSuccess::Continue)
    }

    fn exec_test_unary(&mut self, op: Op, un: UnOp, t: OpType) -> (r: Executed)
        requires
            old(self).wf(),
        ensures
            final(self).wf(),
            final(self).functions() == old(self).functions(),
            (final(self).machine(), r) == crate::machine::step_test_unary(
                old(self).functions(),
                old(self).machine(),
                op,
                un,
                t,
            ),
    {
        let x = self.resolve_un(un)?;
        let a = self.get_val(x, t)?;
        let c = match op {
            Op::Ift(..) => a != 0,
            _ => a == 0,
        };
        self.branch_exec(c)
    }

    fn exec_test_binary(&mut self, op: Op, bin: BinOp, t: OpType) -> (r: Executed)
        requires
            old(self).wf(),
        ensures
            final(self).wf(),
            final(self).functions() == old(self).functions(),
            (final(self).machine(), r) == crate::machine::step_test_binary(
                old(self).functions(),
                old(self).machine(),
                op,
                bin,
                t,
            ),
    {
        let (x, y) = self.resolve_bin(bin)?;
        let a = self.get_val(x, t)?;
        let b = self.get_val(y, t)?;
        let c = binary_test(op, t, a, b);
        self.branch_exec(c)
    }

    fn open_frame(&mut self, id: UWord) -> (r: Result<(), ExecutionError>)
        requires
            old(self).wf(),
        ensures
            final(self).memory.wf(),
            final(self).files.wf(),
            frames_wf(final(self).functions(), final(self).machine()),
            final(self).functions() == old(self).functions(),
            id >= old(self).functions().len() ==> r == Err::<(), ExecutionError>(
                ExecutionError::UnknownFunction(id)) && final(self).machine() == old(self).machine(),
            id < old(self).functions().len() && old(self).machine().stack_len
                + old(self).functions()[id as int].frame_size > old(self).machine().stack_limit
                ==> r == Err::<(), ExecutionError>(ExecutionError::MemoryError(MemoryError::StackOverflow))
                && final(self).machine() == old(self).machine(),
            id < old(self).functions().len() && old(self).machine().stack_len
                + old(self).functions()[id as int].frame_size <= old(self).machine().stack_limit
                ==> r == Ok::<(), ExecutionError>(()) && final(self).machine() == push_call(
                old(self).functions(),
                old(self).machine(),
                id,
            ),
    {
        proof {
            self.lemma_wf();
        }
        if id >= self.functions.len() as u64 {
            return Err(ExecutionError::UnknownFunction(id));
        }
        let f = id as usize;
        let size = self.functions[f].frame_size;
        let base = self.memory.stack_len_exec() as u64;
        proof {
            if self.memory.stack_len() + size <= self.memory.stack_limit() {
                lemma_push_frames(self.functions@, self.machine(), id);
            }
        }
        match self.memory.expand(size) {
            Err(e) => {
                return Err(ExecutionError::MemoryError(e));
            },
            Ok(()) => {},
        }
        self.call_stack.push(FunctionCall { function: f, base_ptr: base, ret_val_ptr: 0, ret_program_counter: 0 });
        self.prepared_call = true;
        self.parameter_ptr = 0;
        Ok(())
    }

    fn enter_frame(&mut self, ret_ptr: UWord)
        requires
            old(self).memory.wf(),
            old(self).files.wf(),
            frames_wf(old(self).functions(), old(self).machine()),
            old(self).machine().calls.len() >= 1,
        ensures
            final(self).wf(),
            final(self).functions() == old(self).functions(),
            final(self).machine() == enter_call(old(self).machine(), ret_ptr),
    {
        proof {
            lemma_enter_frames(self.functions@, self.machine(), ret_ptr);
        }
        let n = self.call_stack.len();
        let mut c = self.call_stack[n - 1];
        c.ret_val_ptr = ret_ptr;
        c.ret_program_counter = word_add(self.program_counter, 1);
        self.call_stack.set(n - 1, c);
        self.prepared_call = false;
        self.program_counter = 0;
        self.parameter_ptr = 0;
    }

    fn leave_frame(&mut self)
        requires
            old(self).wf(),
            old(self).machine().calls.len() >= 1,
            old(self).functions()[old(self).machine().calls.last().function as int].frame_size
                <= old(self).machine().stack_len,
        ensures
            final(self).wf(),
            final(self).functions() == old(self).functions(),
            final(self).machine() == crate::machine::leave_call(old(self).functions(), old(self).machine()),
    {
        proof {
            self.lemma_wf();
            lemma_leave_frames(self.functions@, self.machine());
        }
        let top = self.call_stack.pop().unwrap();
        self.program_counter = top.ret_program_counter;
        let _ = self.memory.narrow(self.functions[top.function].frame_size);
        self.prepared_call = false;
    }

    /// Pushes a call of function `function_id` and hands it control at its
    /// first operation, with its return value going to `ret_val_ptr`.
    pub fn call(&mut self, function_id: UWord, ret_val_ptr: UWord) -> (r: Result<(), ExecutionError>)
        requires
            old(self).wf(),
        ensures
            final(self).wf(),
            final(self).functions() == old(self).functions(),
            function_id >= old(self).functions().len() ==> r == Err::<(), ExecutionError>(
                ExecutionError::UnknownFunction(function_id)) && final(self).machine() == old(self).machine(),
            function_id < old(self).functions().len() && old(self).machine().stack_len
                + old(self).functions()[function_id as int].frame_size > old(self).machine().stack_limit
                ==> r == Err::<(), ExecutionError>(ExecutionError::MemoryError(MemoryError::StackOverflow))
                && final(self).machine() == old(self).machine(),
            function_id < old(self).functions().len() && old(self).machine().stack_len
                + old(self).functions()[function_id as int].frame_size <= old(self).machine().stack_limit
                ==> r == Ok::<(), ExecutionError>(()) && final(self).machine() == enter_call(
                push_call(old(self).functions(), old(self).machine(), function_id),
                ret_val_ptr,
            ),
    {
        self.open_frame(function_id)?;
        self.enter_frame(ret_val_ptr);
        Ok(())
    }

    fn exec_app(&mut self, x: Operand) -> (r: Executed)
        requires
            old(self).wf(),
            old(self).machine().calls.len() >= 1,
        ensures
            final(self).wf(),
            final(self).functions() == old(self).functions(),
            (final(self).machine(), r) == crate::machine::step_app(
                old(self).functions(),
                old(self).machine(),
                x,
            ),
    {
        let id = self.get_val(x, OpType::Uw)?;
        self.open_frame(id)?;
        self.advance_exec();
        Ok(ExecutionSuccess::Continue)
    }

    fn exec_par(&mut self, un: UnOp, t: OpType) -> (r: Executed)
        requires
            old(self).wf(),
        ensures
            final(self).wf(),
            final(self).functions() == old(self).functions(),
            (final(self).machine(), r) == crate::machine::step_par(
                old(self).functions(),
                old(self).machine(),
                un,
                t,
            ),
    {
        proof {
            self.lemma_wf();
        }
        let c = match self.current_call_exec() {
            None => return Err(ExecutionError::EndOfProgram),
            Some(c) => c,
        };
        proof {
            let calls = self.call_stack@;
            if self.prepared_call {
                assert(calls[calls.len() - 2].function < self.functions@.len());
            } else {
                assert(calls[calls.len() - 1].function < self.functions@.len());
            }
        }
        let loc = word_add(self.parameter_ptr, self.functions[c.function].frame_size);
        let x = self.resolve_un(un)?;
        let v = self.get_val(x, t)?;
        self.set_val(Operand::Loc(loc), t, v)?;
        self.parameter_ptr = word_add(self.parameter_ptr, t.size());
        self.advance_exec();
        Ok(ExecutionSuccess::Continue)
    }

    fn exec_clf(&mut self, x: Operand) -> (r: Executed)
        requires
            old(self).wf(),
        ensures
            final(self).wf(),
            final(self).functions() == old(self).functions(),
            (final(self).machine(), r) == crate::machine::step_clf(
                old(self).functions(),
                old(self).machine(),
                x,
            ),
    {
        let ret_ptr = self.get_val(x, OpType::Uw)?;
        if self.call_stack.len() == 0 {
            return Err(ExecutionError::EndOfProgram);
        }
        proof {
            self.lemma_wf();
        }
        self.enter_frame(ret_ptr);
        Ok(ExecutionSuccess::Continue)
    }

    fn exec_ret(&mut self, un: UnOp, t: OpType) -> (r: Executed)
        requires
            old(self).wf(),
        ensures
            final(self).wf(),
            final(self).functions() == old(self).functions(),
            (final(self).machine(), r) == crate::machine::step_ret(
                old(self).functions(),
                old(self).machine(),
                un,
                t,
            ),
    {
        proof {
            self.lemma_wf();
        }
        let n = self.call_stack.len();
        if n == 0 {
            return Err(ExecutionError::EndOfProgram);
        }
        let top = self.call_stack[n - 1];
        assert(top.function < self.functions@.len());
        let size = self.functions[top.function].frame_size;
        if size > self.memory.stack_len_exec() as u64 {
            return Err(ExecutionError::MemoryError(MemoryError::StackUnderflow));
        }
        if un.x() != Operand::Emp {
            let x = self.resolve_un(un)?;
            let v = self.get_val(x, t)?;
            self.set_val(Operand::Ret(0), t, v)?;
        }
        self.leave_frame();
        Ok(ExecutionSuccess::Continue)
    }

    fn exec_in(&mut self, bin: BinOp) -> (r: Executed)
        requires
            old(self).wf(),
        ensures
            final(self).wf(),
            final(self).functions() == old(self).functions(),
            (final(self).machine(), r) == crate::machine::step_in(
                old(self).functions(),
                old(self).machine(),
                bin,
            ),
    {
        let ghost m0 = self.machine();
        let v = match self.files.read() {
            Err(e) => return Err(ExecutionError::FilesError(e)),
            Ok(v) => v,
        };
        proof {
            let m1 = self.machine();
            assert(m1 == Machine { files: m1.files, ..m0 });
            assert(frames_wf(self.functions@, m1) == frames_wf(self.functions@, m0));
        }
        self.store_input(v, bin)
    }

    fn store_input(&mut self, v: Option<u8>, bin: BinOp) -> (r: Executed)
        requires
            old(self).wf(),
        ensures
            final(self).wf(),
            final(self).functions() == old(self).functions(),
            (final(self).machine(), r) == crate::machine::store_input(
                old(self).functions(),
                old(self).machine(),
                v,
                bin,
            ),
    {
        let (x, y) = self.resolve_bin(bin)?;
        let byte: u64 = match v {
            Some(b) => b as u64,
            None => 0,
        };
        if y == Operand::Emp {
            let ax = self.address_exec(x, OpType::U8)?;
            self.store_exec(ax, OpType::U8, byte);
        } else {
            let ay = self.address_exec(y, OpType::U8)?;
            let ax = self.address_exec(x, OpType::U8)?;
            let flag: u64 = if v.is_some() {
                1
            } else {
                0
            };
            self.store_exec(ay, OpType::U8, flag);
            self.store_exec(ax, OpType::U8, byte);
        }
        self.advance_exec();
        Ok(ExecutionSuccess::Continue)
    }

    fn exec_out(&mut self, un: UnOp) -> (r: Executed)
        requires
            old(self).wf(),
        ensures
            final(self).wf(),
            final(self).functions() == old(self).functions(),
            (final(self).machine(), r) == crate::machine::step_out(
                old(self).functions(),
                old(self).machine(),
                un,
            ),
    {
        let x = self.resolve_un(un)?;
        let v = self.get_val(x, OpType::U8)?;
        match self.files.write(v as u8) {
            Err(e) => Err(ExecutionError::FilesError(e)),
            Ok(()) => {
                self.advance_exec();
                Ok(ExecutionSuccess::Continue)
            },
        }
    }

    fn exec_sfd(&mut self, x: Operand) -> (r: Executed)
        requires
            old(self).wf(),
        ensures
            final(self).wf(),
            final(self).functions() == old(self).functions(),
            (final(self).machine(), r) == crate::machine::step_sfd(
                old(self).functions(),
                old(self).machine(),
                x,
            ),
    {
        let h = self.get_val(x, OpType::Uw)?;
        match self.files.set_current(h) {
            Err(e) => Err(ExecutionError::FilesError(e)),
            Ok(()) => {
                self.advance_exec();
                Ok(ExecutionSuccess::Continue)
            },
        }
    }

    fn exec_gfd(&mut self, x: Operand) -> (r: Executed)
        requires
            old(self).wf(),
        ensures
            final(self).wf(),
            final(self).functions() == old(self).functions(),
            (final(self).machine(), r) == crate::machine::step_gfd(
                old(self).functions(),
                old(self).machine(),
                x,
            ),
    {
        match self.files.current() {
            Err(e) => Err(ExecutionError::FilesError(e)),
            Ok(h) => {
                self.set_val(x, OpType::Uw, h)?;
                self.advance_exec();
                Ok(ExecutionSuccess::Continue)
            },
        }
    }

    fn exec_zer(&mut self, x: Operand, y: Operand) -> (r: Executed)
        requires
            old(self).wf(),
        ensures
            final(self).wf(),
            final(self).functions() == old(self).functions(),
            (final(self).machine(), r) == crate::machine::step_zer(
                old(self).functions(),
                old(self).machine(),
                x,
                y,
            ),
    {
        let dest = self.get_val(x, OpType::Uw)?;
        let n = self.get_val(y, OpType::Uw)?;
        proof {
            self.lemma_wf();
        }
        match self.memory.set_zeros(dest, n) {
            Err(e) => Err(ExecutionError::MemoryError(e)),
            Ok(()) => {
                self.advance_exec();
                Ok(ExecutionSuccess::Continue)
            },
        }
    }

    fn exec_cmp(&mut self, x: Operand, y: Operand, z: Operand) -> (r: Executed)
        requires
            old(self).wf(),
        ensures
            final(self).wf(),
            final(self).functions() == old(self).functions(),
            (final(self).machine(), r) == crate::machine::step_cmp(
                old(self).functions(),
                old(self).machine(),
                x,
                y,
                z,
            ),
    {
        let a = self.get_val(x, OpType::Uw)?;
        let b = self.get_val(y, OpType::Uw)?;
        let n = self.get_val(z, OpType::Uw)?;
        match self.memory.compare(a, b, n) {
            Err(e) => Err(ExecutionError::MemoryError(e)),
            Ok(equal) => self.branch_exec(equal),
        }
    }

    fn exec_cpy(&mut self, x: Operand, y: Operand, z: Operand) -> (r: Executed)
        requires
            old(self).wf(),
        ensures
            final(self).wf(),
            final(self).functions() == old(self).functions(),
            (final(self).machine(), r) == crate::machine::step_cpy(
                old(self).functions(),
                old(self).machine(),
                x,
                y,
                z,
            ),
    {
        let dest = self.get_val(x, OpType::Uw)?;
        let src = self.get_val(y, OpType::Uw)?;
        let n = self.get_val(z, OpType::Uw)?;
        proof {
            self.lemma_wf();
        }
        match self.memory.copy(dest, src, n) {
            Err(e) => Err(ExecutionError::MemoryError(e)),
            Ok(()) => {
                self.advance_exec();
                Ok(ExecutionSuccess::Continue)
            },
        }
    }

    /// Executes the current operation and moves on.
    #[verifier::rlimit(100)]
    #[verifier::spinoff_prover]
    pub fn execute(&mut self) -> (r: Executed)
        requires
            old(self).wf(),
        ensures
            final(self).wf(),
            final(self).functions() == old(self).functions(),
            (final(self).machine(), r) == step(old(self).functions(), old(self).machine()),
    {
        let op = self.current_op_exec()?;
        if op_needs_float(op) {
            return Err(ExecutionError::FloatingPoint(op));
        }
        if op_integer_only(op) {
            return Err(ExecutionError::IncorrectOperation(op));
        }
        proof {
            assert(self.call_stack@.len() >= 1);
        }
        match op {
            Op::Nop => {
                self.advance_exec();
                Ok(ExecutionSuccess::Continue)
            },
            Op::End(x) => {
                let v = self.get_val(x, OpType::Uw)?;
                Ok(ExecutionSuccess::End(v))
            },
            Op::Slp(x) => {
                let v = self.get_val(x, OpType::Uw)?;
                Ok(ExecutionSuccess::Sleep(v))
            },
            Op::Mov(bin, t) | Op::Add(bin, t) | Op::Sub(bin, t) | Op::Mul(bin, t) | Op::Div(bin, t)
            | Op::Mod(bin, t) | Op::And(bin, t) | Op::Or(bin, t) | Op::Xor(bin, t) => self.exec_binary(
                op,
                bin,
                t,
            ),
            Op::Cnv(x, y, t, u) => self.exec_cnv(x, y, t, u),
            Op::Shl(x, y, t) => self.exec_shift(true, x, y, t),
            Op::Shr(x, y, t) => self.exec_shift(false, x, y, t),
            Op::Not(un, t) | Op::Neg(un, t) | Op::Inc(un, t) | Op::Dec(un, t) => self.exec_unary(
                op,
                un,
                t,
            ),
            Op::Go(x) => {
                let v = self.get_val(x, OpType::Uw)?;
                self.program_counter = v;
                Ok(ExecutionSuccess::Continue)
            },
            Op::Ift(un, t) | Op::Iff(un, t) => self.exec_test_unary(op, un, t),
            Op::Ife(bin, t) | Op::Ifl(bin, t) | Op::Ifg(bin, t) | Op::Ine(bin, t) | Op::Inl(bin, t)
            | Op::Ing(bin, t) | Op::Ifa(bin, t) | Op::Ifo(bin, t) | Op::Ifx(bin, t) | Op::Ina(bin, t)
            | Op::Ino(bin, t) | Op::Inx(bin, t) => self.exec_test_binary(op, bin, t),
            Op::App(x) => self.exec_app(x),
            Op::Par(un, t) => self.exec_par(un, t),
            Op::Clf(x) => self.exec_clf(x),
            Op::Ret(un, t) => self.exec_ret(un, t),
            Op::In(bin) => self.exec_in(bin),
            Op::Out(un) => self.exec_out(un),
            Op::Fls => match self.files.flush() {
                Err(e) => Err(ExecutionError::FilesError(e)),
                Ok(()) => {
                    self.advance_exec();
                    Ok(ExecutionSuccess::Continue)
                },
            },
            Op::Sfd(x) => self.exec_sfd(x),
            Op::Gfd(x) => self.exec_gfd(x),
            Op::Zer(x, y) => self.exec_zer(x, y),
            Op::Cmp(x, y, z) => self.exec_cmp(x, y, z),
            Op::Cpy(x, y, z) => self.exec_cpy(x, y, z),
        }
    }

    /// The operation that `execute` would run next.
    pub fn current_op(&self) -> (r: Result<Op, ExecutionError>)
        ensures
            r == current_op(self.functions(), self.machine()),
    {
        self.current_op_exec()
    }

    pub fn program_counter(&self) -> (r: UWord)
        ensures
            r == self.machine().pc,
    {
        self.program_counter
    }

    /// Moves to operation `pc`, for instance past one that failed.
    pub fn set_program_counter(&mut self, pc: UWord)
        requires
            old(self).wf(),
        ensures
            final(self).wf(),
            final(self).functions() == old(self).functions(),
            final(self).machine() == (Machine { pc, ..old(self).machine() }),
    {
        self.program_counter = pc;
    }

    /// Number of records on the call stack.
    pub fn call_depth(&self) -> (r: usize)
        ensures
            r == self.machine().calls.len(),
    {
        self.call_stack.len()
    }

    /// Bytes of stack in use.
    pub fn stack_len(&self) -> (r: usize)
        ensures
            r == self.machine().stack_len,
    {
        self.memory.stack_len_exec()
    }

    /// Reserves `n` zeroed bytes at the bottom of the stack, before any call.
    pub fn expand_stack(&mut self, n: UWord) -> (r: Result<(), ExecutionError>)
        requires
            old(self).wf(),
            old(self).machine().calls.len() == 0,
        ensures
            final(self).wf(),
            final(self).functions() == old(self).functions(),
            old(self).machine().stack_len + n <= old(self).machine().stack_limit ==> r == Ok::<
                (),
                ExecutionError,
            >(()) && final(self).machine() == (Machine {
                mem: crate::memory::splice(
                    old(self).machine().mem,
                    old(self).machine().stack_len as int,
                    Seq::new(n as nat, |i: int| 0u8),
                ),
                stack_len: (old(self).machine().stack_len + n) as nat,
                ..old(self).machine()
            }),
            old(self).machine().stack_len + n > old(self).machine().stack_limit ==> r == Err::<
                (),
                ExecutionError,
            >(ExecutionError::MemoryError(MemoryError::StackOverflow)) && final(self).machine()
                == old(self).machine(),
    {
        match self.memory.expand(n) {
            Err(e) => Err(ExecutionError::MemoryError(e)),
            Ok(()) => Ok(()),
        }
    }

    /// Registers `stream` and returns its handle.
    pub fn open_file(&mut self, stream: Stream) -> (r: Result<UWord, FilesError>)
        requires
            old(self).wf(),
            stream.wf(),
        ensures
            final(self).wf(),
            final(self).functions() == old(self).functions(),
            r == Ok::<UWord, FilesError>(old(self).machine().files.len() as UWord),
            final(self).machine() == (Machine {
                files: old(self).machine().files.push(Some(stream_model(stream))),
                ..old(self).machine()
            }),
    {
        self.files.open(stream)
    }

    /// Unregisters the stream under `h` and hands it back.
    pub fn close_file(&mut self, h: UWord) -> (r: Result<Stream, FilesError>)
        requires
            old(self).wf(),
        ensures
            final(self).wf(),
            final(self).functions() == old(self).functions(),
            h < old(self).machine().files.len() && old(self).machine().files[h as int].is_some() ==> r.is_ok()
                && Some(stream_model(r.unwrap())) == old(self).machine().files[h as int]
                && final(self).machine() == (Machine {
                files: old(self).machine().files.update(h as int, None),
                ..old(self).machine()
            }),
            !(h < old(self).machine().files.len() && old(self).machine().files[h as int].is_some())
                ==> r == Err::<Stream, FilesError>(FilesError::UnknownHandle(h)) && final(self).machine()
                == old(self).machine(),
    {
        self.files.close(h)
    }

    /// Makes the stream under `h` the current one.
    pub fn set_current_file(&mut self, h: UWord) -> (r: Result<(), FilesError>)
        requires
            old(self).wf(),
        ensures
            final(self).wf(),
            final(self).functions() == old(self).functions(),
            h < old(self).machine().files.len() && old(self).machine().files[h as int].is_some() ==> r
                == Ok::<(), FilesError>(()) && final(self).machine() == (Machine {
                current_file: Some(h),
                ..old(self).machine()
            }),
            !(h < old(self).machine().files.len() && old(self).machine().files[h as int].is_some())
                ==> r == Err::<(), FilesError>(FilesError::UnknownHandle(h)) && final(self).machine()
                == old(self).machine(),
    {
        self.files.set_current(h)
    }
}

fn op_needs_float(op: Op) -> (r: bool)
    ensures
        r == needs_float(op),
{
    match op {
        Op::Add(_, t) | Op::Sub(_, t) | Op::Mul(_, t) | Op::Div(_, t) | Op::Mod(_, t)
        | Op::Neg(_, t) | Op::Inc(_, t) | Op::Dec(_, t) | Op::Ift(_, t) | Op::Iff(_, t)
        | Op::Ife(_, t) | Op::Ifl(_, t) | Op::Ifg(_, t) | Op::Ine(_, t) | Op::Inl(_, t)
        | Op::Ing(_, t) => t.is_float(),
        Op::Cnv(_, _, t, u) => t != u && (t.is_float() || u.is_float()),
        _ => false,
    }
}

fn op_integer_only(op: Op) -> (r: bool)
    ensures
        r == integer_only(op),
{
    match op {
        Op::Shl(_, _, t) | Op::Shr(_, _, t) | Op::And(_, t) | Op::Or(_, t) | Op::Xor(_, t)
        | Op::Not(_, t) | Op::Ifa(_, t) | Op::Ifo(_, t) | Op::Ifx(_, t) | Op::Ina(_, t)
        | Op::Ino(_, t) | Op::Inx(_, t) => t.is_float(),
        _ => false,
    }
}


/// The value a binary update leaves in its first operand.
fn binary_value(op: Op, t: OpType, a: u64, b: u64) -> (r: Result<u64, ExecutionError>)
    requires
        fits(t, a),
        fits(t, b),
    ensures
        r == binary_result(op, t, a, b),
{
    match op {
        Op::Add(..) => Ok(add_bits(t, a, b)),
        Op::Sub(..) => Ok(sub_bits(t, a, b)),
        Op::Mul(..) => Ok(mul_bits(t, a, b)),
        Op::Div(..) => {
            if b == 0 {
                Err(ExecutionError::DivisionByZero)
            } else {
                Ok(div_bits(t, a, b))
            }
        },
        Op::Mod(..) => {
            if b == 0 {
                Err(ExecutionError::DivisionByZero)
            } else {
                Ok(rem_bits(t, a, b))
            }
        },
        Op::And(..) => Ok(and_bits(t, a, b)),
        Op::Or(..) => Ok(or_bits(t, a, b)),
        Op::Xor(..) => Ok(xor_bits(t, a, b)),
        _ => Ok(b),
    }
}

fn unary_value(op: Op, t: OpType, a: u64) -> (r: u64)
    requires
        fits(t, a),
    ensures
        r == unary_result(op, t, a),
{
    match op {
        Op::Not(..) => not_bits(t, a),
        Op::Neg(..) => neg_bits(t, a),
        Op::Inc(..) => inc_bits(t, a),
        _ => dec_bits(t, a),
    }
}

fn binary_test(op: Op, t: OpType, a: u64, b: u64) -> (r: bool)
    requires
        fits(t, a),
        fits(t, b),
    ensures
        r == binary_condition(op, t, a, b),
{
    match op {
        Op::Ife(..) => a == b,
        Op::Ifl(..) => less_bits(t, a, b),
        Op::Ifg(..) => less_bits(t, b, a),
        Op::Ine(..) => a != b,
        Op::Inl(..) => !less_bits(t, a, b),
        Op::Ing(..) => !less_bits(t, b, a),
        Op::Ifa(..) => a & b != 0,
        Op::Ifo(..) => a | b != 0,
        Op::Ifx(..) => a ^ b != 0,
        Op::Ina(..) => a & b == 0,
        Op::Ino(..) => a | b == 0,
        _ => a ^ b == 0,
    }
}

} // verus!
