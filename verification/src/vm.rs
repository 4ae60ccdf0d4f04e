//! The interpreter: a machine that executes a program one instruction at a
//! time.
//!
//! The machine does no outside work itself. For the instruction at the
//! pointer, [`Vm::request`] names the work that it needs, and [`Vm::step`]
//! executes it, given the reply. [`Vm::run`] executes instructions
//! for as long as they need no outside work.

use vstd::prelude::*;
use crate::error::Error;
use crate::io::{Outcome, Reply, Request, Sink, Source, Status};
use crate::isa::{Op, Opcode, Word};
use crate::memory::{truncate, widen, Memory};
use crate::pool::{decode, pool_of, ConstantPool};
use crate::text::texts_of;
use crate::semantics::{
    computed, executed, holds, name_of, request, run, sink_of, source_of, step, State,
};

verus! {

/// A machine with its program. Its view is the state of the evaluation.
pub struct Vm {
    program: Vec<Op>,
    memory: Memory,
    constants: ConstantPool,
    buffers: Vec<Word>,
    stack: Vec<usize>,
    pointer: usize,
}

impl View for Vm {
    type V = State;

    closed spec fn view(&self) -> State {
        State {
            pointer: self.pointer as nat,
            memory: self.memory@,
            constants: self.constants@,
            buffers: self.buffers@,
            stack: Seq::new(self.stack@.len(), |i: int| self.stack@[i] as nat),
        }
    }
}

impl Vm {
    /// The program that the machine executes.
    pub closed spec fn program(&self) -> Seq<Op> {
        self.program@
    }

    /// The memory of a machine has 1024 words.
    pub proof fn lemma_wf(&self)
        ensures
            self@.wf(),
    {
        self.memory.lemma_len();
    }

    /// A machine at the start of `program`, with zeroed memory, no opened
    /// resource, an empty call stack, and the code points of `constants` as
    /// its constant pool.
    pub fn new(constants: Vec<String>, program: Vec<Op>) -> (vm: Vm)
        ensures
            vm@ == State::initial(pool_of(texts_of(constants@))),
            vm.program() == program@,
    {
        let vm = Vm {
            program,
            memory: Memory::new(),
            constants: ConstantPool::new(&constants),
            buffers: Vec::new(),
            stack: Vec::new(),
            pointer: 0,
        };
        assert(vm@.stack =~= Seq::empty());
        vm
    }

    /// The index of the instruction that is executed next.
    pub fn pointer(&self) -> (pointer: usize)
        ensures
            pointer == self@.pointer,
    {
        self.pointer
    }

    /// The memory.
    pub fn memory(&self) -> (memory: &Memory)
        ensures
            memory@ == self@.memory,
    {
        &self.memory
    }

    /// The constant pool.
    pub fn constants(&self) -> (constants: &ConstantPool)
        ensures
            constants@ == self@.constants,
    {
        &self.constants
    }

    /// The handles of the opened resources, in the order of opening.
    pub fn buffers(&self) -> (buffers: &Vec<Word>)
        ensures
            buffers@ == self@.buffers,
    {
        &self.buffers
    }

    /// The number of calls that have not returned.
    pub fn depth(&self) -> (depth: usize)
        ensures
            depth == self@.stack.len(),
    {
        self.stack.len()
    }

    /// The text of the constant with the index `index`.
    fn name(&self, index: Word) -> (r: Result<String, Error>)
        ensures
            match name_of(self@, index) {
                Ok(text) => r matches Ok(name) && name@ == text,
                Err(e) => r matches Err(x) && x == e,
            },
    {
        match self.constants.get(index) {
            Ok(words) => decode(words),
            Err(e) => Err(e),
        }
    }

    /// Where a write to the buffer index `target` goes.
    fn sink(&self, target: Word) -> (r: Result<Sink, Error>)
        ensures
            r == sink_of(self@, target),
    {
        if target == 1 {
            Ok(Sink::Output)
        } else if target == 2 {
            Ok(Sink::Error)
        } else if target >= 3 && target - 3 < self.buffers.len() as u64 {
            Ok(Sink::Buffer(self.buffers[(target - 3) as usize]))
        } else {
            Err(Error::Address)
        }
    }

    /// Where a read from the buffer index `target` comes from.
    fn source(&self, target: Word) -> (r: Result<Source, Error>)
        ensures
            r == source_of(self@, target),
    {
        if target == 0 {
            Ok(Source::Input)
        } else if target >= 3 && target - 3 < self.buffers.len() as u64 {
            Ok(Source::Buffer(self.buffers[(target - 3) as usize]))
        } else {
            Err(Error::Address)
        }
    }

    /// The outside work that the instruction at the pointer needs. An
    /// instruction that cannot succeed whatever the reply fails here, with
    /// the error that [`Vm::step`] would give.
    pub fn request(&self) -> (r: Result<Request, Error>)
        ensures
            self@.wf(),
            match request(self.program(), self@) {
                Ok(q) => r matches Ok(x) && x@ == q,
                Err(e) => r matches Err(x) && x == e,
            },
    {
        proof {
            self.lemma_wf();
        }
        if self.pointer >= self.program.len() {
            return Ok(Request::Nothing);
        }
        let op = self.program[self.pointer];
        match op.0 {
            Opcode::CreateFile => match self.name(op.1) {
                Ok(name) => Ok(Request::Create(name)),
                Err(e) => Err(e),
            },
            Opcode::LoadFile => match self.name(op.1) {
                Ok(name) => Ok(Request::Open(name)),
                Err(e) => Err(e),
            },
            Opcode::LoadConn => match self.name(op.1) {
                Ok(address) => Ok(Request::Connect(address)),
                Err(e) => Err(e),
            },
            Opcode::ListConn => match self.name(op.1) {
                Ok(address) => Ok(Request::Listen(address)),
                Err(e) => Err(e),
            },
            Opcode::Write => match self.sink(op.1) {
                Ok(sink) => match self.memory.read(op.2, op.3) {
                    Ok(words) => Ok(Request::Write(sink, truncate(&words))),
                    Err(e) => Err(e),
                },
                Err(e) => Err(e),
            },
            Opcode::Read => match self.source(op.1) {
                Ok(source) => if Memory::has_range(op.2, op.3) {
                    Ok(Request::Read(source, op.3 as usize))
                } else {
                    Err(Error::Address)
                },
                Err(e) => Err(e),
            },
            Opcode::Hlt | Opcode::Ret | Opcode::Mov | Opcode::Dup | Opcode::Inc | Opcode::Dec
            | Opcode::Add | Opcode::Sub | Opcode::Mul | Opcode::Div | Opcode::Call | Opcode::Jmp
            | Opcode::Je | Opcode::Jne | Opcode::Jg | Opcode::Jge | Opcode::Jl | Opcode::Jle
            | Opcode::MovConst | Opcode::CapConst => Ok(Request::Nothing),
        }
    }

    /// Moves the pointer to the following instruction.
    fn advance(&mut self) -> (r: Result<Status, Error>)
        requires
            old(self)@.pointer < old(self).program().len(),
        ensures
            r == Ok::<Status, Error>(Status::Running),
            final(self)@ == old(self)@.advanced(),
            final(self).program() == old(self).program(),
    {
        assert(self.pointer < self.program.len());
        self.pointer = self.pointer + 1;
        Ok(Status::Running)
    }

    /// Sets the word at `addr` and moves on.
    fn store(&mut self, addr: Word, value: Word) -> (r: Result<Status, Error>)
        requires
            old(self)@.pointer < old(self).program().len(),
        ensures
            match old(self)@.stored(addr, value) {
                Ok((next, status)) => r == Ok::<Status, Error>(status) && final(self)@ == next,
                Err(e) => r == Err::<Status, Error>(e) && final(self)@ == old(self)@,
            },
            final(self).program() == old(self).program(),
    {
        match self.memory.store(addr, value) {
            Ok(()) => self.advance(),
            Err(e) => Err(e),
        }
    }

    /// Moves the pointer to `target`.
    fn jump(&mut self, target: Word) -> (r: Result<Status, Error>)
        ensures
            match old(self)@.jumped(old(self).program().len(), target) {
                Ok((next, status)) => r == Ok::<Status, Error>(status) && final(self)@ == next,
                Err(e) => r == Err::<Status, Error>(e) && final(self)@ == old(self)@,
            },
            final(self).program() == old(self).program(),
    {
        if target <= self.program.len() as u64 {
            self.pointer = target as usize;
            Ok(Status::Running)
        } else {
            Err(Error::Control)
        }
    }

    /// Returns from a call.
    fn ret(&mut self, op: Op) -> (r: Result<Status, Error>)
        requires
            op.0 == Opcode::Ret,
        ensures
            match executed(old(self).program().len(), op, old(self)@) {
                Ok((next, status)) => r == Ok::<Status, Error>(status) && final(self)@ == next,
                Err(e) => r == Err::<Status, Error>(e) && final(self)@ == old(self)@,
            },
            final(self).program() == old(self).program(),
    {
        match self.stack.pop() {
            Some(address) => {
                self.pointer = address;
                assert(self@.stack =~= old(self)@.stack.drop_last());
                Ok(Status::Running)
            },
            None => Err(Error::Control),
        }
    }

    /// Copies a word, or adds one to a word or takes one from it.
    fn unary(&mut self, op: Op) -> (r: Result<Status, Error>)
        requires
            op.0 == Opcode::Dup || op.0 == Opcode::Inc || op.0 == Opcode::Dec,
            old(self)@.pointer < old(self).program().len(),
        ensures
            match executed(old(self).program().len(), op, old(self)@) {
                Ok((next, status)) => r == Ok::<Status, Error>(status) && final(self)@ == next,
                Err(e) => r == Err::<Status, Error>(e) && final(self)@ == old(self)@,
            },
            final(self).program() == old(self).program(),
    {
        proof {
            self.lemma_wf();
        }
        match op.0 {
            Opcode::Dup => match self.memory.load(op.2) {
                Ok(value) => self.store(op.1, value),
                Err(e) => Err(e),
            },
            Opcode::Inc => match self.memory.load(op.1) {
                Ok(value) => self.store(op.1, value.wrapping_add(1)),
                Err(e) => Err(e),
            },
            _ => match self.memory.load(op.1) {
                Ok(value) => self.store(op.1, value.wrapping_sub(1)),
                Err(e) => Err(e),
            },
        }
    }

    /// Adds, subtracts, multiplies or divides.
    fn binary(&mut self, op: Op) -> (r: Result<Status, Error>)
        requires
            op.0 == Opcode::Add || op.0 == Opcode::Sub || op.0 == Opcode::Mul || op.0
                == Opcode::Div,
            old(self)@.pointer < old(self).program().len(),
        ensures
            match executed(old(self).program().len(), op, old(self)@) {
                Ok((next, status)) => r == Ok::<Status, Error>(status) && final(self)@ == next,
                Err(e) => r == Err::<Status, Error>(e) && final(self)@ == old(self)@,
            },
            final(self).program() == old(self).program(),
    {
        proof {
            self.lemma_wf();
        }
        let a = match self.memory.load(op.1) {
            Ok(value) => value,
            Err(e) => {
                return Err(e);
            },
        };
        let b = match self.memory.load(op.2) {
            Ok(value) => value,
            Err(e) => {
                return Err(e);
            },
        };
        match compute(op.0, a, b) {
            Ok(value) => self.store(op.1, value),
            Err(e) => Err(e),
        }
    }

    /// Calls the routine at the target.
    fn call(&mut self, op: Op) -> (r: Result<Status, Error>)
        requires
            op.0 == Opcode::Call,
            old(self)@.pointer < old(self).program().len(),
        ensures
            match executed(old(self).program().len(), op, old(self)@) {
                Ok((next, status)) => r == Ok::<Status, Error>(status) && final(self)@ == next,
                Err(e) => r == Err::<Status, Error>(e) && final(self)@ == old(self)@,
            },
            final(self).program() == old(self).program(),
    {
        let len = self.program.len();
        if op.1 <= len as u64 {
            self.stack.push(self.pointer + 1);
            assert(self@.stack =~= old(self)@.stack.push(old(self)@.pointer + 1));
            self.pointer = op.1 as usize;
            Ok(Status::Running)
        } else {
            Err(Error::Control)
        }
    }

    /// Jumps where the comparison holds, and moves on where it does not.
    fn branch(&mut self, op: Op) -> (r: Result<Status, Error>)
        requires
            op.0 == Opcode::Je || op.0 == Opcode::Jne || op.0 == Opcode::Jg || op.0 == Opcode::Jge
                || op.0 == Opcode::Jl || op.0 == Opcode::Jle,
            old(self)@.pointer < old(self).program().len(),
        ensures
            match executed(old(self).program().len(), op, old(self)@) {
                Ok((next, status)) => r == Ok::<Status, Error>(status) && final(self)@ == next,
                Err(e) => r == Err::<Status, Error>(e) && final(self)@ == old(self)@,
            },
            final(self).program() == old(self).program(),
    {
        proof {
            self.lemma_wf();
        }
        let a = match self.memory.load(op.2) {
            Ok(value) => value,
            Err(e) => {
                return Err(e);
            },
        };
        let b = match self.memory.load(op.3) {
            Ok(value) => value,
            Err(e) => {
                return Err(e);
            },
        };
        if compare(op.0, a, b) {
            self.jump(op.1)
        } else {
            self.advance()
        }
    }

    /// Copies a constant into memory.
    fn move_constant(&mut self, op: Op) -> (r: Result<Status, Error>)
        requires
            op.0 == Opcode::MovConst,
            old(self)@.pointer < old(self).program().len(),
        ensures
            match executed(old(self).program().len(), op, old(self)@) {
                Ok((next, status)) => r == Ok::<Status, Error>(status) && final(self)@ == next,
                Err(e) => r == Err::<Status, Error>(e) && final(self)@ == old(self)@,
            },
            final(self).program() == old(self).program(),
    {
        let words = match self.constants.get(op.2) {
            Ok(words) => words,
            Err(e) => {
                return Err(e);
            },
        };
        match self.memory.write(op.1, words) {
            Ok(()) => self.advance(),
            Err(e) => Err(e),
        }
    }

    /// Appends a range of memory to the constants.
    fn capture_constant(&mut self, op: Op) -> (r: Result<Status, Error>)
        requires
            op.0 == Opcode::CapConst,
            old(self)@.pointer < old(self).program().len(),
        ensures
            match executed(old(self).program().len(), op, old(self)@) {
                Ok((next, status)) => r == Ok::<Status, Error>(status) && final(self)@ == next,
                Err(e) => r == Err::<Status, Error>(e) && final(self)@ == old(self)@,
            },
            final(self).program() == old(self).program(),
    {
        match self.memory.read(op.1, op.2) {
            Ok(words) => {
                self.constants.capture(words);
                self.advance()
            },
            Err(e) => Err(e),
        }
    }

    /// Executes `op`, an instruction that needs no outside work.
    fn execute(&mut self, op: Op) -> (r: Result<Status, Error>)
        requires
            old(self)@.pointer < old(self).program().len(),
        ensures
            match executed(old(self).program().len(), op, old(self)@) {
                Ok((next, status)) => r == Ok::<Status, Error>(status) && final(self)@ == next,
                Err(e) => r == Err::<Status, Error>(e) && final(self)@ == old(self)@,
            },
            final(self).program() == old(self).program(),
    {
        match op.0 {
            Opcode::Hlt => Ok(Status::Halted(op.1)),
            Opcode::Ret => self.ret(op),
            Opcode::Mov => self.store(op.1, op.2),
            Opcode::Dup | Opcode::Inc | Opcode::Dec => self.unary(op),
            Opcode::Add | Opcode::Sub | Opcode::Mul | Opcode::Div => self.binary(op),
            Opcode::Call => self.call(op),
            Opcode::Jmp => self.jump(op.1),
            Opcode::Je | Opcode::Jne | Opcode::Jg | Opcode::Jge | Opcode::Jl | Opcode::Jle => {
                self.branch(op)
            },
            Opcode::MovConst => self.move_constant(op),
            Opcode::CapConst => self.capture_constant(op),
            Opcode::CreateFile | Opcode::LoadFile | Opcode::LoadConn | Opcode::ListConn
            | Opcode::Write | Opcode::Read => Err(Error::Io),
        }
    }

    /// Executes the instruction at the pointer. `reply` says how the outside
    /// work ended that [`Vm::request`] asked for; for an instruction that
    /// needs none it is `Reply::Nothing`. Where the instruction fails, the
    /// machine is left as it was.
    pub fn step(&mut self, reply: Reply) -> (r: Result<Status, Error>)
        ensures
            match step(old(self).program(), old(self)@, reply@) {
                Ok((next, status)) => r == Ok::<Status, Error>(status) && final(self)@ == next,
                Err(e) => r == Err::<Status, Error>(e) && final(self)@ == old(self)@,
            },
            final(self).program() == old(self).program(),
    {
        let asked = match self.request() {
            Ok(asked) => asked,
            Err(e) => {
                return Err(e);
            },
        };
        match asked {
            Request::Nothing => match reply {
                Reply::Nothing => {
                    if self.pointer >= self.program.len() {
                        Ok(Status::Halted(0))
                    } else {
                        let op = self.program[self.pointer];
                        self.execute(op)
                    }
                },
                _ => Err(Error::Io),
            },
            Request::Write(_, _) => match reply {
                Reply::Written => self.advance(),
                _ => Err(Error::Io),
            },
            Request::Read(_, len) => match reply {
                Reply::Data(bytes) => {
                    if bytes.len() == len {
                        let words = widen(&bytes);
                        let dst = self.program[self.pointer].2;
                        match self.memory.write(dst, &words) {
                            Ok(()) => self.advance(),
                            Err(e) => Err(e),
                        }
                    } else {
                        Err(Error::Io)
                    }
                },
                _ => Err(Error::Io),
            },
            _ => match reply {
                Reply::Opened(handle) => {
                    self.buffers.push(handle);
                    self.advance()
                },
                _ => Err(Error::Io),
            },
        }
    }

    /// Executes instructions, at most `fuel` of them, for as long as they
    /// need no outside work and the evaluation has not ended. An instruction
    /// that fails ends the run with its error, and leaves the machine as it
    /// was before that instruction.
    pub fn run(&mut self, fuel: u64) -> (r: Result<Outcome, Error>)
        ensures
            final(self)@ == run(old(self).program(), old(self)@, fuel as nat).0,
            match run(old(self).program(), old(self)@, fuel as nat).1 {
                Ok(outcome) => r matches Ok(x) && x@ == outcome,
                Err(e) => r matches Err(x) && x == e,
            },
            final(self).program() == old(self).program(),
    {
        let ghost program = self.program();
        let ghost start = self@;
        let mut left = fuel;
        while left > 0
            invariant
                program == old(self).program(),
                start == old(self)@,
                self.program() == program,
                run(program, start, fuel as nat) == run(program, self@, left as nat),
            decreases left,
        {
            let asked = match self.request() {
                Ok(asked) => asked,
                Err(e) => {
                    return Err(e);
                },
            };
            match asked {
                Request::Nothing => {},
                _ => {
                    return Ok(Outcome::Pending(asked));
                },
            }
            match self.step(Reply::Nothing) {
                Err(e) => {
                    return Err(e);
                },
                Ok(Status::Halted(code)) => {
                    return Ok(Outcome::Halted(code));
                },
                Ok(Status::Running) => {},
            }
            left = left - 1;
        }
        Ok(Outcome::Exhausted)
    }
}

/// The result of the arithmetic instruction `op` on `a` and `b`.
fn compute(op: Opcode, a: Word, b: Word) -> (r: Result<Word, Error>)
    ensures
        r == computed(op, a, b),
{
    match op {
        Opcode::Add => Ok(a.wrapping_add(b)),
        Opcode::Sub => Ok(a.wrapping_sub(b)),
        Opcode::Mul => Ok(a.wrapping_mul(b)),
        _ => if b == 0 {
            Err(Error::Arithmetic)
        } else {
            Ok(a / b)
        },
    }
}

/// Whether the comparison of the jump `op` holds of `a` and `b`.
fn compare(op: Opcode, a: Word, b: Word) -> (r: bool)
    ensures
        r == holds(op, a, b),
{
    match op {
        Opcode::Je => a == b,
        Opcode::Jne => a != b,
        Opcode::Jg => a > b,
        Opcode::Jge => a >= b,
        Opcode::Jl => a < b,
        _ => a <= b,
    }
}

} // verus!
