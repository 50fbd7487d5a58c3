//! The mathematical model of the machine.

use vstd::prelude::*;
use crate::isa::{VMReg, VMOp, Fault};
use crate::word::{wrap, low_byte, quotient, shift_left, shift_right};

verus! {

/// Number of words the operand stack holds.
pub const STACK_CAPACITY: usize = 255;

/// The byte that an input instruction ignores.
pub const CARRIAGE_RETURN: u8 = 0x0D;

/// What is left of an input after its leading carriage returns are dropped.
pub open spec fn skip_carriage_returns(input: Seq<u8>) -> Seq<u8>
    decreases input.len(),
{
    if input.len() > 0 && input[0] == CARRIAGE_RETURN {
        skip_carriage_returns(input.drop_first())
    } else {
        input
    }
}

/// Dropping the leading carriage returns of an input leaves the part that
/// starts at its first other byte, or nothing if there is no such byte.
pub proof fn lemma_skip_carriage_returns(input: Seq<u8>, k: int)
    requires
        0 <= k <= input.len(),
        forall|i: int| 0 <= i < k ==> input[i] == CARRIAGE_RETURN,
        k < input.len() ==> input[k] != CARRIAGE_RETURN,
    ensures
        skip_carriage_returns(input) == input.subrange(k, input.len() as int),
    decreases k,
{
    if k == 0 {
        assert(input.subrange(0, input.len() as int) =~= input);
    } else {
        let tail = input.drop_first();
        lemma_skip_carriage_returns(tail, k - 1);
        assert(tail.subrange(k - 1, tail.len() as int) =~= input.subrange(k, input.len() as int));
    }
}

/// Everything there is to know about a machine at one instant.
pub struct State {
    pub a: u64,
    pub b: u64,
    pub c: u64,
    pub d: u64,
    /// Address of the instruction to fetch next.
    pub ip: u64,
    /// Number of words on the stack; the next push writes at this index.
    pub sp: u64,
    /// Set by `Halt`, cleared when the machine is started.
    pub halted: bool,
    pub stack: Seq<u64>,
    pub code: Seq<VMOp>,
    /// Input bytes that were supplied and not yet read.
    pub input: Seq<u8>,
    /// Output bytes written so far, oldest first.
    pub output: Seq<u8>,
}

/// Whether an operation whose model says `outcome` did what the model says:
/// on success it reports success and leaves the successor state, on a fault
/// it reports that fault and leaves the machine in the state `stopped`. For
/// every operation but a call and what contains one, `stopped` is the state
/// before the operation: the fault changed nothing.
pub open spec fn carried_out(
    stopped: State,
    outcome: Result<State, Fault>,
    after: State,
    reported: Result<(), Fault>,
) -> bool {
    match outcome {
        Ok(next) => reported == Ok::<(), Fault>(()) && after == next,
        Err(fault) => reported == Err::<(), Fault>(fault) && after == stopped,
    }
}

impl State {
    /// The stack has its fixed capacity and the program fits in memory.
    pub open spec fn wf(self) -> bool {
        &&& self.stack.len() == STACK_CAPACITY
        &&& self.code.len() <= usize::MAX
    }

    /// A freshly built machine: every register and stack slot zero, not yet
    /// started, nothing read or written.
    pub open spec fn initial(code: Seq<VMOp>) -> State {
        State {
            a: 0,
            b: 0,
            c: 0,
            d: 0,
            ip: 0,
            sp: 0,
            halted: true,
            stack: Seq::new(STACK_CAPACITY as nat, |i: int| 0u64),
            code,
            input: Seq::empty(),
            output: Seq::empty(),
        }
    }

    /// The value of a register.
    pub open spec fn reg(self, r: VMReg) -> u64 {
        match r {
            VMReg::A => self.a,
            VMReg::B => self.b,
            VMReg::C => self.c,
            VMReg::D => self.d,
            VMReg::IP => self.ip,
            VMReg::SP => self.sp,
        }
    }

    /// The state with one register overwritten.
    pub open spec fn with_reg(self, r: VMReg, v: u64) -> State {
        match r {
            VMReg::A => State { a: v, ..self },
            VMReg::B => State { b: v, ..self },
            VMReg::C => State { c: v, ..self },
            VMReg::D => State { d: v, ..self },
            VMReg::IP => State { ip: v, ..self },
            VMReg::SP => State { sp: v, ..self },
        }
    }

    /// Push a word: write it at index `sp`, then increment `sp`. A stack
    /// pointer at or beyond the capacity is a stack fault.
    pub open spec fn push(self, v: u64) -> Result<State, Fault> {
        if self.sp < STACK_CAPACITY {
            Ok(State { stack: self.stack.update(self.sp as int, v), sp: (self.sp + 1) as u64, ..self })
        } else {
            Err(Fault::StackFault)
        }
    }

    /// Pop a word: decrement `sp`, then read at the new `sp`. A stack pointer
    /// of zero or beyond the capacity is a stack fault.
    pub open spec fn pop(self) -> Result<(State, u64), Fault> {
        if 0 < self.sp <= STACK_CAPACITY {
            Ok((State { sp: (self.sp - 1) as u64, ..self }, self.stack[self.sp - 1]))
        } else {
            Err(Fault::StackFault)
        }
    }

    /// Arrange for execution to continue at `target`. The instruction
    /// pointer is set one below the target, with wraparound, because every
    /// step ends by advancing it by one. A target outside the program is an
    /// invalid address.
    pub open spec fn jump(self, target: int) -> Result<State, Fault> {
        if 0 <= target < self.code.len() {
            Ok(State { ip: wrap(target - 1), ..self })
        } else {
            Err(Fault::InvalidAddress)
        }
    }

    /// Move the instruction pointer forward by one position, with wraparound.
    pub open spec fn advance(self) -> State {
        State { ip: wrap(self.ip + 1), ..self }
    }

    /// Pop the top of the stack into a register.
    pub open spec fn pop_into(self, r: VMReg) -> Result<State, Fault> {
        match self.pop() {
            Ok((popped, v)) => Ok(popped.with_reg(r, v)),
            Err(fault) => Err(fault),
        }
    }

    /// Store the outcome of a computation in a register, or pass its fault on.
    pub open spec fn store(self, r: VMReg, outcome: Result<u64, Fault>) -> Result<State, Fault> {
        match outcome {
            Ok(v) => Ok(self.with_reg(r, v)),
            Err(fault) => Err(fault),
        }
    }

    /// Read one byte into a register, ignoring carriage returns. With nothing
    /// but carriage returns left, the input is exhausted.
    pub open spec fn read_into(self, r: VMReg) -> Result<State, Fault> {
        let rest = skip_carriage_returns(self.input);
        if rest.len() > 0 {
            Ok(State { input: rest.drop_first(), ..self }.with_reg(r, rest[0] as u64))
        } else {
            Err(Fault::InputExhausted)
        }
    }

    /// Append the low eight bits of a register to the output.
    pub open spec fn print(self, r: VMReg) -> State {
        State { output: self.output.push(low_byte(self.reg(r))), ..self }
    }

    /// Fall through to the next instruction if `holds`, skip it otherwise.
    pub open spec fn skip_unless(self, holds: bool) -> State {
        if holds {
            self
        } else {
            self.advance()
        }
    }

    /// Push the address of the instruction after the current one, then jump
    /// to `addr`. A full stack is reported before a bad address. With a bad
    /// address the push has happened when the jump faults: see
    /// [`State::left_by_fault`].
    pub open spec fn call(self, addr: u64) -> Result<State, Fault> {
        match self.push(wrap(self.ip + 1)) {
            Ok(pushed) => pushed.jump(addr as int),
            Err(fault) => Err(fault),
        }
    }

    /// Pop an address and arrange for execution to continue there: the
    /// instruction pointer is set one below the popped word, with
    /// wraparound. The popped word is not checked against the program; if it
    /// is not the address of an instruction, the fetch of the next step
    /// faults.
    pub open spec fn ret(self) -> Result<State, Fault> {
        match self.pop() {
            Ok((popped, addr)) => Ok(State { ip: wrap(addr - 1), ..popped }),
            Err(fault) => Err(fault),
        }
    }

    /// Set the halt flag.
    pub open spec fn halt(self) -> State {
        State { halted: true, ..self }
    }

    /// The effect of one instruction, before the instruction pointer is
    /// advanced. A fault leaves no successor state; the state the machine
    /// stops in is [`State::left_by_fault`].
    ///
    /// The definition is hidden from proofs until they ask for it with
    /// `reveal(State::execute)`, so that reasoning about steps and runs as
    /// wholes does not drag every instruction along.
    #[verifier::opaque]
    pub open spec fn execute(self, inst: VMOp) -> Result<State, Fault> {
        match inst {
            VMOp::PushI(imm) => self.push(imm),
            VMOp::PushR(r) => self.push(self.reg(r)),
            VMOp::Pop(r) => self.pop_into(r),
            VMOp::Add(l, r) => self.store(l, Ok(wrap(self.reg(l) + self.reg(r)))),
            VMOp::Sub(l, r) => self.store(l, Ok(wrap(self.reg(l) - self.reg(r)))),
            VMOp::Mul(l, r) => self.store(l, Ok(wrap(self.reg(l) * self.reg(r)))),
            VMOp::Div(l, r) => self.store(l, quotient(self.reg(l), self.reg(r))),
            VMOp::Xor(l, r) => self.store(l, Ok(self.reg(l) ^ self.reg(r))),
            VMOp::And(l, r) => self.store(l, Ok(self.reg(l) & self.reg(r))),
            VMOp::Or(l, r) => self.store(l, Ok(self.reg(l) | self.reg(r))),
            VMOp::Shl(l, r) => self.store(l, shift_left(self.reg(l), self.reg(r))),
            VMOp::Shr(l, r) => self.store(l, shift_right(self.reg(l), self.reg(r))),
            VMOp::Inp(r) => self.read_into(r),
            VMOp::Eq(l, r) => Ok(self.skip_unless(self.reg(l) == self.reg(r))),
            VMOp::Gt(l, r) => Ok(self.skip_unless(self.reg(l) > self.reg(r))),
            VMOp::Lt(l, r) => Ok(self.skip_unless(self.reg(l) < self.reg(r))),
            VMOp::Jmp(addr) => self.jump(addr as int),
            VMOp::JmpRel(off) => self.jump(self.ip + off),
            VMOp::Call(addr) => self.call(addr),
            VMOp::Ret => self.ret(),
            VMOp::Print(r) => Ok(self.print(r)),
            VMOp::Halt => Ok(self.halt()),
        }
    }

    /// The state in which an instruction leaves the machine when it faults.
    /// A fault leaves the machine as the instruction found it, with one
    /// exception: a call pushes before it jumps, so when its target is not
    /// the address of an instruction the return address is on the stack by
    /// the time the jump faults.
    pub open spec fn left_by_fault(self, inst: VMOp) -> State {
        match inst {
            VMOp::Call(_) => match self.push(wrap(self.ip + 1)) {
                Ok(pushed) => pushed,
                Err(_) => self,
            },
            _ => self,
        }
    }

    /// The instruction at the instruction pointer, if that lies inside the
    /// program.
    pub open spec fn fetch(self) -> Option<VMOp> {
        if self.ip < self.code.len() {
            Some(self.code[self.ip as int])
        } else {
            None
        }
    }

    /// The state with the halt flag cleared: a machine that is running.
    pub open spec fn started(self) -> State {
        State { halted: false, ..self }
    }

    /// One fetch-execute cycle of a running machine: fetch at the instruction
    /// pointer, execute, and advance the instruction pointer by one unless
    /// the instruction halted the machine.
    pub open spec fn step(self) -> Result<State, Fault> {
        let running = self.started();
        match running.fetch() {
            None => Err(Fault::InvalidAddress),
            Some(inst) => match running.execute(inst) {
                Ok(next) => Ok(if next.halted { next } else { next.advance() }),
                Err(fault) => Err(fault),
            },
        }
    }

    /// The state in which a step leaves the machine when it faults: running,
    /// and otherwise as the fetch found it or as the faulting instruction
    /// left it.
    pub open spec fn left_by_faulting_step(self) -> State {
        let running = self.started();
        match running.fetch() {
            None => running,
            Some(inst) => running.left_by_fault(inst),
        }
    }

    /// The state after `n` steps, or the first fault met on the way.
    pub open spec fn steps(self, n: nat) -> Result<State, Fault>
        decreases n,
    {
        if n == 0 {
            Ok(self)
        } else {
            match self.steps((n - 1) as nat) {
                Ok(reached) => reached.step(),
                Err(fault) => Err(fault),
            }
        }
    }

    /// Whether the machine, once started, gets to `reached` in `n` steps
    /// without a fault and without halting before the last of them.
    pub open spec fn reaches(self, n: nat, reached: State) -> bool {
        &&& self.started().steps(n) == Ok::<State, Fault>(reached)
        &&& forall|j: nat|
            0 < j < n ==> ((#[trigger] self.started().steps(j)) matches Ok(passed) && !passed.halted)
    }

    /// Start the machine and take steps until it halts, faults or has taken
    /// `budget` steps. The result pairs the state the machine is left in with
    /// the fault, if one stopped it; after a fault the state is the one the
    /// faulting step left.
    pub open spec fn run(self, budget: nat) -> (State, Result<(), Fault>)
        decreases budget,
    {
        let running = self.started();
        if budget == 0 {
            (running, Ok(()))
        } else {
            match running.step() {
                Err(fault) => (running.left_by_faulting_step(), Err(fault)),
                Ok(next) => if next.halted {
                    (next, Ok(()))
                } else {
                    next.run((budget - 1) as nat)
                },
            }
        }
    }
}

/// A run with budget left does what its first step does and, if that step
/// neither halts nor faults, what a run of the remaining budget does then.
pub proof fn lemma_run_unfold(s: State, budget: nat)
    requires
        budget > 0,
    ensures
        s.run(budget) == (match s.step() {
            Err(fault) => (s.left_by_faulting_step(), Err::<(), Fault>(fault)),
            Ok(next) => if next.halted {
                (next, Ok::<(), Fault>(()))
            } else {
                next.run((budget - 1) as nat)
            },
        }),
{
    assert(s.started().started() == s.started());
}

/// A step faults for want of input exactly when the machine is at an input
/// instruction and nothing but carriage returns is pending.
pub proof fn lemma_wants_input(s: State)
    ensures
        s.step() == Err::<State, Fault>(Fault::InputExhausted) <==> (s.fetch() matches Some(
            VMOp::Inp(_),
        ) && skip_carriage_returns(s.input).len() == 0),
{
    reveal(State::execute);
    match s.started().fetch() {
        None => {},
        Some(inst) => match inst {
            VMOp::PushI(_) | VMOp::PushR(_) | VMOp::Pop(_) => {},
            VMOp::Add(_, _) | VMOp::Sub(_, _) | VMOp::Mul(_, _) | VMOp::Div(_, _) => {},
            VMOp::Xor(_, _) | VMOp::And(_, _) | VMOp::Or(_, _) => {},
            VMOp::Shl(_, _) | VMOp::Shr(_, _) => {},
            VMOp::Eq(_, _) | VMOp::Gt(_, _) | VMOp::Lt(_, _) => {},
            VMOp::Jmp(_) | VMOp::JmpRel(_) | VMOp::Call(_) | VMOp::Ret => {},
            VMOp::Inp(_) | VMOp::Print(_) | VMOp::Halt => {},
        },
    }
}

} // verus!
