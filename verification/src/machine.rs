//! The executable machine.

use vstd::prelude::*;
use std::collections::VecDeque;
use crate::isa::{VMReg, VMOp, Fault};
use crate::state::{
    State, STACK_CAPACITY, CARRIAGE_RETURN, carried_out, skip_carriage_returns,
    lemma_skip_carriage_returns, lemma_wants_input,
};

verus! {

/// A machine: registers, operand stack, program, and the two byte queues
/// through which it reads and writes.
///
/// The view of a machine is its [`State`]; every operation says what it does
/// to that state.
#[derive(Debug)]
pub struct VM {
    a: u64,
    b: u64,
    c: u64,
    d: u64,
    ip: u64,
    sp: u64,
    is_halted: bool,
    stack: [u64; STACK_CAPACITY],
    code: Vec<VMOp>,
    input: VecDeque<u8>,
    output: Vec<u8>,
}

impl View for VM {
    type V = State;

    closed spec fn view(&self) -> State {
        State {
            a: self.a,
            b: self.b,
            c: self.c,
            d: self.d,
            ip: self.ip,
            sp: self.sp,
            halted: self.is_halted,
            stack: self.stack@,
            code: self.code@,
            input: self.input@,
            output: self.output@,
        }
    }
}

impl VM {
    /// The state of any machine is well formed.
    pub proof fn lemma_view_wf(&self)
        ensures
            self@.wf(),
    {
        assert(self.code.len() == self.code@.len());
    }

    /// Build a machine for a program. All registers and stack slots are zero,
    /// the queues are empty, and the machine is not yet started.
    pub fn new(code: Vec<VMOp>) -> (vm: VM)
        ensures
            vm@ == State::initial(code@),
    {
        let vm = VM {
            a: 0,
            b: 0,
            c: 0,
            d: 0,
            ip: 0,
            sp: 0,
            is_halted: true,
            stack: [0u64; STACK_CAPACITY],
            code,
            input: VecDeque::new(),
            output: Vec::new(),
        };
        assert(vm.stack@ =~= Seq::new(STACK_CAPACITY as nat, |i: int| 0u64));
        vm
    }

    /// Read a register.
    pub fn get_reg(&self, reg: &VMReg) -> (val: u64)
        ensures
            val == self@.reg(*reg),
    {
        match reg {
            VMReg::A => self.a,
            VMReg::B => self.b,
            VMReg::C => self.c,
            VMReg::D => self.d,
            VMReg::IP => self.ip,
            VMReg::SP => self.sp,
        }
    }

    /// Overwrite a register. Nothing else changes.
    pub fn set_reg(&mut self, reg: &VMReg, val: u64)
        ensures
            final(self)@ == old(self)@.with_reg(*reg, val),
    {
        match reg {
            VMReg::A => self.a = val,
            VMReg::B => self.b = val,
            VMReg::C => self.c = val,
            VMReg::D => self.d = val,
            VMReg::IP => self.ip = val,
            VMReg::SP => self.sp = val,
        }
    }

    /// Whether the machine is halted: either it has executed `Halt`, or it
    /// was never started.
    pub fn is_halted(&self) -> (halted: bool)
        ensures
            halted == self@.halted,
    {
        self.is_halted
    }

    /// Clear the halt flag: the machine is running.
    pub(crate) fn start(&mut self)
        ensures
            final(self)@ == old(self)@.started(),
    {
        self.is_halted = false;
    }

    /// The instruction at the instruction pointer, if that lies inside the
    /// program.
    pub fn fetch(&self) -> (inst: Option<VMOp>)
        ensures
            inst == self@.fetch(),
    {
        if self.is_address(self.ip) {
            proof {
                self.lemma_view_wf();
            }
            Some(self.code[self.ip as usize])
        } else {
            None
        }
    }

    /// Push a word onto the stack. On a stack fault nothing changes.
    pub fn push(&mut self, val: u64) -> (r: Result<(), Fault>)
        ensures
            carried_out(old(self)@, old(self)@.push(val), final(self)@, r),
    {
        if self.sp < STACK_CAPACITY as u64 {
            self.stack[self.sp as usize] = val;
            self.sp = self.sp + 1;
            Ok(())
        } else {
            Err(Fault::StackFault)
        }
    }

    /// Pop the top word off the stack. On a stack fault nothing changes.
    pub fn pop(&mut self) -> (r: Result<u64, Fault>)
        ensures
            match old(self)@.pop() {
                Ok((next, val)) => r == Ok::<u64, Fault>(val) && final(self)@ == next,
                Err(fault) => r == Err::<u64, Fault>(fault) && final(self)@ == old(self)@,
            },
    {
        if 0 < self.sp && self.sp <= STACK_CAPACITY as u64 {
            self.sp = self.sp - 1;
            Ok(self.stack[self.sp as usize])
        } else {
            Err(Fault::StackFault)
        }
    }

    /// Append one byte to the pending input.
    pub fn feed(&mut self, byte: u8)
        ensures
            final(self)@ == (State { input: old(self)@.input.push(byte), ..old(self)@ }),
    {
        self.input.push_back(byte);
    }

    /// Append bytes to the pending input, in order.
    pub fn feed_all(&mut self, bytes: &[u8])
        ensures
            final(self)@ == (State { input: old(self)@.input + bytes@, ..old(self)@ }),
    {
        let ghost before = self@;
        let mut i: usize = 0;
        while i < bytes.len()
            invariant
                i <= bytes.len(),
                self@ == (State { input: before.input + bytes@.subrange(0, i as int), ..before }),
            decreases bytes.len() - i,
        {
            self.feed(bytes[i]);
            i += 1;
            assert(before.input + bytes@.subrange(0, i as int) =~= (before.input + bytes@.subrange(
                0,
                i - 1,
            )).push(bytes@[i - 1]));
        }
        assert(bytes@.subrange(0, bytes@.len() as int) =~= bytes@);
    }

    /// Hand over the output written so far and start collecting afresh.
    pub fn take_output(&mut self) -> (out: Vec<u8>)
        ensures
            out@ == old(self)@.output,
            final(self)@ == (State { output: Seq::empty(), ..old(self)@ }),
    {
        let mut out: Vec<u8> = Vec::new();
        std::mem::swap(&mut self.output, &mut out);
        out
    }

    /// Whether `target` is the address of an instruction.
    pub(crate) fn is_address(&self, target: u64) -> (inside: bool)
        ensures
            inside == (target < self@.code.len()),
    {
        target < self.code.len() as u64
    }

    /// Index of the first pending input byte that is not a carriage return,
    /// or the number of pending bytes if there is none.
    fn first_other_byte(&self) -> (k: usize)
        ensures
            k <= self@.input.len(),
            forall|i: int| 0 <= i < k ==> self@.input[i] == CARRIAGE_RETURN,
            k < self@.input.len() ==> self@.input[k as int] != CARRIAGE_RETURN,
            skip_carriage_returns(self@.input) == self@.input.subrange(
                k as int,
                self@.input.len() as int,
            ),
    {
        let n = self.input.len();
        let mut k: usize = 0;
        while k < n && self.input[k] == CARRIAGE_RETURN
            invariant
                k <= n,
                n == self.input@.len(),
                forall|i: int| 0 <= i < k ==> self.input@[i] == CARRIAGE_RETURN,
            decreases n - k,
        {
            k += 1;
        }
        proof {
            lemma_skip_carriage_returns(self.input@, k as int);
        }
        k
    }

    /// Whether the machine is at an input instruction with nothing to read:
    /// the next step would fault for want of input. Feeding a byte that is
    /// not a carriage return ends the wait.
    pub fn awaits_input(&self) -> (waiting: bool)
        ensures
            waiting == (self@.step() == Err::<State, Fault>(Fault::InputExhausted)),
            waiting == (self@.fetch() matches Some(VMOp::Inp(_)) && skip_carriage_returns(
                self@.input,
            ).len() == 0),
    {
        proof {
            lemma_wants_input(self@);
        }
        match self.fetch() {
            Some(VMOp::Inp(_)) => self.first_other_byte() == self.input.len(),
            _ => false,
        }
    }

    /// Take the first byte that is not a carriage return off the pending
    /// input, together with the carriage returns before it. With no such
    /// byte the input is left as it is.
    pub(crate) fn read_byte(&mut self) -> (r: Option<u8>)
        ensures
            ({
                let rest = skip_carriage_returns(old(self)@.input);
                match r {
                    Some(byte) => {
                        &&& rest.len() > 0
                        &&& byte == rest[0]
                        &&& final(self)@ == (State { input: rest.drop_first(), ..old(self)@ })
                    },
                    None => rest.len() == 0 && final(self)@ == old(self)@,
                }
            }),
    {
        let ghost before = self@;
        let n = self.input.len();
        let k = self.first_other_byte();
        if k == n {
            return None;
        }
        let byte = self.input[k];
        let mut dropped: usize = 0;
        while dropped <= k
            invariant
                k < n,
                dropped <= k + 1,
                n == before.input.len(),
                self.input@ == before.input.subrange(dropped as int, n as int),
                self@ == (State { input: self.input@, ..before }),
            decreases k + 1 - dropped,
        {
            self.input.pop_front();
            dropped += 1;
            assert(self.input@ =~= before.input.subrange(dropped as int, n as int));
        }
        assert(self.input@ =~= before.input.subrange(k as int, n as int).drop_first());
        Some(byte)
    }

    /// Point the instruction pointer one below `target`, so that the advance
    /// that ends the step lands on it. A target outside the program is an
    /// invalid address and changes nothing.
    pub(crate) fn jump_to(&mut self, target: u64) -> (r: Result<(), Fault>)
        ensures
            carried_out(old(self)@, old(self)@.jump(target as int), final(self)@, r),
    {
        if self.is_address(target) {
            self.ip = target.wrapping_sub(1);
            Ok(())
        } else {
            Err(Fault::InvalidAddress)
        }
    }

    /// Push the address of the instruction after the current one, then jump
    /// to `addr`. On a stack fault nothing changes; when the jump faults
    /// the return address stays pushed.
    pub(crate) fn call(&mut self, addr: u64) -> (r: Result<(), Fault>)
        ensures
            carried_out(
                old(self)@.left_by_fault(VMOp::Call(addr)),
                old(self)@.call(addr),
                final(self)@,
                r,
            ),
    {
        match self.push(self.ip.wrapping_add(1)) {
            Ok(()) => self.jump_to(addr),
            Err(fault) => Err(fault),
        }
    }

    /// Pop an address and point the instruction pointer one below it, so
    /// that the advance that ends the step lands on it. The address is not
    /// checked here: a bad one is met by the next fetch. On a stack fault
    /// nothing changes.
    pub(crate) fn ret(&mut self) -> (r: Result<(), Fault>)
        ensures
            carried_out(old(self)@, old(self)@.ret(), final(self)@, r),
    {
        match self.pop() {
            Ok(addr) => {
                self.ip = addr.wrapping_sub(1);
                Ok(())
            },
            Err(fault) => Err(fault),
        }
    }

    /// Move the instruction pointer forward by one, with wraparound.
    pub(crate) fn advance(&mut self)
        ensures
            final(self)@ == old(self)@.advance(),
    {
        self.ip = self.ip.wrapping_add(1);
    }

    /// Pop the top of the stack into a register. On a stack fault nothing
    /// changes.
    pub(crate) fn pop_into(&mut self, reg: &VMReg) -> (r: Result<(), Fault>)
        ensures
            carried_out(old(self)@, old(self)@.pop_into(*reg), final(self)@, r),
    {
        match self.pop() {
            Ok(val) => {
                self.set_reg(reg, val);
                Ok(())
            },
            Err(fault) => Err(fault),
        }
    }

    /// Store the outcome of a computation in a register, or pass its fault
    /// on and change nothing.
    pub(crate) fn store(&mut self, reg: &VMReg, outcome: Result<u64, Fault>) -> (r: Result<(), Fault>)
        ensures
            carried_out(old(self)@, old(self)@.store(*reg, outcome), final(self)@, r),
    {
        match outcome {
            Ok(val) => {
                self.set_reg(reg, val);
                Ok(())
            },
            Err(fault) => Err(fault),
        }
    }

    /// Fall through to the next instruction if `holds`, skip it otherwise.
    pub(crate) fn skip_unless(&mut self, holds: bool)
        ensures
            final(self)@ == old(self)@.skip_unless(holds),
    {
        if !holds {
            self.advance();
        }
    }

    /// Jump to the current address plus `off`.
    pub(crate) fn jump_by(&mut self, off: u64) -> (r: Result<(), Fault>)
        ensures
            carried_out(old(self)@, old(self)@.jump(old(self)@.ip + off), final(self)@, r),
    {
        match self.ip.checked_add(off) {
            Some(target) => self.jump_to(target),
            None => {
                proof {
                    self.lemma_view_wf();
                }
                Err(Fault::InvalidAddress)
            },
        }
    }

    /// Read one input byte into a register, ignoring carriage returns. With
    /// no byte to read nothing changes.
    pub(crate) fn input_into(&mut self, reg: &VMReg) -> (r: Result<(), Fault>)
        ensures
            carried_out(old(self)@, old(self)@.read_into(*reg), final(self)@, r),
    {
        match self.read_byte() {
            Some(byte) => {
                self.set_reg(reg, byte as u64);
                Ok(())
            },
            None => Err(Fault::InputExhausted),
        }
    }

    /// Append the low eight bits of a register to the output.
    pub(crate) fn print(&mut self, reg: &VMReg)
        ensures
            final(self)@ == old(self)@.print(*reg),
    {
        let byte = (self.get_reg(reg) % 256) as u8;
        self.output.push(byte);
    }

    /// Set the halt flag.
    pub(crate) fn halt(&mut self)
        ensures
            final(self)@ == old(self)@.halt(),
    {
        self.is_halted = true;
    }
}

} // verus!
