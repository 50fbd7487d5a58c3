//! The fetch-execute engine: instruction dispatch, single steps and bounded
//! runs.

use vstd::prelude::*;
use crate::isa::{VMOp, Fault};
use crate::laws::{law_run_ends, law_run_keeps_program};
use crate::machine::VM;
use crate::state::{State, carried_out, lemma_run_unfold};
use crate::word::{divide, shl, shr};

verus! {

impl VM {
    /// Perform the effect of one instruction, without the advance of the
    /// instruction pointer that ends a step. A fault changes nothing, except
    /// that a call with a bad target has pushed its return address.
    ///
    /// What each instruction does is the definition of [`State::execute`];
    /// a proof that needs it asks for it with `reveal(State::execute)`.
    #[verifier::rlimit(30)]
    pub fn exec_inst(&mut self, inst: &VMOp) -> (r: Result<(), Fault>)
        ensures
            carried_out(
                old(self)@.left_by_fault(*inst),
                old(self)@.execute(*inst),
                final(self)@,
                r,
            ),
    {
        proof {
            reveal(State::execute);
        }
        match inst {
            VMOp::PushI(imm) => self.push(*imm),
            VMOp::PushR(reg) => self.push(self.get_reg(reg)),
            VMOp::Pop(reg) => self.pop_into(reg),
            VMOp::Add(left, right) => {
                self.store(left, Ok(self.get_reg(left).wrapping_add(self.get_reg(right))))
            },
            VMOp::Sub(left, right) => {
                self.store(left, Ok(self.get_reg(left).wrapping_sub(self.get_reg(right))))
            },
            VMOp::Mul(left, right) => {
                self.store(left, Ok(self.get_reg(left).wrapping_mul(self.get_reg(right))))
            },
            VMOp::Div(left, right) => {
                self.store(left, divide(self.get_reg(left), self.get_reg(right)))
            },
            VMOp::Xor(left, right) => self.store(left, Ok(self.get_reg(left) ^ self.get_reg(right))),
            VMOp::And(left, right) => self.store(left, Ok(self.get_reg(left) & self.get_reg(right))),
            VMOp::Or(left, right) => self.store(left, Ok(self.get_reg(left) | self.get_reg(right))),
            VMOp::Shl(left, right) => {
                self.store(left, shl(self.get_reg(left), self.get_reg(right)))
            },
            VMOp::Shr(left, right) => {
                self.store(left, shr(self.get_reg(left), self.get_reg(right)))
            },
            VMOp::Inp(reg) => self.input_into(reg),
            VMOp::Eq(left, right) => {
                self.skip_unless(self.get_reg(left) == self.get_reg(right));
                Ok(())
            },
            VMOp::Gt(left, right) => {
                self.skip_unless(self.get_reg(left) > self.get_reg(right));
                Ok(())
            },
            VMOp::Lt(left, right) => {
                self.skip_unless(self.get_reg(left) < self.get_reg(right));
                Ok(())
            },
            VMOp::Jmp(addr) => self.jump_to(*addr),
            VMOp::JmpRel(off) => self.jump_by(*off),
            VMOp::Call(addr) => self.call(*addr),
            VMOp::Ret => self.ret(),
            VMOp::Print(reg) => {
                self.print(reg);
                Ok(())
            },
            VMOp::Halt => {
                self.halt();
                Ok(())
            },
        }
    }

    /// Take one step: start the machine if it is not running, fetch the
    /// instruction at the instruction pointer, execute it, and advance the
    /// instruction pointer by one unless the instruction halted the machine.
    /// On a fault the machine is running and otherwise as the faulting
    /// instruction left it.
    pub fn step(&mut self) -> (r: Result<(), Fault>)
        ensures
            carried_out(
                old(self)@.left_by_faulting_step(),
                old(self)@.step(),
                final(self)@,
                r,
            ),
    {
        self.start();
        match self.fetch() {
            None => Err(Fault::InvalidAddress),
            Some(inst) => match self.exec_inst(&inst) {
                Ok(()) => {
                    if !self.is_halted() {
                        self.advance();
                    }
                    Ok(())
                },
                Err(fault) => Err(fault),
            },
        }
    }

    /// Start the machine and let it take steps until it halts, faults, or
    /// has taken `budget` steps. A machine that stopped because the budget
    /// ran out is still running and can be run again, so a caller tells a
    /// halt from a pause by the halt flag; after a fault the machine is as
    /// the faulting step left it, running and not halted.
    pub fn run(&mut self, budget: u64) -> (r: Result<(), Fault>)
        ensures
            (final(self)@, r) == old(self)@.run(budget as nat),
            r is Err ==> !final(self)@.halted,
            r is Ok && !final(self)@.halted ==> old(self)@.started().steps(budget as nat) == Ok::<
                State,
                Fault,
            >(final(self)@),
            final(self)@.code == old(self)@.code,
    {
        let ghost begin = self@;
        proof {
            self.lemma_view_wf();
            law_run_ends(begin, budget as nat);
            law_run_keeps_program(begin, budget as nat);
        }
        self.start();
        let mut left = budget;
        while left > 0
            invariant
                !self@.halted,
                self@.run(left as nat) == begin.run(budget as nat),
                begin == old(self)@,
                begin.run(budget as nat).1 is Err ==> !begin.run(budget as nat).0.halted,
                begin.run(budget as nat).1 is Ok && !begin.run(budget as nat).0.halted
                    ==> begin.started().steps(budget as nat) == Ok::<State, Fault>(
                    begin.run(budget as nat).0,
                ),
                begin.run(budget as nat).0.code == begin.code,
            decreases left,
        {
            proof {
                lemma_run_unfold(self@, left as nat);
            }
            match self.step() {
                Ok(()) => {},
                Err(fault) => {
                    return Err(fault);
                },
            }
            if self.is_halted() {
                return Ok(());
            }
            left = left - 1;
        }
        Ok(())
    }
}

} // verus!
