//! General properties of the machine model, each proved for every state.

use vstd::prelude::*;
use crate::isa::{VMReg, VMOp, Fault};
use crate::state::{
    State, STACK_CAPACITY, CARRIAGE_RETURN, lemma_run_unfold, lemma_skip_carriage_returns,
};
use crate::word::{
    low_byte, shift_left, shift_right, wrap, word_modulus, WORD_BITS, lemma_wrap_back_and_forth,
};
use vstd::arithmetic::div_mod::lemma_mul_mod_noop_left;
use vstd::arithmetic::power2::{pow2, lemma2_to64, lemma_pow2_unfold};
use vstd::bits::lemma_u64_shr_is_div;

verus! {

/// Overwriting a register makes it hold the new value and changes no other
/// register.
pub proof fn law_register_write(s: State, target: VMReg, v: u64, other: VMReg)
    ensures
        s.with_reg(target, v).reg(target) == v,
        other != target ==> s.with_reg(target, v).reg(other) == s.reg(other),
{
}

/// `PushI(v)` followed by `Pop(r)`, on a machine whose stack has room, leaves
/// `v` in `r`. The stack pointer ends where it began, unless `r` is the stack
/// pointer itself and `v` is another value; no third register changes.
pub proof fn law_push_immediate_then_pop(s: State, v: u64, r: VMReg)
    requires
        s.wf(),
        s.sp < STACK_CAPACITY,
    ensures
        s.execute(VMOp::PushI(v)) matches Ok(pushed) && pushed.execute(VMOp::Pop(r)) matches Ok(
            popped,
        ) && {
            &&& popped == State { stack: s.stack.update(s.sp as int, v), ..s }.with_reg(r, v)
            &&& popped.reg(r) == v
            &&& (r != VMReg::SP || v == s.sp) ==> popped.sp == s.sp
            &&& forall|other: VMReg| other != r ==> popped.reg(other) == s.reg(other)
        },
{
    reveal(State::execute);
}

/// `PushR(from)` followed by `Pop(to)`, on a machine whose stack has room,
/// copies the value of `from` into `to`, and `from` still holds that value.
pub proof fn law_push_register_then_pop(s: State, from: VMReg, to: VMReg)
    requires
        s.wf(),
        s.sp < STACK_CAPACITY,
    ensures
        s.execute(VMOp::PushR(from)) matches Ok(pushed) && pushed.execute(VMOp::Pop(to)) matches Ok(
            popped,
        ) && {
            &&& popped == State { stack: s.stack.update(s.sp as int, s.reg(from)), ..s }.with_reg(
                to,
                s.reg(from),
            )
            &&& popped.reg(to) == s.reg(from)
            &&& popped.reg(from) == s.reg(from)
        },
{
    reveal(State::execute);
}

/// An arithmetic or bitwise instruction puts the result of its operation on
/// the two operand values into the left register and changes nothing else.
/// So the right register keeps its value, unless it is the left register.
/// The shifts are meant with an amount below the word width.
pub proof fn law_binary_instructions(s: State, l: VMReg, r: VMReg)
    ensures
        s.execute(VMOp::Add(l, r)) == Ok::<State, Fault>(s.with_reg(l, wrap(s.reg(l) + s.reg(r)))),
        s.execute(VMOp::Sub(l, r)) == Ok::<State, Fault>(s.with_reg(l, wrap(s.reg(l) - s.reg(r)))),
        s.execute(VMOp::Mul(l, r)) == Ok::<State, Fault>(s.with_reg(l, wrap(s.reg(l) * s.reg(r)))),
        s.execute(VMOp::Xor(l, r)) == Ok::<State, Fault>(s.with_reg(l, s.reg(l) ^ s.reg(r))),
        s.execute(VMOp::And(l, r)) == Ok::<State, Fault>(s.with_reg(l, s.reg(l) & s.reg(r))),
        s.execute(VMOp::Or(l, r)) == Ok::<State, Fault>(s.with_reg(l, s.reg(l) | s.reg(r))),
        s.reg(r) < WORD_BITS ==> s.execute(VMOp::Shl(l, r)) == Ok::<State, Fault>(
            s.with_reg(l, s.reg(l) << s.reg(r)),
        ),
        s.reg(r) < WORD_BITS ==> s.execute(VMOp::Shr(l, r)) == Ok::<State, Fault>(
            s.with_reg(l, s.reg(l) >> s.reg(r)),
        ),
        forall|v: u64| #[trigger] s.with_reg(l, v).reg(l) == v,
        forall|v: u64| l != r ==> #[trigger] s.with_reg(l, v).reg(r) == s.reg(r),
{
    reveal(State::execute);
}

/// What wraparound means for sums and differences of words: a sum that does
/// not fit loses one modulus, a difference below zero gains one.
pub proof fn law_wraparound(x: u64, y: u64)
    ensures
        wrap(x + y) == (if x + y <= u64::MAX {
            x + y
        } else {
            x + y - word_modulus()
        }),
        wrap(x - y) == (if x >= y {
            x - y
        } else {
            x - y + word_modulus()
        }),
        wrap(x * y) == (x * y) % word_modulus(),
{
    assert(0 <= x * y) by (nonlinear_arith);
}

/// Shifting a word left by `k` doubles it `k` times, with wraparound.
proof fn lemma_shift_left_doubles(x: u64, k: u64)
    requires
        k < WORD_BITS,
    ensures
        x << k == wrap(x * pow2(k as nat)),
    decreases k,
{
    if k == 0 {
        assert(x << 0u64 == x) by (bit_vector);
        lemma2_to64();
        assert(x * pow2(0) == x);
    } else {
        let j = (k - 1) as u64;
        let half = x << j;
        let whole = x * pow2(j as nat);
        lemma_shift_left_doubles(x, j);
        assert(half == whole % word_modulus());
        assert(x << k == (half * 2) % 0x1_0000_0000_0000_0000) by (bit_vector)
            requires
                k == j + 1,
                k < 64,
                half == x << j,
        ;
        lemma_mul_mod_noop_left(whole, 2, word_modulus());
        assert((half * 2) % word_modulus() == (whole * 2) % word_modulus());
        lemma_pow2_unfold(k as nat);
        assert(whole * 2 == x * pow2(k as nat)) by (nonlinear_arith)
            requires
                whole == x * pow2(j as nat),
                pow2(k as nat) == 2 * pow2(j as nat),
        ;
    }
}

/// What the shifts mean as arithmetic: a shift to the left by `k` multiplies
/// by two to the power `k`, with wraparound; a shift to the right by `k`
/// divides by two to the power `k`, rounding down.
pub proof fn law_shifts_are_arithmetic(x: u64, k: u64)
    requires
        k < WORD_BITS,
    ensures
        shift_left(x, k) == Ok::<u64, Fault>(wrap(x * pow2(k as nat))),
        shift_right(x, k) == Ok::<u64, Fault>((x as nat / pow2(k as nat)) as u64),
{
    lemma_shift_left_doubles(x, k);
    lemma_u64_shr_is_div(x, k);
}

/// Addition, multiplication and the three bitwise operations give the same
/// word whichever operand comes first.
pub proof fn law_commutative_operations(x: u64, y: u64)
    ensures
        wrap(x + y) == wrap(y + x),
        wrap(x * y) == wrap(y * x),
        x ^ y == y ^ x,
        x & y == y & x,
        x | y == y | x,
{
    assert(x * y == y * x) by (nonlinear_arith);
    assert(x ^ y == y ^ x) by (bit_vector);
    assert(x & y == y & x) by (bit_vector);
    assert(x | y == y | x) by (bit_vector);
}

/// A shift fails exactly when its amount is the word width or more, a
/// division exactly when its divisor is zero; both then fail with an
/// arithmetic fault. Addition, subtraction and multiplication never fail.
pub proof fn law_arithmetic_faults(s: State, l: VMReg, r: VMReg)
    ensures
        s.execute(VMOp::Add(l, r)) is Ok,
        s.execute(VMOp::Sub(l, r)) is Ok,
        s.execute(VMOp::Mul(l, r)) is Ok,
        s.execute(VMOp::Div(l, r)) is Err <==> s.reg(r) == 0,
        s.execute(VMOp::Shl(l, r)) is Err <==> s.reg(r) >= WORD_BITS,
        s.execute(VMOp::Shr(l, r)) is Err <==> s.reg(r) >= WORD_BITS,
        s.execute(VMOp::Div(l, r)) matches Err(fault) ==> fault == Fault::ArithmeticFault,
        s.execute(VMOp::Shl(l, r)) matches Err(fault) ==> fault == Fault::ArithmeticFault,
        s.execute(VMOp::Shr(l, r)) matches Err(fault) ==> fault == Fault::ArithmeticFault,
{
    reveal(State::execute);
}

/// Division by a register that holds zero is an arithmetic fault. A machine
/// about to execute such a division stops with that fault, running and not
/// halted, and otherwise as it was.
pub proof fn law_division_by_zero(s: State, l: VMReg, r: VMReg, budget: nat)
    requires
        s.reg(r) == 0,
    ensures
        s.execute(VMOp::Div(l, r)) == Err::<State, Fault>(Fault::ArithmeticFault),
        s.fetch() == Some(VMOp::Div(l, r)) ==> {
            &&& s.step() == Err::<State, Fault>(Fault::ArithmeticFault)
            &&& budget > 0 ==> s.run(budget) == (
                s.started(),
                Err::<(), Fault>(Fault::ArithmeticFault),
            )
            &&& !s.started().halted
        },
{
    reveal(State::execute);
}

/// Advancing moves the instruction pointer to the next address; from the
/// largest word, which has no next, it wraps around to address zero.
pub proof fn law_advance_wraps(s: State)
    ensures
        s.advance() == (State { ip: (if s.ip < u64::MAX { s.ip + 1 } else { 0 }) as u64, ..s }),
        s.skip_unless(true) == s,
        s.skip_unless(false) == s.advance(),
{
}

/// Where a comparison at address `s.ip` leaves a machine: started, with the
/// instruction pointer on the next instruction if the relation holds and on
/// the one after it if not, and nothing else changed.
pub open spec fn after_comparison(s: State, holds: bool) -> State {
    State { ip: (if holds { s.ip + 1 } else { s.ip + 2 }) as u64, ..s.started() }
}

/// A comparison falls through to the instruction behind it when its relation
/// holds, and skips that one for the second behind it when it does not:
/// `Eq` unless the left value equals the right, `Gt` unless it is strictly
/// greater, `Lt` unless it is strictly less. Nothing but the instruction
/// pointer changes. Stated for a comparison that has two instructions
/// behind it in the program.
pub proof fn law_comparison_skips(s: State, l: VMReg, r: VMReg)
    requires
        s.wf(),
        s.ip + 2 < s.code.len(),
    ensures
        s.fetch() == Some(VMOp::Eq(l, r)) ==> s.step() == Ok::<State, Fault>(
            after_comparison(s, s.reg(l) == s.reg(r)),
        ),
        s.fetch() == Some(VMOp::Gt(l, r)) ==> s.step() == Ok::<State, Fault>(
            after_comparison(s, s.reg(l) > s.reg(r)),
        ),
        s.fetch() == Some(VMOp::Lt(l, r)) ==> s.step() == Ok::<State, Fault>(
            after_comparison(s, s.reg(l) < s.reg(r)),
        ),
        after_comparison(s, true).fetch() == Some(s.code[s.ip + 1]),
        after_comparison(s, false).fetch() == Some(s.code[s.ip + 2]),
{
    let running = s.started();
    let eq = s.reg(l) == s.reg(r);
    let gt = s.reg(l) > s.reg(r);
    let lt = s.reg(l) < s.reg(r);
    assert(running.execute(VMOp::Eq(l, r)) == Ok::<State, Fault>(running.skip_unless(eq))) by {
        reveal(State::execute);
    }
    assert(running.execute(VMOp::Gt(l, r)) == Ok::<State, Fault>(running.skip_unless(gt))) by {
        reveal(State::execute);
    }
    assert(running.execute(VMOp::Lt(l, r)) == Ok::<State, Fault>(running.skip_unless(lt))) by {
        reveal(State::execute);
    }
    if s.fetch() == Some(VMOp::Eq(l, r)) {
        lemma_skip_step(s, VMOp::Eq(l, r), eq);
    }
    if s.fetch() == Some(VMOp::Gt(l, r)) {
        lemma_skip_step(s, VMOp::Gt(l, r), gt);
    }
    if s.fetch() == Some(VMOp::Lt(l, r)) {
        lemma_skip_step(s, VMOp::Lt(l, r), lt);
    }
}

/// A step at an instruction that only decides whether to skip its successor.
proof fn lemma_skip_step(s: State, inst: VMOp, holds: bool)
    requires
        s.wf(),
        s.ip + 2 < s.code.len(),
        s.fetch() == Some(inst),
        s.started().execute(inst) == Ok::<State, Fault>(s.started().skip_unless(holds)),
    ensures
        s.step() == Ok::<State, Fault>(after_comparison(s, holds)),
{
}

/// A jump to an address inside the program makes exactly that address the
/// next one to be fetched, and changes nothing else; a run goes on from
/// there. `Jmp` names the address, `JmpRel` gives its distance from the
/// jump itself.
pub proof fn law_jump_lands(s: State, target: u64, budget: nat)
    requires
        s.wf(),
        target < s.code.len(),
        s.fetch() == Some(VMOp::Jmp(target)) || (s.ip <= target && s.fetch() == Some(
            VMOp::JmpRel((target - s.ip) as u64),
        )),
    ensures
        s.step() == Ok::<State, Fault>(State { ip: target, ..s.started() }),
        s.run(budget + 1) == (State { ip: target, ..s.started() }).run(budget),
{
    reveal(State::execute);
    let landed = State { ip: target, ..s.started() };
    assert(s.step() == Ok::<State, Fault>(landed)) by {
        lemma_wrap_back_and_forth(target);
    }
    lemma_run_unfold(s, budget + 1);
}

/// A jump to an address outside the program is an invalid address.
pub proof fn law_jump_outside(s: State, addr: u64, off: u64)
    ensures
        addr >= s.code.len() ==> s.execute(VMOp::Jmp(addr)) == Err::<State, Fault>(
            Fault::InvalidAddress,
        ),
        s.ip + off >= s.code.len() ==> s.execute(VMOp::JmpRel(off)) == Err::<State, Fault>(
            Fault::InvalidAddress,
        ),
        addr >= s.code.len() && s.sp < STACK_CAPACITY ==> s.execute(VMOp::Call(addr)) == Err::<
            State,
            Fault,
        >(Fault::InvalidAddress),
{
    reveal(State::execute);
}

/// A machine whose instruction pointer is not the address of an instruction
/// cannot take a step: fetching there is an invalid address. This is what
/// happens when execution runs off the end of a program.
pub proof fn law_fetch_outside(s: State, budget: nat)
    requires
        s.ip >= s.code.len(),
    ensures
        s.step() == Err::<State, Fault>(Fault::InvalidAddress),
        budget > 0 ==> s.run(budget) == (s.started(), Err::<(), Fault>(Fault::InvalidAddress)),
{
}

/// What an instruction leaves alone. No instruction changes the program or
/// the size of the stack, and none writes to a stack slot other than the one
/// at the stack pointer. Only `Print` writes output, and it writes one byte;
/// only `Inp` takes input; only `Halt` sets the halt flag. A general-purpose
/// register changes only under an instruction that names it as the register
/// it stores into.
pub proof fn law_execute_frame(s: State, inst: VMOp)
    requires
        s.wf(),
    ensures
        s.execute(inst) matches Ok(next) ==> {
            &&& next.wf()
            &&& next.code == s.code
            &&& forall|i: int| 0 <= i < STACK_CAPACITY && i != s.sp ==> next.stack[i] == s.stack[i]
            &&& next.output == (match inst {
                VMOp::Print(r) => s.output.push(low_byte(s.reg(r))),
                _ => s.output,
            })
            &&& !(inst is Inp) ==> next.input == s.input
            &&& next.halted == (s.halted || inst is Halt)
            &&& forall|g: VMReg|
                g != VMReg::IP && g != VMReg::SP && !inst.stores_into(g) ==> next.reg(g) == s.reg(
                    g,
                )
        },
{
    reveal(State::execute);
    match inst {
        VMOp::PushI(_) | VMOp::PushR(_) | VMOp::Pop(_) => {},
        VMOp::Add(_, _) | VMOp::Sub(_, _) | VMOp::Mul(_, _) | VMOp::Div(_, _) => {},
        VMOp::Xor(_, _) | VMOp::And(_, _) | VMOp::Or(_, _) => {},
        VMOp::Shl(_, _) | VMOp::Shr(_, _) => {},
        VMOp::Eq(_, _) | VMOp::Gt(_, _) | VMOp::Lt(_, _) => {},
        VMOp::Jmp(_) | VMOp::JmpRel(_) | VMOp::Call(_) | VMOp::Ret => {},
        VMOp::Inp(_) | VMOp::Print(_) | VMOp::Halt => {},
    }
}

/// A step keeps the machine well formed and the program as it is, and
/// writes to no stack slot other than the one at the stack pointer.
pub proof fn law_step_frame(s: State)
    requires
        s.wf(),
    ensures
        s.step() matches Ok(next) ==> {
            &&& next.wf()
            &&& next.code == s.code
            &&& forall|i: int| 0 <= i < STACK_CAPACITY && i != s.sp ==> next.stack[i] == s.stack[i]
        },
{
    match s.started().fetch() {
        Some(inst) => {
            law_execute_frame(s.started(), inst);
        },
        None => {},
    }
}

/// An instruction that does not name the stack pointer as the register it
/// stores into keeps a stack pointer that is within the stack within it.
pub proof fn law_stack_pointer_kept_in_bounds(s: State, inst: VMOp)
    requires
        s.wf(),
        s.sp <= STACK_CAPACITY,
        !inst.stores_into(VMReg::SP),
    ensures
        s.execute(inst) matches Ok(next) ==> next.sp <= STACK_CAPACITY,
{
    reveal(State::execute);
    match inst {
        VMOp::PushI(_) | VMOp::PushR(_) | VMOp::Pop(_) => {},
        VMOp::Add(_, _) | VMOp::Sub(_, _) | VMOp::Mul(_, _) | VMOp::Div(_, _) => {},
        VMOp::Xor(_, _) | VMOp::And(_, _) | VMOp::Or(_, _) => {},
        VMOp::Shl(_, _) | VMOp::Shr(_, _) => {},
        VMOp::Eq(_, _) | VMOp::Gt(_, _) | VMOp::Lt(_, _) => {},
        VMOp::Jmp(_) | VMOp::JmpRel(_) | VMOp::Call(_) | VMOp::Ret => {},
        VMOp::Inp(_) | VMOp::Print(_) | VMOp::Halt => {},
    }
}

/// However many steps a machine takes, its program stays what it was. And
/// if no instruction of the program names the stack pointer as the register
/// it stores into, a stack pointer that starts within the stack stays within
/// it: such a program can overflow or underflow the stack only by way of a
/// stack fault.
pub proof fn law_steps_keep_program_and_stack_pointer(s: State, n: nat)
    requires
        s.wf(),
    ensures
        s.steps(n) matches Ok(reached) ==> {
            &&& reached.wf()
            &&& reached.code == s.code
            &&& (s.sp <= STACK_CAPACITY && forall|i: int|
                0 <= i < s.code.len() ==> !(#[trigger] s.code[i]).stores_into(VMReg::SP))
                ==> reached.sp <= STACK_CAPACITY
        },
    decreases n,
{
    if n > 0 {
        law_steps_keep_program_and_stack_pointer(s, (n - 1) as nat);
        match s.steps((n - 1) as nat) {
            Ok(before) => {
                law_step_frame(before);
                match before.started().fetch() {
                    Some(inst) => {
                        if before.sp <= STACK_CAPACITY && !inst.stores_into(VMReg::SP) {
                            law_stack_pointer_kept_in_bounds(before.started(), inst);
                        }
                    },
                    None => {},
                }
            },
            Err(_) => {},
        }
    }
}

/// A run leaves the program as it was.
pub proof fn law_run_keeps_program(s: State, budget: nat)
    requires
        s.wf(),
    ensures
        s.run(budget).0.wf(),
        s.run(budget).0.code == s.code,
    decreases budget,
{
    if budget > 0 {
        lemma_run_unfold(s, budget);
        law_step_frame(s);
        match s.step() {
            Ok(next) => {
                if !next.halted {
                    law_run_keeps_program(next, (budget - 1) as nat);
                }
            },
            Err(_) => {},
        }
    }
}

/// While the stack pointer stays above a slot, step after step, the word in
/// that slot stays what it was after the first step.
proof fn lemma_slot_survives(s: State, slot: int, n: nat)
    requires
        s.wf(),
        0 <= slot < STACK_CAPACITY,
        n >= 1,
        forall|k: nat|
            1 <= k <= n ==> ((#[trigger] s.steps(k)) matches Ok(reached) && reached.sp > slot),
    ensures
        s.steps(n) matches Ok(reached) && s.step() matches Ok(first) && {
            &&& reached.wf()
            &&& reached.code == s.code
            &&& reached.stack[slot] == first.stack[slot]
        },
    decreases n,
{
    if n == 1 {
        lemma_first_step(s);
        assert(s.steps(1) is Ok);
        law_step_frame(s);
    } else {
        let before = (n - 1) as nat;
        assert(s.steps(before) is Ok);
        lemma_slot_survives(s, slot, before);
        law_step_frame(s.steps(before)->Ok_0);
        assert(s.steps(n) is Ok);
    }
}

/// One step is what `steps` takes first.
proof fn lemma_first_step(s: State)
    ensures
        s.steps(1) == s.step(),
{
    reveal_with_fuel(State::steps, 2);
}

/// What a step does at a call that succeeds: the address after the call is
/// pushed and the target becomes the next address.
pub proof fn law_call_step(s: State, addr: u64)
    requires
        s.wf(),
        s.fetch() == Some(VMOp::Call(addr)),
        s.sp < STACK_CAPACITY,
        addr < s.code.len(),
    ensures
        s.step() == Ok::<State, Fault>(
            State {
                ip: addr,
                sp: (s.sp + 1) as u64,
                stack: s.stack.update(s.sp as int, (s.ip + 1) as u64),
                ..s.started()
            },
        ),
{
    reveal(State::execute);
    lemma_wrap_back_and_forth(addr);
}

/// What a return does. The instruction pops the top of the stack and
/// leaves the instruction pointer one below the popped word, whatever that
/// word is; the step then lands on the popped word itself. A return faults
/// only with a stack fault, when there is nothing to pop.
pub proof fn law_return_step(s: State)
    requires
        s.wf(),
        0 < s.sp <= STACK_CAPACITY,
    ensures
        s.execute(VMOp::Ret) == Ok::<State, Fault>(
            State { ip: wrap(s.stack[s.sp - 1] - 1), sp: (s.sp - 1) as u64, ..s },
        ),
        s.fetch() == Some(VMOp::Ret) ==> s.step() == Ok::<State, Fault>(
            State { ip: s.stack[s.sp - 1], sp: (s.sp - 1) as u64, ..s.started() },
        ),
{
    reveal(State::execute);
    lemma_wrap_back_and_forth(s.stack[s.sp - 1]);
}

/// A return to a word that is not the address of an instruction succeeds,
/// and the step after it faults at the fetch with an invalid address.
pub proof fn law_return_outside(s: State)
    requires
        s.wf(),
        s.fetch() == Some(VMOp::Ret),
        0 < s.sp <= STACK_CAPACITY,
        s.stack[s.sp - 1] >= s.code.len(),
    ensures
        s.step() matches Ok(returned) && returned.ip == s.stack[s.sp - 1] && returned.step()
            == Err::<State, Fault>(Fault::InvalidAddress),
{
    law_return_step(s);
}

/// A call that is eventually followed by its return resumes at the
/// instruction right after the call, with the stack pointer where it was
/// before the call.
///
/// The machine is at a call. It then takes
/// `n` steps without a fault, the first of them the call, during which the
/// stack pointer never comes back down to where it was: the called code may
/// push, pop, call and return to any depth, as long as it leaves the return
/// address alone. If it is then at a `Ret` with the stack pointer one above
/// where it was, the next step lands right after the call.
pub proof fn law_call_returns(s: State, addr: u64, n: nat)
    requires
        s.wf(),
        s.fetch() == Some(VMOp::Call(addr)),
        n >= 1,
        forall|k: nat|
            1 <= k <= n ==> ((#[trigger] s.steps(k)) matches Ok(reached) && reached.sp > s.sp),
        s.steps(n) matches Ok(reached) && reached.sp == s.sp + 1 && reached.fetch() == Some(
            VMOp::Ret,
        ),
    ensures
        s.steps(n + 1) matches Ok(back) && back.ip == s.ip + 1 && back.sp == s.sp,
{
    lemma_first_step(s);
    assert(s.steps(1) is Ok);
    assert(s.sp < STACK_CAPACITY && addr < s.code.len()) by {
        reveal(State::execute);
    }
    law_call_step(s, addr);
    lemma_slot_survives(s, s.sp as int, n);
    let reached = s.steps(n)->Ok_0;
    law_return_step(reached);
}

/// A call on a full stack is a stack fault, whatever its target.
pub proof fn law_call_on_full_stack(s: State, addr: u64)
    requires
        s.sp >= STACK_CAPACITY,
    ensures
        s.execute(VMOp::Call(addr)) == Err::<State, Fault>(Fault::StackFault),
        s.fetch() == Some(VMOp::Call(addr)) ==> s.step() == Err::<State, Fault>(Fault::StackFault),
{
    reveal(State::execute);
}

/// A word pushed onto a stack with room is the word popped next, and the
/// stack pointer is back where it was.
pub proof fn law_push_then_pop(s: State, v: u64)
    requires
        s.wf(),
        s.sp < STACK_CAPACITY,
    ensures
        s.push(v) matches Ok(pushed) && pushed.pop() matches Ok((popped, top)) && {
            &&& top == v
            &&& popped.sp == s.sp
            &&& popped == State { stack: s.stack.update(s.sp as int, v), ..s }
        },
{
}

/// A push faults exactly when the stack pointer is at or beyond the
/// capacity, a pop exactly when it is zero or beyond the capacity.
pub proof fn law_stack_bounds(s: State, v: u64)
    ensures
        s.push(v) is Err <==> s.sp >= STACK_CAPACITY,
        s.pop() is Err <==> (s.sp == 0 || s.sp > STACK_CAPACITY),
        s.push(v) is Err ==> s.push(v) == Err::<State, Fault>(Fault::StackFault),
        s.pop() is Err ==> s.pop() == Err::<(State, u64), Fault>(Fault::StackFault),
{
}

/// An input instruction skips the carriage returns at the head of the
/// pending input, stores the first other byte in its register and leaves
/// what follows that byte pending.
pub proof fn law_input_skips_carriage_returns(s: State, r: VMReg, k: int)
    requires
        0 <= k < s.input.len(),
        forall|i: int| 0 <= i < k ==> s.input[i] == CARRIAGE_RETURN,
        s.input[k] != CARRIAGE_RETURN,
    ensures
        s.execute(VMOp::Inp(r)) == Ok::<State, Fault>(
            State { input: s.input.subrange(k + 1, s.input.len() as int), ..s }.with_reg(
                r,
                s.input[k] as u64,
            ),
        ),
{
    reveal(State::execute);
    lemma_skip_carriage_returns(s.input, k);
    let rest = s.input.subrange(k, s.input.len() as int);
    assert(rest.drop_first() =~= s.input.subrange(k + 1, s.input.len() as int));
}

/// With nothing pending but carriage returns, an input instruction faults
/// because the input is exhausted.
pub proof fn law_input_exhausted(s: State, r: VMReg)
    requires
        forall|i: int| 0 <= i < s.input.len() ==> s.input[i] == CARRIAGE_RETURN,
    ensures
        s.execute(VMOp::Inp(r)) == Err::<State, Fault>(Fault::InputExhausted),
{
    reveal(State::execute);
    lemma_skip_carriage_returns(s.input, s.input.len() as int);
}

/// `Halt` sets the halt flag and nothing else; the instruction pointer stays
/// on the `Halt`. A run that reaches it ends there without a fault.
pub proof fn law_halt_stops(s: State, budget: nat)
    requires
        s.fetch() == Some(VMOp::Halt),
    ensures
        s.step() == Ok::<State, Fault>(State { halted: true, ..s }),
        budget > 0 ==> s.run(budget) == (State { halted: true, ..s }, Ok::<(), Fault>(())),
{
    reveal(State::execute);
}

/// A run ends in one of three ways. After a fault the machine is running,
/// not halted. Without a fault the machine is either halted, or running
/// with its budget used up, and then it is where `budget` steps lead.
pub proof fn law_run_ends(s: State, budget: nat)
    ensures
        s.run(budget).1 is Err ==> !s.run(budget).0.halted,
        s.run(budget).1 is Ok && !s.run(budget).0.halted ==> s.started().steps(budget) == Ok::<
            State,
            Fault,
        >(s.run(budget).0),
    decreases budget,
{
    lemma_steps_after_first(s.started(), budget);
    if budget > 0 {
        lemma_run_unfold(s, budget);
        assert(s.started().step() == s.step());
        match s.step() {
            Ok(next) => {
                if !next.halted {
                    law_run_ends(next, (budget - 1) as nat);
                    assert(next.started() == next);
                    lemma_steps_after_first(s.started(), (budget - 1) as nat);
                }
            },
            Err(_) => {},
        }
    }
}

/// A fault in a step changes nothing but the halt flag, which it clears,
/// unless the step is a call whose target is not the address of an
/// instruction: then the return address has been pushed.
pub proof fn law_fault_leaves_state(s: State)
    requires
        s.wf(),
    ensures
        !(s.fetch() is Some && s.fetch()->Some_0 is Call) ==> s.left_by_faulting_step()
            == s.started(),
        forall|addr: u64|
            s.fetch() == Some(VMOp::Call(addr)) ==> #[trigger] s.left_by_fault(VMOp::Call(addr))
                == (if s.sp < STACK_CAPACITY {
                State {
                    stack: s.stack.update(s.sp as int, (s.ip + 1) as u64),
                    sp: (s.sp + 1) as u64,
                    ..s
                }
            } else {
                s
            }),
        s.left_by_faulting_step().wf(),
        s.left_by_faulting_step().code == s.code,
        !s.left_by_faulting_step().halted,
{
}

/// A call to an address outside the program, on a stack with room, pushes
/// its return address and then faults with an invalid address.
pub proof fn law_call_outside(s: State, addr: u64)
    requires
        s.wf(),
        s.fetch() == Some(VMOp::Call(addr)),
        s.sp < STACK_CAPACITY,
        addr >= s.code.len(),
    ensures
        s.step() == Err::<State, Fault>(Fault::InvalidAddress),
        s.left_by_faulting_step() == (State {
            stack: s.stack.update(s.sp as int, (s.ip + 1) as u64),
            sp: (s.sp + 1) as u64,
            ..s.started()
        }),
{
    reveal(State::execute);
}

/// Taking `n + 1` steps is taking one step and then `n` more.
proof fn lemma_steps_after_first(s: State, n: nat)
    ensures
        s.steps(n + 1) == (match s.step() {
            Ok(next) => next.steps(n),
            Err(fault) => Err::<State, Fault>(fault),
        }),
    decreases n,
{
    reveal_with_fuel(State::steps, 2);
    if n > 0 {
        lemma_steps_after_first(s, (n - 1) as nat);
    }
}

/// How a run with budget `budget`, which ended in `ended`, relates to the
/// `k` steps that led to the state `reached`: without a fault the run ended
/// in `reached`, halted at step `k` or with the budget used up; with a
/// fault, step `k + 1` met that fault and left the state the run ended in.
pub open spec fn run_stopped_after(
    ended: (State, Result<(), Fault>),
    budget: nat,
    k: nat,
    reached: State,
) -> bool {
    match ended.1 {
        Err(fault) => {
            &&& k < budget
            &&& reached.step() == Err::<State, Fault>(fault)
            &&& ended.0 == reached.left_by_faulting_step()
        },
        Ok(_) => {
            &&& ended.0 == reached
            &&& if reached.halted {
                k > 0
            } else {
                k == budget
            }
        },
    }
}

/// A run does what its steps do, and stops at the first of three events:
/// the machine has halted, its next step faults, or the budget is used up.
/// So for some `k` within the budget the machine takes `k` steps without a
/// fault and without a halt before the last of them, and the run ends as
/// [`run_stopped_after`] says of these steps.
pub proof fn law_run_follows_steps(s: State, budget: nat)
    ensures
        exists|k: nat, reached: State|
            {
                &&& k <= budget
                &&& #[trigger] s.reaches(k, reached)
                &&& run_stopped_after(s.run(budget), budget, k, reached)
            },
    decreases budget,
{
    let start = s.started();
    assert(start.started() == start);
    assert(start.steps(0) == Ok::<State, Fault>(start));
    if budget == 0 {
        assert(s.reaches(0, start));
    } else {
        lemma_run_unfold(s, budget);
        assert(start.step() == s.step());
        assert(start.left_by_faulting_step() == s.left_by_faulting_step());
        match s.step() {
            Err(_) => {
                assert(s.reaches(0, start));
            },
            Ok(next) => {
                lemma_steps_after_first(start, 0);
                assert(next.steps(0) == Ok::<State, Fault>(next));
                if next.halted {
                    assert(s.reaches(1, next));
                } else {
                    let rest = (budget - 1) as nat;
                    law_run_follows_steps(next, rest);
                    assert(next.started() == next);
                    let (k, reached) = choose|k: nat, reached: State|
                        {
                            &&& k <= rest
                            &&& #[trigger] next.reaches(k, reached)
                            &&& run_stopped_after(next.run(rest), rest, k, reached)
                        };
                    lemma_steps_after_first(start, k);
                    assert forall|j: nat| 0 < j < k + 1 implies ((#[trigger] start.steps(j)) matches Ok(
                        passed,
                    ) && !passed.halted) by {
                        lemma_steps_after_first(start, (j - 1) as nat);
                    }
                    assert(s.reaches(k + 1, reached));
                    assert(run_stopped_after(s.run(budget), budget, k + 1, reached));
                }
            },
        }
    }
}

/// The step budget only decides where a run pauses, not what the machine
/// does: a run that paused because its budget ran out, run again, ends as
/// one run with both budgets would have.
pub proof fn law_run_resumes(s: State, first: nat, second: nat)
    ensures
        s.run(first + second) == (if s.run(first).1 is Ok && !s.run(first).0.halted {
            s.run(first).0.run(second)
        } else {
            s.run(first)
        }),
    decreases first,
{
    if first == 0 {
        assert(s.started().run(second) == s.run(second)) by {
            assert(s.started().started() == s.started());
        }
    } else {
        lemma_run_unfold(s, first);
        lemma_run_unfold(s, first + second);
        match s.step() {
            Ok(next) => {
                if !next.halted {
                    law_run_resumes(next, (first - 1) as nat, second);
                }
            },
            Err(_) => {},
        }
    }
}

} // verus!
