use rusty_bustacean::isa::{Fault, VMOp, VMReg};
use rusty_bustacean::machine::VM;

/// A comparison at address 0 followed by two instructions that leave
/// different marks, so that the mark tells which one ran first.
fn after_comparison(inst: VMOp, a: u64, b: u64) -> VM {
    let mut vm = VM::new(vec![
        inst,
        VMOp::PushI(111),
        VMOp::PushI(222),
        VMOp::Halt,
    ]);
    vm.set_reg(&VMReg::A, a);
    vm.set_reg(&VMReg::B, b);
    assert_eq!(vm.step(), Ok(()));
    assert_eq!(vm.get_reg(&VMReg::A), a);
    assert_eq!(vm.get_reg(&VMReg::B), b);
    assert_eq!(vm.get_reg(&VMReg::SP), 0);
    vm
}

fn next_mark(vm: &mut VM) -> u64 {
    assert_eq!(vm.step(), Ok(()));
    vm.pop().unwrap()
}

#[test]
fn eq_falls_through_when_equal_and_skips_otherwise() {
    let mut vm = after_comparison(VMOp::Eq(VMReg::A, VMReg::B), 4, 4);
    assert_eq!(vm.get_reg(&VMReg::IP), 1);
    assert_eq!(next_mark(&mut vm), 111);
    let mut vm = after_comparison(VMOp::Eq(VMReg::A, VMReg::B), 4, 5);
    assert_eq!(vm.get_reg(&VMReg::IP), 2);
    assert_eq!(next_mark(&mut vm), 222);
    let mut vm = after_comparison(VMOp::Eq(VMReg::A, VMReg::B), 5, 4);
    assert_eq!(vm.get_reg(&VMReg::IP), 2);
    assert_eq!(next_mark(&mut vm), 222);
}

#[test]
fn gt_skips_unless_strictly_greater() {
    let mut vm = after_comparison(VMOp::Gt(VMReg::A, VMReg::B), 5, 4);
    assert_eq!(vm.get_reg(&VMReg::IP), 1);
    assert_eq!(next_mark(&mut vm), 111);
    let mut vm = after_comparison(VMOp::Gt(VMReg::A, VMReg::B), 4, 4);
    assert_eq!(vm.get_reg(&VMReg::IP), 2);
    assert_eq!(next_mark(&mut vm), 222);
    let mut vm = after_comparison(VMOp::Gt(VMReg::A, VMReg::B), 3, 4);
    assert_eq!(vm.get_reg(&VMReg::IP), 2);
    assert_eq!(next_mark(&mut vm), 222);
}

#[test]
fn lt_skips_unless_strictly_less() {
    let mut vm = after_comparison(VMOp::Lt(VMReg::A, VMReg::B), 3, 4);
    assert_eq!(vm.get_reg(&VMReg::IP), 1);
    assert_eq!(next_mark(&mut vm), 111);
    let mut vm = after_comparison(VMOp::Lt(VMReg::A, VMReg::B), 4, 4);
    assert_eq!(vm.get_reg(&VMReg::IP), 2);
    assert_eq!(next_mark(&mut vm), 222);
    let mut vm = after_comparison(VMOp::Lt(VMReg::A, VMReg::B), 5, 4);
    assert_eq!(vm.get_reg(&VMReg::IP), 2);
    assert_eq!(next_mark(&mut vm), 222);
}

#[test]
fn comparisons_are_unsigned() {
    let vm = after_comparison(VMOp::Gt(VMReg::A, VMReg::B), u64::MAX, 0);
    assert_eq!(vm.get_reg(&VMReg::IP), 1);
    let vm = after_comparison(VMOp::Lt(VMReg::A, VMReg::B), u64::MAX, 0);
    assert_eq!(vm.get_reg(&VMReg::IP), 2);
}

#[test]
fn exec_inst_of_a_comparison_moves_only_the_instruction_pointer() {
    let mut vm = VM::new(Vec::new());
    vm.set_reg(&VMReg::IP, 40);
    vm.set_reg(&VMReg::A, 1);
    assert_eq!(vm.exec_inst(&VMOp::Eq(VMReg::A, VMReg::B)), Ok(()));
    assert_eq!(vm.get_reg(&VMReg::IP), 41);
    assert_eq!(vm.exec_inst(&VMOp::Eq(VMReg::A, VMReg::A)), Ok(()));
    assert_eq!(vm.get_reg(&VMReg::IP), 41);
}

#[test]
fn jmp_resumes_exactly_at_its_target() {
    let mut vm = VM::new(vec![
        VMOp::Jmp(3),
        VMOp::PushI(111),
        VMOp::PushI(222),
        VMOp::PushI(333),
        VMOp::Halt,
    ]);
    assert_eq!(vm.step(), Ok(()));
    assert_eq!(vm.get_reg(&VMReg::IP), 3);
    assert_eq!(vm.run(10), Ok(()));
    assert!(vm.is_halted());
    assert_eq!(vm.get_reg(&VMReg::SP), 1);
    assert_eq!(vm.pop(), Ok(333));
}

#[test]
fn jmp_to_address_zero() {
    let mut vm = VM::new(vec![VMOp::PushI(1), VMOp::Jmp(0)]);
    assert_eq!(vm.step(), Ok(()));
    assert_eq!(vm.step(), Ok(()));
    assert_eq!(vm.get_reg(&VMReg::IP), 0);
    assert_eq!(vm.fetch(), Some(VMOp::PushI(1)));
    assert_eq!(vm.step(), Ok(()));
    assert_eq!(vm.get_reg(&VMReg::SP), 2);
}

#[test]
fn exec_inst_of_a_jump_leaves_the_pointer_one_below_the_target() {
    let mut vm = VM::new(vec![VMOp::Halt, VMOp::Halt, VMOp::Halt]);
    assert_eq!(vm.exec_inst(&VMOp::Jmp(2)), Ok(()));
    assert_eq!(vm.get_reg(&VMReg::IP), 1);
    assert_eq!(vm.exec_inst(&VMOp::Jmp(0)), Ok(()));
    assert_eq!(vm.get_reg(&VMReg::IP), u64::MAX);
}

#[test]
fn jmp_outside_the_program_is_an_invalid_address() {
    let mut vm = VM::new(vec![VMOp::Jmp(2), VMOp::Halt]);
    assert_eq!(vm.run(10), Err(Fault::InvalidAddress));
    assert!(!vm.is_halted());
    assert_eq!(vm.get_reg(&VMReg::IP), 0);
    let mut vm = VM::new(vec![VMOp::Jmp(u64::MAX), VMOp::Halt]);
    assert_eq!(vm.run(10), Err(Fault::InvalidAddress));
    assert_eq!(vm.get_reg(&VMReg::IP), 0);
}

#[test]
fn jmp_rel_resumes_at_its_own_address_plus_offset() {
    let mut vm = VM::new(vec![
        VMOp::PushI(1),
        VMOp::JmpRel(2),
        VMOp::PushI(111),
        VMOp::PushI(222),
        VMOp::Halt,
    ]);
    assert_eq!(vm.step(), Ok(()));
    assert_eq!(vm.step(), Ok(()));
    assert_eq!(vm.get_reg(&VMReg::IP), 3);
    assert_eq!(vm.run(10), Ok(()));
    assert_eq!(vm.get_reg(&VMReg::SP), 2);
    assert_eq!(vm.pop(), Ok(222));
    assert_eq!(vm.pop(), Ok(1));
}

#[test]
fn jmp_rel_by_one_is_a_plain_advance() {
    let mut vm = VM::new(vec![VMOp::JmpRel(1), VMOp::Halt]);
    assert_eq!(vm.step(), Ok(()));
    assert_eq!(vm.get_reg(&VMReg::IP), 1);
}

#[test]
fn jmp_rel_by_zero_stays_on_itself() {
    let mut vm = VM::new(vec![VMOp::JmpRel(0)]);
    assert_eq!(vm.run(1000), Ok(()));
    assert!(!vm.is_halted());
    assert_eq!(vm.get_reg(&VMReg::IP), 0);
    let mut vm = VM::new(vec![VMOp::PushI(9), VMOp::JmpRel(0)]);
    assert_eq!(vm.run(1000), Ok(()));
    assert!(!vm.is_halted());
    assert_eq!(vm.get_reg(&VMReg::IP), 1);
    assert_eq!(vm.get_reg(&VMReg::SP), 1);
}

#[test]
fn jmp_rel_outside_the_program_is_an_invalid_address() {
    let mut vm = VM::new(vec![VMOp::PushI(1), VMOp::JmpRel(1)]);
    assert_eq!(vm.run(10), Err(Fault::InvalidAddress));
    assert_eq!(vm.get_reg(&VMReg::IP), 1);
    let mut vm = VM::new(vec![VMOp::PushI(1), VMOp::JmpRel(u64::MAX)]);
    assert_eq!(vm.run(10), Err(Fault::InvalidAddress));
    assert_eq!(vm.get_reg(&VMReg::IP), 1);
    assert!(!vm.is_halted());
}

#[test]
fn call_pushes_the_following_address_and_jumps() {
    let mut vm = VM::new(vec![
        VMOp::PushI(5),
        VMOp::Call(3),
        VMOp::Halt,
        VMOp::Halt,
    ]);
    assert_eq!(vm.step(), Ok(()));
    assert_eq!(vm.step(), Ok(()));
    assert_eq!(vm.get_reg(&VMReg::IP), 3);
    assert_eq!(vm.get_reg(&VMReg::SP), 2);
    assert_eq!(vm.pop(), Ok(2));
    assert_eq!(vm.pop(), Ok(5));
}

#[test]
fn ret_returns_right_after_the_call() {
    let mut vm = VM::new(vec![
        VMOp::Call(4),
        VMOp::PushI(111),
        VMOp::Halt,
        VMOp::PushI(999),
        VMOp::PushI(7),
        VMOp::Pop(VMReg::A),
        VMOp::Ret,
    ]);
    assert_eq!(vm.step(), Ok(()));
    assert_eq!(vm.get_reg(&VMReg::IP), 4);
    assert_eq!(vm.step(), Ok(()));
    assert_eq!(vm.step(), Ok(()));
    assert_eq!(vm.fetch(), Some(VMOp::Ret));
    assert_eq!(vm.step(), Ok(()));
    assert_eq!(vm.get_reg(&VMReg::IP), 1);
    assert_eq!(vm.get_reg(&VMReg::SP), 0);
    assert_eq!(vm.run(10), Ok(()));
    assert!(vm.is_halted());
    assert_eq!(vm.get_reg(&VMReg::A), 7);
    assert_eq!(vm.get_reg(&VMReg::SP), 1);
    assert_eq!(vm.pop(), Ok(111));
}

#[test]
fn ret_to_address_zero() {
    let mut vm = VM::new(vec![VMOp::Halt, VMOp::PushI(0), VMOp::Ret]);
    vm.set_reg(&VMReg::IP, 1);
    assert_eq!(vm.run(10), Ok(()));
    assert!(vm.is_halted());
    assert_eq!(vm.get_reg(&VMReg::IP), 0);
    assert_eq!(vm.get_reg(&VMReg::SP), 0);
}

/// Subroutines that call one another in a chain. The one at level `i`
/// starts at address `2 + 4 * i`; it calls the one at the next level (the
/// last one does nothing instead), adds `D` to `A`, and returns.
fn call_chain(depth: u64) -> Vec<VMOp> {
    let mut code = vec![VMOp::Call(2), VMOp::Halt];
    for level in 0..depth {
        let here = 2 + 4 * level;
        if level + 1 < depth {
            code.push(VMOp::Call(here + 4));
        } else {
            code.push(VMOp::JmpRel(1));
        }
        code.push(VMOp::Add(VMReg::A, VMReg::D));
        code.push(VMOp::JmpRel(1));
        code.push(VMOp::Ret);
    }
    code
}

#[test]
fn nested_calls_return_in_order() {
    for depth in [1u64, 2, 3, 10, 100] {
        let mut vm = VM::new(call_chain(depth));
        vm.set_reg(&VMReg::D, 1);
        assert_eq!(vm.run(100_000), Ok(()));
        assert!(vm.is_halted());
        assert_eq!(vm.get_reg(&VMReg::IP), 1);
        assert_eq!(vm.get_reg(&VMReg::SP), 0);
        assert_eq!(vm.get_reg(&VMReg::A), depth);
    }
}

#[test]
fn calls_nest_up_to_the_stack_capacity() {
    let mut vm = VM::new(call_chain(255));
    vm.set_reg(&VMReg::D, 1);
    assert_eq!(vm.run(100_000), Ok(()));
    assert!(vm.is_halted());
    assert_eq!(vm.get_reg(&VMReg::IP), 1);
    assert_eq!(vm.get_reg(&VMReg::SP), 0);
    assert_eq!(vm.get_reg(&VMReg::A), 255);
}

#[test]
fn calls_beyond_the_stack_capacity_are_a_stack_fault() {
    let mut vm = VM::new(call_chain(256));
    vm.set_reg(&VMReg::D, 1);
    assert_eq!(vm.run(100_000), Err(Fault::StackFault));
    assert!(!vm.is_halted());
    assert_eq!(vm.get_reg(&VMReg::SP), 255);
    assert_eq!(vm.get_reg(&VMReg::A), 0);
    assert_eq!(vm.fetch(), Some(VMOp::Call(2 + 4 * 255)));
}

#[test]
fn endless_recursion_is_a_stack_fault() {
    let mut vm = VM::new(vec![VMOp::Call(0)]);
    assert_eq!(vm.run(1000), Err(Fault::StackFault));
    assert_eq!(vm.get_reg(&VMReg::SP), 255);
    assert_eq!(vm.get_reg(&VMReg::IP), 0);
    assert_eq!(vm.pop(), Ok(1));
}

#[test]
fn call_on_a_full_stack_faults_before_its_address_is_checked() {
    let mut vm = VM::new(vec![VMOp::Call(50)]);
    vm.set_reg(&VMReg::SP, 255);
    assert_eq!(vm.step(), Err(Fault::StackFault));
    assert_eq!(vm.get_reg(&VMReg::SP), 255);
    vm.set_reg(&VMReg::SP, 254);
    assert_eq!(vm.step(), Err(Fault::InvalidAddress));
    assert_eq!(vm.get_reg(&VMReg::IP), 0);
}

#[test]
fn call_outside_the_program_has_pushed_when_its_jump_faults() {
    let mut vm = VM::new(vec![VMOp::PushI(9), VMOp::Call(2)]);
    assert_eq!(vm.run(10), Err(Fault::InvalidAddress));
    assert!(!vm.is_halted());
    assert_eq!(vm.get_reg(&VMReg::IP), 1);
    assert_eq!(vm.get_reg(&VMReg::SP), 2);
    assert_eq!(vm.pop(), Ok(2));
    assert_eq!(vm.pop(), Ok(9));
    let mut vm = VM::new(Vec::new());
    vm.set_reg(&VMReg::IP, 40);
    assert_eq!(vm.exec_inst(&VMOp::Call(0)), Err(Fault::InvalidAddress));
    assert_eq!(vm.get_reg(&VMReg::IP), 40);
    assert_eq!(vm.get_reg(&VMReg::SP), 1);
    assert_eq!(vm.pop(), Ok(41));
}

#[test]
fn call_outside_the_program_fills_the_stack_when_stepped_again() {
    let mut vm = VM::new(vec![VMOp::Call(7)]);
    for depth in 1..=255u64 {
        assert_eq!(vm.step(), Err(Fault::InvalidAddress));
        assert_eq!(vm.get_reg(&VMReg::SP), depth);
    }
    assert_eq!(vm.step(), Err(Fault::StackFault));
    assert_eq!(vm.get_reg(&VMReg::SP), 255);
    assert_eq!(vm.get_reg(&VMReg::IP), 0);
}

#[test]
fn ret_on_an_empty_stack_is_a_stack_fault() {
    let mut vm = VM::new(vec![VMOp::Ret]);
    assert_eq!(vm.run(10), Err(Fault::StackFault));
    assert_eq!(vm.get_reg(&VMReg::IP), 0);
    assert_eq!(vm.get_reg(&VMReg::SP), 0);
}

#[test]
fn ret_to_an_address_outside_the_program_faults_at_the_next_fetch() {
    let mut vm = VM::new(vec![VMOp::PushI(3), VMOp::Ret, VMOp::Halt]);
    assert_eq!(vm.step(), Ok(()));
    assert_eq!(vm.step(), Ok(()));
    assert_eq!(vm.get_reg(&VMReg::IP), 3);
    assert_eq!(vm.get_reg(&VMReg::SP), 0);
    assert_eq!(vm.fetch(), None);
    assert_eq!(vm.step(), Err(Fault::InvalidAddress));
    let mut vm = VM::new(vec![VMOp::PushI(3), VMOp::Ret, VMOp::Halt]);
    assert_eq!(vm.run(10), Err(Fault::InvalidAddress));
    assert!(!vm.is_halted());
    assert_eq!(vm.get_reg(&VMReg::IP), 3);
    assert_eq!(vm.get_reg(&VMReg::SP), 0);
}

#[test]
fn exec_inst_of_ret_pops_and_leaves_the_pointer_one_below_the_popped_word() {
    let mut vm = VM::new(Vec::new());
    assert_eq!(vm.exec_inst(&VMOp::PushI(5)), Ok(()));
    assert_eq!(vm.get_reg(&VMReg::SP), 1);
    assert_eq!(vm.exec_inst(&VMOp::Ret), Ok(()));
    assert_eq!(vm.get_reg(&VMReg::SP), 0);
    assert_eq!(vm.get_reg(&VMReg::IP), 4);
    assert_eq!(vm.exec_inst(&VMOp::PushI(0)), Ok(()));
    assert_eq!(vm.exec_inst(&VMOp::Ret), Ok(()));
    assert_eq!(vm.get_reg(&VMReg::SP), 0);
    assert_eq!(vm.get_reg(&VMReg::IP), u64::MAX);
    assert_eq!(vm.exec_inst(&VMOp::PushI(u64::MAX)), Ok(()));
    assert_eq!(vm.exec_inst(&VMOp::Ret), Ok(()));
    assert_eq!(vm.get_reg(&VMReg::IP), u64::MAX - 1);
}

#[test]
fn call_as_last_instruction_returns_past_the_end() {
    let mut vm = VM::new(vec![VMOp::Jmp(2), VMOp::Ret, VMOp::Call(1)]);
    assert_eq!(vm.run(10), Err(Fault::InvalidAddress));
    assert_eq!(vm.get_reg(&VMReg::IP), 3);
    assert_eq!(vm.get_reg(&VMReg::SP), 0);
}

#[test]
fn writing_the_instruction_pointer_redirects_execution() {
    let mut vm = VM::new(vec![
        VMOp::PushI(3),
        VMOp::Pop(VMReg::IP),
        VMOp::PushI(111),
        VMOp::PushI(222),
        VMOp::PushI(333),
        VMOp::Halt,
    ]);
    assert_eq!(vm.step(), Ok(()));
    assert_eq!(vm.step(), Ok(()));
    assert_eq!(vm.get_reg(&VMReg::IP), 4);
    assert_eq!(vm.run(10), Ok(()));
    assert_eq!(vm.pop(), Ok(333));
    assert_eq!(vm.get_reg(&VMReg::SP), 0);
}
