use rusty_bustacean::isa::{Fault, VMOp, VMReg};
use rusty_bustacean::machine::VM;
use rusty_bustacean::state::STACK_CAPACITY;

const ALL: [VMReg; 6] = [VMReg::A, VMReg::B, VMReg::C, VMReg::D, VMReg::IP, VMReg::SP];

#[test]
fn new_machine_is_zeroed_and_not_started() {
    let mut vm = VM::new(vec![VMOp::Halt]);
    for reg in ALL.iter() {
        assert_eq!(vm.get_reg(reg), 0);
    }
    assert!(vm.is_halted());
    assert_eq!(vm.fetch(), Some(VMOp::Halt));
    assert!(!vm.awaits_input());
    assert_eq!(vm.take_output(), Vec::<u8>::new());
    assert_eq!(vm.pop(), Err(Fault::StackFault));
}

#[test]
fn new_machine_has_a_zeroed_stack() {
    let mut vm = VM::new(Vec::new());
    vm.set_reg(&VMReg::SP, 255);
    for _ in 0..255 {
        assert_eq!(vm.pop(), Ok(0));
    }
    assert_eq!(vm.get_reg(&VMReg::SP), 0);
}

#[test]
fn set_reg_changes_only_its_register() {
    for (i, target) in ALL.iter().enumerate() {
        let mut vm = VM::new(Vec::new());
        for (j, reg) in ALL.iter().enumerate() {
            vm.set_reg(reg, 100 + j as u64);
        }
        vm.set_reg(target, 0xdead_beef_0000_0001);
        for (j, reg) in ALL.iter().enumerate() {
            let expected = if i == j { 0xdead_beef_0000_0001 } else { 100 + j as u64 };
            assert_eq!(vm.get_reg(reg), expected);
        }
    }
}

#[test]
fn registers_hold_full_words() {
    let mut vm = VM::new(Vec::new());
    vm.set_reg(&VMReg::C, u64::MAX);
    assert_eq!(vm.get_reg(&VMReg::C), u64::MAX);
}

#[test]
fn push_writes_at_sp_and_increments() {
    let mut vm = VM::new(Vec::new());
    assert_eq!(vm.push(11), Ok(()));
    assert_eq!(vm.get_reg(&VMReg::SP), 1);
    assert_eq!(vm.push(22), Ok(()));
    assert_eq!(vm.get_reg(&VMReg::SP), 2);
    assert_eq!(vm.pop(), Ok(22));
    assert_eq!(vm.get_reg(&VMReg::SP), 1);
    assert_eq!(vm.pop(), Ok(11));
    assert_eq!(vm.get_reg(&VMReg::SP), 0);
}

#[test]
fn pop_leaves_the_word_in_its_slot() {
    let mut vm = VM::new(Vec::new());
    assert_eq!(vm.push(7), Ok(()));
    assert_eq!(vm.pop(), Ok(7));
    vm.set_reg(&VMReg::SP, 1);
    assert_eq!(vm.pop(), Ok(7));
}

#[test]
fn stack_holds_exactly_its_capacity() {
    assert_eq!(STACK_CAPACITY, 255);
    let mut vm = VM::new(Vec::new());
    for i in 0..255u64 {
        assert_eq!(vm.push(i), Ok(()));
    }
    assert_eq!(vm.get_reg(&VMReg::SP), 255);
    assert_eq!(vm.push(999), Err(Fault::StackFault));
    assert_eq!(vm.get_reg(&VMReg::SP), 255);
    for i in (0..255u64).rev() {
        assert_eq!(vm.pop(), Ok(i));
    }
    assert_eq!(vm.pop(), Err(Fault::StackFault));
    assert_eq!(vm.get_reg(&VMReg::SP), 0);
}

#[test]
fn stack_pointer_beyond_capacity_faults_both_ways() {
    let mut vm = VM::new(Vec::new());
    vm.set_reg(&VMReg::SP, 256);
    assert_eq!(vm.push(1), Err(Fault::StackFault));
    assert_eq!(vm.pop(), Err(Fault::StackFault));
    assert_eq!(vm.get_reg(&VMReg::SP), 256);
    vm.set_reg(&VMReg::SP, u64::MAX);
    assert_eq!(vm.push(1), Err(Fault::StackFault));
    assert_eq!(vm.pop(), Err(Fault::StackFault));
    assert_eq!(vm.get_reg(&VMReg::SP), u64::MAX);
}

#[test]
fn push_immediate_then_pop_sets_every_register() {
    for reg in ALL.iter() {
        let mut vm = VM::new(Vec::new());
        vm.set_reg(&VMReg::SP, 3);
        assert_eq!(vm.exec_inst(&VMOp::PushI(0x1234_5678_9abc_def0)), Ok(()));
        assert_eq!(vm.get_reg(&VMReg::SP), 4);
        assert_eq!(vm.exec_inst(&VMOp::Pop(*reg)), Ok(()));
        assert_eq!(vm.get_reg(reg), 0x1234_5678_9abc_def0);
        if *reg != VMReg::SP {
            assert_eq!(vm.get_reg(&VMReg::SP), 3);
        }
    }
}

#[test]
fn pop_into_stack_pointer_overrides_the_decrement() {
    let mut vm = VM::new(Vec::new());
    assert_eq!(vm.exec_inst(&VMOp::PushI(7)), Ok(()));
    assert_eq!(vm.exec_inst(&VMOp::Pop(VMReg::SP)), Ok(()));
    assert_eq!(vm.get_reg(&VMReg::SP), 7);
}

#[test]
fn push_register_then_pop_copies_without_mutating() {
    for from in ALL.iter() {
        for to in ALL.iter() {
            let mut vm = VM::new(Vec::new());
            for (j, reg) in ALL.iter().enumerate() {
                vm.set_reg(reg, 10 + j as u64);
            }
            let value = vm.get_reg(from);
            assert_eq!(vm.exec_inst(&VMOp::PushR(*from)), Ok(()));
            assert_eq!(vm.exec_inst(&VMOp::Pop(*to)), Ok(()));
            assert_eq!(vm.get_reg(to), value);
            assert_eq!(vm.get_reg(from), value);
        }
    }
}

#[test]
fn push_instructions_fault_on_a_full_stack() {
    let mut vm = VM::new(Vec::new());
    vm.set_reg(&VMReg::SP, 255);
    vm.set_reg(&VMReg::A, 5);
    assert_eq!(vm.exec_inst(&VMOp::PushI(1)), Err(Fault::StackFault));
    assert_eq!(vm.exec_inst(&VMOp::PushR(VMReg::A)), Err(Fault::StackFault));
    assert_eq!(vm.get_reg(&VMReg::SP), 255);
    assert_eq!(vm.pop(), Ok(0));
}

#[test]
fn pop_instruction_faults_on_an_empty_stack() {
    let mut vm = VM::new(Vec::new());
    vm.set_reg(&VMReg::A, 5);
    assert_eq!(vm.exec_inst(&VMOp::Pop(VMReg::A)), Err(Fault::StackFault));
    assert_eq!(vm.get_reg(&VMReg::A), 5);
    assert_eq!(vm.get_reg(&VMReg::SP), 0);
}

#[test]
fn instruction_pointer_is_an_ordinary_operand() {
    let mut vm = VM::new(vec![
        VMOp::PushI(0),
        VMOp::Pop(VMReg::A),
        VMOp::PushI(3),
        VMOp::Pop(VMReg::B),
        VMOp::Mul(VMReg::B, VMReg::IP),
        VMOp::PushR(VMReg::IP),
        VMOp::Pop(VMReg::C),
        VMOp::Halt,
    ]);
    assert_eq!(vm.run(100), Ok(()));
    assert_eq!(vm.get_reg(&VMReg::B), 12);
    assert_eq!(vm.get_reg(&VMReg::C), 5);
    assert_eq!(vm.get_reg(&VMReg::IP), 7);
}
