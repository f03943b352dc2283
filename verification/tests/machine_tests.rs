// Machine-level tests: stack addressing, boundary arithmetic, memory
// access, breakpoints, and the emitter inspected directly.

use shard::compile_from_asm;
use shard::errors::VmError;
use shard::memory::DefaultMemory;
use shard::out_bin::OutBin;
use shard::vm::ExecutionStatus;
use shard::vm::VM;

fn assemble(lines: Vec<&str>) -> Vec<u8> {
    let owned: Vec<String> = lines.iter().map(|l| String::from(*l)).collect();
    compile_from_asm(owned).unwrap()
}

fn run_program(lines: Vec<&str>) -> VM<DefaultMemory> {
    let mut vm = VM::new(assemble(lines)).unwrap();
    match vm.execute() {
        Ok(ExecutionStatus::Done) => {}
        other => panic!("program did not finish: {:?}", other),
    }
    vm
}

#[test]
fn push_addr_pop_addr_round_trip() {
    let mut vm = VM::new(vec![0x08]).unwrap();
    vm.stack_push_address(0xabcd).unwrap();
    assert_eq!(vm.stack_pop_address().unwrap(), 0xabcd);
    vm.call_stack_push_address(0x1234).unwrap();
    assert_eq!(vm.call_stack_pop_address().unwrap(), 0x1234);
}

#[test]
fn push_then_pop_leaves_stack_unchanged() {
    // The value below survives a push/pop pair above it.
    let vm = run_program(vec![
        "push 0x05",
        "push 0x07",
        "pop",
        "set_reg_a",
        "return",
    ]);
    assert_eq!(vm.get_reg_a(), 0x05);
}

#[test]
fn load8_c_reads_byte_zero() {
    // push_addr(0); load8_c reads byte 0 of the image, the push_addr
    // opcode byte itself.
    let vm = run_program(vec![
        "push_addr 0x0",
        "load8_c",
        "set_reg_a",
        "return",
    ]);
    assert_eq!(vm.get_reg_a(), 0x0a);
}

#[test]
fn division_by_zero_fails() {
    for op in ["div_u", "rem_u", "div_s", "rem_s"] {
        let code = assemble(vec!["push 0x01", "push 0x00", op]);
        let mut vm = VM::new(code).unwrap();
        assert_eq!(vm.execute(), Err(VmError::DivisionByZero));
    }
}

#[test]
fn abs_of_0x80_wraps() {
    let vm = run_program(vec!["push 0x80", "abs", "set_reg_a", "return"]);
    assert_eq!(vm.get_reg_a(), 0x80);
}

#[test]
fn shl_by_eight_clears() {
    let vm = run_program(vec![
        "push 0xff",
        "push 0x08",
        "shl",
        "set_reg_a",
        "return",
    ]);
    assert_eq!(vm.get_reg_a(), 0x00);
}

#[test]
fn signed_shift_right_extends_the_sign() {
    let vm = run_program(vec![
        "push 0x80",
        "push 0x07",
        "shr_s",
        "set_reg_a",
        "return",
    ]);
    assert_eq!(vm.get_reg_a(), 0xff);
}

#[test]
fn signed_division_wraps_min_by_minus_one() {
    // -128 / -1 wraps back to -128.
    let vm = run_program(vec![
        "push 0x80",
        "push 0xff",
        "div_s",
        "set_reg_a",
        "return",
    ]);
    assert_eq!(vm.get_reg_a(), 0x80);
}

#[test]
fn pow_wraps() {
    // 3 ** 6 = 729 = 0x2d9, wrapping to 0xd9.
    let vm = run_program(vec![
        "push 0x03",
        "push 0x06",
        "pow",
        "set_reg_a",
        "return",
    ]);
    assert_eq!(vm.get_reg_a(), 0xd9);
}

#[test]
fn stack_get_peeks_below_the_top() {
    let vm = run_program(vec![
        "push 0x11",
        "push 0x22",
        "stack.get 0x02",
        "set_reg_a",
        "return",
    ]);
    assert_eq!(vm.get_reg_a(), 0x11);
}

#[test]
fn stack_set_writes_below_the_top() {
    let vm = run_program(vec![
        "push 0x11",
        "push 0x99",
        "stack.set 0x02",
        "set_reg_a",
        "return",
    ]);
    // stack.set popped 0x99 into the slot holding 0x11.
    assert_eq!(vm.get_reg_a(), 0x99);
}

#[test]
fn store16_and_load16_round_trip() {
    let vm = run_program(vec![
        "push 0x34",
        "push 0x12",
        "store16 0xbb00",
        "load16 0xbb00",
        "set_reg_a",
        "set_reg_b",
        "return",
    ]);
    assert_eq!(vm.get_reg_a(), 0x12);
    assert_eq!(vm.get_reg_b(), 0x34);
}

#[test]
fn registers_move_through_the_stack() {
    let vm = run_program(vec![
        "push 0x2a",
        "set_reg_a",
        "get_reg_a",
        "set_reg_b",
        "return",
    ]);
    assert_eq!(vm.get_reg_a(), 0x2a);
    assert_eq!(vm.get_reg_b(), 0x2a);
}

#[test]
fn sys_yields_to_the_host_and_resumes() {
    let code = assemble(vec!["sys", "return"]);
    let mut vm = VM::new(code).unwrap();
    assert_eq!(vm.execute(), Ok(ExecutionStatus::SysCall));
    assert_eq!(vm.continue_execution(), Ok(ExecutionStatus::Done));
}

#[test]
fn breakpoints_pause_and_can_be_removed() {
    let code = assemble(vec!["nop", "nop", "return"]);
    let mut vm = VM::new(code).unwrap();
    vm.set_breakpoint(1);
    assert_eq!(vm.execute(), Ok(ExecutionStatus::Breakpoint));
    assert_eq!(vm.continue_execution(), Ok(ExecutionStatus::Done));
    assert!(vm.remove_breakpoint(1));
    assert!(!vm.remove_breakpoint(1));
    vm.set_breakpoint(1);
    vm.clear_breakpoints();
    assert_eq!(vm.execute(), Ok(ExecutionStatus::Done));
}

#[test]
fn unknown_opcode_reports_the_byte() {
    let mut vm = VM::new(vec![0xfe]).unwrap();
    match vm.execute() {
        Err(e) => {
            assert_eq!(e, VmError::UnknownOpcode(0xfe));
            assert_eq!(e.message(), "Unknown opcode byte: 254");
        }
        Ok(_) => assert!(false),
    }
}

#[test]
fn stack_discipline_errors() {
    // A pop from an empty stack.
    let mut vm = VM::new(assemble(vec!["pop"])).unwrap();
    assert_eq!(vm.execute(), Err(VmError::StackEmpty));

    // A peek past the stack region.
    let mut vm2 = VM::new(assemble(vec!["stack.get 0x01"])).unwrap();
    assert_eq!(vm2.execute(), Err(VmError::StackOffsetOutOfRange));
}

#[test]
fn image_too_large_is_rejected() {
    let code = vec![0u8; 65025];
    match VM::new(code) {
        Err(e) => assert_eq!(e, VmError::ImageTooLarge),
        Ok(_) => assert!(false),
    }
    assert!(VM::new(vec![0u8; 65024]).is_ok());
}

#[test]
fn memory_layout_and_dumps() {
    let code = assemble(vec!["push 0x5a", "store8 0xcccc", "return"]);
    let code_len = code.len() as u16;
    let mut vm = VM::new(code).unwrap();
    match vm.execute() {
        Ok(ExecutionStatus::Done) => {}
        _ => assert!(false),
    }
    assert_eq!(vm.peek_memory(0xcccc).unwrap(), 0x5a);
    let window = vm.dump_memory_range(0xcccb, 0xccce);
    assert_eq!(window, vec![0x00, 0x5a, 0x00]);
    let whole = vm.dump_memory();
    assert_eq!(whole.len(), 65536);
    assert_eq!(whole[0xcccc], 0x5a);
    // The data stack region starts right after the code; the return
    // address area is 256 bytes further.
    assert_eq!(vm.peek_memory(code_len).unwrap(), 0);
}

#[test]
fn emitter_patches_are_little_endian_windows() {
    let mut bin = OutBin::new();
    bin.emit_byte(0x03);
    bin.emit_patch(&String::from("target")).unwrap();
    bin.emit_byte(0x08);
    bin.define_label(&String::from("target"), 0x1234).unwrap();
    let image = bin.finalize().unwrap();
    assert_eq!(image, vec![0x03, 0x34, 0x12, 0x08]);
}

#[test]
fn emitter_rejects_duplicate_labels() {
    let mut bin = OutBin::new();
    bin.define_label(&String::from("x"), 0).unwrap();
    assert!(bin.define_label(&String::from("x"), 1).is_err());
}

#[test]
fn syscall_write_args_follow_the_stack_protocol() {
    // sys with: output index, data address, size, id on top.
    let code2 = assemble(vec![
        "push 0x00",
        "push_addr 0x0000",
        "push 0x02",
        "push 0x01",
        "sys",
        "return",
    ]);
    let mut vm = VM::new(code2).unwrap();
    assert_eq!(vm.execute(), Ok(ExecutionStatus::SysCall));
    let id = shard::syscall::pop_syscall_id(&mut vm).unwrap();
    assert_eq!(shard::syscall::Syscall::from_byte(id), Some(shard::syscall::Syscall::Write));
    let (data, output_index) = shard::syscall::pop_write_args(&mut vm).unwrap();
    assert_eq!(output_index, 0x00);
    // Two bytes read from address 0: the first push opcode and its operand.
    assert_eq!(data, vec![0x05, 0x00]);
    assert_eq!(vm.continue_execution(), Ok(ExecutionStatus::Done));
}
