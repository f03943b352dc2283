// Parser tests: single lines fed to the assembler and the instruction
// stream or error they produce.

use shard::context::Context;
use shard::instruction::Literal;
use shard::opcodes::Opcode;
use shard::parse_asm_line;

#[test]
fn compile_from_string() {
    {
        let mut context = Context::new();

        parse_asm_line(&mut context, "main:", 1).unwrap();

        let code = context.get_code().get_code();
        assert_eq!(code.len(), 1);

        let literal = Literal::Label(String::from("main"));
        assert_eq!(code[0].get_opcode(), Opcode::Label);
        assert_eq!(code[0].get_literal(), &literal);
    }
    {
        let mut context = Context::new();

        parse_asm_line(&mut context, "push 0x02", 1).unwrap();

        let code = context.get_code().get_code();
        assert_eq!(code.len(), 1);

        let literal = Literal::Const(0x02);
        assert_eq!(code[0].get_opcode(), Opcode::Push);
        assert_eq!(code[0].get_literal(), &literal);
    }
    {
        let mut context = Context::new();

        parse_asm_line(&mut context, "add", 1).unwrap();

        let code = context.get_code().get_code();
        assert_eq!(code.len(), 1);

        assert_eq!(code[0].get_opcode(), Opcode::Add);
    }
    {
        let mut context = Context::new();

        parse_asm_line(&mut context, "glob: 0x00 0x01 0x02", 1).unwrap();

        let globs = context.get_globs();
        assert_eq!(globs.len(), 1);

        let value = vec![0x00, 0x01, 0x02];
        assert_eq!(globs[0].get_name(), "glob");
        assert_eq!(globs[0].get_value(), &value);
    }
    {
        let mut context = Context::new();

        parse_asm_line(&mut context, "jump away", 1).unwrap();

        let code = context.get_code().get_code();
        assert_eq!(code.len(), 1);

        let literal = Literal::Label(String::from("away"));
        assert_eq!(code[0].get_opcode(), Opcode::Jump);
        assert_eq!(code[0].get_literal(), &literal);
    }
    {
        let mut context = Context::new();

        parse_asm_line(&mut context, "jump 0x1234", 1).unwrap();

        let code = context.get_code().get_code();
        assert_eq!(code.len(), 1);

        let literal = Literal::Address(0x1234);
        assert_eq!(code[0].get_opcode(), Opcode::Jump);
        assert_eq!(code[0].get_literal(), &literal);
    }
    {
        let mut context = Context::new();

        parse_asm_line(&mut context, "push 0x01 ; comments should be ignored ", 1).unwrap();

        let code = context.get_code().get_code();
        assert_eq!(code.len(), 1);

        let literal = Literal::Const(0x01);
        assert_eq!(code[0].get_opcode(), Opcode::Push);
        assert_eq!(code[0].get_literal(), &literal);
    }
    {
        let mut context = Context::new();

        parse_asm_line(&mut context, " ; just a comment line with extra space ", 1).unwrap();

        let code = context.get_code().get_code();
        assert_eq!(code.len(), 0);
    }
    {
        let mut context = Context::new();

        parse_asm_line(&mut context, "glob: 0x00 0x01 0x02 ; also this comment should be ignored", 1)
            .unwrap();

        let globs = context.get_globs();
        assert_eq!(globs.len(), 1);

        let value = vec![0x00, 0x01, 0x02];
        assert_eq!(globs[0].get_name(), "glob");
        assert_eq!(globs[0].get_value(), &value);
    }
    {
        let mut context = Context::new();

        match parse_asm_line(&mut context, "jump 0x12346", 1) {
            Ok(_) => {
                assert!(false);
            }
            Err(_) => {}
        };
        match parse_asm_line(&mut context, "push 0x123", 1) {
            Ok(_) => {
                assert!(false);
            }
            Err(_) => {}
        };
        match parse_asm_line(&mut context, "push asdasd", 1) {
            Ok(_) => {
                assert!(false);
            }
            Err(_) => {}
        };
        match parse_asm_line(&mut context, "another_glob: 0x01, 0x001", 1) {
            Ok(_) => {
                assert!(false);
            }
            Err(_) => {}
        };
        match parse_asm_line(&mut context, "another_glob: 0x01 0x100", 1) {
            Ok(_) => {
                assert!(false);
            }
            Err(_) => {}
        };
        match parse_asm_line(&mut context, "another_glob: 0x01 100", 1) {
            Ok(_) => {
                assert!(false);
            }
            Err(_) => {}
        };
        match parse_asm_line(&mut context, "another_glob: 0x01 booooom", 1) {
            Ok(_) => {
                assert!(false);
            }
            Err(_) => {}
        };
    }
}

#[test]
fn invalid_keyword_reports_line() {
    let source = vec![
        String::from("nop"),
        String::from("nop"),
        String::from("bogus"),
    ];
    match shard::compile_from_asm(source) {
        Ok(_) => assert!(false),
        Err(e) => assert_eq!(e.message(), "3: Invalid keyword"),
    }
}

#[test]
fn missing_u8_operand_is_an_error() {
    let mut context = Context::new();
    assert!(parse_asm_line(&mut context, "push", 1).is_err());
}

#[test]
fn duplicate_label_fails() {
    let source = vec![String::from("here:"), String::from("here:")];
    match shard::compile_from_asm(source) {
        Ok(_) => assert!(false),
        Err(e) => assert_eq!(e.message(), "'here' label already exist"),
    }
}

#[test]
fn duplicate_glob_fails_early() {
    let source = vec![
        String::from("data: 0x01"),
        String::from("data: 0x02"),
    ];
    match shard::compile_from_asm(source) {
        Ok(_) => assert!(false),
        Err(e) => assert_eq!(e.message(), "'data' label already exist"),
    }
}

#[test]
fn unknown_label_fails_at_finalize() {
    let source = vec![String::from("jump nowhere")];
    match shard::compile_from_asm(source) {
        Ok(_) => assert!(false),
        Err(e) => assert_eq!(e.message(), "Unknown label 'nowhere'"),
    }
}

#[test]
fn forward_label_is_patched_little_endian() {
    // `jump` is 0x03 and takes a two-byte address; the label lands right
    // after the 3-byte instruction, so the patched window reads 03 00.
    let source = vec![String::from("jump away"), String::from("away:")];
    let image = shard::compile_from_asm(source).unwrap();
    assert_eq!(image, vec![0x03, 0x03, 0x00]);
}

#[test]
fn global_bytes_follow_the_code() {
    let source = vec![
        String::from("load8 tail"),
        String::from("tail: 0xaa 0xbb"),
    ];
    let image = shard::compile_from_asm(source).unwrap();
    // load8 is 0x20; the blob starts at address 3.
    assert_eq!(image, vec![0x20, 0x03, 0x00, 0xaa, 0xbb]);
}

#[test]
fn bare_opcode_ignores_trailing_tokens() {
    let mut context = Context::new();
    parse_asm_line(&mut context, "add 0x01 junk", 1).unwrap();
    let code = context.get_code().get_code();
    assert_eq!(code.len(), 1);
    assert_eq!(code[0].get_opcode(), Opcode::Add);
    assert_eq!(code[0].get_literal(), &Literal::Empty);
}

#[test]
fn mnemonics_round_trip() {
    let ops = vec![
        Opcode::Interrupt, Opcode::Return, Opcode::Call, Opcode::Jump, Opcode::JumpC,
        Opcode::Push, Opcode::PushAddr, Opcode::Pop, Opcode::Label, Opcode::Nop,
        Opcode::Sys, Opcode::StackGet, Opcode::StackSet, Opcode::GetRegA, Opcode::GetRegB,
        Opcode::SetRegA, Opcode::SetRegB, Opcode::Load8, Opcode::Load8C, Opcode::Load16,
        Opcode::Load16C, Opcode::Store8, Opcode::Store8C, Opcode::Store16, Opcode::Store16C,
        Opcode::Eqz, Opcode::Eq, Opcode::Ne, Opcode::LtS, Opcode::LtU, Opcode::GtS,
        Opcode::GtU, Opcode::LeS, Opcode::LeU, Opcode::GeS, Opcode::GeU, Opcode::Add,
        Opcode::Sub, Opcode::Mul, Opcode::DivS, Opcode::DivU, Opcode::RemS, Opcode::RemU,
        Opcode::Pow, Opcode::Abs, Opcode::And, Opcode::Or, Opcode::Xor, Opcode::Shl,
        Opcode::ShrS, Opcode::ShrU, Opcode::Rotl, Opcode::Rotr,
    ];
    for op in ops {
        assert_eq!(Opcode::from_string(op.to_string()), Some(op));
        assert_eq!(Opcode::from_byte(op.to_byte()), Some(op));
    }
    assert_eq!(Opcode::from_string("bogus"), None);
    assert_eq!(Opcode::from_byte(0xff), None);
    assert_eq!(Opcode::Add.to_string(), "add");
    assert_eq!(Opcode::Add.to_byte(), 0x60);
}

#[test]
fn hex_literals_parse_exactly() {
    assert_eq!(shard::strutil::parse_hex_u8("0xff"), Some(0xff));
    assert_eq!(shard::strutil::parse_hex_u8("0x7"), Some(0x07));
    assert_eq!(shard::strutil::parse_hex_u8("0x100"), None);
    assert_eq!(shard::strutil::parse_hex_u8("ff"), None);
    assert_eq!(shard::strutil::parse_hex_u16("0x1234"), Some(0x1234));
    assert_eq!(shard::strutil::parse_hex_u16("0x12345"), None);
    assert_eq!(shard::strutil::parse_hex_u16("0xzz"), None);
}

#[test]
fn decimal_rendering() {
    assert_eq!(shard::strutil::usize_to_string(0), "0");
    assert_eq!(shard::strutil::usize_to_string(1234), "1234");
}

#[test]
fn two_patches_for_one_label() {
    let source = vec![
        String::from("jump away"),
        String::from("jump away"),
        String::from("away:"),
    ];
    let image = shard::compile_from_asm(source).unwrap();
    assert_eq!(image, vec![0x03, 0x06, 0x00, 0x03, 0x06, 0x00]);
}
