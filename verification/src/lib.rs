//! A small stack-oriented bytecode virtual machine and its assembler.
//!
//! The assembler turns line-oriented assembly text into a flat binary image:
//! labels are resolved through a patch table, named byte blobs ("globals")
//! are appended after the code, and `#import` directives are expanded by a
//! preprocessor. The virtual machine executes such an image inside a fixed
//! 64 KiB address space with a data stack, a call stack, and two registers.

use vstd::prelude::*;

pub mod opcodes;
pub mod strutil;
pub mod errors;
pub mod out_bin;
pub mod instruction;
pub mod glob;
pub mod code;
pub mod encoding;
pub mod context;
pub mod step;
pub mod memory;
pub mod vm;
pub mod syscall;
pub mod preprocess;

use crate::context::Context;
use crate::context::glob_names;
use crate::errors::AsmErrV;
use crate::errors::AsmError;
use crate::errors::asm_err_is;
use crate::glob::Glob;
use crate::glob::GlobV;
use crate::instruction::InsV;
use crate::instruction::Instruction;
use crate::instruction::LitV;
use crate::instruction::Literal;
use crate::opcodes::Arity;
use crate::opcodes::Opcode;
use crate::opcodes::arity_of;
use crate::opcodes::spec_from_mnemonic;
use crate::out_bin::asm_err_dup;
use crate::strutil::has_hex_prefix;
use crate::strutil::hex_literal;
use crate::strutil::line_tokens;
use crate::strutil::parse_hex_u16;
use crate::strutil::parse_hex_u8;
use crate::strutil::tokenize;
use crate::strutil::views;

verus! {

/// The fixed size of the machine's address space in bytes.
pub const IMAGE_SIZE: usize = 65536;

/// Each of the two stacks occupies this many bytes of the image.
pub const STACK_SIZE: usize = 256;

/// The largest binary image that still leaves room for both stacks.
pub const MAX_CODE_SIZE: usize = 65024;

/// What one line of assembly source means: nothing, a label definition,
/// a global definition, an instruction, or a parse error with its text.
/// A u16 opcode with no operand, and the `label` mnemonic itself, are
/// dropped without effect.
pub enum ParsedLine {
    PNothing,
    PLabelDef(Seq<char>),
    PGlobDef(Seq<char>, Seq<u8>),
    PIns(Opcode, LitV),
    PBad(Seq<char>),
}

/// The error text for a token that should have been a hex number.
pub open spec fn failed_value_msg(tok: Seq<char>) -> Seq<char> {
    "failed to parse value '"@ + tok + "'"@
}

/// The data bytes of a global definition: each token a hex byte literal,
/// or the first token that is not.
pub open spec fn glob_data_spec(toks: Seq<Seq<char>>) -> Result<Seq<u8>, Seq<char>>
    decreases toks.len(),
{
    if toks.len() == 0 {
        Ok(Seq::empty())
    } else {
        match hex_literal(toks[0], 2) {
            Some(v) => match glob_data_spec(toks.skip(1)) {
                Ok(rest) => Ok(seq![v as u8] + rest),
                Err(tok) => Err(tok),
            },
            None => Err(toks[0]),
        }
    }
}

/// The grammar of one line, over its tokens. The first token decides:
/// a known mnemonic starts an instruction, a token ending in `:` starts
/// a label or global definition, anything else is an invalid keyword.
pub open spec fn parse_line_spec(toks: Seq<Seq<char>>) -> ParsedLine {
    if toks.len() == 0 {
        ParsedLine::PNothing
    } else {
        let k = toks[0];
        match spec_from_mnemonic(k) {
            Some(op) => match arity_of(op) {
                Arity::Bare => ParsedLine::PIns(op, LitV::LNone),
                Arity::Pseudo => ParsedLine::PNothing,
                Arity::Imm8 => {
                    if toks.len() < 2 {
                        ParsedLine::PBad("Value is not a hex number"@)
                    } else {
                        let tok = toks[1];
                        if !(tok.len() >= 2 && tok[0] == '0' && tok[1] == 'x') {
                            ParsedLine::PBad("Value is not a hex number"@)
                        } else {
                            match hex_literal(tok, 2) {
                                Some(v) => ParsedLine::PIns(op, LitV::LConst(v as u8)),
                                None => ParsedLine::PBad(failed_value_msg(tok)),
                            }
                        }
                    }
                },
                Arity::Imm16 => {
                    if toks.len() < 2 {
                        ParsedLine::PNothing
                    } else {
                        let tok = toks[1];
                        if tok.len() >= 2 && tok[0] == '0' && tok[1] == 'x' {
                            match hex_literal(tok, 4) {
                                Some(v) => ParsedLine::PIns(op, LitV::LAddr(v as u16)),
                                None => ParsedLine::PBad(failed_value_msg(tok)),
                            }
                        } else {
                            ParsedLine::PIns(op, LitV::LLabel(tok))
                        }
                    }
                },
            },
            None => {
                if k.len() > 0 && k.last() == ':' {
                    let name = k.drop_last();
                    if toks.len() == 1 {
                        ParsedLine::PLabelDef(name)
                    } else {
                        match glob_data_spec(toks.skip(1)) {
                            Ok(bytes) => ParsedLine::PGlobDef(name, bytes),
                            Err(tok) => ParsedLine::PBad(failed_value_msg(tok)),
                        }
                    }
                } else {
                    ParsedLine::PBad("Invalid keyword"@)
                }
            },
        }
    }
}

/// How one parsed line changes the accumulated program, with `ln` its
/// 1-based line number for error reports.
pub open spec fn parse_step(
    ins: Seq<InsV>,
    gs: Seq<GlobV>,
    line: Seq<char>,
    ln: nat,
) -> Result<(Seq<InsV>, Seq<GlobV>), AsmErrV> {
    match parse_line_spec(line_tokens(line)) {
        ParsedLine::PNothing => Ok((ins, gs)),
        ParsedLine::PLabelDef(n) => Ok((
            ins.push(InsV { op: Opcode::Label, lit: LitV::LLabel(n) }),
            gs,
        )),
        ParsedLine::PGlobDef(n, bytes) => {
            if glob_names(gs).contains(n) {
                Err(AsmErrV::Dup(n))
            } else {
                Ok((ins, gs.push(GlobV { name: n, data: bytes })))
            }
        },
        ParsedLine::PIns(op, lit) => Ok((ins.push(InsV { op, lit }), gs)),
        ParsedLine::PBad(_) => Err(AsmErrV::Parse(ln)),
    }
}

/// The whole source parsed line by line from line `i`, accumulating the
/// instruction stream and the globals.
pub open spec fn parse_all(
    lines: Seq<Seq<char>>,
    i: int,
    ins: Seq<InsV>,
    gs: Seq<GlobV>,
) -> Result<(Seq<InsV>, Seq<GlobV>), AsmErrV>
    decreases lines.len() - i,
{
    if i < 0 || i >= lines.len() {
        Ok((ins, gs))
    } else {
        match parse_step(ins, gs, lines[i], (i + 1) as nat) {
            Err(ev) => Err(ev),
            Ok(r) => parse_all(lines, i + 1, r.0, r.1),
        }
    }
}

/// What compiling a source means: parse every line, then assemble.
pub open spec fn compile_spec(lines: Seq<Seq<char>>) -> Result<Seq<u8>, AsmErrV> {
    match parse_all(lines, 0, Seq::empty(), Seq::empty()) {
        Err(ev) => Err(ev),
        Ok(r) => crate::context::assemble_spec(r.0, r.1),
    }
}


/// Assembling and disassembling a bare-opcode instruction is a round
/// trip, modulo whitespace and comments: a line whose only token is the
/// opcode's mnemonic parses to exactly that instruction, the instruction
/// assembles to exactly its opcode byte, and that byte decodes back to
/// the opcode that prints as that mnemonic.
pub proof fn lemma_bare_opcode_roundtrip(op: Opcode, toks: Seq<Seq<char>>)
    requires
        arity_of(op) == Arity::Bare,
        toks == seq![crate::opcodes::mnemonic(op)],
    ensures
        parse_line_spec(toks) == ParsedLine::PIns(op, LitV::LNone),
        crate::context::assemble_spec(
            seq![InsV { op, lit: LitV::LNone }],
            Seq::<GlobV>::empty(),
        ) == Ok::<Seq<u8>, AsmErrV>(seq![crate::opcodes::opcode_byte(op)]),
        crate::opcodes::byte_to_opcode(crate::opcodes::opcode_byte(op)) == Some(op),
        crate::opcodes::spec_from_mnemonic(crate::opcodes::mnemonic(op)) == Some(op),
{
    crate::opcodes::lemma_mnemonic_roundtrip(op);
    crate::opcodes::lemma_opcode_byte_roundtrip(op);
    assert(toks[0] == crate::opcodes::mnemonic(op));
    let ins = InsV { op, lit: LitV::LNone };
    let st0 = crate::context::empty_emit();
    let st1 = crate::instruction::emit_ins(st0, ins)->Ok_0;
    assert(st1.bytes =~= seq![crate::opcodes::opcode_byte(op)]);
    assert(seq![ins].skip(1) =~= Seq::<InsV>::empty());
    assert(seq![ins][0] == ins);
    assert(crate::instruction::emit_ins(st0, ins)
        == Ok::<crate::out_bin::EmitSt, AsmErrV>(st1));
    assert(crate::code::emit_stream(st1, seq![ins].skip(1))
        == Ok::<crate::out_bin::EmitSt, AsmErrV>(st1));
    assert(crate::code::emit_stream(st0, seq![ins])
        == Ok::<crate::out_bin::EmitSt, AsmErrV>(st1));
    assert(crate::encoding::emit_globs(st1, Seq::<GlobV>::empty())
        == Ok::<crate::out_bin::EmitSt, AsmErrV>(st1));
    assert(crate::out_bin::first_unresolved(st1.patches, st1.table) is None);
    assert(crate::out_bin::apply_patches(st1.bytes, st1.patches, st1.table) == st1.bytes);
}

fn parse_error(line_number: usize, msg: &str) -> (r: AsmError)
    ensures
        asm_err_is(r, AsmErrV::Parse(line_number as nat)),
        r matches AsmError::ParseError { line, msg: m } && line == line_number && m@ == msg@,
{
    AsmError::ParseError { line: line_number, msg: String::from_str(msg) }
}

fn failed_value_error(line_number: usize, tok: &String) -> (r: AsmError)
    ensures
        asm_err_is(r, AsmErrV::Parse(line_number as nat)),
        r matches AsmError::ParseError { line, msg }
            && line == line_number && msg@ == failed_value_msg(tok@),
{
    let mut msg = String::from_str("failed to parse value '");
    msg.append(tok.as_str());
    msg.append("'");
    AsmError::ParseError { line: line_number, msg }
}

/// Parses one line of assembly source into the context: a known mnemonic
/// becomes an instruction (a u8 opcode demands a hex byte operand, a u16
/// opcode takes a hex address or a label reference), a token ending in
/// `:` defines a label or, followed by hex bytes, a global, and anything
/// else is an invalid keyword. Errors carry the given 1-based line number.
pub fn parse_asm_line(context: &mut Context, line: &str, line_number: usize) -> (r: Result<
    (),
    AsmError,
>)
    requires
        old(context).wf(),
        old(context).instrs_wf(),
    ensures
        final(context).wf(),
        final(context).instrs_wf(),
        match r {
            Ok(()) => parse_step(old(context).instrs(), old(context).globs_v(), line@,
                line_number as nat)
                == Ok::<(Seq<InsV>, Seq<GlobV>), AsmErrV>((final(context).instrs(),
                    final(context).globs_v())),
            Err(e) => {
                &&& match parse_step(old(context).instrs(), old(context).globs_v(), line@,
                    line_number as nat) {
                    Err(ev) => asm_err_is(e, ev),
                    Ok(_) => false,
                }
                &&& final(context).instrs() == old(context).instrs()
                &&& final(context).globs_v() == old(context).globs_v()
                &&& match parse_line_spec(line_tokens(line@)) {
                    ParsedLine::PBad(m) => e matches AsmError::ParseError { line: l, msg }
                        && l == line_number && msg@ == m,
                    ParsedLine::PGlobDef(n, _) => asm_err_dup(e, n),
                    _ => false,
                }
            },
        },
{
    let toks = tokenize(line);
    let ghost vtoks = line_tokens(line@);
    proof {
        assert(views(toks@) == vtoks);
    }
    if toks.len() == 0 {
        return Ok(());
    }
    proof {
        assert(vtoks[0] == toks@[0]@);
    }
    let keyword = &toks[0];
    match Opcode::from_string(keyword.as_str()) {
        Some(op) => {
            let ar = op.arity();
            match ar {
                Arity::Bare => {
                    context.get_code_mut().push_instruction(Instruction::new(op));
                    Ok(())
                },
                Arity::Pseudo => Ok(()),
                Arity::Imm8 => {
                    if toks.len() < 2 {
                        return Err(parse_error(line_number, "Value is not a hex number"));
                    }
                    proof {
                        assert(vtoks[1] == toks@[1]@);
                    }
                    let tok = &toks[1];
                    if !has_hex_prefix(tok.as_str()) {
                        return Err(parse_error(line_number, "Value is not a hex number"));
                    }
                    match parse_hex_u8(tok.as_str()) {
                        Some(v) => {
                            context.get_code_mut().push_instruction(
                                Instruction::new_with_literal(op, Literal::Const(v)));
                            Ok(())
                        },
                        None => Err(failed_value_error(line_number, tok)),
                    }
                },
                Arity::Imm16 => {
                    if toks.len() < 2 {
                        return Ok(());
                    }
                    proof {
                        assert(vtoks[1] == toks@[1]@);
                    }
                    let tok = &toks[1];
                    if has_hex_prefix(tok.as_str()) {
                        match parse_hex_u16(tok.as_str()) {
                            Some(v) => {
                                context.get_code_mut().push_instruction(
                                    Instruction::new_with_literal(op, Literal::Address(v)));
                                Ok(())
                            },
                            None => Err(failed_value_error(line_number, tok)),
                        }
                    } else {
                        context.get_code_mut().push_instruction(
                            Instruction::new_with_literal(op, Literal::Label(tok.clone())));
                        Ok(())
                    }
                },
            }
        },
        None => {
            let klen = keyword.as_str().unicode_len();
            if klen > 0 && keyword.as_str().get_char(klen - 1) == ':' {
                let name = keyword.as_str().substring_char(0, klen - 1).to_owned();
                proof {
                    assert(name@ =~= keyword@.drop_last());
                }
                if toks.len() == 1 {
                    context.get_code_mut().push_instruction(
                        Instruction::new_with_literal(Opcode::Label, Literal::Label(name)));
                    Ok(())
                } else {
                    let mut data: Vec<u8> = Vec::new();
                    let n = toks.len();
                    let mut j: usize = 1;
                    proof {
                        assert(vtoks.skip(1).skip(0) =~= vtoks.skip(1));
                    }
                    while j < n
                        invariant
                            1 <= j <= n,
                            n == toks@.len(),
                            vtoks == views(toks@),
                            vtoks == line_tokens(line@),
                            *context == *old(context),
                            old(context).wf(),
                            old(context).instrs_wf(),
                            parse_line_spec(vtoks) == (match glob_data_spec(vtoks.skip(1)) {
                                Ok(bytes) => ParsedLine::PGlobDef(name@, bytes),
                                Err(tok) => ParsedLine::PBad(failed_value_msg(tok)),
                            }),
                            glob_data_spec(vtoks.skip(1)) == match glob_data_spec(
                                vtoks.skip(j as int)) {
                                Ok(rest) => Ok::<Seq<u8>, Seq<char>>(data@ + rest),
                                Err(tok) => Err::<Seq<u8>, Seq<char>>(tok),
                            },
                        decreases n - j,
                    {
                        proof {
                            assert(vtoks[j as int] == toks@[j as int]@);
                            assert(vtoks.skip(j as int)[0] == vtoks[j as int]);
                        }
                        let ghost data_old = data@;
                        match parse_hex_u8(toks[j].as_str()) {
                            Some(v) => {
                                data.push(v);
                                proof {
                                    assert(vtoks.skip(j as int).skip(1)
                                        =~= vtoks.skip(j as int + 1));
                                    if glob_data_spec(vtoks.skip(j as int + 1)) is Ok {
                                        let rest = glob_data_spec(
                                            vtoks.skip(j as int + 1))->Ok_0;
                                        assert(data@ + rest
                                            =~= data_old + (seq![v] + rest));
                                    }
                                }
                            },
                            None => {
                                return Err(failed_value_error(line_number, &toks[j]));
                            },
                        }
                        j = j + 1;
                    }
                    proof {
                        assert(vtoks.skip(n as int) =~= Seq::<Seq<char>>::empty());
                        assert(data@ + Seq::<u8>::empty() =~= data@);
                    }
                    match context.add_glob(Glob::new_with_value(name, data)) {
                        Ok(()) => Ok(()),
                        Err(e) => Err(e),
                    }
                }
            } else {
                Err(parse_error(line_number, "Invalid keyword"))
            }
        },
    }
}

/// Compiles assembly source, one instruction per line, into a binary
/// image: parses every line in order and assembles the result, resolving
/// label references through the patch table.
pub fn compile_from_asm(asm_source: Vec<String>) -> (r: Result<Vec<u8>, AsmError>)
    ensures
        match r {
            Ok(bytes) => compile_spec(views(asm_source@)) == Ok::<Seq<u8>, AsmErrV>(bytes@),
            Err(e) => match compile_spec(views(asm_source@)) {
                Err(ev) => asm_err_is(e, ev),
                Ok(_) => false,
            },
        },
{
    let ghost lines = views(asm_source@);
    let mut context = Context::new();
    let n = asm_source.len();
    let mut i: usize = 0;
    while i < n
        invariant
            0 <= i <= n,
            n == asm_source@.len(),
            lines == views(asm_source@),
            context.wf(),
            context.instrs_wf(),
            parse_all(lines, 0, Seq::<InsV>::empty(), Seq::<GlobV>::empty())
                == parse_all(lines, i as int, context.instrs(), context.globs_v()),
        decreases n - i,
    {
        proof {
            assert(lines[i as int] == asm_source@[i as int]@);
        }
        match parse_asm_line(&mut context, asm_source[i].as_str(), i + 1) {
            Ok(()) => {},
            Err(e) => {
                return Err(e);
            },
        }
        i = i + 1;
    }
    context.write_binary()
}

} // verus!
