//! Instructions of the intermediate stream: an opcode paired with its
//! literal operand, and how each instruction is emitted into the image.

use vstd::prelude::*;
use crate::errors::AsmError;
use crate::errors::AsmErrV;
use crate::errors::asm_err_is;
use crate::opcodes::Arity;
use crate::opcodes::Opcode;
use crate::opcodes::arity_of;
use crate::opcodes::opcode_byte;
use crate::out_bin::EmitSt;
use crate::out_bin::OutBin;
use crate::out_bin::hi16;
use crate::out_bin::lo16;
use crate::out_bin::lookup;

verus! {

/// The operand a parsed instruction carries: nothing, an immediate byte,
/// a 16-bit address, or a label name to be resolved at finalize time.
#[derive(Debug, PartialEq, Eq)]
pub enum Literal {
    Empty,
    Const(u8),
    Address(u16),
    Label(String),
}

/// The spec-level shape of a literal, over character sequences.
pub enum LitV {
    LNone,
    LConst(u8),
    LAddr(u16),
    LLabel(Seq<char>),
}

impl View for Literal {
    type V = LitV;

    open spec fn view(&self) -> LitV {
        match self {
            Literal::Empty => LitV::LNone,
            Literal::Const(v) => LitV::LConst(*v),
            Literal::Address(a) => LitV::LAddr(*a),
            Literal::Label(n) => LitV::LLabel(n@),
        }
    }
}

/// One instruction of the intermediate stream.
#[derive(Debug)]
pub struct Instruction {
    pub opcode: Opcode,
    pub literal: Literal,
}

/// The spec-level shape of an instruction.
pub struct InsV {
    pub op: Opcode,
    pub lit: LitV,
}

impl View for Instruction {
    type V = InsV;

    open spec fn view(&self) -> InsV {
        InsV { op: self.opcode, lit: self.literal@ }
    }
}

/// The pairing invariant between an opcode and its literal: bare opcodes
/// carry nothing, immediate opcodes a constant, address opcodes an address
/// or a label, and the `Label` pseudo opcode a label name.
pub open spec fn ins_wf(i: InsV) -> bool {
    match arity_of(i.op) {
        Arity::Bare => i.lit is LNone,
        Arity::Imm8 => i.lit is LConst,
        Arity::Imm16 => i.lit is LAddr || i.lit is LLabel,
        Arity::Pseudo => i.lit is LLabel,
    }
}

/// How one instruction changes the emitter state: a label definition for
/// the pseudo opcode, the opcode byte and its operand bytes otherwise,
/// with a patch site and a placeholder window for a label operand.
pub open spec fn emit_ins(st: EmitSt, i: InsV) -> Result<EmitSt, AsmErrV> {
    match arity_of(i.op) {
        Arity::Pseudo => match i.lit {
            LitV::LLabel(n) => {
                if st.bytes.len() > 0xffff {
                    Err(AsmErrV::TooLarge)
                } else if lookup(st.table, n) is Some {
                    Err(AsmErrV::Dup(n))
                } else {
                    Ok(EmitSt {
                        table: st.table.push((n, st.bytes.len() as u16)),
                        ..st
                    })
                }
            },
            _ => Ok(st),
        },
        Arity::Bare => Ok(EmitSt { bytes: st.bytes.push(opcode_byte(i.op)), ..st }),
        Arity::Imm8 => match i.lit {
            LitV::LConst(v) => Ok(EmitSt {
                bytes: st.bytes + seq![opcode_byte(i.op), v],
                ..st
            }),
            _ => Ok(st),
        },
        Arity::Imm16 => match i.lit {
            LitV::LAddr(a) => Ok(EmitSt {
                bytes: st.bytes + seq![opcode_byte(i.op), lo16(a), hi16(a)],
                ..st
            }),
            LitV::LLabel(n) => {
                if st.bytes.len() + 1 > 0xffff {
                    Err(AsmErrV::TooLarge)
                } else {
                    Ok(EmitSt {
                        bytes: st.bytes + seq![opcode_byte(i.op), 0u8, 0u8],
                        patches: st.patches.push((st.bytes.len() as int + 1, n)),
                        ..st
                    })
                }
            },
            _ => Ok(st),
        },
    }
}

impl Instruction {
    /// A bare instruction carrying no operand.
    pub fn new(opcode: Opcode) -> (r: Instruction)
        requires
            arity_of(opcode) == Arity::Bare,
        ensures
            r@ == (InsV { op: opcode, lit: LitV::LNone }),
            ins_wf(r@),
    {
        Instruction { opcode, literal: Literal::Empty }
    }

    /// An instruction with its operand.
    pub fn new_with_literal(opcode: Opcode, literal: Literal) -> (r: Instruction)
        requires
            ins_wf(InsV { op: opcode, lit: literal@ }),
        ensures
            r@ == (InsV { op: opcode, lit: literal@ }),
            ins_wf(r@),
    {
        Instruction { opcode, literal }
    }

    /// The instruction's opcode.
    pub fn get_opcode(&self) -> (r: Opcode)
        ensures
            r == self@.op,
    {
        self.opcode
    }

    /// The instruction's literal operand.
    pub fn get_literal(&self) -> (r: &Literal)
        ensures
            r@ == self@.lit,
    {
        &self.literal
    }

    /// Mutable access to the literal operand.
    pub fn get_mut_literal(&mut self) -> (r: &mut Literal)
        ensures
            *r == old(self).literal,
            final(self).opcode == old(self).opcode,
            final(self).literal == *final(r),
    {
        &mut self.literal
    }

    /// Emits this instruction into the output: defines the label for the
    /// pseudo opcode, else appends the opcode byte and its operand bytes,
    /// recording a patch site for a label operand.
    pub fn encode(&self, bin: &mut OutBin) -> (r: Result<(), AsmError>)
        requires
            ins_wf(self@),
            old(bin).wf(),
        ensures
            final(bin).wf(),
            match r {
                Ok(()) => emit_ins(old(bin).emit_st(), self@) == Ok::<EmitSt, AsmErrV>(final(bin).emit_st()),
                Err(e) => {
                    &&& match emit_ins(old(bin).emit_st(), self@) {
                        Err(ev) => asm_err_is(e, ev),
                        Ok(_) => false,
                    }
                    &&& (e is DuplicateLabel ==> final(bin).emit_st() == old(bin).emit_st())
                },
            },
    {
        let ar = self.opcode.arity();
        match ar {
            Arity::Pseudo => match &self.literal {
                Literal::Label(name) => {
                    let addr = match bin.addr_here() {
                        Ok(a) => a,
                        Err(e) => {
                            return Err(e);
                        },
                    };
                    match bin.define_label(name, addr) {
                        Ok(()) => {
                            proof {
                                assert(emit_ins(old(bin).emit_st(), self@)
                                    == Ok::<EmitSt, AsmErrV>(bin.emit_st()));
                            }
                            Ok(())
                        },
                        Err(e) => Err(e),
                    }
                },
                _ => {
                    proof {
                        assert(false);
                    }
                    Err(AsmError::ImageTooLarge)
                },
            },
            Arity::Bare => {
                bin.emit_byte(self.opcode.to_byte());
                proof {
                    assert(bin.bytes() =~= old(bin).bytes().push(opcode_byte(self@.op)));
                    assert(emit_ins(old(bin).emit_st(), self@) == Ok::<EmitSt, AsmErrV>(bin.emit_st()));
                }
                Ok(())
            },
            Arity::Imm8 => match &self.literal {
                Literal::Const(v) => {
                    bin.emit_byte(self.opcode.to_byte());
                    bin.emit_byte(*v);
                    proof {
                        assert(bin.bytes() =~= old(bin).bytes()
                            + seq![opcode_byte(self@.op), self@.lit->LConst_0]);
                        assert(emit_ins(old(bin).emit_st(), self@) == Ok::<EmitSt, AsmErrV>(bin.emit_st()));
                    }
                    Ok(())
                },
                _ => {
                    proof {
                        assert(false);
                    }
                    Err(AsmError::ImageTooLarge)
                },
            },
            Arity::Imm16 => match &self.literal {
                Literal::Address(a) => {
                    bin.emit_byte(self.opcode.to_byte());
                    bin.emit_byte((*a % 256) as u8);
                    bin.emit_byte((*a / 256) as u8);
                    proof {
                        assert(bin.bytes() =~= old(bin).bytes()
                            + seq![opcode_byte(self@.op), lo16(self@.lit->LAddr_0),
                                hi16(self@.lit->LAddr_0)]);
                        assert(emit_ins(old(bin).emit_st(), self@) == Ok::<EmitSt, AsmErrV>(bin.emit_st()));
                    }
                    Ok(())
                },
                Literal::Label(name) => {
                    bin.emit_byte(self.opcode.to_byte());
                    match bin.emit_patch(name) {
                        Ok(()) => {
                            proof {
                                assert(bin.bytes() =~= old(bin).bytes()
                                    + seq![opcode_byte(self@.op), 0u8, 0u8]);
                                assert(bin.patches() =~= old(bin).patches().push(
                                    (old(bin).bytes().len() as int + 1, self@.lit->LLabel_0)));
                                assert(emit_ins(old(bin).emit_st(), self@) == Ok::<EmitSt, AsmErrV>(bin.emit_st()));
                            }
                            Ok(())
                        },
                        Err(e) => Err(e),
                    }
                },
                _ => {
                    proof {
                        assert(false);
                    }
                    Err(AsmError::ImageTooLarge)
                },
            },
        }
    }
}

} // verus!
