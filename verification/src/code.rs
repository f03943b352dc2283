//! The instruction stream accumulated by the parser, and its emission
//! into the output buffer.

use vstd::prelude::*;
use crate::errors::AsmError;
use crate::errors::AsmErrV;
use crate::errors::asm_err_is;
use crate::instruction::InsV;
use crate::instruction::Instruction;
use crate::instruction::emit_ins;
use crate::instruction::ins_wf;
use crate::out_bin::EmitSt;
use crate::out_bin::OutBin;

verus! {

/// The views of an instruction vector.
pub open spec fn ins_views(s: Seq<Instruction>) -> Seq<InsV> {
    s.map_values(|i: Instruction| i@)
}

/// How a whole instruction stream changes the emitter state: each
/// instruction emitted in order, stopping at the first error.
pub open spec fn emit_stream(st: EmitSt, ins: Seq<InsV>) -> Result<EmitSt, AsmErrV>
    decreases ins.len(),
{
    if ins.len() == 0 {
        Ok(st)
    } else {
        match emit_ins(st, ins[0]) {
            Err(ev) => Err(ev),
            Ok(st1) => emit_stream(st1, ins.skip(1)),
        }
    }
}

/// The instruction stream of a program.
#[derive(Debug)]
pub struct Code {
    pub code: Vec<Instruction>,
}

impl View for Code {
    type V = Seq<InsV>;

    open spec fn view(&self) -> Seq<InsV> {
        ins_views(self.code@)
    }
}

impl Code {
    /// An empty stream.
    pub fn new() -> (r: Code)
        ensures
            r@ =~= Seq::<InsV>::empty(),
    {
        Code { code: Vec::new() }
    }

    /// A stream over the given instructions.
    pub fn new_with_code(code: Vec<Instruction>) -> (r: Code)
        ensures
            r@ == ins_views(code@),
    {
        Code { code }
    }

    /// Appends an instruction.
    pub fn push_instruction(&mut self, instruction: Instruction)
        ensures
            final(self)@ =~= old(self)@.push(instruction@),
    {
        self.code.push(instruction);
        proof {
            assert(self@ =~= old(self)@.push(instruction@));
        }
    }

    /// Replaces the whole stream.
    pub fn set_code(&mut self, code: Vec<Instruction>)
        ensures
            final(self)@ == ins_views(code@),
    {
        self.code = code;
    }

    /// The instructions, in order.
    pub fn get_code(&self) -> (r: &Vec<Instruction>)
        ensures
            ins_views(r@) == self@,
    {
        &self.code
    }

    /// Mutable access to the instructions.
    pub fn get_mut_code(&mut self) -> (r: &mut Vec<Instruction>)
        ensures
            *r == old(self).code,
            final(self).code == *final(r),
    {
        &mut self.code
    }

    /// Emits every instruction in order into the output buffer.
    pub fn encode(&self, bin: &mut OutBin) -> (r: Result<(), AsmError>)
        requires
            old(bin).wf(),
            forall|k: int| 0 <= k < self@.len() ==> ins_wf(#[trigger] self@[k]),
        ensures
            final(bin).wf(),
            match r {
                Ok(()) => emit_stream(old(bin).emit_st(), self@) == Ok::<EmitSt, AsmErrV>(final(bin).emit_st()),
                Err(e) => match emit_stream(old(bin).emit_st(), self@) {
                    Err(ev) => asm_err_is(e, ev),
                    Ok(_) => false,
                },
            },
    {
        let ghost insv = self@;
        let ghost st0 = bin.emit_st();
        proof {
            assert(insv.skip(0) =~= insv);
        }
        let n = self.code.len();
        let mut k: usize = 0;
        while k < n
            invariant
                0 <= k <= n,
                n == self.code@.len(),
                insv == self@,
                st0 == old(bin).emit_st(),
                bin.wf(),
                forall|j: int| 0 <= j < insv.len() ==> ins_wf(#[trigger] insv[j]),
                emit_stream(st0, insv) == emit_stream(bin.emit_st(), insv.skip(k as int)),
            decreases n - k,
        {
            proof {
                assert(insv.skip(k as int)[0] == insv[k as int]);
                assert(insv[k as int] == self.code@[k as int]@);
            }
            let ghost st_before = bin.emit_st();
            match self.code[k].encode(bin) {
                Ok(()) => {},
                Err(e) => {
                    return Err(e);
                },
            }
            proof {
                assert(emit_ins(st_before, insv[k as int]) == Ok::<EmitSt, AsmErrV>(bin.emit_st()));
                assert(insv.skip(k as int).skip(1) =~= insv.skip(k as int + 1));
            }
            k = k + 1;
        }
        proof {
            assert(insv.skip(n as int) =~= Seq::<InsV>::empty());
        }
        Ok(())
    }
}

} // verus!
