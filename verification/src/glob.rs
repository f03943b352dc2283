//! Globals: named byte blobs appended to the image tail, each exposed as
//! a label whose address is the blob's position.

use vstd::prelude::*;
use crate::errors::AsmError;
use crate::errors::AsmErrV;
use crate::errors::asm_err_is;
use crate::out_bin::EmitSt;
use crate::out_bin::OutBin;
use crate::out_bin::lookup;

verus! {

/// A named byte blob.
#[derive(Debug)]
pub struct Glob {
    pub name: String,
    pub value: Vec<u8>,
}

/// The spec-level shape of a global.
pub struct GlobV {
    pub name: Seq<char>,
    pub data: Seq<u8>,
}

impl View for Glob {
    type V = GlobV;

    open spec fn view(&self) -> GlobV {
        GlobV { name: self.name@, data: self.value@ }
    }
}

/// How one global changes the emitter state: its name is bound to the
/// blob's start address and the blob's bytes are appended.
pub open spec fn emit_glob(st: EmitSt, g: GlobV) -> Result<EmitSt, AsmErrV> {
    if st.bytes.len() > 0xffff {
        Err(AsmErrV::TooLarge)
    } else if lookup(st.table, g.name) is Some {
        Err(AsmErrV::Dup(g.name))
    } else {
        Ok(EmitSt {
            bytes: st.bytes + g.data,
            table: st.table.push((g.name, st.bytes.len() as u16)),
            ..st
        })
    }
}

impl Glob {
    /// A global with no data yet.
    pub fn new(name: String) -> (r: Glob)
        ensures
            r@.name == name@,
            r@.data =~= Seq::<u8>::empty(),
    {
        Glob { name, value: Vec::new() }
    }

    /// A global with its data.
    pub fn new_with_value(name: String, value: Vec<u8>) -> (r: Glob)
        ensures
            r@.name == name@,
            r@.data == value@,
    {
        Glob { name, value }
    }

    /// The global's name.
    pub fn get_name(&self) -> (r: &String)
        ensures
            r@ == self@.name,
    {
        &self.name
    }

    /// The global's data bytes.
    pub fn get_value(&self) -> (r: &Vec<u8>)
        ensures
            r@ == self@.data,
    {
        &self.value
    }

    /// Emits this global: binds its name to the current address and
    /// appends its bytes.
    pub fn encode(&self, bin: &mut OutBin) -> (r: Result<(), AsmError>)
        requires
            old(bin).wf(),
        ensures
            final(bin).wf(),
            match r {
                Ok(()) => emit_glob(old(bin).emit_st(), self@) == Ok::<EmitSt, AsmErrV>(final(bin).emit_st()),
                Err(e) => {
                    &&& match emit_glob(old(bin).emit_st(), self@) {
                        Err(ev) => asm_err_is(e, ev),
                        Ok(_) => false,
                    }
                    &&& final(bin).emit_st() == old(bin).emit_st()
                },
            },
    {
        let addr = match bin.addr_here() {
            Ok(a) => a,
            Err(e) => {
                return Err(e);
            },
        };
        match bin.define_label(&self.name, addr) {
            Ok(()) => {},
            Err(e) => {
                return Err(e);
            },
        }
        bin.emit_bytes(&self.value);
        proof {
            assert(emit_glob(old(bin).emit_st(), self@) == Ok::<EmitSt, AsmErrV>(bin.emit_st()));
        }
        Ok(())
    }
}

} // verus!
