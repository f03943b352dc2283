//! The assembler's accumulator: the instruction stream, the globals, and
//! the set of global names already declared; and the final emission of a
//! binary image.

use vstd::prelude::*;
use crate::code::Code;
use crate::code::emit_stream;
use crate::encoding::emit_globs;
use crate::encoding::glob_datas;
use crate::encoding::lemma_apply_patches_prefix;
use crate::encoding::lemma_apply_stream;
use crate::encoding::lemma_emit_globs_shape;
use crate::encoding::lemma_emit_stream_shape;
use crate::encoding::lemma_resolved_layout;
use crate::encoding::lemma_stream_patches_bounds;
use crate::encoding::is_code_layout;
use crate::encoding::resolved_stream;
use crate::encoding::stream_bytes;
use crate::encoding::stream_patches;
use crate::errors::AsmErrV;
use crate::errors::AsmError;
use crate::errors::asm_err_is;
use crate::out_bin::asm_err_dup;
use crate::glob::Glob;
use crate::glob::GlobV;
use crate::glob::emit_glob;
use crate::instruction::InsV;
use crate::instruction::ins_wf;
use crate::opcodes::str_eq;
use crate::out_bin::EmitSt;
use crate::out_bin::OutBin;
use crate::out_bin::apply_patches;
use crate::out_bin::first_unresolved;
use crate::out_bin::lemma_first_unresolved_none;
use crate::strutil::views;

verus! {

/// The views of a vector of globals.
pub open spec fn glob_views(s: Seq<Glob>) -> Seq<GlobV> {
    s.map_values(|g: Glob| g@)
}

/// The names of a list of globals, in order.
pub open spec fn glob_names(gs: Seq<GlobV>) -> Seq<Seq<char>> {
    gs.map_values(|g: GlobV| g.name)
}

/// The empty emitter state.
pub open spec fn empty_emit() -> EmitSt {
    EmitSt {
        bytes: Seq::<u8>::empty(),
        table: Seq::<(Seq<char>, u16)>::empty(),
        patches: Seq::<(int, Seq<char>)>::empty(),
    }
}

/// The meaning of assembling a parsed program: emit every instruction,
/// then every global, then resolve every patch window. An error is the
/// first duplicate label, the first unresolved label, or an image grown
/// past the address space.
pub open spec fn assemble_spec(ins: Seq<InsV>, gs: Seq<GlobV>) -> Result<Seq<u8>, AsmErrV> {
    match emit_stream(empty_emit(), ins) {
        Err(ev) => Err(ev),
        Ok(st1) => match emit_globs(st1, gs) {
            Err(ev) => Err(ev),
            Ok(st2) => match first_unresolved(st2.patches, st2.table) {
                Some(n) => Err(AsmErrV::Unknown(n)),
                None => Ok(apply_patches(st2.bytes, st2.patches, st2.table)),
            },
        },
    }
}

/// The label table a successful assembly ends with.
pub open spec fn assemble_table(ins: Seq<InsV>, gs: Seq<GlobV>) -> Seq<(Seq<char>, u16)> {
    match emit_stream(empty_emit(), ins) {
        Err(_) => Seq::empty(),
        Ok(st1) => match emit_globs(st1, gs) {
            Err(_) => Seq::empty(),
            Ok(st2) => st2.table,
        },
    }
}

/// Every successfully assembled image is the resolved encoding of its
/// instruction stream followed by the globals' data bytes, and the code
/// part is laid out as instructions: each byte is an opcode byte, a u8
/// operand, half of a little-endian u16 operand, or global data, and the
/// `Label` pseudo opcode never appears.
pub proof fn lemma_assembled_image(ins: Seq<InsV>, gs: Seq<GlobV>)
    requires
        forall|k: int| 0 <= k < ins.len() ==> ins_wf(#[trigger] ins[k]),
        assemble_spec(ins, gs) is Ok,
    ensures
        assemble_spec(ins, gs)->Ok_0
            == resolved_stream(ins, assemble_table(ins, gs)) + glob_datas(gs),
        is_code_layout(resolved_stream(ins, assemble_table(ins, gs))),
{
    let st1 = emit_stream(empty_emit(), ins)->Ok_0;
    let st2 = emit_globs(st1, gs)->Ok_0;
    let t = st2.table;
    lemma_emit_stream_shape(empty_emit(), ins);
    lemma_emit_globs_shape(st1, gs);
    assert(st1.bytes =~= stream_bytes(ins));
    assert(st1.patches =~= stream_patches(ins, 0));
    assert(st2.bytes =~= stream_bytes(ins) + glob_datas(gs));
    assert(st2.patches =~= stream_patches(ins, 0));
    lemma_first_unresolved_none(st2.patches, t);
    lemma_stream_patches_bounds(ins, 0);
    lemma_apply_patches_prefix(stream_bytes(ins), glob_datas(gs), stream_patches(ins, 0), t);
    let ghost empty_p = Seq::<u8>::empty();
    assert(empty_p.len() as int == 0);
    assert(empty_p + stream_bytes(ins) =~= stream_bytes(ins));
    lemma_apply_stream(empty_p, ins, t);
    assert(empty_p + resolved_stream(ins, t) =~= resolved_stream(ins, t));
    lemma_resolved_layout(ins, t);
}

/// What the parser accumulates: the instruction stream, the globals, and
/// the global names already declared, for early duplicate rejection.
#[derive(Debug)]
pub struct Context {
    pub code: Code,
    pub globs: Vec<Glob>,
    pub unique_labels: Vec<String>,
}

impl Context {
    /// The instruction stream's view.
    pub open spec fn instrs(&self) -> Seq<InsV> {
        self.code@
    }

    /// The globals' views.
    pub open spec fn globs_v(&self) -> Seq<GlobV> {
        glob_views(self.globs@)
    }

    /// The context's invariant: the declared-name set is exactly the
    /// names of the globals, in order.
    pub open spec fn wf(&self) -> bool {
        views(self.unique_labels@) == glob_names(self.globs_v())
    }

    /// Whether every accumulated instruction pairs its opcode with the
    /// right kind of literal.
    pub open spec fn instrs_wf(&self) -> bool {
        forall|k: int| 0 <= k < self.instrs().len() ==> ins_wf(#[trigger] self.instrs()[k])
    }

    /// An empty context.
    pub fn new() -> (r: Context)
        ensures
            r.instrs() =~= Seq::<InsV>::empty(),
            r.globs_v() =~= Seq::<GlobV>::empty(),
            r.wf(),
            r.instrs_wf(),
    {
        let r = Context { code: Code::new(), globs: Vec::new(), unique_labels: Vec::new() };
        proof {
            assert(views(r.unique_labels@) =~= glob_names(r.globs_v()));
        }
        r
    }

    /// The instruction stream.
    pub fn get_code(&self) -> (r: &Code)
        ensures
            r@ == self.instrs(),
    {
        &self.code
    }

    /// Mutable access to the instruction stream.
    pub fn get_code_mut(&mut self) -> (r: &mut Code)
        ensures
            *r == old(self).code,
            final(self).code == *final(r),
            final(self).globs == old(self).globs,
            final(self).unique_labels == old(self).unique_labels,
    {
        &mut self.code
    }

    /// Adds a global, or fails with `DuplicateLabel` when a global of
    /// that name was already declared.
    pub fn add_glob(&mut self, glob: Glob) -> (r: Result<(), AsmError>)
        requires
            old(self).wf(),
        ensures
            final(self).wf(),
            final(self).code == old(self).code,
            match r {
                Ok(()) => !glob_names(old(self).globs_v()).contains(glob@.name)
                    && final(self).globs_v() == old(self).globs_v().push(glob@),
                Err(e) => glob_names(old(self).globs_v()).contains(glob@.name)
                    && asm_err_dup(e, glob@.name)
                    && final(self).globs_v() == old(self).globs_v(),
            },
    {
        let ghost names = glob_names(self.globs_v());
        proof {
            assert(names.len() == self.unique_labels@.len());
            assert(forall|j: int| 0 <= j < names.len()
                ==> names[j] == #[trigger] self.unique_labels@[j]@);
        }
        let mut i: usize = 0;
        while i < self.unique_labels.len()
            invariant
                0 <= i <= self.unique_labels@.len(),
                *self == *old(self),
                old(self).wf(),
                names == glob_names(self.globs_v()),
                names.len() == self.unique_labels@.len(),
                forall|j: int| 0 <= j < names.len()
                    ==> names[j] == #[trigger] self.unique_labels@[j]@,
                forall|j: int| 0 <= j < i ==> #[trigger] names[j] != glob@.name,
            decreases self.unique_labels@.len() - i,
        {
            if str_eq(self.unique_labels[i].as_str(), glob.name.as_str()) {
                proof {
                    assert(names[i as int] == glob@.name);
                }
                return Err(AsmError::DuplicateLabel { name: glob.name.clone() });
            }
            i = i + 1;
        }
        proof {
            assert(!names.contains(glob@.name));
        }
        self.unique_labels.push(glob.name.clone());
        self.globs.push(glob);
        proof {
            assert(self.globs_v() =~= old(self).globs_v().push(glob@));
            assert(views(self.unique_labels@) =~= glob_names(self.globs_v()));
        }
        Ok(())
    }

    /// The globals, in declaration order.
    pub fn get_globs(&self) -> (r: &Vec<Glob>)
        ensures
            glob_views(r@) == self.globs_v(),
    {
        &self.globs
    }

    /// Assembles the accumulated program into a binary image: emits every
    /// instruction, then every global, and fills every patch window with
    /// the little-endian address of its label.
    pub fn write_binary(&self) -> (r: Result<Vec<u8>, AsmError>)
        requires
            self.instrs_wf(),
        ensures
            match r {
                Ok(bytes) => assemble_spec(self.instrs(), self.globs_v()) == Ok::<Seq<u8>, AsmErrV>(bytes@),
                Err(e) => match assemble_spec(self.instrs(), self.globs_v()) {
                    Err(ev) => asm_err_is(e, ev),
                    Ok(_) => false,
                },
            },
    {
        let mut bin = OutBin::new();
        proof {
            assert(bin.emit_st() =~= empty_emit());
            assert(bin.emit_st().bytes =~= empty_emit().bytes);
            assert(bin.emit_st().table =~= empty_emit().table);
            assert(bin.emit_st().patches =~= empty_emit().patches);
        }
        match self.code.encode(&mut bin) {
            Ok(()) => {},
            Err(e) => {
                return Err(e);
            },
        }
        let ghost st1 = bin.emit_st();
        let ghost gsv = self.globs_v();
        proof {
            assert(gsv.skip(0) =~= gsv);
        }
        let n = self.globs.len();
        let mut k: usize = 0;
        while k < n
            invariant
                0 <= k <= n,
                n == self.globs@.len(),
                gsv == self.globs_v(),
                bin.wf(),
                self.instrs_wf(),
                emit_stream(empty_emit(), self.instrs()) == Ok::<EmitSt, AsmErrV>(st1),
                emit_globs(st1, gsv) == emit_globs(bin.emit_st(), gsv.skip(k as int)),
            decreases n - k,
        {
            proof {
                assert(gsv.skip(k as int)[0] == gsv[k as int]);
                assert(gsv[k as int] == self.globs@[k as int]@);
            }
            let ghost st_before = bin.emit_st();
            match self.globs[k].encode(&mut bin) {
                Ok(()) => {},
                Err(e) => {
                    return Err(e);
                },
            }
            proof {
                assert(emit_glob(st_before, gsv[k as int])
                    == Ok::<EmitSt, AsmErrV>(bin.emit_st()));
                assert(gsv.skip(k as int).skip(1) =~= gsv.skip(k as int + 1));
            }
            k = k + 1;
        }
        proof {
            assert(gsv.skip(n as int) =~= Seq::<GlobV>::empty());
        }
        let ghost st2 = bin.emit_st();
        match bin.finalize() {
            Ok(out) => {
                proof {
                    lemma_first_unresolved_none(st2.patches, st2.table);
                }
                Ok(out)
            },
            Err(e) => Err(e),
        }
    }
}

} // verus!
