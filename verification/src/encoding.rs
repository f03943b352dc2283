//! The byte-level theory of the emitter: what an instruction stream
//! encodes to, where its patch windows lie, and the fact that filling
//! the windows at finalize time yields the same image as resolving
//! every label directly.

use vstd::prelude::*;
use crate::code::emit_stream;
use crate::glob::GlobV;
use crate::glob::emit_glob;
use crate::instruction::InsV;
use crate::instruction::LitV;
use crate::instruction::emit_ins;
use crate::instruction::ins_wf;
use crate::opcodes::Arity;
use crate::opcodes::Opcode;
use crate::opcodes::arity_of;
use crate::opcodes::byte_to_opcode;
use crate::opcodes::lemma_opcode_byte_roundtrip;
use crate::opcodes::opcode_byte;
use crate::out_bin::EmitSt;
use crate::out_bin::apply_patches;
use crate::out_bin::hi16;
use crate::out_bin::lo16;
use crate::out_bin::lookup;
use crate::out_bin::patch_one;
use crate::out_bin::resolves_all;

verus! {

/// The immediate byte of a literal, for encoding.
pub open spec fn imm8_of(l: LitV) -> u8 {
    match l {
        LitV::LConst(v) => v,
        _ => 0,
    }
}

/// The bytes one instruction contributes to the image before patch
/// resolution: nothing for the pseudo opcode, the opcode byte and its
/// operand bytes otherwise, with a zero placeholder for a label operand.
pub open spec fn enc_placeholder(i: InsV) -> Seq<u8> {
    match arity_of(i.op) {
        Arity::Pseudo => Seq::empty(),
        Arity::Bare => seq![opcode_byte(i.op)],
        Arity::Imm8 => seq![opcode_byte(i.op), imm8_of(i.lit)],
        Arity::Imm16 => match i.lit {
            LitV::LAddr(a) => seq![opcode_byte(i.op), lo16(a), hi16(a)],
            _ => seq![opcode_byte(i.op), 0u8, 0u8],
        },
    }
}

/// The bytes one instruction contributes once labels are resolved
/// through the table.
pub open spec fn enc_resolved(i: InsV, t: Seq<(Seq<char>, u16)>) -> Seq<u8> {
    match arity_of(i.op) {
        Arity::Pseudo => Seq::empty(),
        Arity::Bare => seq![opcode_byte(i.op)],
        Arity::Imm8 => seq![opcode_byte(i.op), imm8_of(i.lit)],
        Arity::Imm16 => match i.lit {
            LitV::LAddr(a) => seq![opcode_byte(i.op), lo16(a), hi16(a)],
            LitV::LLabel(n) => {
                let a = lookup(t, n)->Some_0;
                seq![opcode_byte(i.op), lo16(a), hi16(a)]
            },
            _ => seq![opcode_byte(i.op), 0u8, 0u8],
        },
    }
}

/// The placeholder bytes of a whole instruction stream.
pub open spec fn stream_bytes(ins: Seq<InsV>) -> Seq<u8>
    decreases ins.len(),
{
    if ins.len() == 0 {
        Seq::empty()
    } else {
        enc_placeholder(ins[0]) + stream_bytes(ins.skip(1))
    }
}

/// The resolved bytes of a whole instruction stream.
pub open spec fn resolved_stream(ins: Seq<InsV>, t: Seq<(Seq<char>, u16)>) -> Seq<u8>
    decreases ins.len(),
{
    if ins.len() == 0 {
        Seq::empty()
    } else {
        enc_resolved(ins[0], t) + resolved_stream(ins.skip(1), t)
    }
}

/// The patch sites a stream records when its first byte lands at `off`.
pub open spec fn stream_patches(ins: Seq<InsV>, off: int) -> Seq<(int, Seq<char>)>
    decreases ins.len(),
{
    if ins.len() == 0 {
        Seq::empty()
    } else {
        let rest = stream_patches(ins.skip(1), off + enc_placeholder(ins[0]).len());
        if arity_of(ins[0].op) == Arity::Imm16 && ins[0].lit is LLabel {
            seq![(off + 1, ins[0].lit->LLabel_0)] + rest
        } else {
            rest
        }
    }
}

/// The data bytes of all globals, in order.
pub open spec fn glob_datas(gs: Seq<GlobV>) -> Seq<u8>
    decreases gs.len(),
{
    if gs.len() == 0 {
        Seq::empty()
    } else {
        gs[0].data + glob_datas(gs.skip(1))
    }
}

/// A successful emitter run appends exactly the stream's placeholder
/// bytes and records exactly the stream's patch sites, leaving earlier
/// patches untouched.
pub proof fn lemma_emit_stream_shape(st: EmitSt, ins: Seq<InsV>)
    requires
        emit_stream(st, ins) is Ok,
        forall|k: int| 0 <= k < ins.len() ==> ins_wf(#[trigger] ins[k]),
    ensures
        (emit_stream(st, ins)->Ok_0).bytes == st.bytes + stream_bytes(ins),
        (emit_stream(st, ins)->Ok_0).patches
            == st.patches + stream_patches(ins, st.bytes.len() as int),
    decreases ins.len(),
{
    if ins.len() == 0 {
        assert(st.bytes + stream_bytes(ins) =~= st.bytes);
        assert(st.patches + stream_patches(ins, st.bytes.len() as int) =~= st.patches);
    } else {
        let i0 = ins[0];
        let st1 = emit_ins(st, i0)->Ok_0;
        assert(forall|k: int| 0 <= k < ins.skip(1).len() ==> ins.skip(1)[k] == ins[k + 1]);
        lemma_emit_stream_shape(st1, ins.skip(1));
        let rest_b = stream_bytes(ins.skip(1));
        let e0 = enc_placeholder(i0);
        match arity_of(i0.op) {
            Arity::Pseudo => {
                assert(st1.bytes == st.bytes);
                assert(st1.patches == st.patches);
                assert(st.bytes + (e0 + rest_b) =~= (st.bytes + e0) + rest_b);
                assert(st.bytes + e0 =~= st.bytes);
            },
            Arity::Bare => {
                assert(st1.bytes =~= st.bytes + e0);
                assert(st1.patches == st.patches);
            },
            Arity::Imm8 => {
                assert(st1.bytes =~= st.bytes + e0);
                assert(st1.patches == st.patches);
            },
            Arity::Imm16 => {
                assert(st1.bytes =~= st.bytes + e0);
                if i0.lit is LLabel {
                    let n = i0.lit->LLabel_0;
                    let p0 = (st.bytes.len() as int + 1, n);
                    assert(st1.patches == st.patches.push(p0));
                    assert(stream_patches(ins, st.bytes.len() as int)
                        == seq![p0] + stream_patches(ins.skip(1), st.bytes.len() as int + 3));
                    assert(st1.bytes.len() == st.bytes.len() + 3);
                    assert(st.patches + (seq![p0]
                        + stream_patches(ins.skip(1), st.bytes.len() as int + 3))
                        =~= st.patches.push(p0)
                            + stream_patches(ins.skip(1), st.bytes.len() as int + 3));
                } else {
                    assert(st1.patches == st.patches);
                }
            },
        }
        assert(st.bytes + stream_bytes(ins) =~= st1.bytes + rest_b);
        if !(arity_of(i0.op) == Arity::Imm16 && i0.lit is LLabel) {
            assert(stream_patches(ins, st.bytes.len() as int)
                == stream_patches(ins.skip(1), st.bytes.len() as int + e0.len()));
            assert(st1.bytes.len() == st.bytes.len() + e0.len());
        }
    }
}

/// A successful run over the globals appends exactly their data bytes
/// and records no patches.
pub proof fn lemma_emit_globs_shape(st: EmitSt, gs: Seq<GlobV>)
    requires
        emit_globs(st, gs) is Ok,
    ensures
        (emit_globs(st, gs)->Ok_0).bytes == st.bytes + glob_datas(gs),
        (emit_globs(st, gs)->Ok_0).patches == st.patches,
    decreases gs.len(),
{
    if gs.len() == 0 {
        assert(st.bytes + glob_datas(gs) =~= st.bytes);
    } else {
        let st1 = emit_glob(st, gs[0])->Ok_0;
        lemma_emit_globs_shape(st1, gs.skip(1));
        assert(st.bytes + glob_datas(gs) =~= (st.bytes + gs[0].data) + glob_datas(gs.skip(1)));
    }
}

/// How a whole list of globals changes the emitter state.
pub open spec fn emit_globs(st: EmitSt, gs: Seq<GlobV>) -> Result<EmitSt, crate::errors::AsmErrV>
    decreases gs.len(),
{
    if gs.len() == 0 {
        Ok(st)
    } else {
        match emit_glob(st, gs[0]) {
            Err(ev) => Err(ev),
            Ok(st1) => emit_globs(st1, gs.skip(1)),
        }
    }
}

/// The patch sites of a stream lie inside its placeholder bytes, after
/// the opcode byte of their instruction, in increasing disjoint order.
pub proof fn lemma_stream_patches_bounds(ins: Seq<InsV>, off: int)
    ensures
        forall|k: int| 0 <= k < stream_patches(ins, off).len()
            ==> off + 1 <= #[trigger] stream_patches(ins, off)[k].0
                && stream_patches(ins, off)[k].0 + 2 <= off + stream_bytes(ins).len(),
        forall|k: int, l: int| 0 <= k < l < stream_patches(ins, off).len()
            ==> #[trigger] stream_patches(ins, off)[k].0 + 2
                <= #[trigger] stream_patches(ins, off)[l].0,
    decreases ins.len(),
{
    if ins.len() > 0 {
        let e0 = enc_placeholder(ins[0]);
        lemma_stream_patches_bounds(ins.skip(1), off + e0.len());
        let rest = stream_patches(ins.skip(1), off + e0.len());
        assert(stream_bytes(ins) == e0 + stream_bytes(ins.skip(1)));
        if arity_of(ins[0].op) == Arity::Imm16 && ins[0].lit is LLabel {
            let ps = stream_patches(ins, off);
            assert(ps == seq![(off + 1, ins[0].lit->LLabel_0)] + rest);
            assert(forall|k: int| 1 <= k < ps.len() ==> ps[k] == rest[k - 1]);
            assert(ps[0].0 == off + 1);
            assert(e0.len() == 3);
        }
    }
}

/// Patches whose windows lie inside a prefix do not reach past it.
pub proof fn lemma_apply_patches_prefix(
    s: Seq<u8>,
    g: Seq<u8>,
    ps: Seq<(int, Seq<char>)>,
    t: Seq<(Seq<char>, u16)>,
)
    requires
        forall|k: int| 0 <= k < ps.len()
            ==> 0 <= #[trigger] ps[k].0 && ps[k].0 + 2 <= s.len(),
    ensures
        apply_patches(s + g, ps, t) == apply_patches(s, ps, t) + g,
    decreases ps.len(),
{
    if ps.len() > 0 {
        let s1 = patch_one(s, ps[0], t);
        assert(patch_one(s + g, ps[0], t) =~= s1 + g);
        assert(s1.len() == s.len());
        assert(forall|k: int| 0 <= k < ps.skip(1).len() ==> ps.skip(1)[k] == ps[k + 1]);
        lemma_apply_patches_prefix(s1, g, ps.skip(1), t);
    }
}

/// Filling every patch window of a stream with its label's address gives
/// the directly resolved encoding of the stream.
pub proof fn lemma_apply_stream(p: Seq<u8>, ins: Seq<InsV>, t: Seq<(Seq<char>, u16)>)
    requires
        forall|k: int| 0 <= k < ins.len() ==> ins_wf(#[trigger] ins[k]),
        resolves_all(stream_patches(ins, p.len() as int), t),
    ensures
        apply_patches(p + stream_bytes(ins), stream_patches(ins, p.len() as int), t)
            == p + resolved_stream(ins, t),
    decreases ins.len(),
{
    if ins.len() == 0 {
        assert(p + stream_bytes(ins) =~= p);
        assert(p + resolved_stream(ins, t) =~= p);
    } else {
        let i0 = ins[0];
        let e0 = enc_placeholder(i0);
        let r0 = enc_resolved(i0, t);
        let rest_b = stream_bytes(ins.skip(1));
        assert(forall|k: int| 0 <= k < ins.skip(1).len() ==> ins.skip(1)[k] == ins[k + 1]);
        if arity_of(i0.op) == Arity::Imm16 && i0.lit is LLabel {
            let n = i0.lit->LLabel_0;
            let ps = stream_patches(ins, p.len() as int);
            let rest_ps = stream_patches(ins.skip(1), p.len() as int + 3);
            assert(ps == seq![(p.len() as int + 1, n)] + rest_ps);
            assert(ps[0] == (p.len() as int + 1, n));
            assert(forall|k: int| 0 <= k < rest_ps.len() ==> ps[k + 1] == rest_ps[k]);
            assert(lookup(t, n) is Some);
            let a = lookup(t, n)->Some_0;
            let bytes0 = p + stream_bytes(ins);
            assert(stream_bytes(ins) == e0 + rest_b);
            let p2 = p + r0;
            assert(r0 == seq![opcode_byte(i0.op), lo16(a), hi16(a)]);
            assert(patch_one(bytes0, ps[0], t) =~= p2 + rest_b);
            assert(ps.skip(1) =~= rest_ps);
            assert(p2.len() == p.len() + 3);
            assert(resolves_all(rest_ps, t));
            lemma_apply_stream(p2, ins.skip(1), t);
            assert(apply_patches(bytes0, ps, t)
                == apply_patches(p2 + rest_b, rest_ps, t));
            assert(p2 + resolved_stream(ins.skip(1), t) =~= p + resolved_stream(ins, t));
        } else {
            assert(e0 == r0);
            let p2 = p + e0;
            let ps = stream_patches(ins, p.len() as int);
            assert(ps == stream_patches(ins.skip(1), p.len() as int + e0.len()));
            assert(p2.len() == p.len() + e0.len());
            assert(p + stream_bytes(ins) =~= p2 + rest_b);
            lemma_apply_stream(p2, ins.skip(1), t);
            assert(p2 + resolved_stream(ins.skip(1), t) =~= p + resolved_stream(ins, t));
        }
    }
}

/// The length of one instruction in the image: its opcode byte plus its
/// operand bytes.
pub open spec fn op_len(op: Opcode) -> int {
    match arity_of(op) {
        Arity::Pseudo => 0,
        Arity::Bare => 1,
        Arity::Imm8 => 2,
        Arity::Imm16 => 3,
    }
}

/// A byte sequence laid out as instructions: empty, or an opcode byte
/// (never the `Label` pseudo opcode) followed by that opcode's operand
/// bytes and another such sequence.
pub open spec fn is_code_layout(s: Seq<u8>) -> bool
    decreases s.len(),
{
    if s.len() == 0 {
        true
    } else {
        match byte_to_opcode(s[0]) {
            None => false,
            Some(op) => arity_of(op) != Arity::Pseudo && op_len(op) <= s.len()
                && is_code_layout(s.skip(op_len(op))),
        }
    }
}

/// The resolved encoding of a well-formed instruction stream is laid out
/// as instructions: every byte is an opcode byte or one of its operand
/// bytes, and no `Label` pseudo opcode reaches the image.
pub proof fn lemma_resolved_layout(ins: Seq<InsV>, t: Seq<(Seq<char>, u16)>)
    requires
        forall|k: int| 0 <= k < ins.len() ==> ins_wf(#[trigger] ins[k]),
    ensures
        is_code_layout(resolved_stream(ins, t)),
    decreases ins.len(),
{
    if ins.len() > 0 {
        let i0 = ins[0];
        let r0 = enc_resolved(i0, t);
        let s = resolved_stream(ins, t);
        assert(forall|k: int| 0 <= k < ins.skip(1).len() ==> ins.skip(1)[k] == ins[k + 1]);
        lemma_resolved_layout(ins.skip(1), t);
        if arity_of(i0.op) == Arity::Pseudo {
            assert(s =~= resolved_stream(ins.skip(1), t));
        } else {
            assert(r0.len() == op_len(i0.op));
            assert(s[0] == r0[0]);
            assert(r0[0] == opcode_byte(i0.op));
            lemma_opcode_byte_roundtrip(i0.op);
            assert(byte_to_opcode(s[0]) == Some(i0.op));
            assert(s.skip(op_len(i0.op)) =~= resolved_stream(ins.skip(1), t));
        }
    }
}

} // verus!
