//! The emitter's output buffer: the growing byte image, the table of
//! defined label addresses, and the table of patch sites still waiting
//! for a label address.

use vstd::prelude::*;
use crate::errors::AsmError;
use crate::opcodes::str_eq;

verus! {

/// The spec-level state of the emitter: what the buffer holds, which
/// labels are defined at which address, and which 2-byte holes remain
/// to be filled with which label's address.
pub struct EmitSt {
    pub bytes: Seq<u8>,
    pub table: Seq<(Seq<char>, u16)>,
    pub patches: Seq<(int, Seq<char>)>,
}

/// The address a name is bound to: the first table entry with that name.
pub open spec fn lookup(t: Seq<(Seq<char>, u16)>, name: Seq<char>) -> Option<u16>
    decreases t.len(),
{
    if t.len() == 0 {
        None
    } else if t[0].0 == name {
        Some(t[0].1)
    } else {
        lookup(t.skip(1), name)
    }
}

/// A name misses the table exactly when no entry carries it.
pub proof fn lemma_lookup_none(t: Seq<(Seq<char>, u16)>, name: Seq<char>)
    ensures
        lookup(t, name) is None <==> forall|i: int| 0 <= i < t.len() ==> t[i].0 != name,
    decreases t.len(),
{
    if t.len() > 0 {
        lemma_lookup_none(t.skip(1), name);
        assert(forall|i: int| 1 <= i < t.len() ==> t[i].0 == t.skip(1)[i - 1].0);
    }
}

/// The low byte of a 16-bit address.
pub open spec fn lo16(a: u16) -> u8 {
    (a % 256) as u8
}

/// The high byte of a 16-bit address.
pub open spec fn hi16(a: u16) -> u8 {
    (a / 256) as u8
}

/// One patch applied: the 2-byte window at its offset overwritten with
/// the little-endian address its label resolves to.
pub open spec fn patch_one(bytes: Seq<u8>, p: (int, Seq<char>), t: Seq<(Seq<char>, u16)>) -> Seq<u8> {
    let a = lookup(t, p.1)->Some_0;
    bytes.update(p.0, lo16(a)).update(p.0 + 1, hi16(a))
}

/// All patches applied, in order.
pub open spec fn apply_patches(
    bytes: Seq<u8>,
    ps: Seq<(int, Seq<char>)>,
    t: Seq<(Seq<char>, u16)>,
) -> Seq<u8>
    decreases ps.len(),
{
    if ps.len() == 0 {
        bytes
    } else {
        apply_patches(patch_one(bytes, ps[0], t), ps.skip(1), t)
    }
}

/// Whether every patch's label is defined in the table.
pub open spec fn resolves_all(ps: Seq<(int, Seq<char>)>, t: Seq<(Seq<char>, u16)>) -> bool {
    forall|k: int| 0 <= k < ps.len() ==> lookup(t, ps[k].1) is Some
}

/// Applying patches never changes the length of the buffer.
pub proof fn lemma_apply_patches_len(
    bytes: Seq<u8>,
    ps: Seq<(int, Seq<char>)>,
    t: Seq<(Seq<char>, u16)>,
)
    requires
        forall|k: int| 0 <= k < ps.len()
            ==> 0 <= #[trigger] ps[k].0 && ps[k].0 + 2 <= bytes.len(),
    ensures
        apply_patches(bytes, ps, t).len() == bytes.len(),
    decreases ps.len(),
{
    if ps.len() > 0 {
        let b1 = patch_one(bytes, ps[0], t);
        assert(b1.len() == bytes.len());
        assert(forall|k: int| 0 <= k < ps.skip(1).len() ==> ps.skip(1)[k] == ps[k + 1]);
        lemma_apply_patches_len(b1, ps.skip(1), t);
        assert(apply_patches(bytes, ps, t) == apply_patches(b1, ps.skip(1), t));
    }
}

/// Applying patches leaves every byte outside their 2-byte windows alone.
pub proof fn lemma_apply_patches_untouched(
    bytes: Seq<u8>,
    ps: Seq<(int, Seq<char>)>,
    t: Seq<(Seq<char>, u16)>,
    i: int,
)
    requires
        0 <= i < bytes.len(),
        forall|k: int| 0 <= k < ps.len()
            ==> 0 <= #[trigger] ps[k].0 && ps[k].0 + 2 <= bytes.len(),
        forall|k: int| 0 <= k < ps.len() ==> !(#[trigger] ps[k].0 <= i <= ps[k].0 + 1),
    ensures
        apply_patches(bytes, ps, t)[i] == bytes[i],
    decreases ps.len(),
{
    if ps.len() > 0 {
        let b1 = patch_one(bytes, ps[0], t);
        assert(forall|k: int| 0 <= k < ps.skip(1).len() ==> ps.skip(1)[k] == ps[k + 1]);
        assert(ps[0].0 <= i <= ps[0].0 + 1 || b1[i] == bytes[i]);
        assert(b1[i] == bytes[i]);
        lemma_apply_patches_untouched(b1, ps.skip(1), t, i);
        assert(apply_patches(bytes, ps, t) == apply_patches(b1, ps.skip(1), t));
    }
}

/// Once all patches at offsets disjoint from window `k` are applied after
/// it, window `k` still holds the little-endian address of its label.
pub proof fn lemma_apply_patches_window(
    bytes: Seq<u8>,
    ps: Seq<(int, Seq<char>)>,
    t: Seq<(Seq<char>, u16)>,
    k: int,
)
    requires
        0 <= k < ps.len(),
        forall|j: int| 0 <= j < ps.len() ==> 0 <= #[trigger] ps[j].0 && ps[j].0 + 2 <= bytes.len(),
        forall|j: int, l: int| 0 <= j < l < ps.len() ==> ps[j].0 + 2 <= ps[l].0,
        lookup(t, ps[k].1) is Some,
    ensures
        ({
            let a = lookup(t, ps[k].1)->Some_0;
            apply_patches(bytes, ps, t)[ps[k].0] == lo16(a)
                && apply_patches(bytes, ps, t)[ps[k].0 + 1] == hi16(a)
        }),
    decreases ps.len(),
{
    let b1 = patch_one(bytes, ps[0], t);
    assert(b1.len() == bytes.len());
    if k == 0 {
        let a = lookup(t, ps[0].1)->Some_0;
        assert(b1[ps[0].0] == lo16(a));
        assert(b1[ps[0].0 + 1] == hi16(a));
        assert(forall|j: int| 0 <= j < ps.skip(1).len() ==> ps.skip(1)[j] == ps[j + 1]);
        lemma_apply_patches_untouched(b1, ps.skip(1), t, ps[0].0);
        lemma_apply_patches_untouched(b1, ps.skip(1), t, ps[0].0 + 1);
    } else {
        assert(forall|j: int| 0 <= j < ps.skip(1).len() ==> ps.skip(1)[j] == ps[j + 1]);
        lemma_apply_patches_window(b1, ps.skip(1), t, k - 1);
        assert(ps.skip(1)[k - 1] == ps[k]);
    }
}

/// The first patch whose label the table does not define, if any.
pub open spec fn first_unresolved(
    ps: Seq<(int, Seq<char>)>,
    t: Seq<(Seq<char>, u16)>,
) -> Option<Seq<char>>
    decreases ps.len(),
{
    if ps.len() == 0 {
        None
    } else if lookup(t, ps[0].1) is None {
        Some(ps[0].1)
    } else {
        first_unresolved(ps.skip(1), t)
    }
}

/// Every patch resolves exactly when no patch is the first unresolved one.
pub proof fn lemma_first_unresolved_none(ps: Seq<(int, Seq<char>)>, t: Seq<(Seq<char>, u16)>)
    ensures
        first_unresolved(ps, t) is None <==> resolves_all(ps, t),
    decreases ps.len(),
{
    if ps.len() > 0 {
        lemma_first_unresolved_none(ps.skip(1), t);
        assert(forall|k: int| 1 <= k < ps.len() ==> ps[k] == ps.skip(1)[k - 1]);
    }
}

/// The emitter's output: a growing code buffer, the label address table,
/// and the patch table mapping each 2-byte hole to the label that will
/// fill it at finalize time.
pub struct OutBin {
    pub code: Vec<u8>,
    pub address_table: Vec<(String, u16)>,
    pub addresses_to_update: Vec<(u16, String)>,
}

impl OutBin {
    /// The bytes emitted so far.
    pub open spec fn bytes(&self) -> Seq<u8> {
        self.code@
    }

    /// The label definitions made so far, in order.
    pub open spec fn table(&self) -> Seq<(Seq<char>, u16)> {
        self.address_table@.map_values(|p: (String, u16)| (p.0@, p.1))
    }

    /// The patch sites recorded so far, in order of emission.
    pub open spec fn patches(&self) -> Seq<(int, Seq<char>)> {
        self.addresses_to_update@.map_values(|p: (u16, String)| (p.0 as int, p.1@))
    }

    /// The whole emitter state, for contracts.
    pub open spec fn emit_st(&self) -> EmitSt {
        EmitSt { bytes: self.bytes(), table: self.table(), patches: self.patches() }
    }

    /// The emitter's invariant: label names are unique, every patch window
    /// lies inside the buffer, and patch windows are disjoint and ordered.
    pub open spec fn wf(&self) -> bool {
        &&& forall|i: int, j: int| 0 <= i < j < self.table().len()
            ==> self.table()[i].0 != self.table()[j].0
        &&& forall|k: int| 0 <= k < self.patches().len()
            ==> 0 <= #[trigger] self.patches()[k].0
                && self.patches()[k].0 + 2 <= self.bytes().len()
        &&& forall|k: int, l: int| 0 <= k < l < self.patches().len()
            ==> self.patches()[k].0 + 2 <= self.patches()[l].0
    }

    /// A fresh, empty emitter.
    pub fn new() -> (r: OutBin)
        ensures
            r.bytes() =~= Seq::<u8>::empty(),
            r.table() =~= Seq::<(Seq<char>, u16)>::empty(),
            r.patches() =~= Seq::<(int, Seq<char>)>::empty(),
            r.wf(),
    {
        OutBin { code: Vec::new(), address_table: Vec::new(), addresses_to_update: Vec::new() }
    }

    /// A copy of the emitted bytes.
    pub fn get_bytes(&self) -> (r: Vec<u8>)
        ensures
            r@ == self.bytes(),
    {
        let mut r: Vec<u8> = Vec::new();
        let mut i: usize = 0;
        while i < self.code.len()
            invariant
                0 <= i <= self.code.len(),
                r@ =~= self.code@.take(i as int),
            decreases self.code.len() - i,
        {
            r.push(self.code[i]);
            i = i + 1;
            proof {
                assert(r@ =~= self.code@.take(i as int));
            }
        }
        proof {
            assert(self.code@.take(self.code@.len() as int) =~= self.code@);
        }
        r
    }

    /// How many bytes have been emitted.
    pub fn code_len(&self) -> (r: usize)
        ensures
            r == self.bytes().len(),
    {
        self.code.len()
    }

    /// The current emission address, or `ImageTooLarge` once the buffer
    /// has outgrown the 16-bit address space.
    pub fn addr_here(&self) -> (r: Result<u16, AsmError>)
        ensures
            match r {
                Ok(a) => self.bytes().len() <= 0xffff && a == self.bytes().len(),
                Err(e) => self.bytes().len() > 0xffff && e == AsmError::ImageTooLarge,
            },
    {
        if self.code.len() > 0xffff {
            Err(AsmError::ImageTooLarge)
        } else {
            Ok(self.code.len() as u16)
        }
    }

    /// Appends one byte to the image.
    pub fn emit_byte(&mut self, b: u8)
        requires
            old(self).wf(),
        ensures
            final(self).wf(),
            final(self).bytes() == old(self).bytes().push(b),
            final(self).table() == old(self).table(),
            final(self).patches() == old(self).patches(),
    {
        self.code.push(b);
        proof {
            assert(self.address_table == old(self).address_table);
            assert(self.table() == old(self).table());
            assert(self.patches() == old(self).patches());
            assert(self.bytes() == old(self).bytes().push(b));
            assert(self.bytes().len() == old(self).bytes().len() + 1);
        }
    }

    /// Appends a run of bytes to the image.
    pub fn emit_bytes(&mut self, data: &Vec<u8>)
        requires
            old(self).wf(),
        ensures
            final(self).wf(),
            final(self).bytes() == old(self).bytes() + data@,
            final(self).table() == old(self).table(),
            final(self).patches() == old(self).patches(),
    {
        let ghost orig = self.code@;
        let mut i: usize = 0;
        while i < data.len()
            invariant
                0 <= i <= data.len(),
                self.code@ =~= orig + data@.take(i as int),
                self.address_table == old(self).address_table,
                self.addresses_to_update == old(self).addresses_to_update,
            decreases data.len() - i,
        {
            self.code.push(data[i]);
            i = i + 1;
            proof {
                assert(self.code@ =~= orig + data@.take(i as int));
            }
        }
        proof {
            assert(orig + data@.take(data@.len() as int) =~= orig + data@);
            assert(self.address_table == old(self).address_table);
            assert(self.addresses_to_update == old(self).addresses_to_update);
            assert(self.table() == old(self).table());
            assert(self.patches() == old(self).patches());
            assert(self.bytes().len() == old(self).bytes().len() + data@.len());
        }
    }

    /// Looks a label up in the address table.
    pub fn lookup_label(&self, name: &str) -> (r: Option<u16>)
        ensures
            r == lookup(self.table(), name@),
    {
        proof {
            assert(self.table().skip(0) =~= self.table());
        }
        let mut i: usize = 0;
        while i < self.address_table.len()
            invariant
                0 <= i <= self.address_table.len(),
                lookup(self.table(), name@) == lookup(self.table().skip(i as int), name@),
        decreases self.address_table.len() - i,
        {
            let entry = &self.address_table[i];
            proof {
                assert(self.table().skip(i as int)[0] == self.table()[i as int]);
            }
            if str_eq(entry.0.as_str(), name) {
                return Some(entry.1);
            }
            proof {
                assert(self.table().skip(i as int).skip(1) =~= self.table().skip(i + 1));
            }
            i = i + 1;
        }
        proof {
            assert(self.table().skip(self.table().len() as int)
                =~= Seq::<(Seq<char>, u16)>::empty());
        }
        None
    }

    /// Binds `name` to `addr`, or fails with `DuplicateLabel` when the
    /// name is already bound.
    pub fn define_label(&mut self, name: &String, addr: u16) -> (r: Result<(), AsmError>)
        requires
            old(self).wf(),
        ensures
            final(self).wf(),
            final(self).bytes() == old(self).bytes(),
            final(self).patches() == old(self).patches(),
            match r {
                Ok(()) => lookup(old(self).table(), name@) is None
                    && final(self).table() == old(self).table().push((name@, addr)),
                Err(e) => lookup(old(self).table(), name@) is Some
                    && asm_err_dup(e, name@)
                    && final(self).table() == old(self).table(),
            },
    {
        if self.lookup_label(name.as_str()).is_some() {
            return Err(AsmError::DuplicateLabel { name: name.clone() });
        }
        proof {
            lemma_lookup_none(self.table(), name@);
        }
        self.address_table.push((name.clone(), addr));
        proof {
            assert(self.code == old(self).code);
            assert(self.addresses_to_update == old(self).addresses_to_update);
            assert(self.bytes() == old(self).bytes());
            assert(self.patches() == old(self).patches());
            assert(self.table() =~= old(self).table().push((name@, addr)));
            assert forall|i: int, j: int| 0 <= i < j < self.table().len()
                implies self.table()[i].0 != self.table()[j].0 by {
                if j == old(self).table().len() {
                    assert(self.table()[i] == old(self).table()[i]);
                    assert(self.table()[j] == (name@, addr));
                } else {
                    assert(self.table()[i] == old(self).table()[i]);
                    assert(self.table()[j] == old(self).table()[j]);
                }
            }
        }
        Ok(())
    }

    /// Records a patch site at the current address and emits the two
    /// placeholder bytes of its window.
    pub fn emit_patch(&mut self, name: &String) -> (r: Result<(), AsmError>)
        requires
            old(self).wf(),
        ensures
            final(self).wf(),
            final(self).table() == old(self).table(),
            match r {
                Ok(()) => old(self).bytes().len() <= 0xffff
                    && final(self).bytes() == old(self).bytes() + seq![0u8, 0u8]
                    && final(self).patches() == old(self).patches().push(
                        (old(self).bytes().len() as int, name@)),
                Err(e) => old(self).bytes().len() > 0xffff
                    && e == AsmError::ImageTooLarge
                    && final(self).bytes() == old(self).bytes()
                    && final(self).patches() == old(self).patches(),
            },
    {
        let here = match self.addr_here() {
            Ok(a) => a,
            Err(e) => {
                return Err(e);
            },
        };
        self.addresses_to_update.push((here, name.clone()));
        self.code.push(0x00);
        self.code.push(0x00);
        proof {
            assert(self.address_table == old(self).address_table);
            assert(self.table() == old(self).table());
            assert(self.patches() =~= old(self).patches().push(
                (old(self).bytes().len() as int, name@)));
            assert(self.bytes() =~= old(self).bytes() + seq![0u8, 0u8]);
            assert(self.bytes().len() == old(self).bytes().len() + 2);
            let ps2 = self.patches();
            let n2 = ps2.len();
            assert(ps2[n2 - 1].0 == old(self).bytes().len());
            assert(forall|k: int| 0 <= k < n2 - 1 ==> ps2[k] == old(self).patches()[k]);
            assert forall|k: int| 0 <= k < n2
                implies 0 <= #[trigger] ps2[k].0 && ps2[k].0 + 2 <= self.bytes().len() by {
                if k < n2 - 1 {
                    assert(old(self).patches()[k].0 + 2 <= old(self).bytes().len());
                }
            }
            assert forall|k: int, l: int| 0 <= k < l < n2
                implies ps2[k].0 + 2 <= ps2[l].0 by {
                if l == n2 - 1 {
                    assert(ps2[k].0 + 2 <= old(self).bytes().len());
                }
            }
        }
        Ok(())
    }

    /// Fills every recorded patch window with the little-endian address of
    /// its label, and returns the finished image. Fails with `UnknownLabel`
    /// at the first patch whose label was never defined.
    ///
    /// On success the result is `apply_patches` of the emitter state; in
    /// particular every patch window holds its label's address and every
    /// byte outside the windows is unchanged.
    pub fn finalize(&mut self) -> (r: Result<Vec<u8>, AsmError>)
        requires
            old(self).wf(),
        ensures
            match r {
                Ok(out) => {
                    &&& resolves_all(old(self).patches(), old(self).table())
                    &&& out@ == apply_patches(old(self).bytes(), old(self).patches(),
                        old(self).table())
                    &&& out@.len() == old(self).bytes().len()
                    &&& forall|k: int| 0 <= k < old(self).patches().len() ==> {
                        let a = lookup(old(self).table(),
                            #[trigger] old(self).patches()[k].1)->Some_0;
                        out@[old(self).patches()[k].0] == lo16(a)
                            && out@[old(self).patches()[k].0 + 1] == hi16(a)
                    }
                    &&& forall|i: int| 0 <= i < old(self).bytes().len()
                        && (forall|k: int| 0 <= k < old(self).patches().len()
                            ==> !(#[trigger] old(self).patches()[k].0 <= i
                                <= old(self).patches()[k].0 + 1))
                        ==> out@[i] == old(self).bytes()[i]
                },
                Err(e) => {
                    &&& first_unresolved(old(self).patches(), old(self).table()) is Some
                    &&& asm_err_unknown(e, first_unresolved(old(self).patches(),
                        old(self).table())->Some_0)
                },
            },
    {
        let ghost ps = self.patches();
        let ghost t = self.table();
        let ghost orig = self.bytes();
        proof {
            assert(ps.skip(0) =~= ps);
        }
        let n = self.addresses_to_update.len();
        let mut k: usize = 0;
        while k < n
            invariant
                0 <= k <= n,
                n == self.addresses_to_update@.len(),
                ps == old(self).patches(),
                t == old(self).table(),
                orig == old(self).bytes(),
                self.patches() == ps,
                self.table() == t,
                self.wf(),
                self.bytes().len() == orig.len(),
                forall|j: int| 0 <= j < k ==> lookup(t, #[trigger] ps[j].1) is Some,
                apply_patches(orig, ps, t) == apply_patches(self.bytes(), ps.skip(k as int), t),
                first_unresolved(ps, t) == first_unresolved(ps.skip(k as int), t),
            decreases n - k,
        {
            let offset = self.addresses_to_update[k].0;
            let target = self.lookup_label(self.addresses_to_update[k].1.as_str());
            proof {
                assert(ps.skip(k as int)[0] == ps[k as int]);
            }
            let addr = match target {
                Some(a) => a,
                None => {
                    proof {
                        assert(ps[k as int] == (self.addresses_to_update@[k as int].0 as int,
                            self.addresses_to_update@[k as int].1@));
                        assert(first_unresolved(ps.skip(k as int), t) == Some(ps[k as int].1));
                    }
                    let name = self.addresses_to_update[k].1.clone();
                    return Err(AsmError::UnknownLabel { name });
                },
            };
            let lo = (addr % 256) as u8;
            let hi = (addr / 256) as u8;
            let ghost before = self.bytes();
            self.code[offset as usize] = lo;
            let o1 = offset as usize + 1;
            self.code[o1] = hi;
            proof {
                assert(self.bytes() =~= patch_one(before, ps[k as int], t));
                assert(ps.skip(k as int).skip(1) =~= ps.skip(k as int + 1));
            }
            k = k + 1;
        }
        proof {
            assert(ps.skip(n as int) =~= Seq::<(int, Seq<char>)>::empty());
            lemma_first_unresolved_none(ps, t);
            lemma_apply_patches_len(orig, ps, t);
            assert forall|j: int| 0 <= j < ps.len() implies {
                let a = lookup(t, #[trigger] ps[j].1)->Some_0;
                apply_patches(orig, ps, t)[ps[j].0] == lo16(a)
                    && apply_patches(orig, ps, t)[ps[j].0 + 1] == hi16(a)
            } by {
                lemma_apply_patches_window(orig, ps, t, j);
            }
            assert forall|i: int| 0 <= i < orig.len()
                && (forall|j: int| 0 <= j < ps.len()
                    ==> !(#[trigger] ps[j].0 <= i <= ps[j].0 + 1))
                implies apply_patches(orig, ps, t)[i] == orig[i] by {
                lemma_apply_patches_untouched(orig, ps, t, i);
            }
        }
        Ok(self.get_bytes())
    }
}

/// Whether an error is `UnknownLabel` for the given name.
pub open spec fn asm_err_unknown(e: AsmError, n: Seq<char>) -> bool {
    match e {
        AsmError::UnknownLabel { name } => name@ == n,
        _ => false,
    }
}

/// Whether an error is `DuplicateLabel` for the given name.
pub open spec fn asm_err_dup(e: AsmError, n: Seq<char>) -> bool {
    match e {
        AsmError::DuplicateLabel { name } => name@ == n,
        _ => false,
    }
}

} // verus!
