//! The machine's memory: a flat 64 KiB byte array laid out as code, the
//! data stack region, the call stack region, and general RAM.

use vstd::prelude::*;
use crate::errors::VmError;

verus! {

/// The capability set the machine needs from a memory: byte reads and
/// writes over the whole 16-bit address space, the two stack region
/// bases, and read-only dumps.
///
/// An implementation must be total over the address space: its invariant
/// pins the size at exactly 64 KiB with both 256-byte stack regions
/// inside, so reads and writes always succeed.
pub trait Memory: Sized {
    /// The memory contents.
    spec fn mem(&self) -> Seq<u8>;

    /// Where the data stack region starts.
    spec fn sbase(&self) -> u16;

    /// Where the call stack region starts.
    spec fn cbase(&self) -> u16;

    /// The implementation's invariant.
    spec fn inv(&self) -> bool;

    /// What the invariant guarantees: a full 64 KiB array with both
    /// stack regions inside it.
    proof fn inv_facts(&self)
        requires
            self.inv(),
        ensures
            self.mem().len() == 65536,
            self.sbase() + 256 <= 65536,
            self.cbase() + 256 <= 65536,
    ;

    /// Writes one byte.
    fn write_u8(&mut self, address: u16, value: u8) -> (r: Result<(), VmError>)
        requires
            old(self).inv(),
        ensures
            final(self).inv(),
            r is Ok,
            final(self).mem() == old(self).mem().update(address as int, value),
            final(self).sbase() == old(self).sbase(),
            final(self).cbase() == old(self).cbase(),
    ;

    /// Reads one byte.
    fn read_u8(&self, address: u16) -> (r: Result<u8, VmError>)
        requires
            self.inv(),
        ensures
            r == Ok::<u8, VmError>(self.mem()[address as int]),
    ;

    /// The data stack region's base address.
    fn stack_start_address(&self) -> (r: u16)
        requires
            self.inv(),
        ensures
            r == self.sbase(),
    ;

    /// The call stack region's base address.
    fn call_stack_start_address(&self) -> (r: u16)
        requires
            self.inv(),
        ensures
            r == self.cbase(),
    ;

    /// A copy of the whole memory.
    fn dump_memory(&self) -> (r: Vec<u8>)
        requires
            self.inv(),
        ensures
            r@ == self.mem(),
    ;

    /// A copy of the bytes in `[start, end)`.
    fn dump_memory_range(&self, start: u16, end: u16) -> (r: Vec<u8>)
        requires
            self.inv(),
            start <= end,
        ensures
            r@ == self.mem().subrange(start as int, end as int),
    ;
}

/// The built-in memory: the program bytes at address 0, then the
/// 256-byte data stack region, the 256-byte call stack region, and the
/// rest zero-filled as RAM.
pub struct DefaultMemory {
    pub memory: Vec<u8>,
    pub stack_start_address: u16,
    pub call_stack_start_address: u16,
    pub ram_start_address: u16,
}

impl DefaultMemory {
    /// Lays out a fresh memory image from program bytes: fails with
    /// `ImageTooLarge` when the code leaves no room for the two stack
    /// regions; otherwise the code starts at address 0, the data stack
    /// region right after it, the call stack region after that, and
    /// zeroes fill the rest.
    pub fn new(code: Vec<u8>) -> (r: Result<DefaultMemory, VmError>)
        ensures
            match r {
                Ok(m) => {
                    &&& code@.len() <= 65024
                    &&& m.inv()
                    &&& m.mem().len() == 65536
                    &&& m.mem().subrange(0, code@.len() as int) == code@
                    &&& forall|i: int| code@.len() <= i < 65536 ==> m.mem()[i] == 0
                    &&& m.sbase() == code@.len()
                    &&& m.cbase() == code@.len() + 256
                },
                Err(e) => code@.len() > 65024 && e == VmError::ImageTooLarge,
            },
    {
        if code.len() > 65024 {
            return Err(VmError::ImageTooLarge);
        }
        let code_len = code.len();
        let ghost codev = code@;
        let mut memory = code;
        proof {
            assert(memory@.take(code_len as int) =~= codev);
        }
        while memory.len() < 65536
            invariant
                code_len == codev.len(),
                code_len <= memory@.len() <= 65536,
                memory@.take(code_len as int) == codev,
                forall|i: int| code_len <= i < memory@.len() ==> memory@[i] == 0,
            decreases 65536 - memory@.len(),
        {
            memory.push(0);
            proof {
                assert(memory@.take(code_len as int) =~= codev);
            }
        }
        proof {
            assert(memory@.subrange(0, code_len as int) == memory@.take(code_len as int));
        }
        proof {
            assert(code_len <= 65024);
        }
        let stack_start_address = code_len as u16;
        let call_stack_start_address = stack_start_address + 256u16;
        let ram_start_address = call_stack_start_address.wrapping_add(256);
        Ok(DefaultMemory {
            memory,
            stack_start_address,
            call_stack_start_address,
            ram_start_address,
        })
    }
}

impl Memory for DefaultMemory {
    open spec fn mem(&self) -> Seq<u8> {
        self.memory@
    }

    open spec fn sbase(&self) -> u16 {
        self.stack_start_address
    }

    open spec fn cbase(&self) -> u16 {
        self.call_stack_start_address
    }

    open spec fn inv(&self) -> bool {
        &&& self.memory@.len() == 65536
        &&& self.stack_start_address + 256 <= 65536
        &&& self.call_stack_start_address + 256 <= 65536
    }

    proof fn inv_facts(&self) {
    }

    fn write_u8(&mut self, address: u16, value: u8) -> (r: Result<(), VmError>) {
        self.memory[address as usize] = value;
        Ok(())
    }

    fn read_u8(&self, address: u16) -> (r: Result<u8, VmError>) {
        Ok(self.memory[address as usize])
    }

    fn stack_start_address(&self) -> (r: u16) {
        self.stack_start_address
    }

    fn call_stack_start_address(&self) -> (r: u16) {
        self.call_stack_start_address
    }

    fn dump_memory(&self) -> (r: Vec<u8>) {
        let mut r: Vec<u8> = Vec::new();
        let mut i: usize = 0;
        while i < self.memory.len()
            invariant
                0 <= i <= self.memory@.len(),
                r@ =~= self.memory@.take(i as int),
            decreases self.memory@.len() - i,
        {
            r.push(self.memory[i]);
            i = i + 1;
            proof {
                assert(r@ =~= self.memory@.take(i as int));
            }
        }
        proof {
            assert(self.memory@.take(self.memory@.len() as int) =~= self.memory@);
        }
        r
    }

    fn dump_memory_range(&self, start: u16, end: u16) -> (r: Vec<u8>) {
        let mut r: Vec<u8> = Vec::new();
        let mut i: usize = start as usize;
        while i < end as usize
            invariant
                start as int <= i <= end as int,
                end as int <= self.memory@.len(),
                r@ =~= self.memory@.subrange(start as int, i as int),
            decreases end as int - i,
        {
            r.push(self.memory[i]);
            i = i + 1;
            proof {
                assert(r@ =~= self.memory@.subrange(start as int, i as int));
            }
        }
        r
    }
}

} // verus!
