//! The host syscall protocol of the reference host: the syscall id on
//! top of the data stack, and for `write` the size, data address and
//! output index below it. The machine itself never interprets these;
//! this module gathers the arguments so a host only performs the I/O.

use vstd::prelude::*;
use crate::errors::VmError;
use crate::memory::Memory;
use crate::step::MachineState;
use crate::step::spec_pop;
use crate::step::spec_pop_addr;
use crate::step::wrap16;
use crate::vm::VM;

verus! {

/// The syscalls the reference host understands.
#[derive(Debug, Clone, Copy, PartialEq, Eq, Structural)]
pub enum Syscall {
    Read,
    Write,
}

impl Syscall {
    /// Decodes a syscall id popped from the data stack.
    pub fn from_byte(b: u8) -> (r: Option<Syscall>)
        ensures
            r == (if b == 0 {
                Some(Syscall::Read)
            } else if b == 1 {
                Some(Syscall::Write)
            } else {
                None::<Syscall>
            }),
    {
        match b {
            0x00 => Some(Syscall::Read),
            0x01 => Some(Syscall::Write),
            _ => None,
        }
    }
}

/// Pops the syscall id from the data stack.
pub fn pop_syscall_id<M: Memory>(vm: &mut VM<M>) -> (r: Result<u8, VmError>)
    requires
        old(vm).inv(),
    ensures
        final(vm).inv(),
        final(vm).bps() == old(vm).bps(),
        match r {
            Ok(v) => spec_pop(old(vm).st()) matches Ok(p) && p.0 == v
                && p.1 == final(vm).st(),
            Err(e) => spec_pop(old(vm).st()) == Err::<(u8, MachineState), VmError>(e)
                && final(vm).st() == old(vm).st(),
        },
{
    vm.stack_pop()
}

/// Pops the arguments of a `write` syscall — the byte count, the data
/// address, and the output index — and gathers the data bytes from
/// memory, wrapping around the address space like the machine does.
/// It succeeds whenever those three pops succeed; it fails exactly with
/// the first pop that finds the stack empty, and a failure of the very
/// first pop leaves the machine untouched.
pub fn pop_write_args<M: Memory>(vm: &mut VM<M>) -> (r: Result<(Vec<u8>, u8), VmError>)
    requires
        old(vm).inv(),
    ensures
        final(vm).inv(),
        final(vm).bps() == old(vm).bps(),
        match r {
            Ok((data, output_index)) => {
                &&& spec_pop(old(vm).st()) matches Ok(p1)
                &&& {
                    let size = spec_pop(old(vm).st())->Ok_0.0;
                    let s1 = spec_pop(old(vm).st())->Ok_0.1;
                    &&& spec_pop_addr(s1) matches Ok(p2)
                    &&& {
                        let addr = spec_pop_addr(s1)->Ok_0.0;
                        let s2 = spec_pop_addr(s1)->Ok_0.1;
                        &&& spec_pop(s2) matches Ok(p3)
                        &&& output_index == spec_pop(s2)->Ok_0.0
                        &&& final(vm).st() == spec_pop(s2)->Ok_0.1
                        &&& data@.len() == size
                        &&& forall|i: int| 0 <= i < size as int
                            ==> data@[i] == final(vm).st().mem[
                                wrap16(addr + i) as int]
                    }
                }
            },
            Err(e) => match spec_pop(old(vm).st()) {
                Err(e1) => e == e1 && final(vm).st() == old(vm).st(),
                Ok(p1) => match spec_pop_addr(p1.1) {
                    Err(e2) => e == e2,
                    Ok(p2) => match spec_pop(p2.1) {
                        Err(e3) => e == e3,
                        Ok(_) => false,
                    },
                },
            },
        },
{
    let size = match vm.stack_pop() {
        Ok(v) => v,
        Err(e) => {
            return Err(e);
        },
    };
    let data_address = match vm.stack_pop_address() {
        Ok(a) => a,
        Err(e) => {
            return Err(e);
        },
    };
    let output_index = match vm.stack_pop() {
        Ok(v) => v,
        Err(e) => {
            return Err(e);
        },
    };
    let ghost g1 = spec_pop(old(vm).st())->Ok_0.1;
    let ghost g2 = spec_pop_addr(g1)->Ok_0.1;
    let ghost g3 = spec_pop(g2)->Ok_0.1;
    proof {
        assert(vm.st() == g3);
    }
    let mut data: Vec<u8> = Vec::new();
    let mut offset: u8 = 0;
    while offset < size
        invariant
            0 <= offset <= size,
            vm.inv(),
            vm.bps() == old(vm).bps(),
            spec_pop(old(vm).st()) == Ok::<(u8, crate::step::MachineState), VmError>(
                (size, g1)),
            spec_pop_addr(g1) == Ok::<(u16, crate::step::MachineState), VmError>(
                (data_address, g2)),
            spec_pop(g2) == Ok::<(u8, crate::step::MachineState), VmError>(
                (output_index, g3)),
            vm.st() == g3,
            data@.len() == offset,
            forall|i: int| 0 <= i < offset
                ==> data@[i] == g3.mem[wrap16(data_address + i) as int],
        decreases size - offset,
    {
        let b = match vm.peek_memory(data_address.wrapping_add(offset as u16)) {
            Ok(v) => v,
            Err(e) => {
                return Err(e);
            },
        };
        data.push(b);
        offset = offset + 1;
    }
    Ok((data, output_index))
}

} // verus!
