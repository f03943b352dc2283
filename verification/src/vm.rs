//! The virtual machine: the register file, the breakpoint set, and the
//! fetch/decode/execute loop, each instruction proved to follow the
//! small-step semantics of `step`.

use vstd::prelude::*;
use crate::errors::VmError;
use crate::memory::DefaultMemory;
use crate::memory::Memory;
use crate::opcodes::Opcode;
use crate::opcodes::byte_to_opcode;
use crate::step::MachineState;
use crate::step::RawStep;
use crate::step::abs8;
use crate::step::add8;
use crate::step::addr_from_bytes;
use crate::step::advance;
use crate::step::div_s8;
use crate::step::m_wf;
use crate::step::mul8;
use crate::step::pow2_8;
use crate::step::pow8;
use crate::step::read8;
use crate::step::rem_s8;
use crate::step::shr_s8;
use crate::step::spec_cpop;
use crate::step::spec_cpush;
use crate::step::spec_cpush_addr;
use crate::step::spec_cpop_addr;
use crate::step::spec_load16_at;
use crate::step::spec_peek;
use crate::step::spec_pop;
use crate::step::spec_pop_addr;
use crate::step::spec_push;
use crate::step::spec_push_addr;
use crate::step::spec_stack_set;
use crate::step::spec_store16_at;
use crate::step::step;
use crate::step::sub8;
use crate::step::to_i8;
use crate::step::fetch8;
use crate::step::fetch16;

verus! {

/// Why the execute loop paused or stopped after an instruction.
#[derive(Debug, Clone, Copy, PartialEq, Eq, Structural)]
pub enum ExecutionStatus {
    Continue,
    SysCall,
    Breakpoint,
    Done,
}

/// What the machine yields to the host: a syscall to service, or a
/// breakpoint that was reached.
#[derive(Debug, Clone, Copy, PartialEq, Eq, Structural)]
pub enum InterruptType {
    SysCall,
    Breakpoint,
}

/// One instruction step together with the breakpoint check: the raw step
/// taken, and a pause reported when the new program counter is a
/// breakpoint. A syscall or the end of execution is reported as such.
pub open spec fn step_full(s: MachineState, bps: Seq<u16>) -> Result<
    (MachineState, ExecutionStatus),
    VmError,
> {
    match step(s) {
        Err(e) => Err(e),
        Ok(RawStep::Halt(s1)) => Ok((s1, ExecutionStatus::Done)),
        Ok(RawStep::Sys(s1)) => Ok((s1, ExecutionStatus::SysCall)),
        Ok(RawStep::Next(s1)) => if bps.contains(s1.pc) {
            Ok((s1, ExecutionStatus::Breakpoint))
        } else {
            Ok((s1, ExecutionStatus::Continue))
        },
    }
}

/// Where a run stands after some number of instructions: still going, or
/// stopped with the result the loop would return.
pub enum RunState {
    Running(MachineState),
    Stopped(Result<(MachineState, ExecutionStatus), VmError>),
}

/// The machine run for `n` instructions, or up to the first instruction
/// that pauses (syscall, breakpoint), halts, or fails.
pub open spec fn run_n(s: MachineState, bps: Seq<u16>, n: nat) -> RunState
    decreases n,
{
    if n == 0 {
        RunState::Running(s)
    } else {
        match run_n(s, bps, (n - 1) as nat) {
            RunState::Running(s1) => match step_full(s1, bps) {
                Ok((s2, ExecutionStatus::Continue)) => RunState::Running(s2),
                Ok((s2, st)) => RunState::Stopped(Ok((s2, st))),
                Err(e) => RunState::Stopped(Err(e)),
            },
            RunState::Stopped(r) => RunState::Stopped(r),
        }
    }
}

/// The register file after a reset: execution restarts at address 0 with
/// both stacks empty and both registers cleared; memory is kept.
pub open spec fn reset_st(s: MachineState) -> MachineState {
    MachineState { pc: 0, sp: 0xff, csp: 0xff, a: 0, b: 0, ..s }
}

/// The virtual machine: a memory, the register file, and the breakpoint
/// set.
pub struct VM<M: Memory> {
    pub memory: M,
    pub sp: u8,
    pub csp: u8,
    pub pc: u16,
    pub reg_a: u8,
    pub reg_b: u8,
    pub breakpoints: Vec<u16>,
}

impl<M: Memory> VM<M> {
    /// The machine state this VM is in.
    pub open spec fn st(&self) -> MachineState {
        MachineState {
            pc: self.pc,
            sp: self.sp,
            csp: self.csp,
            a: self.reg_a,
            b: self.reg_b,
            mem: self.memory.mem(),
            sbase: self.memory.sbase(),
            cbase: self.memory.cbase(),
        }
    }

    /// The breakpoint addresses, each held once.
    pub open spec fn bps(&self) -> Seq<u16> {
        self.breakpoints@
    }

    /// The machine's invariant: a healthy memory and no breakpoint
    /// recorded twice.
    pub open spec fn inv(&self) -> bool {
        &&& self.memory.inv()
        &&& forall|i: int, j: int| 0 <= i < j < self.breakpoints@.len()
            ==> self.breakpoints@[i] != self.breakpoints@[j]
    }

    /// After every instruction the machine stays healthy: the memory
    /// size is exactly 64 KiB and both stack regions lie inside it (the
    /// two stack pointers are bytes, so they always lie in `[0, 0xFF]`).
    pub proof fn lemma_inv_wf(&self)
        requires
            self.inv(),
        ensures
            m_wf(self.st()),
    {
        self.memory.inv_facts();
    }

    /// A machine over the given memory, reset and with no breakpoints.
    pub fn new_with_custom_memory(memory: M) -> (r: VM<M>)
        requires
            memory.inv(),
        ensures
            r.inv(),
            r.st() == (MachineState {
                pc: 0,
                sp: 0xff,
                csp: 0xff,
                a: 0,
                b: 0,
                mem: memory.mem(),
                sbase: memory.sbase(),
                cbase: memory.cbase(),
            }),
            r.bps() =~= Seq::<u16>::empty(),
    {
        VM {
            sp: 0xff,
            csp: 0xff,
            pc: 0x00,
            reg_a: 0x00,
            reg_b: 0x00,
            memory,
            breakpoints: Vec::new(),
        }
    }

    /// The byte at an address, for the host.
    pub fn peek_memory(&self, address: u16) -> (r: Result<u8, VmError>)
        requires
            self.inv(),
        ensures
            r == Ok::<u8, VmError>(self.st().mem[address as int]),
    {
        self.memory.read_u8(address)
    }

    /// A copy of the bytes in `[start, end)`, for the host.
    pub fn dump_memory_range(&self, start: u16, end: u16) -> (r: Vec<u8>)
        requires
            self.inv(),
            start <= end,
        ensures
            r@ == self.st().mem.subrange(start as int, end as int),
    {
        self.memory.dump_memory_range(start, end)
    }

    /// A copy of the whole memory, for the host.
    pub fn dump_memory(&self) -> (r: Vec<u8>)
        requires
            self.inv(),
        ensures
            r@ == self.st().mem,
    {
        self.memory.dump_memory()
    }

    /// Mutable access to the memory, for a host callback.
    pub fn get_memory_mut(&mut self) -> (r: &mut M)
        ensures
            *r == old(self).memory,
            final(self).memory == *final(r),
            final(self).sp == old(self).sp,
            final(self).csp == old(self).csp,
            final(self).pc == old(self).pc,
            final(self).reg_a == old(self).reg_a,
            final(self).reg_b == old(self).reg_b,
            final(self).breakpoints == old(self).breakpoints,
    {
        &mut self.memory
    }

    /// Register A.
    pub fn get_reg_a(&self) -> (r: u8)
        ensures
            r == self.st().a,
    {
        self.reg_a
    }

    /// Register B.
    pub fn get_reg_b(&self) -> (r: u8)
        ensures
            r == self.st().b,
    {
        self.reg_b
    }

    /// Restarts execution at address 0 with empty stacks and cleared
    /// registers; memory and breakpoints are kept.
    pub fn reset(&mut self)
        requires
            old(self).inv(),
        ensures
            final(self).inv(),
            final(self).st() == reset_st(old(self).st()),
            final(self).bps() == old(self).bps(),
    {
        self.sp = 0xff;
        self.csp = 0xff;
        self.pc = 0x00;
        self.reg_a = 0x00;
        self.reg_b = 0x00;
    }

    /// Whether an address is a breakpoint.
    pub fn has_breakpoint(&self, address: u16) -> (r: bool)
        ensures
            r == self.bps().contains(address),
    {
        let mut i: usize = 0;
        while i < self.breakpoints.len()
            invariant
                0 <= i <= self.breakpoints@.len(),
                forall|j: int| 0 <= j < i ==> self.breakpoints@[j] != address,
            decreases self.breakpoints@.len() - i,
        {
            if self.breakpoints[i] == address {
                return true;
            }
            i = i + 1;
        }
        false
    }

    /// Records a breakpoint at an address; the machine will yield
    /// `Breakpoint` whenever the program counter lands there.
    pub fn set_breakpoint(&mut self, address: u16)
        requires
            old(self).inv(),
        ensures
            final(self).inv(),
            final(self).st() == old(self).st(),
            forall|x: u16| final(self).bps().contains(x)
                <==> (old(self).bps().contains(x) || x == address),
    {
        if !self.has_breakpoint(address) {
            self.breakpoints.push(address);
            proof {
                assert forall|x: u16| self.bps().contains(x)
                    implies (old(self).bps().contains(x) || x == address) by {
                    let j = choose|j: int| 0 <= j < self.bps().len() && self.bps()[j] == x;
                    if j < old(self).bps().len() {
                        assert(old(self).bps()[j] == x);
                    }
                }
                assert forall|x: u16| (old(self).bps().contains(x) || x == address)
                    implies self.bps().contains(x) by {
                    if old(self).bps().contains(x) {
                        let j = choose|j: int| 0 <= j < old(self).bps().len()
                            && old(self).bps()[j] == x;
                        assert(self.bps()[j] == x);
                    } else {
                        assert(self.bps()[self.bps().len() - 1] == address);
                    }
                }
            }
        }
    }

    /// Removes a breakpoint; tells whether it was set.
    pub fn remove_breakpoint(&mut self, address: u16) -> (r: bool)
        requires
            old(self).inv(),
        ensures
            final(self).inv(),
            final(self).st() == old(self).st(),
            r == old(self).bps().contains(address),
            forall|x: u16| final(self).bps().contains(x)
                <==> (old(self).bps().contains(x) && x != address),
    {
        let n = self.breakpoints.len();
        let mut i: usize = 0;
        while i < n
            invariant
                0 <= i <= n,
                *self == *old(self),
                old(self).inv(),
                n == self.breakpoints@.len(),
                forall|j: int| 0 <= j < i ==> self.breakpoints@[j] != address,
            decreases n - i,
        {
            if self.breakpoints[i] == address {
                self.breakpoints.remove(i);
                proof {
                    let oldb = old(self).bps();
                    let newb = self.bps();
                    assert(newb =~= oldb.take(i as int) + oldb.skip(i as int + 1));
                    assert(oldb.contains(address)) by {
                        assert(oldb[i as int] == address);
                    }
                    assert forall|x: u16| newb.contains(x)
                        implies (oldb.contains(x) && x != address) by {
                        let j = choose|j: int| 0 <= j < newb.len() && newb[j] == x;
                        if j < i {
                            assert(oldb[j] == x);
                            assert(x != address) by {
                                assert(oldb[j] != oldb[i as int]);
                            }
                        } else {
                            assert(oldb[j + 1] == x);
                            assert(x != address) by {
                                assert(oldb[j + 1] != oldb[i as int]);
                            }
                        }
                    }
                    assert forall|x: u16| (oldb.contains(x) && x != address)
                        implies newb.contains(x) by {
                        let j = choose|j: int| 0 <= j < oldb.len() && oldb[j] == x;
                        if j < i {
                            assert(newb[j] == x);
                        } else {
                            assert(j != i);
                            assert(newb[j - 1] == x);
                        }
                    }
                }
                return true;
            }
            i = i + 1;
        }
        proof {
            assert(!old(self).bps().contains(address)) by {
                if old(self).bps().contains(address) {
                    let j = choose|j: int| 0 <= j < old(self).bps().len()
                        && old(self).bps()[j] == address;
                    assert(self.breakpoints@[j] != address);
                }
            }
        }
        false
    }

    /// Forgets every breakpoint.
    pub fn clear_breakpoints(&mut self)
        requires
            old(self).inv(),
        ensures
            final(self).inv(),
            final(self).st() == old(self).st(),
            final(self).bps() =~= Seq::<u16>::empty(),
    {
        self.breakpoints.clear();
    }

    /// A 16-bit address from its two bytes, most significant first.
    pub fn address_from_bytes(msb: u8, lsb: u8) -> (r: u16)
        ensures
            r == addr_from_bytes(msb, lsb),
    {
        (msb as u16) * 256 + (lsb as u16)
    }

    /// Pushes one byte onto the data stack.
    pub fn stack_push(&mut self, value: u8) -> (r: Result<(), VmError>)
        requires
            old(self).inv(),
        ensures
            final(self).inv(),
            final(self).bps() == old(self).bps(),
            match r {
                Ok(()) => spec_push(old(self).st(), value)
                    == Ok::<MachineState, VmError>(final(self).st()),
                Err(e) => spec_push(old(self).st(), value) == Err::<MachineState, VmError>(e)
                    && final(self).st() == old(self).st(),
            },
    {
        if self.sp == 0 {
            return Err(VmError::StackOverflow);
        }
        proof {
            self.memory.inv_facts();
        }
        let address = self.memory.stack_start_address() + self.sp as u16;
        match self.memory.write_u8(address, value) {
            Ok(()) => {},
            Err(e) => {
                return Err(e);
            },
        }
        self.sp = self.sp - 1;
        Ok(())
    }

    /// Pops one byte from the data stack.
    pub fn stack_pop(&mut self) -> (r: Result<u8, VmError>)
        requires
            old(self).inv(),
        ensures
            final(self).inv(),
            final(self).bps() == old(self).bps(),
            match r {
                Ok(v) => spec_pop(old(self).st())
                    == Ok::<(u8, MachineState), VmError>((v, final(self).st())),
                Err(e) => spec_pop(old(self).st()) == Err::<(u8, MachineState), VmError>(e)
                    && final(self).st() == old(self).st(),
            },
    {
        if self.sp == 0xff {
            return Err(VmError::StackEmpty);
        }
        proof {
            self.memory.inv_facts();
        }
        self.sp = self.sp + 1;
        let address = self.memory.stack_start_address() + self.sp as u16;
        match self.memory.read_u8(address) {
            Ok(v) => Ok(v),
            Err(e) => Err(e),
        }
    }

    /// Pushes one byte onto the call stack.
    pub fn call_stack_push(&mut self, value: u8) -> (r: Result<(), VmError>)
        requires
            old(self).inv(),
        ensures
            final(self).inv(),
            final(self).bps() == old(self).bps(),
            match r {
                Ok(()) => spec_cpush(old(self).st(), value)
                    == Ok::<MachineState, VmError>(final(self).st()),
                Err(e) => spec_cpush(old(self).st(), value) == Err::<MachineState, VmError>(e)
                    && final(self).st() == old(self).st(),
            },
    {
        if self.csp == 0 {
            return Err(VmError::CallStackOverflow);
        }
        proof {
            self.memory.inv_facts();
        }
        let address = self.memory.call_stack_start_address() + self.csp as u16;
        match self.memory.write_u8(address, value) {
            Ok(()) => {},
            Err(e) => {
                return Err(e);
            },
        }
        self.csp = self.csp - 1;
        Ok(())
    }

    /// Pops one byte from the call stack.
    pub fn call_stack_pop(&mut self) -> (r: Result<u8, VmError>)
        requires
            old(self).inv(),
        ensures
            final(self).inv(),
            final(self).bps() == old(self).bps(),
            match r {
                Ok(v) => spec_cpop(old(self).st())
                    == Ok::<(u8, MachineState), VmError>((v, final(self).st())),
                Err(e) => spec_cpop(old(self).st()) == Err::<(u8, MachineState), VmError>(e)
                    && final(self).st() == old(self).st(),
            },
    {
        if self.csp == 0xff {
            return Err(VmError::CallStackEmpty);
        }
        proof {
            self.memory.inv_facts();
        }
        self.csp = self.csp + 1;
        let address = self.memory.call_stack_start_address() + self.csp as u16;
        match self.memory.read_u8(address) {
            Ok(v) => Ok(v),
            Err(e) => Err(e),
        }
    }

    /// Pushes a peek of the slot `offset` positions above the top of the
    /// data stack.
    pub fn stack_peek(&mut self, offset: u8) -> (r: Result<(), VmError>)
        requires
            old(self).inv(),
        ensures
            final(self).inv(),
            final(self).bps() == old(self).bps(),
            match r {
                Ok(()) => spec_peek(old(self).st(), offset)
                    == Ok::<MachineState, VmError>(final(self).st()),
                Err(e) => spec_peek(old(self).st(), offset) == Err::<MachineState, VmError>(e)
                    && final(self).st() == old(self).st(),
            },
    {
        let stack_offset = self.sp as u16 + offset as u16;
        if stack_offset > 0xff {
            return Err(VmError::StackOffsetOutOfRange);
        }
        proof {
            self.memory.inv_facts();
        }
        let address = self.memory.stack_start_address() + stack_offset;
        let value = match self.memory.read_u8(address) {
            Ok(v) => v,
            Err(e) => {
                return Err(e);
            },
        };
        self.stack_push(value)
    }

    /// Pops the top of the data stack into the slot `offset` positions
    /// above where the stack pointer stood.
    pub fn stack_set(&mut self, offset: u8) -> (r: Result<(), VmError>)
        requires
            old(self).inv(),
        ensures
            final(self).inv(),
            final(self).bps() == old(self).bps(),
            match r {
                Ok(()) => spec_stack_set(old(self).st(), offset)
                    == Ok::<MachineState, VmError>(final(self).st()),
                Err(e) => spec_stack_set(old(self).st(), offset)
                    == Err::<MachineState, VmError>(e)
                    && final(self).st() == old(self).st(),
            },
    {
        let stack_offset = self.sp as u16 + offset as u16;
        if stack_offset > 0xff {
            return Err(VmError::StackOffsetOutOfRange);
        }
        proof {
            self.memory.inv_facts();
        }
        let value = match self.stack_pop() {
            Ok(v) => v,
            Err(e) => {
                return Err(e);
            },
        };
        let address = self.memory.stack_start_address() + stack_offset;
        match self.memory.write_u8(address, value) {
            Ok(()) => Ok(()),
            Err(e) => Err(e),
        }
    }

    /// Pushes an address as two data-stack bytes, low byte first.
    pub fn stack_push_address(&mut self, address: u16) -> (r: Result<(), VmError>)
        requires
            old(self).inv(),
        ensures
            final(self).inv(),
            final(self).bps() == old(self).bps(),
            match r {
                Ok(()) => spec_push_addr(old(self).st(), address)
                    == Ok::<MachineState, VmError>(final(self).st()),
                Err(e) => spec_push_addr(old(self).st(), address)
                    == Err::<MachineState, VmError>(e),
            },
    {
        match self.stack_push((address % 256) as u8) {
            Ok(()) => {},
            Err(e) => {
                return Err(e);
            },
        }
        match self.stack_push((address / 256) as u8) {
            Ok(()) => Ok(()),
            Err(e) => Err(e),
        }
    }

    /// Pops an address from two data-stack bytes, most significant first.
    pub fn stack_pop_address(&mut self) -> (r: Result<u16, VmError>)
        requires
            old(self).inv(),
        ensures
            final(self).inv(),
            final(self).bps() == old(self).bps(),
            match r {
                Ok(addr) => spec_pop_addr(old(self).st())
                    == Ok::<(u16, MachineState), VmError>((addr, final(self).st())),
                Err(e) => spec_pop_addr(old(self).st())
                    == Err::<(u16, MachineState), VmError>(e),
            },
    {
        let msb = match self.stack_pop() {
            Ok(v) => v,
            Err(e) => {
                return Err(e);
            },
        };
        let lsb = match self.stack_pop() {
            Ok(v) => v,
            Err(e) => {
                return Err(e);
            },
        };
        Ok(Self::address_from_bytes(msb, lsb))
    }

    /// Pushes an address onto the call stack, low byte first.
    pub fn call_stack_push_address(&mut self, address: u16) -> (r: Result<(), VmError>)
        requires
            old(self).inv(),
        ensures
            final(self).inv(),
            final(self).bps() == old(self).bps(),
            match r {
                Ok(()) => spec_cpush_addr(old(self).st(), address)
                    == Ok::<MachineState, VmError>(final(self).st()),
                Err(e) => spec_cpush_addr(old(self).st(), address)
                    == Err::<MachineState, VmError>(e),
            },
    {
        match self.call_stack_push((address % 256) as u8) {
            Ok(()) => {},
            Err(e) => {
                return Err(e);
            },
        }
        match self.call_stack_push((address / 256) as u8) {
            Ok(()) => Ok(()),
            Err(e) => Err(e),
        }
    }

    /// Pops an address from the call stack, most significant byte first.
    pub fn call_stack_pop_address(&mut self) -> (r: Result<u16, VmError>)
        requires
            old(self).inv(),
        ensures
            final(self).inv(),
            final(self).bps() == old(self).bps(),
            match r {
                Ok(addr) => spec_cpop_addr(old(self).st())
                    == Ok::<(u16, MachineState), VmError>((addr, final(self).st())),
                Err(e) => spec_cpop_addr(old(self).st())
                    == Err::<(u16, MachineState), VmError>(e),
            },
    {
        let msb = match self.call_stack_pop() {
            Ok(v) => v,
            Err(e) => {
                return Err(e);
            },
        };
        let lsb = match self.call_stack_pop() {
            Ok(v) => v,
            Err(e) => {
                return Err(e);
            },
        };
        Ok(Self::address_from_bytes(msb, lsb))
    }

    /// Fetches a one-byte operand at the program counter.
    fn operand_value(&mut self) -> (r: Result<u8, VmError>)
        requires
            old(self).inv(),
        ensures
            final(self).inv(),
            final(self).bps() == old(self).bps(),
            match r {
                Ok(v) => fetch8(old(self).st()) == (v, final(self).st()),
                Err(_) => false,
            },
    {
        let value = match self.memory.read_u8(self.pc) {
            Ok(v) => v,
            Err(e) => {
                return Err(e);
            },
        };
        self.pc = self.pc.wrapping_add(1);
        Ok(value)
    }

    /// Fetches a two-byte little-endian operand at the program counter.
    fn operand_address(&mut self) -> (r: Result<u16, VmError>)
        requires
            old(self).inv(),
        ensures
            final(self).inv(),
            final(self).bps() == old(self).bps(),
            match r {
                Ok(addr) => fetch16(old(self).st()) == (addr, final(self).st()),
                Err(_) => false,
            },
    {
        let lo = match self.memory.read_u8(self.pc) {
            Ok(v) => v,
            Err(e) => {
                return Err(e);
            },
        };
        let hi = match self.memory.read_u8(self.pc.wrapping_add(1)) {
            Ok(v) => v,
            Err(e) => {
                return Err(e);
            },
        };
        self.pc = self.pc.wrapping_add(2);
        Ok(Self::address_from_bytes(hi, lo))
    }
}

/// Wrapping byte addition.
fn exec_add8(a: u8, b: u8) -> (r: u8)
    ensures
        r == add8(a, b),
{
    (((a as u16) + (b as u16)) % 256) as u8
}

/// Wrapping byte subtraction.
fn exec_sub8(a: u8, b: u8) -> (r: u8)
    ensures
        r == sub8(a, b),
{
    ((256 + (a as u16) - (b as u16)) % 256) as u8
}

/// Wrapping byte multiplication.
fn exec_mul8(a: u8, b: u8) -> (r: u8)
    ensures
        r == mul8(a, b),
{
    proof {
        assert((a as u32) * (b as u32) <= 255 * 255) by (nonlinear_arith)
            requires a <= 255 && b <= 255;
    }
    (((a as u32) * (b as u32)) % 256) as u8
}

/// The magnitude of a two's-complement byte.
fn magnitude(a: u8) -> (r: u16)
    ensures
        r == if to_i8(a) >= 0 { to_i8(a) } else { -to_i8(a) },
{
    if a < 128 {
        a as u16
    } else {
        256 - (a as u16)
    }
}

/// Signed division truncated toward zero, wrapping.
fn exec_div_s8(a: u8, b: u8) -> (r: u8)
    requires
        b != 0,
    ensures
        r == div_s8(a, b),
{
    let mag_x = magnitude(a);
    let mag_y = magnitude(b);
    let q = mag_x / mag_y;
    if (a >= 128) != (b >= 128) {
        ((256 - q) % 256) as u8
    } else {
        (q % 256) as u8
    }
}

/// Signed remainder with the dividend's sign, wrapping.
fn exec_rem_s8(a: u8, b: u8) -> (r: u8)
    requires
        b != 0,
    ensures
        r == rem_s8(a, b),
{
    let mag_x = magnitude(a);
    let mag_y = magnitude(b);
    let m = mag_x % mag_y;
    if a >= 128 {
        ((256 - m) % 256) as u8
    } else {
        m as u8
    }
}

/// The wrapping byte power.
fn exec_pow8(base: u8, e: u8) -> (r: u8)
    ensures
        r == pow8(base, e as nat),
{
    let mut acc: u8 = 1;
    let mut i: u8 = 0;
    while i < e
        invariant
            0 <= i <= e,
            acc == pow8(base, i as nat),
        decreases e - i,
    {
        acc = exec_mul8(acc, base);
        i = i + 1;
    }
    acc
}

/// The power of two of a shift amount below 8.
fn exec_pow2(n: u8) -> (r: u16)
    requires
        n < 8,
    ensures
        r == pow2_8(n),
{
    if n == 0 {
        1
    } else if n == 1 {
        2
    } else if n == 2 {
        4
    } else if n == 3 {
        8
    } else if n == 4 {
        16
    } else if n == 5 {
        32
    } else if n == 6 {
        64
    } else {
        128
    }
}

/// An arithmetic right shift: sign-extending.
fn exec_shr_s8(a: u8, n: u8) -> (r: u8)
    ensures
        r == shr_s8(a, n),
{
    if n >= 8 {
        if a < 128 {
            0
        } else {
            255
        }
    } else {
        let p = exec_pow2(n);
        if a < 128 {
            ((a as u16) / p) as u8
        } else {
            let xneg = 256 - (a as u16);
            let q = (xneg + p - 1) / p;
            proof {
                assert(1 <= q <= 128);
            }
            ((256 - q) % 256) as u8
        }
    }
}

impl VM<DefaultMemory> {
    /// A machine over the built-in memory, loaded with a binary image;
    /// fails with `ImageTooLarge` when the image leaves no room for the
    /// stack regions.
    pub fn new(code: Vec<u8>) -> (r: Result<VM<DefaultMemory>, VmError>)
        ensures
            match r {
                Ok(vm) => {
                    &&& code@.len() <= 65024
                    &&& vm.inv()
                    &&& vm.st().pc == 0 && vm.st().sp == 0xff && vm.st().csp == 0xff
                    &&& vm.st().a == 0 && vm.st().b == 0
                    &&& vm.st().mem.len() == 65536
                    &&& vm.st().mem.subrange(0, code@.len() as int) == code@
                    &&& forall|i: int| code@.len() <= i < 65536 ==> vm.st().mem[i] == 0
                    &&& vm.st().sbase == code@.len()
                    &&& vm.st().cbase == code@.len() + 256
                    &&& vm.bps() =~= Seq::<u16>::empty()
                },
                Err(e) => code@.len() > 65024 && e == VmError::ImageTooLarge,
            },
    {
        let memory = match DefaultMemory::new(code) {
            Ok(m) => m,
            Err(e) => {
                return Err(e);
            },
        };
        Ok(VM::new_with_custom_memory(memory))
    }
}

impl<M: Memory> VM<M> {
    /// Fetches, decodes and executes one instruction, following the
    /// small-step semantics `step`, and reports a breakpoint when the new
    /// program counter is one. The breakpoint set is untouched, and the
    /// machine invariant — 64 KiB of memory with both stack regions
    /// inside, stack pointers within their bytes — is preserved.
    ///
    /// When the fetched byte is no opcode at all, the machine is left
    /// exactly as it was, so a host can read the program counter to
    /// report the fault; a failure later in an instruction may leave the
    /// program counter advanced and operands consumed.
    pub fn execute_instruction(&mut self) -> (r: Result<ExecutionStatus, VmError>)
        requires
            old(self).inv(),
        ensures
            final(self).inv(),
            final(self).bps() == old(self).bps(),
            match r {
                Ok(status) => step_full(old(self).st(), old(self).bps())
                    == Ok::<(MachineState, ExecutionStatus), VmError>((final(self).st(),
                        status)),
                Err(e) => step(old(self).st()) == Err::<RawStep, VmError>(e)
                    && (byte_to_opcode(read8(old(self).st(), old(self).st().pc)) is None
                        ==> final(self).st() == old(self).st()),
            },
    {
        let ghost s0 = self.st();
        let opcode_byte = match self.memory.read_u8(self.pc) {
            Ok(b) => b,
            Err(e) => {
                return Err(e);
            },
        };
        let opcode = match Opcode::from_byte(opcode_byte) {
            Some(op) => op,
            None => {
                return Err(VmError::UnknownOpcode(opcode_byte));
            },
        };
        self.pc = self.pc.wrapping_add(1);
        let ghost s1 = advance(s0, 1);
        proof {
            assert(self.st() == s1);
            assert(byte_to_opcode(read8(s0, s0.pc)) == Some(opcode));
        }

        match opcode {
            Opcode::Interrupt => {
                return Ok(ExecutionStatus::Done);
            },
            Opcode::Return => {
                let msb = match self.call_stack_pop() {
                    Ok(v) => v,
                    Err(_) => {
                        return Ok(ExecutionStatus::Done);
                    },
                };
                let lsb = match self.call_stack_pop() {
                    Ok(v) => v,
                    Err(_) => {
                        return Ok(ExecutionStatus::Done);
                    },
                };
                self.pc = Self::address_from_bytes(msb, lsb);
            },
            Opcode::Call => {
                let address = match self.operand_address() {
                    Ok(a) => a,
                    Err(e) => {
                        return Err(e);
                    },
                };
                match self.call_stack_push_address(self.pc) {
                    Ok(()) => {},
                    Err(e) => {
                        return Err(e);
                    },
                }
                self.pc = address;
            },
            Opcode::Jump => {
                let address = match self.operand_address() {
                    Ok(a) => a,
                    Err(e) => {
                        return Err(e);
                    },
                };
                self.pc = address;
            },
            Opcode::JumpC => {
                let address = match self.stack_pop_address() {
                    Ok(a) => a,
                    Err(e) => {
                        return Err(e);
                    },
                };
                self.pc = address;
            },
            Opcode::Push => {
                let value = match self.operand_value() {
                    Ok(v) => v,
                    Err(e) => {
                        return Err(e);
                    },
                };
                match self.stack_push(value) {
                    Ok(()) => {},
                    Err(e) => {
                        return Err(e);
                    },
                }
            },
            Opcode::PushAddr => {
                let address = match self.operand_address() {
                    Ok(a) => a,
                    Err(e) => {
                        return Err(e);
                    },
                };
                match self.stack_push_address(address) {
                    Ok(()) => {},
                    Err(e) => {
                        return Err(e);
                    },
                }
            },
            Opcode::Pop => {
                match self.stack_pop() {
                    Ok(_) => {},
                    Err(e) => {
                        return Err(e);
                    },
                }
            },
            Opcode::Label => {
                return Err(VmError::UnknownOpcode(0x07));
            },
            Opcode::Nop => {},
            Opcode::Sys => {
                return Ok(ExecutionStatus::SysCall);
            },
            Opcode::StackGet => {
                let offset = match self.operand_value() {
                    Ok(v) => v,
                    Err(e) => {
                        return Err(e);
                    },
                };
                match self.stack_peek(offset) {
                    Ok(()) => {},
                    Err(e) => {
                        return Err(e);
                    },
                }
            },
            Opcode::StackSet => {
                let offset = match self.operand_value() {
                    Ok(v) => v,
                    Err(e) => {
                        return Err(e);
                    },
                };
                match self.stack_set(offset) {
                    Ok(()) => {},
                    Err(e) => {
                        return Err(e);
                    },
                }
            },
            Opcode::GetRegA => {
                let v = self.reg_a;
                match self.stack_push(v) {
                    Ok(()) => {},
                    Err(e) => {
                        return Err(e);
                    },
                }
            },
            Opcode::GetRegB => {
                let v = self.reg_b;
                match self.stack_push(v) {
                    Ok(()) => {},
                    Err(e) => {
                        return Err(e);
                    },
                }
            },
            Opcode::SetRegA => {
                let value = match self.stack_pop() {
                    Ok(v) => v,
                    Err(e) => {
                        return Err(e);
                    },
                };
                self.reg_a = value;
            },
            Opcode::SetRegB => {
                let value = match self.stack_pop() {
                    Ok(v) => v,
                    Err(e) => {
                        return Err(e);
                    },
                };
                self.reg_b = value;
            },
            Opcode::Load8 => {
                let address = match self.operand_address() {
                    Ok(a) => a,
                    Err(e) => {
                        return Err(e);
                    },
                };
                let value = match self.memory.read_u8(address) {
                    Ok(v) => v,
                    Err(e) => {
                        return Err(e);
                    },
                };
                match self.stack_push(value) {
                    Ok(()) => {},
                    Err(e) => {
                        return Err(e);
                    },
                }
            },
            Opcode::Load8C => {
                let address = match self.stack_pop_address() {
                    Ok(a) => a,
                    Err(e) => {
                        return Err(e);
                    },
                };
                let value = match self.memory.read_u8(address) {
                    Ok(v) => v,
                    Err(e) => {
                        return Err(e);
                    },
                };
                match self.stack_push(value) {
                    Ok(()) => {},
                    Err(e) => {
                        return Err(e);
                    },
                }
            },
            Opcode::Load16 => {
                let address = match self.operand_address() {
                    Ok(a) => a,
                    Err(e) => {
                        return Err(e);
                    },
                };
                match self.load16_at(address) {
                    Ok(()) => {},
                    Err(e) => {
                        return Err(e);
                    },
                }
            },
            Opcode::Load16C => {
                let address = match self.stack_pop_address() {
                    Ok(a) => a,
                    Err(e) => {
                        return Err(e);
                    },
                };
                match self.load16_at(address) {
                    Ok(()) => {},
                    Err(e) => {
                        return Err(e);
                    },
                }
            },
            Opcode::Store8 => {
                let address = match self.operand_address() {
                    Ok(a) => a,
                    Err(e) => {
                        return Err(e);
                    },
                };
                let value = match self.stack_pop() {
                    Ok(v) => v,
                    Err(e) => {
                        return Err(e);
                    },
                };
                match self.memory.write_u8(address, value) {
                    Ok(()) => {},
                    Err(e) => {
                        return Err(e);
                    },
                }
            },
            Opcode::Store8C => {
                let address = match self.stack_pop_address() {
                    Ok(a) => a,
                    Err(e) => {
                        return Err(e);
                    },
                };
                let value = match self.stack_pop() {
                    Ok(v) => v,
                    Err(e) => {
                        return Err(e);
                    },
                };
                match self.memory.write_u8(address, value) {
                    Ok(()) => {},
                    Err(e) => {
                        return Err(e);
                    },
                }
            },
            Opcode::Store16 => {
                let address = match self.operand_address() {
                    Ok(a) => a,
                    Err(e) => {
                        return Err(e);
                    },
                };
                match self.store16_at(address) {
                    Ok(()) => {},
                    Err(e) => {
                        return Err(e);
                    },
                }
            },
            Opcode::Store16C => {
                let address = match self.stack_pop_address() {
                    Ok(a) => a,
                    Err(e) => {
                        return Err(e);
                    },
                };
                match self.store16_at(address) {
                    Ok(()) => {},
                    Err(e) => {
                        return Err(e);
                    },
                }
            },
            Opcode::Eqz => {
                let value = match self.stack_pop() {
                    Ok(v) => v,
                    Err(e) => {
                        return Err(e);
                    },
                };
                let address = match self.operand_address() {
                    Ok(a) => a,
                    Err(e) => {
                        return Err(e);
                    },
                };
                if value == 0 {
                    self.pc = address;
                }
            },
            Opcode::Eq => {
                let (lhs, rhs) = match self.pop_two() {
                    Ok(p) => p,
                    Err(e) => {
                        return Err(e);
                    },
                };
                let address = match self.operand_address() {
                    Ok(a) => a,
                    Err(e) => {
                        return Err(e);
                    },
                };
                if lhs == rhs {
                    self.pc = address;
                }
            },
            Opcode::Ne => {
                let (lhs, rhs) = match self.pop_two() {
                    Ok(p) => p,
                    Err(e) => {
                        return Err(e);
                    },
                };
                let address = match self.operand_address() {
                    Ok(a) => a,
                    Err(e) => {
                        return Err(e);
                    },
                };
                if lhs != rhs {
                    self.pc = address;
                }
            },
            Opcode::LtS => {
                let (lhs, rhs) = match self.pop_two() {
                    Ok(p) => p,
                    Err(e) => {
                        return Err(e);
                    },
                };
                let address = match self.operand_address() {
                    Ok(a) => a,
                    Err(e) => {
                        return Err(e);
                    },
                };
                if signed_lt(lhs, rhs) {
                    self.pc = address;
                }
            },
            Opcode::LtU => {
                let (lhs, rhs) = match self.pop_two() {
                    Ok(p) => p,
                    Err(e) => {
                        return Err(e);
                    },
                };
                let address = match self.operand_address() {
                    Ok(a) => a,
                    Err(e) => {
                        return Err(e);
                    },
                };
                if lhs < rhs {
                    self.pc = address;
                }
            },
            Opcode::GtS => {
                let (lhs, rhs) = match self.pop_two() {
                    Ok(p) => p,
                    Err(e) => {
                        return Err(e);
                    },
                };
                let address = match self.operand_address() {
                    Ok(a) => a,
                    Err(e) => {
                        return Err(e);
                    },
                };
                if signed_lt(rhs, lhs) {
                    self.pc = address;
                }
            },
            Opcode::GtU => {
                let (lhs, rhs) = match self.pop_two() {
                    Ok(p) => p,
                    Err(e) => {
                        return Err(e);
                    },
                };
                let address = match self.operand_address() {
                    Ok(a) => a,
                    Err(e) => {
                        return Err(e);
                    },
                };
                if lhs > rhs {
                    self.pc = address;
                }
            },
            Opcode::LeS => {
                let (lhs, rhs) = match self.pop_two() {
                    Ok(p) => p,
                    Err(e) => {
                        return Err(e);
                    },
                };
                let address = match self.operand_address() {
                    Ok(a) => a,
                    Err(e) => {
                        return Err(e);
                    },
                };
                if !signed_lt(rhs, lhs) {
                    self.pc = address;
                }
            },
            Opcode::LeU => {
                let (lhs, rhs) = match self.pop_two() {
                    Ok(p) => p,
                    Err(e) => {
                        return Err(e);
                    },
                };
                let address = match self.operand_address() {
                    Ok(a) => a,
                    Err(e) => {
                        return Err(e);
                    },
                };
                if lhs <= rhs {
                    self.pc = address;
                }
            },
            Opcode::GeS => {
                let (lhs, rhs) = match self.pop_two() {
                    Ok(p) => p,
                    Err(e) => {
                        return Err(e);
                    },
                };
                let address = match self.operand_address() {
                    Ok(a) => a,
                    Err(e) => {
                        return Err(e);
                    },
                };
                if !signed_lt(lhs, rhs) {
                    self.pc = address;
                }
            },
            Opcode::GeU => {
                let (lhs, rhs) = match self.pop_two() {
                    Ok(p) => p,
                    Err(e) => {
                        return Err(e);
                    },
                };
                let address = match self.operand_address() {
                    Ok(a) => a,
                    Err(e) => {
                        return Err(e);
                    },
                };
                if lhs >= rhs {
                    self.pc = address;
                }
            },
            Opcode::Add => {
                let (lhs, rhs) = match self.pop_two() {
                    Ok(p) => p,
                    Err(e) => {
                        return Err(e);
                    },
                };
                match self.stack_push(exec_add8(lhs, rhs)) {
                    Ok(()) => {},
                    Err(e) => {
                        return Err(e);
                    },
                }
            },
            Opcode::Sub => {
                let (lhs, rhs) = match self.pop_two() {
                    Ok(p) => p,
                    Err(e) => {
                        return Err(e);
                    },
                };
                match self.stack_push(exec_sub8(lhs, rhs)) {
                    Ok(()) => {},
                    Err(e) => {
                        return Err(e);
                    },
                }
            },
            Opcode::Mul => {
                let (lhs, rhs) = match self.pop_two() {
                    Ok(p) => p,
                    Err(e) => {
                        return Err(e);
                    },
                };
                match self.stack_push(exec_mul8(lhs, rhs)) {
                    Ok(()) => {},
                    Err(e) => {
                        return Err(e);
                    },
                }
            },
            Opcode::DivS => {
                let (lhs, rhs) = match self.pop_two() {
                    Ok(p) => p,
                    Err(e) => {
                        return Err(e);
                    },
                };
                if rhs == 0 {
                    return Err(VmError::DivisionByZero);
                }
                match self.stack_push(exec_div_s8(lhs, rhs)) {
                    Ok(()) => {},
                    Err(e) => {
                        return Err(e);
                    },
                }
            },
            Opcode::DivU => {
                let (lhs, rhs) = match self.pop_two() {
                    Ok(p) => p,
                    Err(e) => {
                        return Err(e);
                    },
                };
                if rhs == 0 {
                    return Err(VmError::DivisionByZero);
                }
                match self.stack_push(lhs / rhs) {
                    Ok(()) => {},
                    Err(e) => {
                        return Err(e);
                    },
                }
            },
            Opcode::RemS => {
                let (lhs, rhs) = match self.pop_two() {
                    Ok(p) => p,
                    Err(e) => {
                        return Err(e);
                    },
                };
                if rhs == 0 {
                    return Err(VmError::DivisionByZero);
                }
                match self.stack_push(exec_rem_s8(lhs, rhs)) {
                    Ok(()) => {},
                    Err(e) => {
                        return Err(e);
                    },
                }
            },
            Opcode::RemU => {
                let (lhs, rhs) = match self.pop_two() {
                    Ok(p) => p,
                    Err(e) => {
                        return Err(e);
                    },
                };
                if rhs == 0 {
                    return Err(VmError::DivisionByZero);
                }
                match self.stack_push(lhs % rhs) {
                    Ok(()) => {},
                    Err(e) => {
                        return Err(e);
                    },
                }
            },
            Opcode::Pow => {
                let (lhs, rhs) = match self.pop_two() {
                    Ok(p) => p,
                    Err(e) => {
                        return Err(e);
                    },
                };
                match self.stack_push(exec_pow8(lhs, rhs)) {
                    Ok(()) => {},
                    Err(e) => {
                        return Err(e);
                    },
                }
            },
            Opcode::Abs => {
                let value = match self.stack_pop() {
                    Ok(v) => v,
                    Err(e) => {
                        return Err(e);
                    },
                };
                let result = if value < 128 {
                    value
                } else {
                    (256 - (value as u16)) as u8
                };
                proof {
                    assert(result == abs8(value));
                }
                match self.stack_push(result) {
                    Ok(()) => {},
                    Err(e) => {
                        return Err(e);
                    },
                }
            },
            Opcode::And => {
                let (lhs, rhs) = match self.pop_two() {
                    Ok(p) => p,
                    Err(e) => {
                        return Err(e);
                    },
                };
                match self.stack_push(lhs & rhs) {
                    Ok(()) => {},
                    Err(e) => {
                        return Err(e);
                    },
                }
            },
            Opcode::Or => {
                let (lhs, rhs) = match self.pop_two() {
                    Ok(p) => p,
                    Err(e) => {
                        return Err(e);
                    },
                };
                match self.stack_push(lhs | rhs) {
                    Ok(()) => {},
                    Err(e) => {
                        return Err(e);
                    },
                }
            },
            Opcode::Xor => {
                let (lhs, rhs) = match self.pop_two() {
                    Ok(p) => p,
                    Err(e) => {
                        return Err(e);
                    },
                };
                match self.stack_push(lhs ^ rhs) {
                    Ok(()) => {},
                    Err(e) => {
                        return Err(e);
                    },
                }
            },
            Opcode::Shl => {
                let (lhs, rhs) = match self.pop_two() {
                    Ok(p) => p,
                    Err(e) => {
                        return Err(e);
                    },
                };
                let result: u8 = if rhs >= 8 {
                    0
                } else {
                    lhs << rhs
                };
                match self.stack_push(result) {
                    Ok(()) => {},
                    Err(e) => {
                        return Err(e);
                    },
                }
            },
            Opcode::ShrS => {
                let (lhs, rhs) = match self.pop_two() {
                    Ok(p) => p,
                    Err(e) => {
                        return Err(e);
                    },
                };
                match self.stack_push(exec_shr_s8(lhs, rhs)) {
                    Ok(()) => {},
                    Err(e) => {
                        return Err(e);
                    },
                }
            },
            Opcode::ShrU => {
                let (lhs, rhs) = match self.pop_two() {
                    Ok(p) => p,
                    Err(e) => {
                        return Err(e);
                    },
                };
                let result: u8 = if rhs >= 8 {
                    0
                } else {
                    lhs >> rhs
                };
                match self.stack_push(result) {
                    Ok(()) => {},
                    Err(e) => {
                        return Err(e);
                    },
                }
            },
            Opcode::Rotl => {
                let (lhs, rhs) = match self.pop_two() {
                    Ok(p) => p,
                    Err(e) => {
                        return Err(e);
                    },
                };
                let k = rhs % 8;
                let result: u8 = if k == 0 {
                    lhs
                } else {
                    (lhs << k) | (lhs >> (8 - k))
                };
                match self.stack_push(result) {
                    Ok(()) => {},
                    Err(e) => {
                        return Err(e);
                    },
                }
            },
            Opcode::Rotr => {
                let (lhs, rhs) = match self.pop_two() {
                    Ok(p) => p,
                    Err(e) => {
                        return Err(e);
                    },
                };
                let k = rhs % 8;
                let result: u8 = if k == 0 {
                    lhs
                } else {
                    (lhs >> k) | (lhs << (8 - k))
                };
                match self.stack_push(result) {
                    Ok(()) => {},
                    Err(e) => {
                        return Err(e);
                    },
                }
            },
        }

        proof {
            assert(step(s0) == Ok::<RawStep, VmError>(RawStep::Next(self.st())));
        }
        if self.has_breakpoint(self.pc) {
            return Ok(ExecutionStatus::Breakpoint);
        }
        Ok(ExecutionStatus::Continue)
    }

    /// Pops the right then the left operand of a binary instruction.
    fn pop_two(&mut self) -> (r: Result<(u8, u8), VmError>)
        requires
            old(self).inv(),
        ensures
            final(self).inv(),
            final(self).bps() == old(self).bps(),
            match r {
                Ok((lhs, rhs)) => match spec_pop(old(self).st()) {
                    Ok(p1) => p1.0 == rhs && match spec_pop(p1.1) {
                        Ok(p2) => p2.0 == lhs && p2.1 == final(self).st(),
                        Err(_) => false,
                    },
                    Err(_) => false,
                },
                Err(e) => {
                    ||| spec_pop(old(self).st()) == Err::<(u8, MachineState), VmError>(e)
                    ||| (spec_pop(old(self).st()) matches Ok(p1)
                        && spec_pop(p1.1) == Err::<(u8, MachineState), VmError>(e))
                },
            },
    {
        let rhs = match self.stack_pop() {
            Ok(v) => v,
            Err(e) => {
                return Err(e);
            },
        };
        let lhs = match self.stack_pop() {
            Ok(v) => v,
            Err(e) => {
                return Err(e);
            },
        };
        Ok((lhs, rhs))
    }

    /// Pushes the two bytes at an address: the second one first, so the
    /// more significant ends on top.
    fn load16_at(&mut self, address: u16) -> (r: Result<(), VmError>)
        requires
            old(self).inv(),
        ensures
            final(self).inv(),
            final(self).bps() == old(self).bps(),
            match r {
                Ok(()) => spec_load16_at(old(self).st(), address)
                    == Ok::<RawStep, VmError>(RawStep::Next(final(self).st())),
                Err(e) => spec_load16_at(old(self).st(), address)
                    == Err::<RawStep, VmError>(e),
            },
    {
        let msb = match self.memory.read_u8(address) {
            Ok(v) => v,
            Err(e) => {
                return Err(e);
            },
        };
        let lsb = match self.memory.read_u8(address.wrapping_add(1)) {
            Ok(v) => v,
            Err(e) => {
                return Err(e);
            },
        };
        match self.stack_push(lsb) {
            Ok(()) => {},
            Err(e) => {
                return Err(e);
            },
        }
        match self.stack_push(msb) {
            Ok(()) => Ok(()),
            Err(e) => Err(e),
        }
    }

    /// Stores two stack bytes at an address: the top of stack at the
    /// address itself, the next byte just after it.
    fn store16_at(&mut self, address: u16) -> (r: Result<(), VmError>)
        requires
            old(self).inv(),
        ensures
            final(self).inv(),
            final(self).bps() == old(self).bps(),
            match r {
                Ok(()) => spec_store16_at(old(self).st(), address)
                    == Ok::<RawStep, VmError>(RawStep::Next(final(self).st())),
                Err(e) => spec_store16_at(old(self).st(), address)
                    == Err::<RawStep, VmError>(e),
            },
    {
        let msb = match self.stack_pop() {
            Ok(v) => v,
            Err(e) => {
                return Err(e);
            },
        };
        let lsb = match self.stack_pop() {
            Ok(v) => v,
            Err(e) => {
                return Err(e);
            },
        };
        match self.memory.write_u8(address, msb) {
            Ok(()) => {},
            Err(e) => {
                return Err(e);
            },
        }
        match self.memory.write_u8(address.wrapping_add(1), lsb) {
            Ok(()) => Ok(()),
            Err(e) => Err(e),
        }
    }

    /// Runs instruction after instruction until the program halts, yields
    /// a syscall, reaches a breakpoint, or fails. The status says why the
    /// loop stopped; it is never `Continue`. The result is what some
    /// finite run of the small-step semantics produces from the starting
    /// state.
    ///
    /// The loop gives up after `u64::MAX` instructions and reports a
    /// pause then, which a host resumes as it would a breakpoint; at one
    /// instruction a nanosecond that bound is centuries away.
    pub fn continue_execution(&mut self) -> (r: Result<ExecutionStatus, VmError>)
        requires
            old(self).inv(),
        ensures
            final(self).inv(),
            final(self).bps() == old(self).bps(),
            match r {
                Ok(status) => status != ExecutionStatus::Continue
                    && ((exists|n: nat| run_n(old(self).st(), old(self).bps(), n)
                        == RunState::Stopped(Ok::<(MachineState, ExecutionStatus), VmError>(
                            (final(self).st(), status))))
                        || (status == ExecutionStatus::Breakpoint
                            && run_n(old(self).st(), old(self).bps(), u64::MAX as nat)
                                == RunState::Running(final(self).st()))),
                Err(e) => exists|n: nat| run_n(old(self).st(), old(self).bps(), n)
                    == RunState::Stopped(Err::<(MachineState, ExecutionStatus), VmError>(e)),
            },
    {
        let ghost start = old(self).st();
        let ghost bps0 = old(self).bps();
        proof {
            assert(run_n(start, bps0, 0) == RunState::Running(start));
        }
        let mut fuel: u64 = 0xffff_ffff_ffff_ffff;
        while fuel > 0
            invariant
                self.inv(),
                self.bps() == bps0,
                bps0 == old(self).bps(),
                run_n(start, bps0, (u64::MAX - fuel) as nat) == RunState::Running(self.st()),
                start == old(self).st(),
            decreases fuel,
        {
            let ghost before = self.st();
            let ghost steps: nat = (u64::MAX - fuel + 1) as nat;
            fuel = fuel - 1;
            let result = self.execute_instruction();
            match result {
                Ok(ExecutionStatus::Continue) => {
                    proof {
                        assert(run_n(start, bps0, steps) == RunState::Running(self.st()));
                    }
                },
                Ok(status) => {
                    proof {
                        assert(run_n(start, bps0, steps) == RunState::Stopped(
                            Ok::<(MachineState, ExecutionStatus), VmError>(
                                (self.st(), status))));
                    }
                    return Ok(status);
                },
                Err(e) => {
                    proof {
                        assert(step_full(before, bps0) == Err::<(MachineState,
                            ExecutionStatus), VmError>(e));
                        assert(run_n(start, bps0, steps) == RunState::Stopped(
                            Err::<(MachineState, ExecutionStatus), VmError>(e)));
                    }
                    return Err(e);
                },
            }
        }
        Ok(ExecutionStatus::Breakpoint)
    }

    /// Resets the machine and runs from address 0, as `continue_execution`
    /// does from the reset state.
    pub fn execute(&mut self) -> (r: Result<ExecutionStatus, VmError>)
        requires
            old(self).inv(),
        ensures
            final(self).inv(),
            final(self).bps() == old(self).bps(),
            match r {
                Ok(status) => status != ExecutionStatus::Continue
                    && ((exists|n: nat| run_n(reset_st(old(self).st()), old(self).bps(), n)
                        == RunState::Stopped(Ok::<(MachineState, ExecutionStatus), VmError>(
                            (final(self).st(), status))))
                        || (status == ExecutionStatus::Breakpoint
                            && run_n(reset_st(old(self).st()), old(self).bps(),
                                u64::MAX as nat) == RunState::Running(final(self).st()))),
                Err(e) => exists|n: nat| run_n(reset_st(old(self).st()), old(self).bps(), n)
                    == RunState::Stopped(Err::<(MachineState, ExecutionStatus), VmError>(e)),
            },
    {
        self.reset();
        self.continue_execution()
    }
}

/// Signed comparison of two bytes as two's-complement.
fn signed_lt(a: u8, b: u8) -> (r: bool)
    ensures
        r == (to_i8(a) < to_i8(b)),
{
    if (a >= 128) == (b >= 128) {
        a < b
    } else {
        a >= 128
    }
}

} // verus!
