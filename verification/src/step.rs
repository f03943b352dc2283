//! The machine's small-step semantics: a mathematical model of the
//! register file, the two stacks and the 64 KiB memory, and the effect
//! of every opcode as one transition function.

use vstd::prelude::*;
use crate::errors::VmError;
use crate::opcodes::Opcode;
use crate::opcodes::byte_to_opcode;
use crate::opcodes::opcode_byte;
use crate::out_bin::hi16;
use crate::out_bin::lo16;

verus! {

/// The machine state: program counter, the two stack pointers, the two
/// registers, the memory contents, and where the two stack regions start.
pub struct MachineState {
    pub pc: u16,
    pub sp: u8,
    pub csp: u8,
    pub a: u8,
    pub b: u8,
    pub mem: Seq<u8>,
    pub sbase: u16,
    pub cbase: u16,
}

/// A healthy machine: the memory is exactly 64 KiB and each 256-byte
/// stack region lies inside it.
pub open spec fn m_wf(s: MachineState) -> bool {
    &&& s.mem.len() == 65536
    &&& s.sbase + 256 <= 65536
    &&& s.cbase + 256 <= 65536
}

/// What one executed instruction leads to: the next state, a yield to
/// the host for a syscall, or the end of execution.
pub enum RawStep {
    Next(MachineState),
    Sys(MachineState),
    Halt(MachineState),
}

/// A 16-bit value from its two bytes, most significant first.
pub open spec fn addr_from_bytes(msb: u8, lsb: u8) -> u16 {
    ((msb as int) * 256 + lsb) as u16
}

/// Wrapping 16-bit arithmetic.
pub open spec fn wrap16(x: int) -> u16 {
    (x % 65536) as u16
}

/// The byte at an address.
pub open spec fn read8(s: MachineState, addr: u16) -> u8 {
    s.mem[addr as int]
}

/// The state after writing one byte.
pub open spec fn write8(s: MachineState, addr: u16, v: u8) -> MachineState {
    MachineState { mem: s.mem.update(addr as int, v), ..s }
}

/// The state after the program counter advances by `n`, wrapping.
pub open spec fn advance(s: MachineState, n: int) -> MachineState {
    MachineState { pc: wrap16(s.pc + n), ..s }
}

/// A push onto the data stack: the stack pointer indexes the next free
/// slot and grows downward, so a push with `SP == 0` overflows.
pub open spec fn spec_push(s: MachineState, v: u8) -> Result<MachineState, VmError> {
    if s.sp == 0 {
        Err(VmError::StackOverflow)
    } else {
        Ok(MachineState {
            mem: s.mem.update(s.sbase + s.sp, v),
            sp: (s.sp - 1) as u8,
            ..s
        })
    }
}

/// A pop from the data stack: a pop with `SP == 0xFF` finds it empty.
pub open spec fn spec_pop(s: MachineState) -> Result<(u8, MachineState), VmError> {
    if s.sp == 0xff {
        Err(VmError::StackEmpty)
    } else {
        let sp1 = (s.sp + 1) as u8;
        Ok((s.mem[s.sbase + sp1], MachineState { sp: sp1, ..s }))
    }
}

/// A push onto the call stack.
pub open spec fn spec_cpush(s: MachineState, v: u8) -> Result<MachineState, VmError> {
    if s.csp == 0 {
        Err(VmError::CallStackOverflow)
    } else {
        Ok(MachineState {
            mem: s.mem.update(s.cbase + s.csp, v),
            csp: (s.csp - 1) as u8,
            ..s
        })
    }
}

/// A pop from the call stack.
pub open spec fn spec_cpop(s: MachineState) -> Result<(u8, MachineState), VmError> {
    if s.csp == 0xff {
        Err(VmError::CallStackEmpty)
    } else {
        let csp1 = (s.csp + 1) as u8;
        Ok((s.mem[s.cbase + csp1], MachineState { csp: csp1, ..s }))
    }
}

/// An address pushed as two data-stack bytes: low byte first, so the
/// most significant byte ends on top.
pub open spec fn spec_push_addr(s: MachineState, addr: u16) -> Result<MachineState, VmError> {
    match spec_push(s, lo16(addr)) {
        Err(e) => Err(e),
        Ok(s1) => spec_push(s1, hi16(addr)),
    }
}

/// An address popped from two data-stack bytes: most significant first.
pub open spec fn spec_pop_addr(s: MachineState) -> Result<(u16, MachineState), VmError> {
    match spec_pop(s) {
        Err(e) => Err(e),
        Ok((msb, s1)) => match spec_pop(s1) {
            Err(e) => Err(e),
            Ok((lsb, s2)) => Ok((addr_from_bytes(msb, lsb), s2)),
        },
    }
}

/// An address pushed onto the call stack, low byte first.
pub open spec fn spec_cpush_addr(s: MachineState, addr: u16) -> Result<MachineState, VmError> {
    match spec_cpush(s, lo16(addr)) {
        Err(e) => Err(e),
        Ok(s1) => spec_cpush(s1, hi16(addr)),
    }
}

/// An address popped from the call stack, most significant byte first.
pub open spec fn spec_cpop_addr(s: MachineState) -> Result<(u16, MachineState), VmError> {
    match spec_cpop(s) {
        Err(e) => Err(e),
        Ok((msb, s1)) => match spec_cpop(s1) {
            Err(e) => Err(e),
            Ok((lsb, s2)) => Ok((addr_from_bytes(msb, lsb), s2)),
        },
    }
}

/// A one-byte operand fetched at the program counter.
pub open spec fn fetch8(s: MachineState) -> (u8, MachineState) {
    (read8(s, s.pc), advance(s, 1))
}

/// A two-byte little-endian operand fetched at the program counter.
pub open spec fn fetch16(s: MachineState) -> (u16, MachineState) {
    let lo = read8(s, s.pc);
    let hi = read8(s, wrap16(s.pc + 1));
    (addr_from_bytes(hi, lo), advance(s, 2))
}

/// A byte reinterpreted as two's-complement.
pub open spec fn to_i8(b: u8) -> int {
    if b < 128 {
        b as int
    } else {
        b - 256
    }
}

/// An integer reduced to its byte representation, wrapping.
pub open spec fn of_i8(v: int) -> u8 {
    (v % 256) as u8
}

/// Wrapping byte addition.
pub open spec fn add8(a: u8, b: u8) -> u8 {
    ((a + b) % 256) as u8
}

/// Wrapping byte subtraction.
pub open spec fn sub8(a: u8, b: u8) -> u8 {
    of_i8(a - b)
}

/// Wrapping byte multiplication.
pub open spec fn mul8(a: u8, b: u8) -> u8 {
    ((a * b) % 256) as u8
}

/// Signed division truncated toward zero, as two's-complement bytes;
/// `0x80 / 0xFF` (that is, -128 / -1) wraps back to `0x80`.
pub open spec fn div_s8(a: u8, b: u8) -> u8 {
    let x = to_i8(a);
    let y = to_i8(b);
    let q = if x >= 0 && y > 0 {
        x / y
    } else if x >= 0 && y < 0 {
        -(x / -y)
    } else if x < 0 && y > 0 {
        -(-x / y)
    } else {
        -x / -y
    };
    of_i8(q)
}

/// Signed remainder with the dividend's sign, as two's-complement bytes.
pub open spec fn rem_s8(a: u8, b: u8) -> u8 {
    let x = to_i8(a);
    let y = to_i8(b);
    let m = if x >= 0 {
        x % (if y >= 0 { y } else { -y })
    } else {
        -((-x) % (if y >= 0 { y } else { -y }))
    };
    of_i8(m)
}

/// The wrapping byte power: the base multiplied into 1, `e` times.
pub open spec fn pow8(base: u8, e: nat) -> u8
    decreases e,
{
    if e == 0 {
        1
    } else {
        mul8(pow8(base, (e - 1) as nat), base)
    }
}

/// The absolute value of a two's-complement byte; `abs(0x80)` wraps back
/// to `0x80`.
pub open spec fn abs8(a: u8) -> u8 {
    if a < 128 {
        a
    } else {
        (256 - a) as u8
    }
}

/// A left shift that drops the shifted-out bits; a shift by 8 or more
/// leaves nothing.
pub open spec fn shl8(a: u8, n: u8) -> u8 {
    if n >= 8 {
        0
    } else {
        a << n
    }
}

/// A logical right shift; a shift by 8 or more leaves nothing.
pub open spec fn shr_u8(a: u8, n: u8) -> u8 {
    if n >= 8 {
        0
    } else {
        a >> n
    }
}

/// The power of two of a small exponent.
pub open spec fn pow2_8(n: u8) -> int {
    if n == 0 {
        1
    } else if n == 1 {
        2
    } else if n == 2 {
        4
    } else if n == 3 {
        8
    } else if n == 4 {
        16
    } else if n == 5 {
        32
    } else if n == 6 {
        64
    } else {
        128
    }
}

/// An arithmetic right shift: the byte as two's-complement divided by
/// the power of two, rounding toward negative; the sign bit fills in.
pub open spec fn shr_s8(a: u8, n: u8) -> u8 {
    if n >= 8 {
        if a < 128 {
            0
        } else {
            255
        }
    } else {
        let x = to_i8(a);
        let p = pow2_8(n);
        let q = if x >= 0 {
            x / p
        } else {
            -((-x + p - 1) / p)
        };
        of_i8(q)
    }
}

/// A left rotation by `n mod 8` bit positions.
pub open spec fn rotl8(a: u8, n: u8) -> u8 {
    let k = n % 8;
    if k == 0 {
        a
    } else {
        (a << k) | (a >> (8 - k) as u8)
    }
}

/// A right rotation by `n mod 8` bit positions.
pub open spec fn rotr8(a: u8, n: u8) -> u8 {
    let k = n % 8;
    if k == 0 {
        a
    } else {
        (a >> k) | (a << (8 - k) as u8)
    }
}

/// A fused compare-and-branch: both operands popped, the branch target
/// fetched, and the program counter set to it when the test holds.
pub open spec fn spec_branch2(s: MachineState, taken: spec_fn(u8, u8) -> bool) -> Result<
    RawStep,
    VmError,
> {
    match spec_pop(s) {
        Err(e) => Err(e),
        Ok((rhs, s1)) => match spec_pop(s1) {
            Err(e) => Err(e),
            Ok((lhs, s2)) => {
                let (addr, s3) = fetch16(s2);
                if taken(lhs, rhs) {
                    Ok(RawStep::Next(MachineState { pc: addr, ..s3 }))
                } else {
                    Ok(RawStep::Next(s3))
                }
            },
        },
    }
}

/// A binary arithmetic or bitwise instruction: both operands popped and
/// the result pushed; the left operand is the one pushed first.
pub open spec fn spec_arith2(s: MachineState, f: spec_fn(u8, u8) -> u8) -> Result<
    RawStep,
    VmError,
> {
    match spec_pop(s) {
        Err(e) => Err(e),
        Ok((rhs, s1)) => match spec_pop(s1) {
            Err(e) => Err(e),
            Ok((lhs, s2)) => match spec_push(s2, f(lhs, rhs)) {
                Err(e) => Err(e),
                Ok(s3) => Ok(RawStep::Next(s3)),
            },
        },
    }
}

/// As `spec_arith2`, but failing with `DivisionByZero` when the right
/// operand is zero.
pub open spec fn spec_divlike(s: MachineState, f: spec_fn(u8, u8) -> u8) -> Result<
    RawStep,
    VmError,
> {
    match spec_pop(s) {
        Err(e) => Err(e),
        Ok((rhs, s1)) => match spec_pop(s1) {
            Err(e) => Err(e),
            Ok((lhs, s2)) => {
                if rhs == 0 {
                    Err(VmError::DivisionByZero)
                } else {
                    match spec_push(s2, f(lhs, rhs)) {
                        Err(e) => Err(e),
                        Ok(s3) => Ok(RawStep::Next(s3)),
                    }
                }
            },
        },
    }
}

/// The effect of one decoded opcode, on the state just after its opcode
/// byte was fetched.
pub open spec fn step_op(s: MachineState, op: Opcode) -> Result<RawStep, VmError> {
    match op {
        Opcode::Interrupt => Ok(RawStep::Halt(s)),
        Opcode::Return => match spec_cpop(s) {
            Err(_) => Ok(RawStep::Halt(s)),
            Ok((msb, s1)) => match spec_cpop(s1) {
                Err(_) => Ok(RawStep::Halt(s1)),
                Ok((lsb, s2)) => Ok(RawStep::Next(MachineState {
                    pc: addr_from_bytes(msb, lsb),
                    ..s2
                })),
            },
        },
        Opcode::Call => {
            let (addr, s1) = fetch16(s);
            match spec_cpush_addr(s1, s1.pc) {
                Err(e) => Err(e),
                Ok(s2) => Ok(RawStep::Next(MachineState { pc: addr, ..s2 })),
            }
        },
        Opcode::Jump => {
            let (addr, s1) = fetch16(s);
            Ok(RawStep::Next(MachineState { pc: addr, ..s1 }))
        },
        Opcode::JumpC => match spec_pop_addr(s) {
            Err(e) => Err(e),
            Ok((addr, s1)) => Ok(RawStep::Next(MachineState { pc: addr, ..s1 })),
        },
        Opcode::Push => {
            let (v, s1) = fetch8(s);
            match spec_push(s1, v) {
                Err(e) => Err(e),
                Ok(s2) => Ok(RawStep::Next(s2)),
            }
        },
        Opcode::PushAddr => {
            let (addr, s1) = fetch16(s);
            match spec_push_addr(s1, addr) {
                Err(e) => Err(e),
                Ok(s2) => Ok(RawStep::Next(s2)),
            }
        },
        Opcode::Pop => match spec_pop(s) {
            Err(e) => Err(e),
            Ok((_, s1)) => Ok(RawStep::Next(s1)),
        },
        Opcode::Label => Err(VmError::UnknownOpcode(0x07)),
        Opcode::Nop => Ok(RawStep::Next(s)),
        Opcode::Sys => Ok(RawStep::Sys(s)),
        Opcode::StackGet => {
            let (offset, s1) = fetch8(s);
            match spec_peek(s1, offset) {
                Err(e) => Err(e),
                Ok(s2) => Ok(RawStep::Next(s2)),
            }
        },
        Opcode::StackSet => {
            let (offset, s1) = fetch8(s);
            match spec_stack_set(s1, offset) {
                Err(e) => Err(e),
                Ok(s2) => Ok(RawStep::Next(s2)),
            }
        },
        Opcode::GetRegA => match spec_push(s, s.a) {
            Err(e) => Err(e),
            Ok(s1) => Ok(RawStep::Next(s1)),
        },
        Opcode::GetRegB => match spec_push(s, s.b) {
            Err(e) => Err(e),
            Ok(s1) => Ok(RawStep::Next(s1)),
        },
        Opcode::SetRegA => match spec_pop(s) {
            Err(e) => Err(e),
            Ok((v, s1)) => Ok(RawStep::Next(MachineState { a: v, ..s1 })),
        },
        Opcode::SetRegB => match spec_pop(s) {
            Err(e) => Err(e),
            Ok((v, s1)) => Ok(RawStep::Next(MachineState { b: v, ..s1 })),
        },
        Opcode::Load8 => {
            let (addr, s1) = fetch16(s);
            match spec_push(s1, read8(s1, addr)) {
                Err(e) => Err(e),
                Ok(s2) => Ok(RawStep::Next(s2)),
            }
        },
        Opcode::Load8C => match spec_pop_addr(s) {
            Err(e) => Err(e),
            Ok((addr, s1)) => match spec_push(s1, read8(s1, addr)) {
                Err(e) => Err(e),
                Ok(s2) => Ok(RawStep::Next(s2)),
            },
        },
        Opcode::Load16 => {
            let (addr, s1) = fetch16(s);
            spec_load16_at(s1, addr)
        },
        Opcode::Load16C => match spec_pop_addr(s) {
            Err(e) => Err(e),
            Ok((addr, s1)) => spec_load16_at(s1, addr),
        },
        Opcode::Store8 => {
            let (addr, s1) = fetch16(s);
            match spec_pop(s1) {
                Err(e) => Err(e),
                Ok((v, s2)) => Ok(RawStep::Next(write8(s2, addr, v))),
            }
        },
        Opcode::Store8C => match spec_pop_addr(s) {
            Err(e) => Err(e),
            Ok((addr, s1)) => match spec_pop(s1) {
                Err(e) => Err(e),
                Ok((v, s2)) => Ok(RawStep::Next(write8(s2, addr, v))),
            },
        },
        Opcode::Store16 => {
            let (addr, s1) = fetch16(s);
            spec_store16_at(s1, addr)
        },
        Opcode::Store16C => match spec_pop_addr(s) {
            Err(e) => Err(e),
            Ok((addr, s1)) => spec_store16_at(s1, addr),
        },
        Opcode::Eqz => match spec_pop(s) {
            Err(e) => Err(e),
            Ok((v, s1)) => {
                let (addr, s2) = fetch16(s1);
                if v == 0 {
                    Ok(RawStep::Next(MachineState { pc: addr, ..s2 }))
                } else {
                    Ok(RawStep::Next(s2))
                }
            },
        },
        Opcode::Eq => spec_branch2(s, |lhs: u8, rhs: u8| lhs == rhs),
        Opcode::Ne => spec_branch2(s, |lhs: u8, rhs: u8| lhs != rhs),
        Opcode::LtS => spec_branch2(s, |lhs: u8, rhs: u8| to_i8(lhs) < to_i8(rhs)),
        Opcode::LtU => spec_branch2(s, |lhs: u8, rhs: u8| lhs < rhs),
        Opcode::GtS => spec_branch2(s, |lhs: u8, rhs: u8| to_i8(lhs) > to_i8(rhs)),
        Opcode::GtU => spec_branch2(s, |lhs: u8, rhs: u8| lhs > rhs),
        Opcode::LeS => spec_branch2(s, |lhs: u8, rhs: u8| to_i8(lhs) <= to_i8(rhs)),
        Opcode::LeU => spec_branch2(s, |lhs: u8, rhs: u8| lhs <= rhs),
        Opcode::GeS => spec_branch2(s, |lhs: u8, rhs: u8| to_i8(lhs) >= to_i8(rhs)),
        Opcode::GeU => spec_branch2(s, |lhs: u8, rhs: u8| lhs >= rhs),
        Opcode::Add => spec_arith2(s, |lhs: u8, rhs: u8| add8(lhs, rhs)),
        Opcode::Sub => spec_arith2(s, |lhs: u8, rhs: u8| sub8(lhs, rhs)),
        Opcode::Mul => spec_arith2(s, |lhs: u8, rhs: u8| mul8(lhs, rhs)),
        Opcode::DivS => spec_divlike(s, |lhs: u8, rhs: u8| div_s8(lhs, rhs)),
        Opcode::DivU => spec_divlike(s, |lhs: u8, rhs: u8| (lhs / rhs) as u8),
        Opcode::RemS => spec_divlike(s, |lhs: u8, rhs: u8| rem_s8(lhs, rhs)),
        Opcode::RemU => spec_divlike(s, |lhs: u8, rhs: u8| (lhs % rhs) as u8),
        Opcode::Pow => spec_arith2(s, |lhs: u8, rhs: u8| pow8(lhs, rhs as nat)),
        Opcode::Abs => match spec_pop(s) {
            Err(e) => Err(e),
            Ok((v, s1)) => match spec_push(s1, abs8(v)) {
                Err(e) => Err(e),
                Ok(s2) => Ok(RawStep::Next(s2)),
            },
        },
        Opcode::And => spec_arith2(s, |lhs: u8, rhs: u8| lhs & rhs),
        Opcode::Or => spec_arith2(s, |lhs: u8, rhs: u8| lhs | rhs),
        Opcode::Xor => spec_arith2(s, |lhs: u8, rhs: u8| lhs ^ rhs),
        Opcode::Shl => spec_arith2(s, |lhs: u8, rhs: u8| shl8(lhs, rhs)),
        Opcode::ShrS => spec_arith2(s, |lhs: u8, rhs: u8| shr_s8(lhs, rhs)),
        Opcode::ShrU => spec_arith2(s, |lhs: u8, rhs: u8| shr_u8(lhs, rhs)),
        Opcode::Rotl => spec_arith2(s, |lhs: u8, rhs: u8| rotl8(lhs, rhs)),
        Opcode::Rotr => spec_arith2(s, |lhs: u8, rhs: u8| rotr8(lhs, rhs)),
    }
}

/// The two bytes at an address pushed onto the stack: the less
/// significant second, so it ends below the more significant, mirroring
/// how addresses are popped.
pub open spec fn spec_load16_at(s: MachineState, addr: u16) -> Result<RawStep, VmError> {
    let msb = read8(s, addr);
    let lsb = read8(s, wrap16(addr + 1));
    match spec_push(s, lsb) {
        Err(e) => Err(e),
        Ok(s1) => match spec_push(s1, msb) {
            Err(e) => Err(e),
            Ok(s2) => Ok(RawStep::Next(s2)),
        },
    }
}

/// Two stack bytes stored at an address: the top of stack to the
/// address, the next byte just after it.
pub open spec fn spec_store16_at(s: MachineState, addr: u16) -> Result<RawStep, VmError> {
    match spec_pop(s) {
        Err(e) => Err(e),
        Ok((msb, s1)) => match spec_pop(s1) {
            Err(e) => Err(e),
            Ok((lsb, s2)) => Ok(RawStep::Next(write8(write8(s2, addr, msb),
                wrap16(addr + 1), lsb))),
        },
    }
}

/// A peek relative to the top of the data stack: the byte `offset`
/// slots above the stack pointer pushed, or `StackOffsetOutOfRange`
/// when that slot would lie past the stack region.
pub open spec fn spec_peek(s: MachineState, offset: u8) -> Result<MachineState, VmError> {
    if s.sp + offset > 0xff {
        Err(VmError::StackOffsetOutOfRange)
    } else {
        spec_push(s, s.mem[s.sbase + s.sp + offset])
    }
}

/// A write relative to the top of the data stack: the popped value
/// stored `offset` slots above where the stack pointer stood, or
/// `StackOffsetOutOfRange` when that slot would lie past the region.
pub open spec fn spec_stack_set(s: MachineState, offset: u8) -> Result<MachineState, VmError> {
    if s.sp + offset > 0xff {
        Err(VmError::StackOffsetOutOfRange)
    } else {
        let slot = (s.sbase + s.sp + offset) as u16;
        match spec_pop(s) {
            Err(e) => Err(e),
            Ok((v, s1)) => Ok(write8(s1, slot, v)),
        }
    }
}

/// One whole instruction: the opcode byte fetched and decoded, the
/// program counter advanced past it, and the opcode's effect applied.
pub open spec fn step(s: MachineState) -> Result<RawStep, VmError> {
    let opb = read8(s, s.pc);
    match byte_to_opcode(opb) {
        None => Err(VmError::UnknownOpcode(opb)),
        Some(op) => step_op(advance(s, 1), op),
    }
}

/// Popping undoes pushing an address: `pop_addr` after `push_addr`
/// returns the same address, with the stack pointer, both registers,
/// the program counter and every live stack slot as they were.
pub proof fn lemma_pop_addr_push_addr(s: MachineState, addr: u16)
    requires
        m_wf(s),
        spec_push_addr(s, addr) is Ok,
    ensures
        ({
            let s2 = spec_push_addr(s, addr)->Ok_0;
            &&& spec_pop_addr(s2) is Ok
            &&& spec_pop_addr(s2)->Ok_0.0 == addr
            &&& spec_pop_addr(s2)->Ok_0.1.sp == s.sp
            &&& spec_pop_addr(s2)->Ok_0.1.pc == s.pc
            &&& spec_pop_addr(s2)->Ok_0.1.a == s.a
            &&& spec_pop_addr(s2)->Ok_0.1.b == s.b
            &&& spec_pop_addr(s2)->Ok_0.1.csp == s.csp
            &&& forall|i: int| s.sbase + s.sp < i < s.sbase + 256
                ==> spec_pop_addr(s2)->Ok_0.1.mem[i] == s.mem[i]
        }),
{
    let s2 = spec_push_addr(s, addr)->Ok_0;
    assert(addr_from_bytes(hi16(addr), lo16(addr)) == addr) by {
        assert(hi16(addr) == addr / 256);
        assert(lo16(addr) == addr % 256);
    }
}

/// Popping the call stack undoes pushing a return address onto it.
pub proof fn lemma_cpop_addr_cpush_addr(s: MachineState, addr: u16)
    requires
        m_wf(s),
        spec_cpush_addr(s, addr) is Ok,
    ensures
        ({
            let s2 = spec_cpush_addr(s, addr)->Ok_0;
            &&& spec_cpop_addr(s2) is Ok
            &&& spec_cpop_addr(s2)->Ok_0.0 == addr
            &&& spec_cpop_addr(s2)->Ok_0.1.csp == s.csp
        }),
{
    let s2 = spec_cpush_addr(s, addr)->Ok_0;
    assert(addr_from_bytes(hi16(addr), lo16(addr)) == addr) by {
        assert(hi16(addr) == addr / 256);
        assert(lo16(addr) == addr % 256);
    }
}

/// Popping right after pushing leaves the data stack as it was: the
/// popped value is the pushed one, the stack pointer returns, and every
/// live slot (above the stack pointer) holds its old byte.
pub proof fn lemma_pop_push(s: MachineState, v: u8)
    requires
        m_wf(s),
        spec_push(s, v) is Ok,
    ensures
        ({
            let s1 = spec_push(s, v)->Ok_0;
            &&& spec_pop(s1) is Ok
            &&& spec_pop(s1)->Ok_0.0 == v
            &&& spec_pop(s1)->Ok_0.1.sp == s.sp
            &&& spec_pop(s1)->Ok_0.1.pc == s.pc
            &&& spec_pop(s1)->Ok_0.1.csp == s.csp
            &&& spec_pop(s1)->Ok_0.1.a == s.a
            &&& spec_pop(s1)->Ok_0.1.b == s.b
            &&& forall|i: int| s.sbase + s.sp < i < s.sbase + 256
                ==> spec_pop(s1)->Ok_0.1.mem[i] == s.mem[i]
        }),
{
}

/// `div_u` and `rem_u` by zero fail, whatever the dividend: with a zero
/// on top of the stack and any value below it, the step reports
/// `DivisionByZero`.
pub proof fn lemma_div_by_zero_fails(s: MachineState)
    requires
        m_wf(s),
        spec_pop(s) is Ok,
        spec_pop(s)->Ok_0.0 == 0,
        spec_pop(spec_pop(s)->Ok_0.1) is Ok,
    ensures
        step_op(s, Opcode::DivU) == Err::<RawStep, VmError>(VmError::DivisionByZero),
        step_op(s, Opcode::RemU) == Err::<RawStep, VmError>(VmError::DivisionByZero),
        step_op(s, Opcode::DivS) == Err::<RawStep, VmError>(VmError::DivisionByZero),
        step_op(s, Opcode::RemS) == Err::<RawStep, VmError>(VmError::DivisionByZero),
{
}

/// The boundary facts of the byte operations: `abs` of `0x80` wraps to
/// `0x80`, a left shift by 8 clears the byte, and one-bit rotations move
/// the edge bit around.
pub proof fn lemma_byte_op_boundaries()
    ensures
        abs8(0x80) == 0x80,
        shl8(0xff, 8) == 0,
        rotl8(0xf0, 1) == 0xe1,
        rotr8(0x01, 1) == 0x80,
{
    assert(((0xf0u8 << 1u8) | (0xf0u8 >> 7u8)) == 0xe1u8) by (bit_vector);
    assert(((0x01u8 >> 1u8) | (0x01u8 << 7u8)) == 0x80u8) by (bit_vector);
}


/// A `call` and its matching `return` bracket a subroutine. The `call`
/// pushes the address of the instruction after its operand onto the call
/// stack and jumps to its target; a `return` reached later — in any state
/// that still holds that call stack — sets the program counter back to
/// the instruction following the `call`, with the call stack popped.
pub proof fn lemma_call_then_return(s: MachineState, u: MachineState)
    requires
        m_wf(s),
        m_wf(u),
        s.csp >= 2,
    ensures
        ({
            let target = fetch16(s).0;
            let resume = fetch16(s).1.pc;
            match step_op(s, Opcode::Call) {
                Ok(RawStep::Next(s2)) => {
                    &&& s2.pc == target
                    &&& s2.csp == s.csp - 2
                    &&& ((u.csp == s2.csp && u.cbase == s2.cbase
                        && (forall|i: int| s2.cbase < i < s2.cbase + 256
                            ==> u.mem[i] == s2.mem[i]))
                        ==> step_op(u, Opcode::Return) == Ok::<RawStep, VmError>(
                            RawStep::Next(MachineState {
                                pc: resume,
                                csp: s.csp,
                                ..u
                            })))
                },
                _ => false,
            }
        }),
{
    let target = fetch16(s).0;
    let s1 = fetch16(s).1;
    let resume = s1.pc;
    let s2 = step_op(s, Opcode::Call)->Ok_0->Next_0;
    assert(spec_cpush_addr(s1, resume) is Ok);
    assert(s2.mem[s.cbase + s.csp] == lo16(resume));
    assert(s2.mem[s.cbase + s.csp - 1] == hi16(resume));
    if u.csp == s2.csp && u.cbase == s2.cbase
        && (forall|i: int| s2.cbase < i < s2.cbase + 256 ==> u.mem[i] == s2.mem[i]) {
        assert(u.mem[s.cbase + s.csp - 1] == hi16(resume));
        assert(u.mem[s.cbase + s.csp] == lo16(resume));
        assert(addr_from_bytes(hi16(resume), lo16(resume)) == resume) by {
            assert(hi16(resume) == resume / 256);
            assert(lo16(resume) == resume % 256);
        }
        assert(step_op(u, Opcode::Return) == Ok::<RawStep, VmError>(RawStep::Next(
            MachineState { pc: resume, csp: s.csp, ..u })));
    }
}

/// A `push` instruction followed by a `pop` instruction leaves the data
/// stack as it was: the stack pointer returns, every occupied slot keeps
/// its byte, the registers are untouched, and the program counter stands
/// past both instructions. The one proviso of a flat memory: the scratch
/// slot the push writes must not be the very address holding the `pop`
/// opcode byte, or the second fetch would read the pushed value instead.
#[verifier::rlimit(80)]
pub proof fn lemma_push_pop_program(s: MachineState)
    requires
        m_wf(s),
        s.sp >= 1,
        read8(s, s.pc) == opcode_byte(Opcode::Push),
        read8(s, wrap16(s.pc + 2)) == opcode_byte(Opcode::Pop),
        s.sbase + s.sp != wrap16(s.pc + 2),
    ensures
        match step(s) {
            Ok(RawStep::Next(s1)) => match step(s1) {
                Ok(RawStep::Next(s2)) => {
                    &&& s2.pc == wrap16(s.pc + 3)
                    &&& s2.sp == s.sp
                    &&& s2.csp == s.csp
                    &&& s2.a == s.a
                    &&& s2.b == s.b
                    &&& forall|i: int| s.sbase + s.sp < i < s.sbase + 256
                        ==> s2.mem[i] == s.mem[i]
                },
                _ => false,
            },
            _ => false,
        },
{
    assert(wrap16(wrap16(s.pc + 1) as int + 1) == wrap16(s.pc + 2)) by (nonlinear_arith);
    assert(wrap16(wrap16(s.pc + 2) as int + 1) == wrap16(s.pc + 3)) by (nonlinear_arith);
    assert(byte_to_opcode(read8(s, s.pc)) == Some(Opcode::Push));
    let sa = advance(s, 1);
    let v = fetch8(sa).0;
    let sb = fetch8(sa).1;
    assert(sb.pc == wrap16(s.pc + 2));
    let s1 = spec_push(sb, v)->Ok_0;
    assert(step(s) == Ok::<RawStep, VmError>(RawStep::Next(s1)));
    assert(s1.mem == s.mem.update(s.sbase + s.sp, v));
    assert(read8(s1, s1.pc) == s.mem[wrap16(s.pc + 2) as int]);
    assert(byte_to_opcode(read8(s1, s1.pc)) == Some(Opcode::Pop));
    let s1a = advance(s1, 1);
    assert(s1a.sp != 0xff);
    let s2 = spec_pop(s1a)->Ok_0.1;
    assert(step(s1) == Ok::<RawStep, VmError>(RawStep::Next(s2)));
    assert(s2.sp == s.sp);
    assert(s2.pc == wrap16(s.pc + 3));
}

} // verus!
