//! The opcode catalog: the closed set of opcodes, their byte values,
//! the mnemonic table, and the arity of each opcode.

use vstd::prelude::*;

verus! {

/// One opcode of the virtual machine.
///
/// `Label` is a pseudo opcode: it marks a jump target in the intermediate
/// instruction stream and is never emitted as a byte.
#[derive(Debug, Clone, Copy, PartialEq, Eq, Structural)]
pub enum Opcode {
    Interrupt,
    Return,
    Call,
    Jump,
    JumpC,
    Push,
    PushAddr,
    Pop,
    Label,
    Nop,
    Sys,
    StackGet,
    StackSet,
    GetRegA,
    GetRegB,
    SetRegA,
    SetRegB,
    Load8,
    Load8C,
    Load16,
    Load16C,
    Store8,
    Store8C,
    Store16,
    Store16C,
    Eqz,
    Eq,
    Ne,
    LtS,
    LtU,
    GtS,
    GtU,
    LeS,
    LeU,
    GeS,
    GeU,
    Add,
    Sub,
    Mul,
    DivS,
    DivU,
    RemS,
    RemU,
    Pow,
    Abs,
    And,
    Or,
    Xor,
    Shl,
    ShrS,
    ShrU,
    Rotl,
    Rotr,
}

/// How many operand bytes an opcode consumes: none, one immediate byte,
/// or a two-byte little-endian address. `Pseudo` marks the `Label`
/// pseudo opcode, which never reaches the image.
#[derive(Debug, Clone, Copy, PartialEq, Eq, Structural)]
pub enum Arity {
    Bare,
    Imm8,
    Imm16,
    Pseudo,
}

/// The byte value of each opcode in the binary image.
///
/// `PushAddr` has no byte assigned by the historical image format; this
/// implementation assigns it `0x0a`, the first free slot after `sys`.
pub open spec fn opcode_byte(op: Opcode) -> u8 {
    match op {
        Opcode::Interrupt => 0x00,
        Opcode::Return => 0x01,
        Opcode::Call => 0x02,
        Opcode::Jump => 0x03,
        Opcode::JumpC => 0x04,
        Opcode::Push => 0x05,
        Opcode::Pop => 0x06,
        Opcode::Label => 0x07,
        Opcode::Nop => 0x08,
        Opcode::Sys => 0x09,
        Opcode::PushAddr => 0x0a,
        Opcode::StackGet => 0x10,
        Opcode::StackSet => 0x11,
        Opcode::GetRegA => 0x12,
        Opcode::GetRegB => 0x13,
        Opcode::SetRegA => 0x14,
        Opcode::SetRegB => 0x15,
        Opcode::Load8 => 0x20,
        Opcode::Load8C => 0x21,
        Opcode::Load16 => 0x22,
        Opcode::Load16C => 0x23,
        Opcode::Store8 => 0x2c,
        Opcode::Store8C => 0x2d,
        Opcode::Store16 => 0x2e,
        Opcode::Store16C => 0x2f,
        Opcode::Eqz => 0x40,
        Opcode::Eq => 0x41,
        Opcode::Ne => 0x42,
        Opcode::LtS => 0x43,
        Opcode::LtU => 0x44,
        Opcode::GtS => 0x45,
        Opcode::GtU => 0x46,
        Opcode::LeS => 0x47,
        Opcode::LeU => 0x48,
        Opcode::GeS => 0x49,
        Opcode::GeU => 0x4a,
        Opcode::Add => 0x60,
        Opcode::Sub => 0x61,
        Opcode::Mul => 0x62,
        Opcode::DivS => 0x63,
        Opcode::DivU => 0x64,
        Opcode::RemS => 0x65,
        Opcode::RemU => 0x66,
        Opcode::Pow => 0x67,
        Opcode::Abs => 0x68,
        Opcode::And => 0x69,
        Opcode::Or => 0x6a,
        Opcode::Xor => 0x6b,
        Opcode::Shl => 0x6c,
        Opcode::ShrS => 0x6d,
        Opcode::ShrU => 0x6e,
        Opcode::Rotl => 0x6f,
        Opcode::Rotr => 0x70,
    }
}

/// The inverse of `opcode_byte`: which opcode a byte decodes to, if any.
pub open spec fn byte_to_opcode(b: u8) -> Option<Opcode> {
    if b == 0x00 {
        Some(Opcode::Interrupt)
    } else if b == 0x01 {
        Some(Opcode::Return)
    } else if b == 0x02 {
        Some(Opcode::Call)
    } else if b == 0x03 {
        Some(Opcode::Jump)
    } else if b == 0x04 {
        Some(Opcode::JumpC)
    } else if b == 0x05 {
        Some(Opcode::Push)
    } else if b == 0x06 {
        Some(Opcode::Pop)
    } else if b == 0x07 {
        Some(Opcode::Label)
    } else if b == 0x08 {
        Some(Opcode::Nop)
    } else if b == 0x09 {
        Some(Opcode::Sys)
    } else if b == 0x0a {
        Some(Opcode::PushAddr)
    } else if b == 0x10 {
        Some(Opcode::StackGet)
    } else if b == 0x11 {
        Some(Opcode::StackSet)
    } else if b == 0x12 {
        Some(Opcode::GetRegA)
    } else if b == 0x13 {
        Some(Opcode::GetRegB)
    } else if b == 0x14 {
        Some(Opcode::SetRegA)
    } else if b == 0x15 {
        Some(Opcode::SetRegB)
    } else if b == 0x20 {
        Some(Opcode::Load8)
    } else if b == 0x21 {
        Some(Opcode::Load8C)
    } else if b == 0x22 {
        Some(Opcode::Load16)
    } else if b == 0x23 {
        Some(Opcode::Load16C)
    } else if b == 0x2c {
        Some(Opcode::Store8)
    } else if b == 0x2d {
        Some(Opcode::Store8C)
    } else if b == 0x2e {
        Some(Opcode::Store16)
    } else if b == 0x2f {
        Some(Opcode::Store16C)
    } else if b == 0x40 {
        Some(Opcode::Eqz)
    } else if b == 0x41 {
        Some(Opcode::Eq)
    } else if b == 0x42 {
        Some(Opcode::Ne)
    } else if b == 0x43 {
        Some(Opcode::LtS)
    } else if b == 0x44 {
        Some(Opcode::LtU)
    } else if b == 0x45 {
        Some(Opcode::GtS)
    } else if b == 0x46 {
        Some(Opcode::GtU)
    } else if b == 0x47 {
        Some(Opcode::LeS)
    } else if b == 0x48 {
        Some(Opcode::LeU)
    } else if b == 0x49 {
        Some(Opcode::GeS)
    } else if b == 0x4a {
        Some(Opcode::GeU)
    } else if b == 0x60 {
        Some(Opcode::Add)
    } else if b == 0x61 {
        Some(Opcode::Sub)
    } else if b == 0x62 {
        Some(Opcode::Mul)
    } else if b == 0x63 {
        Some(Opcode::DivS)
    } else if b == 0x64 {
        Some(Opcode::DivU)
    } else if b == 0x65 {
        Some(Opcode::RemS)
    } else if b == 0x66 {
        Some(Opcode::RemU)
    } else if b == 0x67 {
        Some(Opcode::Pow)
    } else if b == 0x68 {
        Some(Opcode::Abs)
    } else if b == 0x69 {
        Some(Opcode::And)
    } else if b == 0x6a {
        Some(Opcode::Or)
    } else if b == 0x6b {
        Some(Opcode::Xor)
    } else if b == 0x6c {
        Some(Opcode::Shl)
    } else if b == 0x6d {
        Some(Opcode::ShrS)
    } else if b == 0x6e {
        Some(Opcode::ShrU)
    } else if b == 0x6f {
        Some(Opcode::Rotl)
    } else if b == 0x70 {
        Some(Opcode::Rotr)
    } else {
        None
    }
}

/// How many operand bytes each opcode consumes.
pub open spec fn arity_of(op: Opcode) -> Arity {
    match op {
        Opcode::Label => Arity::Pseudo,
        Opcode::Push | Opcode::StackGet | Opcode::StackSet => Arity::Imm8,
        Opcode::Call | Opcode::Jump | Opcode::PushAddr | Opcode::Load8 | Opcode::Load16
            | Opcode::Store8 | Opcode::Store16 | Opcode::Eqz | Opcode::Eq | Opcode::Ne
            | Opcode::LtS | Opcode::LtU | Opcode::GtS | Opcode::GtU | Opcode::LeS
            | Opcode::LeU | Opcode::GeS | Opcode::GeU => Arity::Imm16,
        _ => Arity::Bare,
    }
}

/// The mnemonic of each opcode in assembly source.
pub open spec fn mnemonic(op: Opcode) -> Seq<char> {
    match op {
        Opcode::Interrupt => "itrpt"@,
        Opcode::Return => "return"@,
        Opcode::Call => "call"@,
        Opcode::Jump => "jump"@,
        Opcode::JumpC => "jump_c"@,
        Opcode::Push => "push"@,
        Opcode::PushAddr => "push_addr"@,
        Opcode::Pop => "pop"@,
        Opcode::Label => "label"@,
        Opcode::Nop => "nop"@,
        Opcode::Sys => "sys"@,
        Opcode::StackGet => "stack.get"@,
        Opcode::StackSet => "stack.set"@,
        Opcode::GetRegA => "get_reg_a"@,
        Opcode::GetRegB => "get_reg_b"@,
        Opcode::SetRegA => "set_reg_a"@,
        Opcode::SetRegB => "set_reg_b"@,
        Opcode::Load8 => "load8"@,
        Opcode::Load8C => "load8_c"@,
        Opcode::Load16 => "load16"@,
        Opcode::Load16C => "load16_c"@,
        Opcode::Store8 => "store8"@,
        Opcode::Store8C => "store8_c"@,
        Opcode::Store16 => "store16"@,
        Opcode::Store16C => "store16_c"@,
        Opcode::Eqz => "eqz"@,
        Opcode::Eq => "eq"@,
        Opcode::Ne => "ne"@,
        Opcode::LtS => "lt_s"@,
        Opcode::LtU => "lt_u"@,
        Opcode::GtS => "gt_s"@,
        Opcode::GtU => "gt_u"@,
        Opcode::LeS => "le_s"@,
        Opcode::LeU => "le_u"@,
        Opcode::GeS => "ge_s"@,
        Opcode::GeU => "ge_u"@,
        Opcode::Add => "add"@,
        Opcode::Sub => "sub"@,
        Opcode::Mul => "mul"@,
        Opcode::DivS => "div_s"@,
        Opcode::DivU => "div_u"@,
        Opcode::RemS => "rem_s"@,
        Opcode::RemU => "rem_u"@,
        Opcode::Pow => "pow"@,
        Opcode::Abs => "abs"@,
        Opcode::And => "and"@,
        Opcode::Or => "or"@,
        Opcode::Xor => "xor"@,
        Opcode::Shl => "shl"@,
        Opcode::ShrS => "shr_s"@,
        Opcode::ShrU => "shr_u"@,
        Opcode::Rotl => "rotl"@,
        Opcode::Rotr => "rotr"@,
    }
}

/// The inverse of `mnemonic`: which opcode a token names, if any.
pub open spec fn spec_from_mnemonic(s: Seq<char>) -> Option<Opcode> {
    if s == "itrpt"@ {
        Some(Opcode::Interrupt)
    } else if s == "return"@ {
        Some(Opcode::Return)
    } else if s == "call"@ {
        Some(Opcode::Call)
    } else if s == "jump"@ {
        Some(Opcode::Jump)
    } else if s == "jump_c"@ {
        Some(Opcode::JumpC)
    } else if s == "push"@ {
        Some(Opcode::Push)
    } else if s == "push_addr"@ {
        Some(Opcode::PushAddr)
    } else if s == "pop"@ {
        Some(Opcode::Pop)
    } else if s == "label"@ {
        Some(Opcode::Label)
    } else if s == "nop"@ {
        Some(Opcode::Nop)
    } else if s == "sys"@ {
        Some(Opcode::Sys)
    } else if s == "stack.get"@ {
        Some(Opcode::StackGet)
    } else if s == "stack.set"@ {
        Some(Opcode::StackSet)
    } else if s == "get_reg_a"@ {
        Some(Opcode::GetRegA)
    } else if s == "get_reg_b"@ {
        Some(Opcode::GetRegB)
    } else if s == "set_reg_a"@ {
        Some(Opcode::SetRegA)
    } else if s == "set_reg_b"@ {
        Some(Opcode::SetRegB)
    } else if s == "load8"@ {
        Some(Opcode::Load8)
    } else if s == "load8_c"@ {
        Some(Opcode::Load8C)
    } else if s == "load16"@ {
        Some(Opcode::Load16)
    } else if s == "load16_c"@ {
        Some(Opcode::Load16C)
    } else if s == "store8"@ {
        Some(Opcode::Store8)
    } else if s == "store8_c"@ {
        Some(Opcode::Store8C)
    } else if s == "store16"@ {
        Some(Opcode::Store16)
    } else if s == "store16_c"@ {
        Some(Opcode::Store16C)
    } else if s == "eqz"@ {
        Some(Opcode::Eqz)
    } else if s == "eq"@ {
        Some(Opcode::Eq)
    } else if s == "ne"@ {
        Some(Opcode::Ne)
    } else if s == "lt_s"@ {
        Some(Opcode::LtS)
    } else if s == "lt_u"@ {
        Some(Opcode::LtU)
    } else if s == "gt_s"@ {
        Some(Opcode::GtS)
    } else if s == "gt_u"@ {
        Some(Opcode::GtU)
    } else if s == "le_s"@ {
        Some(Opcode::LeS)
    } else if s == "le_u"@ {
        Some(Opcode::LeU)
    } else if s == "ge_s"@ {
        Some(Opcode::GeS)
    } else if s == "ge_u"@ {
        Some(Opcode::GeU)
    } else if s == "add"@ {
        Some(Opcode::Add)
    } else if s == "sub"@ {
        Some(Opcode::Sub)
    } else if s == "mul"@ {
        Some(Opcode::Mul)
    } else if s == "div_s"@ {
        Some(Opcode::DivS)
    } else if s == "div_u"@ {
        Some(Opcode::DivU)
    } else if s == "rem_s"@ {
        Some(Opcode::RemS)
    } else if s == "rem_u"@ {
        Some(Opcode::RemU)
    } else if s == "pow"@ {
        Some(Opcode::Pow)
    } else if s == "abs"@ {
        Some(Opcode::Abs)
    } else if s == "and"@ {
        Some(Opcode::And)
    } else if s == "or"@ {
        Some(Opcode::Or)
    } else if s == "xor"@ {
        Some(Opcode::Xor)
    } else if s == "shl"@ {
        Some(Opcode::Shl)
    } else if s == "shr_s"@ {
        Some(Opcode::ShrS)
    } else if s == "shr_u"@ {
        Some(Opcode::ShrU)
    } else if s == "rotl"@ {
        Some(Opcode::Rotl)
    } else if s == "rotr"@ {
        Some(Opcode::Rotr)
    } else {
        None
    }
}

/// Compares two string slices by their character sequences.
pub fn str_eq(a: &str, b: &str) -> (r: bool)
    ensures
        r == (a@ == b@),
{
    let sa = String::from_str(a);
    let sb = String::from_str(b);
    sa.eq(&sb)
}

impl Opcode {
    /// The byte this opcode is encoded as in a binary image.
    pub fn to_byte(self) -> (b: u8)
        ensures
            b == opcode_byte(self),
    {
        match self {
            Opcode::Interrupt => 0x00,
            Opcode::Return => 0x01,
            Opcode::Call => 0x02,
            Opcode::Jump => 0x03,
            Opcode::JumpC => 0x04,
            Opcode::Push => 0x05,
            Opcode::Pop => 0x06,
            Opcode::Label => 0x07,
            Opcode::Nop => 0x08,
            Opcode::Sys => 0x09,
            Opcode::PushAddr => 0x0a,
            Opcode::StackGet => 0x10,
            Opcode::StackSet => 0x11,
            Opcode::GetRegA => 0x12,
            Opcode::GetRegB => 0x13,
            Opcode::SetRegA => 0x14,
            Opcode::SetRegB => 0x15,
            Opcode::Load8 => 0x20,
            Opcode::Load8C => 0x21,
            Opcode::Load16 => 0x22,
            Opcode::Load16C => 0x23,
            Opcode::Store8 => 0x2c,
            Opcode::Store8C => 0x2d,
            Opcode::Store16 => 0x2e,
            Opcode::Store16C => 0x2f,
            Opcode::Eqz => 0x40,
            Opcode::Eq => 0x41,
            Opcode::Ne => 0x42,
            Opcode::LtS => 0x43,
            Opcode::LtU => 0x44,
            Opcode::GtS => 0x45,
            Opcode::GtU => 0x46,
            Opcode::LeS => 0x47,
            Opcode::LeU => 0x48,
            Opcode::GeS => 0x49,
            Opcode::GeU => 0x4a,
            Opcode::Add => 0x60,
            Opcode::Sub => 0x61,
            Opcode::Mul => 0x62,
            Opcode::DivS => 0x63,
            Opcode::DivU => 0x64,
            Opcode::RemS => 0x65,
            Opcode::RemU => 0x66,
            Opcode::Pow => 0x67,
            Opcode::Abs => 0x68,
            Opcode::And => 0x69,
            Opcode::Or => 0x6a,
            Opcode::Xor => 0x6b,
            Opcode::Shl => 0x6c,
            Opcode::ShrS => 0x6d,
            Opcode::ShrU => 0x6e,
            Opcode::Rotl => 0x6f,
            Opcode::Rotr => 0x70,
        }
    }

    /// Decodes a byte of the image back into an opcode.
    pub fn from_byte(b: u8) -> (r: Option<Opcode>)
        ensures
            r == byte_to_opcode(b),
    {
        match b {
            0x00 => Some(Opcode::Interrupt),
            0x01 => Some(Opcode::Return),
            0x02 => Some(Opcode::Call),
            0x03 => Some(Opcode::Jump),
            0x04 => Some(Opcode::JumpC),
            0x05 => Some(Opcode::Push),
            0x06 => Some(Opcode::Pop),
            0x07 => Some(Opcode::Label),
            0x08 => Some(Opcode::Nop),
            0x09 => Some(Opcode::Sys),
            0x0a => Some(Opcode::PushAddr),
            0x10 => Some(Opcode::StackGet),
            0x11 => Some(Opcode::StackSet),
            0x12 => Some(Opcode::GetRegA),
            0x13 => Some(Opcode::GetRegB),
            0x14 => Some(Opcode::SetRegA),
            0x15 => Some(Opcode::SetRegB),
            0x20 => Some(Opcode::Load8),
            0x21 => Some(Opcode::Load8C),
            0x22 => Some(Opcode::Load16),
            0x23 => Some(Opcode::Load16C),
            0x2c => Some(Opcode::Store8),
            0x2d => Some(Opcode::Store8C),
            0x2e => Some(Opcode::Store16),
            0x2f => Some(Opcode::Store16C),
            0x40 => Some(Opcode::Eqz),
            0x41 => Some(Opcode::Eq),
            0x42 => Some(Opcode::Ne),
            0x43 => Some(Opcode::LtS),
            0x44 => Some(Opcode::LtU),
            0x45 => Some(Opcode::GtS),
            0x46 => Some(Opcode::GtU),
            0x47 => Some(Opcode::LeS),
            0x48 => Some(Opcode::LeU),
            0x49 => Some(Opcode::GeS),
            0x4a => Some(Opcode::GeU),
            0x60 => Some(Opcode::Add),
            0x61 => Some(Opcode::Sub),
            0x62 => Some(Opcode::Mul),
            0x63 => Some(Opcode::DivS),
            0x64 => Some(Opcode::DivU),
            0x65 => Some(Opcode::RemS),
            0x66 => Some(Opcode::RemU),
            0x67 => Some(Opcode::Pow),
            0x68 => Some(Opcode::Abs),
            0x69 => Some(Opcode::And),
            0x6a => Some(Opcode::Or),
            0x6b => Some(Opcode::Xor),
            0x6c => Some(Opcode::Shl),
            0x6d => Some(Opcode::ShrS),
            0x6e => Some(Opcode::ShrU),
            0x6f => Some(Opcode::Rotl),
            0x70 => Some(Opcode::Rotr),
            _ => None,
        }
    }

    /// The arity of this opcode.
    pub fn arity(self) -> (r: Arity)
        ensures
            r == arity_of(self),
    {
        match self {
            Opcode::Label => Arity::Pseudo,
            Opcode::Push | Opcode::StackGet | Opcode::StackSet => Arity::Imm8,
            Opcode::Call | Opcode::Jump | Opcode::PushAddr | Opcode::Load8 | Opcode::Load16
                | Opcode::Store8 | Opcode::Store16 | Opcode::Eqz | Opcode::Eq | Opcode::Ne
                | Opcode::LtS | Opcode::LtU | Opcode::GtS | Opcode::GtU | Opcode::LeS
                | Opcode::LeU | Opcode::GeS | Opcode::GeU => Arity::Imm16,
            _ => Arity::Bare,
        }
    }

    /// Looks a mnemonic up in the catalog.
    pub fn from_string(value: &str) -> (r: Option<Opcode>)
        ensures
            r == spec_from_mnemonic(value@),
    {
        if str_eq(value, "itrpt") {
            Some(Opcode::Interrupt)
        } else if str_eq(value, "return") {
            Some(Opcode::Return)
        } else if str_eq(value, "call") {
            Some(Opcode::Call)
        } else if str_eq(value, "jump") {
            Some(Opcode::Jump)
        } else if str_eq(value, "jump_c") {
            Some(Opcode::JumpC)
        } else if str_eq(value, "push") {
            Some(Opcode::Push)
        } else if str_eq(value, "push_addr") {
            Some(Opcode::PushAddr)
        } else if str_eq(value, "pop") {
            Some(Opcode::Pop)
        } else if str_eq(value, "label") {
            Some(Opcode::Label)
        } else if str_eq(value, "nop") {
            Some(Opcode::Nop)
        } else if str_eq(value, "sys") {
            Some(Opcode::Sys)
        } else if str_eq(value, "stack.get") {
            Some(Opcode::StackGet)
        } else if str_eq(value, "stack.set") {
            Some(Opcode::StackSet)
        } else if str_eq(value, "get_reg_a") {
            Some(Opcode::GetRegA)
        } else if str_eq(value, "get_reg_b") {
            Some(Opcode::GetRegB)
        } else if str_eq(value, "set_reg_a") {
            Some(Opcode::SetRegA)
        } else if str_eq(value, "set_reg_b") {
            Some(Opcode::SetRegB)
        } else if str_eq(value, "load8") {
            Some(Opcode::Load8)
        } else if str_eq(value, "load8_c") {
            Some(Opcode::Load8C)
        } else if str_eq(value, "load16") {
            Some(Opcode::Load16)
        } else if str_eq(value, "load16_c") {
            Some(Opcode::Load16C)
        } else if str_eq(value, "store8") {
            Some(Opcode::Store8)
        } else if str_eq(value, "store8_c") {
            Some(Opcode::Store8C)
        } else if str_eq(value, "store16") {
            Some(Opcode::Store16)
        } else if str_eq(value, "store16_c") {
            Some(Opcode::Store16C)
        } else if str_eq(value, "eqz") {
            Some(Opcode::Eqz)
        } else if str_eq(value, "eq") {
            Some(Opcode::Eq)
        } else if str_eq(value, "ne") {
            Some(Opcode::Ne)
        } else if str_eq(value, "lt_s") {
            Some(Opcode::LtS)
        } else if str_eq(value, "lt_u") {
            Some(Opcode::LtU)
        } else if str_eq(value, "gt_s") {
            Some(Opcode::GtS)
        } else if str_eq(value, "gt_u") {
            Some(Opcode::GtU)
        } else if str_eq(value, "le_s") {
            Some(Opcode::LeS)
        } else if str_eq(value, "le_u") {
            Some(Opcode::LeU)
        } else if str_eq(value, "ge_s") {
            Some(Opcode::GeS)
        } else if str_eq(value, "ge_u") {
            Some(Opcode::GeU)
        } else if str_eq(value, "add") {
            Some(Opcode::Add)
        } else if str_eq(value, "sub") {
            Some(Opcode::Sub)
        } else if str_eq(value, "mul") {
            Some(Opcode::Mul)
        } else if str_eq(value, "div_s") {
            Some(Opcode::DivS)
        } else if str_eq(value, "div_u") {
            Some(Opcode::DivU)
        } else if str_eq(value, "rem_s") {
            Some(Opcode::RemS)
        } else if str_eq(value, "rem_u") {
            Some(Opcode::RemU)
        } else if str_eq(value, "pow") {
            Some(Opcode::Pow)
        } else if str_eq(value, "abs") {
            Some(Opcode::Abs)
        } else if str_eq(value, "and") {
            Some(Opcode::And)
        } else if str_eq(value, "or") {
            Some(Opcode::Or)
        } else if str_eq(value, "xor") {
            Some(Opcode::Xor)
        } else if str_eq(value, "shl") {
            Some(Opcode::Shl)
        } else if str_eq(value, "shr_s") {
            Some(Opcode::ShrS)
        } else if str_eq(value, "shr_u") {
            Some(Opcode::ShrU)
        } else if str_eq(value, "rotl") {
            Some(Opcode::Rotl)
        } else if str_eq(value, "rotr") {
            Some(Opcode::Rotr)
        } else {
            None
        }
    }

    /// The mnemonic this opcode is written as in assembly source.
    pub fn to_string(&self) -> (r: &'static str)
        ensures
            r@ == mnemonic(*self),
    {
        match self {
            Opcode::Interrupt => "itrpt",
            Opcode::Return => "return",
            Opcode::Call => "call",
            Opcode::Jump => "jump",
            Opcode::JumpC => "jump_c",
            Opcode::Push => "push",
            Opcode::PushAddr => "push_addr",
            Opcode::Pop => "pop",
            Opcode::Label => "label",
            Opcode::Nop => "nop",
            Opcode::Sys => "sys",
            Opcode::StackGet => "stack.get",
            Opcode::StackSet => "stack.set",
            Opcode::GetRegA => "get_reg_a",
            Opcode::GetRegB => "get_reg_b",
            Opcode::SetRegA => "set_reg_a",
            Opcode::SetRegB => "set_reg_b",
            Opcode::Load8 => "load8",
            Opcode::Load8C => "load8_c",
            Opcode::Load16 => "load16",
            Opcode::Load16C => "load16_c",
            Opcode::Store8 => "store8",
            Opcode::Store8C => "store8_c",
            Opcode::Store16 => "store16",
            Opcode::Store16C => "store16_c",
            Opcode::Eqz => "eqz",
            Opcode::Eq => "eq",
            Opcode::Ne => "ne",
            Opcode::LtS => "lt_s",
            Opcode::LtU => "lt_u",
            Opcode::GtS => "gt_s",
            Opcode::GtU => "gt_u",
            Opcode::LeS => "le_s",
            Opcode::LeU => "le_u",
            Opcode::GeS => "ge_s",
            Opcode::GeU => "ge_u",
            Opcode::Add => "add",
            Opcode::Sub => "sub",
            Opcode::Mul => "mul",
            Opcode::DivS => "div_s",
            Opcode::DivU => "div_u",
            Opcode::RemS => "rem_s",
            Opcode::RemU => "rem_u",
            Opcode::Pow => "pow",
            Opcode::Abs => "abs",
            Opcode::And => "and",
            Opcode::Or => "or",
            Opcode::Xor => "xor",
            Opcode::Shl => "shl",
            Opcode::ShrS => "shr_s",
            Opcode::ShrU => "shr_u",
            Opcode::Rotl => "rotl",
            Opcode::Rotr => "rotr",
        }
    }

    /// Whether this opcode stands on its own, taking no operand bytes.
    pub fn is_opcode_instruction(opcode: Opcode) -> (r: bool)
        ensures
            r == (arity_of(opcode) == Arity::Bare),
    {
        opcode.arity() == Arity::Bare
    }
}

/// Decoding inverts encoding: the byte assigned to an opcode decodes
/// back to that opcode, so byte values are unique across the catalog.
pub proof fn lemma_opcode_byte_roundtrip(op: Opcode)
    ensures
        byte_to_opcode(opcode_byte(op)) == Some(op),
{
}

/// Looking a mnemonic up inverts printing: the mnemonic of an opcode
/// names exactly that opcode, so mnemonics are unique across the catalog.
#[verifier::rlimit(60)]
pub proof fn lemma_mnemonic_roundtrip(op: Opcode)
    ensures
        spec_from_mnemonic(mnemonic(op)) == Some(op),
{
    reveal_strlit("itrpt");
    reveal_strlit("return");
    reveal_strlit("call");
    reveal_strlit("jump");
    reveal_strlit("jump_c");
    reveal_strlit("push");
    reveal_strlit("push_addr");
    reveal_strlit("pop");
    reveal_strlit("label");
    reveal_strlit("nop");
    reveal_strlit("sys");
    reveal_strlit("stack.get");
    reveal_strlit("stack.set");
    reveal_strlit("get_reg_a");
    reveal_strlit("get_reg_b");
    reveal_strlit("set_reg_a");
    reveal_strlit("set_reg_b");
    reveal_strlit("load8");
    reveal_strlit("load8_c");
    reveal_strlit("load16");
    reveal_strlit("load16_c");
    reveal_strlit("store8");
    reveal_strlit("store8_c");
    reveal_strlit("store16");
    reveal_strlit("store16_c");
    reveal_strlit("eqz");
    reveal_strlit("eq");
    reveal_strlit("ne");
    reveal_strlit("lt_s");
    reveal_strlit("lt_u");
    reveal_strlit("gt_s");
    reveal_strlit("gt_u");
    reveal_strlit("le_s");
    reveal_strlit("le_u");
    reveal_strlit("ge_s");
    reveal_strlit("ge_u");
    reveal_strlit("add");
    reveal_strlit("sub");
    reveal_strlit("mul");
    reveal_strlit("div_s");
    reveal_strlit("div_u");
    reveal_strlit("rem_s");
    reveal_strlit("rem_u");
    reveal_strlit("pow");
    reveal_strlit("abs");
    reveal_strlit("and");
    reveal_strlit("or");
    reveal_strlit("xor");
    reveal_strlit("shl");
    reveal_strlit("shr_s");
    reveal_strlit("shr_u");
    reveal_strlit("rotl");
    reveal_strlit("rotr");
    broadcast use vstd::string::group_string_axioms;
    assert(("itrpt"@).len() == 5);
    assert(("itrpt"@)[0] == 'i');
    assert(("itrpt"@)[1] == 't');
    assert(("itrpt"@)[2] == 'r');
    assert(("itrpt"@)[3] == 'p');
    assert(("itrpt"@)[4] == 't');
    assert(("return"@).len() == 6);
    assert(("return"@)[0] == 'r');
    assert(("return"@)[1] == 'e');
    assert(("return"@)[2] == 't');
    assert(("return"@)[3] == 'u');
    assert(("return"@)[4] == 'r');
    assert(("return"@)[5] == 'n');
    assert(("call"@).len() == 4);
    assert(("call"@)[0] == 'c');
    assert(("call"@)[1] == 'a');
    assert(("call"@)[2] == 'l');
    assert(("call"@)[3] == 'l');
    assert(("jump"@).len() == 4);
    assert(("jump"@)[0] == 'j');
    assert(("jump"@)[1] == 'u');
    assert(("jump"@)[2] == 'm');
    assert(("jump"@)[3] == 'p');
    assert(("jump_c"@).len() == 6);
    assert(("jump_c"@)[0] == 'j');
    assert(("jump_c"@)[1] == 'u');
    assert(("jump_c"@)[2] == 'm');
    assert(("jump_c"@)[3] == 'p');
    assert(("jump_c"@)[4] == '_');
    assert(("jump_c"@)[5] == 'c');
    assert(("push"@).len() == 4);
    assert(("push"@)[0] == 'p');
    assert(("push"@)[1] == 'u');
    assert(("push"@)[2] == 's');
    assert(("push"@)[3] == 'h');
    assert(("push_addr"@).len() == 9);
    assert(("push_addr"@)[0] == 'p');
    assert(("push_addr"@)[1] == 'u');
    assert(("push_addr"@)[2] == 's');
    assert(("push_addr"@)[3] == 'h');
    assert(("push_addr"@)[4] == '_');
    assert(("push_addr"@)[5] == 'a');
    assert(("push_addr"@)[6] == 'd');
    assert(("push_addr"@)[7] == 'd');
    assert(("push_addr"@)[8] == 'r');
    assert(("pop"@).len() == 3);
    assert(("pop"@)[0] == 'p');
    assert(("pop"@)[1] == 'o');
    assert(("pop"@)[2] == 'p');
    assert(("label"@).len() == 5);
    assert(("label"@)[0] == 'l');
    assert(("label"@)[1] == 'a');
    assert(("label"@)[2] == 'b');
    assert(("label"@)[3] == 'e');
    assert(("label"@)[4] == 'l');
    assert(("nop"@).len() == 3);
    assert(("nop"@)[0] == 'n');
    assert(("nop"@)[1] == 'o');
    assert(("nop"@)[2] == 'p');
    assert(("sys"@).len() == 3);
    assert(("sys"@)[0] == 's');
    assert(("sys"@)[1] == 'y');
    assert(("sys"@)[2] == 's');
    assert(("stack.get"@).len() == 9);
    assert(("stack.get"@)[0] == 's');
    assert(("stack.get"@)[1] == 't');
    assert(("stack.get"@)[2] == 'a');
    assert(("stack.get"@)[3] == 'c');
    assert(("stack.get"@)[4] == 'k');
    assert(("stack.get"@)[5] == '.');
    assert(("stack.get"@)[6] == 'g');
    assert(("stack.get"@)[7] == 'e');
    assert(("stack.get"@)[8] == 't');
    assert(("stack.set"@).len() == 9);
    assert(("stack.set"@)[0] == 's');
    assert(("stack.set"@)[1] == 't');
    assert(("stack.set"@)[2] == 'a');
    assert(("stack.set"@)[3] == 'c');
    assert(("stack.set"@)[4] == 'k');
    assert(("stack.set"@)[5] == '.');
    assert(("stack.set"@)[6] == 's');
    assert(("stack.set"@)[7] == 'e');
    assert(("stack.set"@)[8] == 't');
    assert(("get_reg_a"@).len() == 9);
    assert(("get_reg_a"@)[0] == 'g');
    assert(("get_reg_a"@)[1] == 'e');
    assert(("get_reg_a"@)[2] == 't');
    assert(("get_reg_a"@)[3] == '_');
    assert(("get_reg_a"@)[4] == 'r');
    assert(("get_reg_a"@)[5] == 'e');
    assert(("get_reg_a"@)[6] == 'g');
    assert(("get_reg_a"@)[7] == '_');
    assert(("get_reg_a"@)[8] == 'a');
    assert(("get_reg_b"@).len() == 9);
    assert(("get_reg_b"@)[0] == 'g');
    assert(("get_reg_b"@)[1] == 'e');
    assert(("get_reg_b"@)[2] == 't');
    assert(("get_reg_b"@)[3] == '_');
    assert(("get_reg_b"@)[4] == 'r');
    assert(("get_reg_b"@)[5] == 'e');
    assert(("get_reg_b"@)[6] == 'g');
    assert(("get_reg_b"@)[7] == '_');
    assert(("get_reg_b"@)[8] == 'b');
    assert(("set_reg_a"@).len() == 9);
    assert(("set_reg_a"@)[0] == 's');
    assert(("set_reg_a"@)[1] == 'e');
    assert(("set_reg_a"@)[2] == 't');
    assert(("set_reg_a"@)[3] == '_');
    assert(("set_reg_a"@)[4] == 'r');
    assert(("set_reg_a"@)[5] == 'e');
    assert(("set_reg_a"@)[6] == 'g');
    assert(("set_reg_a"@)[7] == '_');
    assert(("set_reg_a"@)[8] == 'a');
    assert(("set_reg_b"@).len() == 9);
    assert(("set_reg_b"@)[0] == 's');
    assert(("set_reg_b"@)[1] == 'e');
    assert(("set_reg_b"@)[2] == 't');
    assert(("set_reg_b"@)[3] == '_');
    assert(("set_reg_b"@)[4] == 'r');
    assert(("set_reg_b"@)[5] == 'e');
    assert(("set_reg_b"@)[6] == 'g');
    assert(("set_reg_b"@)[7] == '_');
    assert(("set_reg_b"@)[8] == 'b');
    assert(("load8"@).len() == 5);
    assert(("load8"@)[0] == 'l');
    assert(("load8"@)[1] == 'o');
    assert(("load8"@)[2] == 'a');
    assert(("load8"@)[3] == 'd');
    assert(("load8"@)[4] == '8');
    assert(("load8_c"@).len() == 7);
    assert(("load8_c"@)[0] == 'l');
    assert(("load8_c"@)[1] == 'o');
    assert(("load8_c"@)[2] == 'a');
    assert(("load8_c"@)[3] == 'd');
    assert(("load8_c"@)[4] == '8');
    assert(("load8_c"@)[5] == '_');
    assert(("load8_c"@)[6] == 'c');
    assert(("load16"@).len() == 6);
    assert(("load16"@)[0] == 'l');
    assert(("load16"@)[1] == 'o');
    assert(("load16"@)[2] == 'a');
    assert(("load16"@)[3] == 'd');
    assert(("load16"@)[4] == '1');
    assert(("load16"@)[5] == '6');
    assert(("load16_c"@).len() == 8);
    assert(("load16_c"@)[0] == 'l');
    assert(("load16_c"@)[1] == 'o');
    assert(("load16_c"@)[2] == 'a');
    assert(("load16_c"@)[3] == 'd');
    assert(("load16_c"@)[4] == '1');
    assert(("load16_c"@)[5] == '6');
    assert(("load16_c"@)[6] == '_');
    assert(("load16_c"@)[7] == 'c');
    assert(("store8"@).len() == 6);
    assert(("store8"@)[0] == 's');
    assert(("store8"@)[1] == 't');
    assert(("store8"@)[2] == 'o');
    assert(("store8"@)[3] == 'r');
    assert(("store8"@)[4] == 'e');
    assert(("store8"@)[5] == '8');
    assert(("store8_c"@).len() == 8);
    assert(("store8_c"@)[0] == 's');
    assert(("store8_c"@)[1] == 't');
    assert(("store8_c"@)[2] == 'o');
    assert(("store8_c"@)[3] == 'r');
    assert(("store8_c"@)[4] == 'e');
    assert(("store8_c"@)[5] == '8');
    assert(("store8_c"@)[6] == '_');
    assert(("store8_c"@)[7] == 'c');
    assert(("store16"@).len() == 7);
    assert(("store16"@)[0] == 's');
    assert(("store16"@)[1] == 't');
    assert(("store16"@)[2] == 'o');
    assert(("store16"@)[3] == 'r');
    assert(("store16"@)[4] == 'e');
    assert(("store16"@)[5] == '1');
    assert(("store16"@)[6] == '6');
    assert(("store16_c"@).len() == 9);
    assert(("store16_c"@)[0] == 's');
    assert(("store16_c"@)[1] == 't');
    assert(("store16_c"@)[2] == 'o');
    assert(("store16_c"@)[3] == 'r');
    assert(("store16_c"@)[4] == 'e');
    assert(("store16_c"@)[5] == '1');
    assert(("store16_c"@)[6] == '6');
    assert(("store16_c"@)[7] == '_');
    assert(("store16_c"@)[8] == 'c');
    assert(("eqz"@).len() == 3);
    assert(("eqz"@)[0] == 'e');
    assert(("eqz"@)[1] == 'q');
    assert(("eqz"@)[2] == 'z');
    assert(("eq"@).len() == 2);
    assert(("eq"@)[0] == 'e');
    assert(("eq"@)[1] == 'q');
    assert(("ne"@).len() == 2);
    assert(("ne"@)[0] == 'n');
    assert(("ne"@)[1] == 'e');
    assert(("lt_s"@).len() == 4);
    assert(("lt_s"@)[0] == 'l');
    assert(("lt_s"@)[1] == 't');
    assert(("lt_s"@)[2] == '_');
    assert(("lt_s"@)[3] == 's');
    assert(("lt_u"@).len() == 4);
    assert(("lt_u"@)[0] == 'l');
    assert(("lt_u"@)[1] == 't');
    assert(("lt_u"@)[2] == '_');
    assert(("lt_u"@)[3] == 'u');
    assert(("gt_s"@).len() == 4);
    assert(("gt_s"@)[0] == 'g');
    assert(("gt_s"@)[1] == 't');
    assert(("gt_s"@)[2] == '_');
    assert(("gt_s"@)[3] == 's');
    assert(("gt_u"@).len() == 4);
    assert(("gt_u"@)[0] == 'g');
    assert(("gt_u"@)[1] == 't');
    assert(("gt_u"@)[2] == '_');
    assert(("gt_u"@)[3] == 'u');
    assert(("le_s"@).len() == 4);
    assert(("le_s"@)[0] == 'l');
    assert(("le_s"@)[1] == 'e');
    assert(("le_s"@)[2] == '_');
    assert(("le_s"@)[3] == 's');
    assert(("le_u"@).len() == 4);
    assert(("le_u"@)[0] == 'l');
    assert(("le_u"@)[1] == 'e');
    assert(("le_u"@)[2] == '_');
    assert(("le_u"@)[3] == 'u');
    assert(("ge_s"@).len() == 4);
    assert(("ge_s"@)[0] == 'g');
    assert(("ge_s"@)[1] == 'e');
    assert(("ge_s"@)[2] == '_');
    assert(("ge_s"@)[3] == 's');
    assert(("ge_u"@).len() == 4);
    assert(("ge_u"@)[0] == 'g');
    assert(("ge_u"@)[1] == 'e');
    assert(("ge_u"@)[2] == '_');
    assert(("ge_u"@)[3] == 'u');
    assert(("add"@).len() == 3);
    assert(("add"@)[0] == 'a');
    assert(("add"@)[1] == 'd');
    assert(("add"@)[2] == 'd');
    assert(("sub"@).len() == 3);
    assert(("sub"@)[0] == 's');
    assert(("sub"@)[1] == 'u');
    assert(("sub"@)[2] == 'b');
    assert(("mul"@).len() == 3);
    assert(("mul"@)[0] == 'm');
    assert(("mul"@)[1] == 'u');
    assert(("mul"@)[2] == 'l');
    assert(("div_s"@).len() == 5);
    assert(("div_s"@)[0] == 'd');
    assert(("div_s"@)[1] == 'i');
    assert(("div_s"@)[2] == 'v');
    assert(("div_s"@)[3] == '_');
    assert(("div_s"@)[4] == 's');
    assert(("div_u"@).len() == 5);
    assert(("div_u"@)[0] == 'd');
    assert(("div_u"@)[1] == 'i');
    assert(("div_u"@)[2] == 'v');
    assert(("div_u"@)[3] == '_');
    assert(("div_u"@)[4] == 'u');
    assert(("rem_s"@).len() == 5);
    assert(("rem_s"@)[0] == 'r');
    assert(("rem_s"@)[1] == 'e');
    assert(("rem_s"@)[2] == 'm');
    assert(("rem_s"@)[3] == '_');
    assert(("rem_s"@)[4] == 's');
    assert(("rem_u"@).len() == 5);
    assert(("rem_u"@)[0] == 'r');
    assert(("rem_u"@)[1] == 'e');
    assert(("rem_u"@)[2] == 'm');
    assert(("rem_u"@)[3] == '_');
    assert(("rem_u"@)[4] == 'u');
    assert(("pow"@).len() == 3);
    assert(("pow"@)[0] == 'p');
    assert(("pow"@)[1] == 'o');
    assert(("pow"@)[2] == 'w');
    assert(("abs"@).len() == 3);
    assert(("abs"@)[0] == 'a');
    assert(("abs"@)[1] == 'b');
    assert(("abs"@)[2] == 's');
    assert(("and"@).len() == 3);
    assert(("and"@)[0] == 'a');
    assert(("and"@)[1] == 'n');
    assert(("and"@)[2] == 'd');
    assert(("or"@).len() == 2);
    assert(("or"@)[0] == 'o');
    assert(("or"@)[1] == 'r');
    assert(("xor"@).len() == 3);
    assert(("xor"@)[0] == 'x');
    assert(("xor"@)[1] == 'o');
    assert(("xor"@)[2] == 'r');
    assert(("shl"@).len() == 3);
    assert(("shl"@)[0] == 's');
    assert(("shl"@)[1] == 'h');
    assert(("shl"@)[2] == 'l');
    assert(("shr_s"@).len() == 5);
    assert(("shr_s"@)[0] == 's');
    assert(("shr_s"@)[1] == 'h');
    assert(("shr_s"@)[2] == 'r');
    assert(("shr_s"@)[3] == '_');
    assert(("shr_s"@)[4] == 's');
    assert(("shr_u"@).len() == 5);
    assert(("shr_u"@)[0] == 's');
    assert(("shr_u"@)[1] == 'h');
    assert(("shr_u"@)[2] == 'r');
    assert(("shr_u"@)[3] == '_');
    assert(("shr_u"@)[4] == 'u');
    assert(("rotl"@).len() == 4);
    assert(("rotl"@)[0] == 'r');
    assert(("rotl"@)[1] == 'o');
    assert(("rotl"@)[2] == 't');
    assert(("rotl"@)[3] == 'l');
    assert(("rotr"@).len() == 4);
    assert(("rotr"@)[0] == 'r');
    assert(("rotr"@)[1] == 'o');
    assert(("rotr"@)[2] == 't');
    assert(("rotr"@)[3] == 'r');
    match op {
        Opcode::Interrupt => { assert(spec_from_mnemonic(mnemonic(op)) == Some(Opcode::Interrupt)); }
        Opcode::Return => { assert(spec_from_mnemonic(mnemonic(op)) == Some(Opcode::Return)); }
        Opcode::Call => { assert(spec_from_mnemonic(mnemonic(op)) == Some(Opcode::Call)); }
        Opcode::Jump => { assert(spec_from_mnemonic(mnemonic(op)) == Some(Opcode::Jump)); }
        Opcode::JumpC => { assert(spec_from_mnemonic(mnemonic(op)) == Some(Opcode::JumpC)); }
        Opcode::Push => { assert(spec_from_mnemonic(mnemonic(op)) == Some(Opcode::Push)); }
        Opcode::PushAddr => { assert(spec_from_mnemonic(mnemonic(op)) == Some(Opcode::PushAddr)); }
        Opcode::Pop => { assert(spec_from_mnemonic(mnemonic(op)) == Some(Opcode::Pop)); }
        Opcode::Label => { assert(spec_from_mnemonic(mnemonic(op)) == Some(Opcode::Label)); }
        Opcode::Nop => { assert(spec_from_mnemonic(mnemonic(op)) == Some(Opcode::Nop)); }
        Opcode::Sys => { assert(spec_from_mnemonic(mnemonic(op)) == Some(Opcode::Sys)); }
        Opcode::StackGet => { assert(spec_from_mnemonic(mnemonic(op)) == Some(Opcode::StackGet)); }
        Opcode::StackSet => { assert(spec_from_mnemonic(mnemonic(op)) == Some(Opcode::StackSet)); }
        Opcode::GetRegA => { assert(spec_from_mnemonic(mnemonic(op)) == Some(Opcode::GetRegA)); }
        Opcode::GetRegB => { assert(spec_from_mnemonic(mnemonic(op)) == Some(Opcode::GetRegB)); }
        Opcode::SetRegA => { assert(spec_from_mnemonic(mnemonic(op)) == Some(Opcode::SetRegA)); }
        Opcode::SetRegB => { assert(spec_from_mnemonic(mnemonic(op)) == Some(Opcode::SetRegB)); }
        Opcode::Load8 => { assert(spec_from_mnemonic(mnemonic(op)) == Some(Opcode::Load8)); }
        Opcode::Load8C => { assert(spec_from_mnemonic(mnemonic(op)) == Some(Opcode::Load8C)); }
        Opcode::Load16 => { assert(spec_from_mnemonic(mnemonic(op)) == Some(Opcode::Load16)); }
        Opcode::Load16C => { assert(spec_from_mnemonic(mnemonic(op)) == Some(Opcode::Load16C)); }
        Opcode::Store8 => { assert(spec_from_mnemonic(mnemonic(op)) == Some(Opcode::Store8)); }
        Opcode::Store8C => { assert(spec_from_mnemonic(mnemonic(op)) == Some(Opcode::Store8C)); }
        Opcode::Store16 => { assert(spec_from_mnemonic(mnemonic(op)) == Some(Opcode::Store16)); }
        Opcode::Store16C => { assert(spec_from_mnemonic(mnemonic(op)) == Some(Opcode::Store16C)); }
        Opcode::Eqz => { assert(spec_from_mnemonic(mnemonic(op)) == Some(Opcode::Eqz)); }
        Opcode::Eq => { assert(spec_from_mnemonic(mnemonic(op)) == Some(Opcode::Eq)); }
        Opcode::Ne => { assert(spec_from_mnemonic(mnemonic(op)) == Some(Opcode::Ne)); }
        Opcode::LtS => { assert(spec_from_mnemonic(mnemonic(op)) == Some(Opcode::LtS)); }
        Opcode::LtU => { assert(spec_from_mnemonic(mnemonic(op)) == Some(Opcode::LtU)); }
        Opcode::GtS => { assert(spec_from_mnemonic(mnemonic(op)) == Some(Opcode::GtS)); }
        Opcode::GtU => { assert(spec_from_mnemonic(mnemonic(op)) == Some(Opcode::GtU)); }
        Opcode::LeS => { assert(spec_from_mnemonic(mnemonic(op)) == Some(Opcode::LeS)); }
        Opcode::LeU => { assert(spec_from_mnemonic(mnemonic(op)) == Some(Opcode::LeU)); }
        Opcode::GeS => { assert(spec_from_mnemonic(mnemonic(op)) == Some(Opcode::GeS)); }
        Opcode::GeU => { assert(spec_from_mnemonic(mnemonic(op)) == Some(Opcode::GeU)); }
        Opcode::Add => { assert(spec_from_mnemonic(mnemonic(op)) == Some(Opcode::Add)); }
        Opcode::Sub => { assert(spec_from_mnemonic(mnemonic(op)) == Some(Opcode::Sub)); }
        Opcode::Mul => { assert(spec_from_mnemonic(mnemonic(op)) == Some(Opcode::Mul)); }
        Opcode::DivS => { assert(spec_from_mnemonic(mnemonic(op)) == Some(Opcode::DivS)); }
        Opcode::DivU => { assert(spec_from_mnemonic(mnemonic(op)) == Some(Opcode::DivU)); }
        Opcode::RemS => { assert(spec_from_mnemonic(mnemonic(op)) == Some(Opcode::RemS)); }
        Opcode::RemU => { assert(spec_from_mnemonic(mnemonic(op)) == Some(Opcode::RemU)); }
        Opcode::Pow => { assert(spec_from_mnemonic(mnemonic(op)) == Some(Opcode::Pow)); }
        Opcode::Abs => { assert(spec_from_mnemonic(mnemonic(op)) == Some(Opcode::Abs)); }
        Opcode::And => { assert(spec_from_mnemonic(mnemonic(op)) == Some(Opcode::And)); }
        Opcode::Or => { assert(spec_from_mnemonic(mnemonic(op)) == Some(Opcode::Or)); }
        Opcode::Xor => { assert(spec_from_mnemonic(mnemonic(op)) == Some(Opcode::Xor)); }
        Opcode::Shl => { assert(spec_from_mnemonic(mnemonic(op)) == Some(Opcode::Shl)); }
        Opcode::ShrS => { assert(spec_from_mnemonic(mnemonic(op)) == Some(Opcode::ShrS)); }
        Opcode::ShrU => { assert(spec_from_mnemonic(mnemonic(op)) == Some(Opcode::ShrU)); }
        Opcode::Rotl => { assert(spec_from_mnemonic(mnemonic(op)) == Some(Opcode::Rotl)); }
        Opcode::Rotr => { assert(spec_from_mnemonic(mnemonic(op)) == Some(Opcode::Rotr)); }
    }
}

} // verus!
