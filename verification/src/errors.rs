//! The error kinds surfaced by the assembler and the virtual machine.

use vstd::prelude::*;
use crate::strutil::dec_str;
use crate::strutil::usize_to_string;

verus! {

/// An error raised while assembling source text into an image.
#[derive(Debug, PartialEq, Eq)]
pub enum AsmError {
    /// A line that does not parse, with its 1-based line number.
    ParseError { line: usize, msg: String },
    /// A label or global name declared twice.
    DuplicateLabel { name: String },
    /// A label referenced but never defined.
    UnknownLabel { name: String },
    /// A module that could not be read.
    IoError { path: String },
    /// The emitted image grew past the 16-bit address space.
    ImageTooLarge,
}

/// The spec-level shape of an assembler error: the same variants over
/// character sequences, so that contracts can speak of errors without
/// building strings.
pub enum AsmErrV {
    Parse(nat),
    Dup(Seq<char>),
    Unknown(Seq<char>),
    Io(Seq<char>),
    TooLarge,
}

/// Whether an executable error value carries the given spec-level error.
pub open spec fn asm_err_is(e: AsmError, ev: AsmErrV) -> bool {
    match (e, ev) {
        (AsmError::ParseError { line, .. }, AsmErrV::Parse(l)) => line as nat == l,
        (AsmError::DuplicateLabel { name }, AsmErrV::Dup(n)) => name@ == n,
        (AsmError::UnknownLabel { name }, AsmErrV::Unknown(n)) => name@ == n,
        (AsmError::IoError { path }, AsmErrV::Io(p)) => path@ == p,
        (AsmError::ImageTooLarge, AsmErrV::TooLarge) => true,
        _ => false,
    }
}

/// The rendering of each assembler error as text.
pub open spec fn asm_error_message(e: AsmError) -> Seq<char> {
    match e {
        AsmError::ParseError { line, msg } => dec_str(line as nat) + ": "@ + msg@,
        AsmError::DuplicateLabel { name } => "'"@ + name@ + "' label already exist"@,
        AsmError::UnknownLabel { name } => "Unknown label '"@ + name@ + "'"@,
        AsmError::IoError { path } => "Failed to read "@ + path@,
        AsmError::ImageTooLarge => "Binary image exceeds the 16-bit address space"@,
    }
}

impl AsmError {
    /// Renders the error as a line of text for the host to show.
    pub fn message(&self) -> (r: String)
        ensures
            r@ == asm_error_message(*self),
    {
        match self {
            AsmError::ParseError { line, msg } => {
                let mut s = usize_to_string(*line);
                s.append(": ");
                s.append(msg.as_str());
                s
            },
            AsmError::DuplicateLabel { name } => {
                let mut s = String::from_str("'");
                s.append(name.as_str());
                s.append("' label already exist");
                s
            },
            AsmError::UnknownLabel { name } => {
                let mut s = String::from_str("Unknown label '");
                s.append(name.as_str());
                s.append("'");
                s
            },
            AsmError::IoError { path } => {
                let mut s = String::from_str("Failed to read ");
                s.append(path.as_str());
                s
            },
            AsmError::ImageTooLarge => {
                String::from_str("Binary image exceeds the 16-bit address space")
            },
        }
    }
}

/// An error raised while the virtual machine executes an image.
#[derive(Debug, Clone, Copy, PartialEq, Eq, Structural)]
pub enum VmError {
    /// A fetched byte that is no opcode.
    UnknownOpcode(u8),
    /// A push onto a full data stack.
    StackOverflow,
    /// A pop from an empty data stack.
    StackEmpty,
    /// A push onto a full call stack.
    CallStackOverflow,
    /// A pop from an empty call stack.
    CallStackEmpty,
    /// A `div_u`, `div_s`, `rem_u` or `rem_s` with divisor zero.
    DivisionByZero,
    /// A `stack.get` or `stack.set` whose offset points past the stack region.
    StackOffsetOutOfRange,
    /// A memory access outside the address space; impossible for the
    /// built-in 64 KiB memory, but a custom memory may surface it.
    MemoryFault,
    /// A binary image too large to leave room for the stack regions.
    ImageTooLarge,
}

/// The rendering of each machine error as text.
pub open spec fn vm_error_message(e: VmError) -> Seq<char> {
    match e {
        VmError::UnknownOpcode(b) => "Unknown opcode byte: "@ + dec_str(b as nat),
        VmError::StackOverflow => "Stack overflow"@,
        VmError::StackEmpty => "Stack is empty"@,
        VmError::CallStackOverflow => "Call stack overflow"@,
        VmError::CallStackEmpty => "Call stack is empty"@,
        VmError::DivisionByZero => "Division by zero"@,
        VmError::StackOffsetOutOfRange => "Stack offset out of range"@,
        VmError::MemoryFault => "Memory fault"@,
        VmError::ImageTooLarge => "Code size exceeding limit"@,
    }
}

impl VmError {
    /// Renders the error as a line of text for the host to show.
    pub fn message(&self) -> (r: String)
        ensures
            r@ == vm_error_message(*self),
    {
        match self {
            VmError::UnknownOpcode(b) => {
                let mut s = String::from_str("Unknown opcode byte: ");
                let t = usize_to_string(*b as usize);
                s.append(t.as_str());
                s
            },
            VmError::StackOverflow => String::from_str("Stack overflow"),
            VmError::StackEmpty => String::from_str("Stack is empty"),
            VmError::CallStackOverflow => String::from_str("Call stack overflow"),
            VmError::CallStackEmpty => String::from_str("Call stack is empty"),
            VmError::DivisionByZero => String::from_str("Division by zero"),
            VmError::StackOffsetOutOfRange => String::from_str("Stack offset out of range"),
            VmError::MemoryFault => String::from_str("Memory fault"),
            VmError::ImageTooLarge => String::from_str("Code size exceeding limit"),
        }
    }
}

} // verus!
