//! The virtual machine: instruction decoding, the register-window and
//! call-frame discipline, and the dispatch step.
//!
//! The whole transition relation is written down once as the spec function
//! [`spec_step`]; the executable [`VM::step`] is proved to follow it exactly,
//! including which error each malformed situation raises.  Operations whose
//! result depends on IEEE float arithmetic do not compute anything here:
//! `step` hands the operand bit patterns to the host as a [`HostOp`] request
//! and [`VM::resolve_host`] writes the host's answer back.

use vstd::prelude::*;

use crate::bytes::{le16_at, le32_at, read_u16_le, read_u32_le};
use crate::isa;
use crate::stack::Stack;
use crate::value::{f64_bits_are_zero, Data};

verus! {

/// One frame of control state: the instruction cursor, the caller register
/// that receives the return value, the absolute stack index of the frame's
/// register 0, and the declared argument count.
#[derive(Clone, Copy, Debug, PartialEq, Eq, Structural)]
pub struct Code {
    pub ip: usize,
    pub return_to: u8,
    pub offset: usize,
    pub argc: u8,
}

impl Code {
    /// Build a frame record.
    pub fn new(ip: usize, return_to: u8, offset: usize, argc: u8) -> (r: Code)
        ensures
            r == (Code { ip, return_to, offset, argc }),
    {
        Code { ip, return_to, offset, argc }
    }
}

/// The deterministic fatal errors of execution.
#[derive(Clone, Copy, Debug, PartialEq, Eq, Structural)]
pub enum VmError {
    /// The opcode byte is not in the catalogue.
    UnknownOpcode(u8),
    /// The cursor, a jump target, or an operand read left `[0, code.len()]`.
    IpOutOfRange,
    /// A register operand points outside the allocated stack.
    RegOutOfRange,
    /// An operand's tag is not what the instruction requires.
    TagMismatch,
    /// An integer or float division (or remainder) by zero.
    DivisionByZero,
    /// `PUSH` or `CALL` would move `top` past the stack capacity.
    StackOverflow,
    /// `POP` or `RETURN` would move `top` below `bottom`.
    StackUnderflow,
    /// A `SET` names a constant index past the pool.
    ConstantOutOfRange,
}

/// The binary operations of the instruction set.
#[derive(Clone, Copy, Debug, PartialEq, Eq, Structural)]
pub enum BinKind {
    Add,
    Sub,
    Mul,
    Div,
    Rem,
    Shl,
    Shr,
    Lt,
    Gt,
    Le,
    Ge,
    Eq,
    Ne,
}

/// The operand type of a binary operation.
#[derive(Clone, Copy, Debug, PartialEq, Eq, Structural)]
pub enum NumTy {
    I,
    U,
    F,
}

/// A request the machine hands to the host: an IEEE double computation on
/// the given bit patterns (or a conversion to or from one).
#[derive(Clone, Copy, Debug, PartialEq, Eq, Structural)]
pub enum HostOp {
    /// A float arithmetic or comparison operation on two bit patterns.
    /// `Shl`/`Shr` never occur here.
    Bin(BinKind, u64, u64),
    /// Convert a signed integer to a double; answer the bit pattern.
    FromI(i64),
    /// Convert an unsigned integer to a double; answer the bit pattern.
    FromU(u64),
    /// Convert the double with these bits to a signed integer.
    ToI(u64),
    /// Convert the double with these bits to an unsigned integer.
    ToU(u64),
}

/// What a successful step reports.
#[derive(Clone, Copy, Debug, PartialEq, Eq, Structural)]
pub enum Step {
    /// The instruction completed; execution goes on.
    Continue,
    /// `RETURN` popped the last frame: execution is over.
    Halt,
    /// The machine needs the host to compute this before it can go on;
    /// answer it through [`VM::resolve_host`].
    Host(HostOp),
}

/// A decoded instruction.  `Call` carries only its header; the argument
/// register bytes stay in the stream and are read by the call sequence.
#[derive(Clone, Copy, Debug, PartialEq, Eq, Structural)]
pub enum Instr {
    Return,
    Copy(u8, u8),
    Swap(u8, u8),
    SetConst(u8, u16),
    Push(u8),
    Pop(u8),
    Print(u8),
    Jif(u8, u32, u32),
    Jnif(u8, u32, u32),
    Ijif(u8, u32),
    Ijnif(u8, u32),
    Jmp(u32),
    Call(u8, u32, u8),
    Bin(BinKind, NumTy, u8, u8, u8),
    CastIU(u8, u8),
    CastIF(u8, u8),
    CastUI(u8, u8),
    CastUF(u8, u8),
    CastFI(u8, u8),
    CastFU(u8, u8),
}

/// Which `(operation, type)` pair a byte in the arithmetic and comparison
/// ranges stands for; `None` outside those ranges.
pub open spec fn spec_bin_of(b: u8) -> Option<(BinKind, NumTy)> {
    if b == isa::ADDI {
        Some((BinKind::Add, NumTy::I))
    } else if b == isa::ADDU {
        Some((BinKind::Add, NumTy::U))
    } else if b == isa::ADDF {
        Some((BinKind::Add, NumTy::F))
    } else if b == isa::SUBI {
        Some((BinKind::Sub, NumTy::I))
    } else if b == isa::SUBU {
        Some((BinKind::Sub, NumTy::U))
    } else if b == isa::SUBF {
        Some((BinKind::Sub, NumTy::F))
    } else if b == isa::MULI {
        Some((BinKind::Mul, NumTy::I))
    } else if b == isa::MULU {
        Some((BinKind::Mul, NumTy::U))
    } else if b == isa::MULF {
        Some((BinKind::Mul, NumTy::F))
    } else if b == isa::DIVI {
        Some((BinKind::Div, NumTy::I))
    } else if b == isa::DIVU {
        Some((BinKind::Div, NumTy::U))
    } else if b == isa::DIVF {
        Some((BinKind::Div, NumTy::F))
    } else if b == isa::REMI {
        Some((BinKind::Rem, NumTy::I))
    } else if b == isa::REMU {
        Some((BinKind::Rem, NumTy::U))
    } else if b == isa::REMF {
        Some((BinKind::Rem, NumTy::F))
    } else if b == isa::LSI {
        Some((BinKind::Shl, NumTy::I))
    } else if b == isa::LSU {
        Some((BinKind::Shl, NumTy::U))
    } else if b == isa::RSI {
        Some((BinKind::Shr, NumTy::I))
    } else if b == isa::RSU {
        Some((BinKind::Shr, NumTy::U))
    } else if b == isa::LTI {
        Some((BinKind::Lt, NumTy::I))
    } else if b == isa::LTU {
        Some((BinKind::Lt, NumTy::U))
    } else if b == isa::LTF {
        Some((BinKind::Lt, NumTy::F))
    } else if b == isa::GTI {
        Some((BinKind::Gt, NumTy::I))
    } else if b == isa::GTU {
        Some((BinKind::Gt, NumTy::U))
    } else if b == isa::GTF {
        Some((BinKind::Gt, NumTy::F))
    } else if b == isa::LEI {
        Some((BinKind::Le, NumTy::I))
    } else if b == isa::LEU {
        Some((BinKind::Le, NumTy::U))
    } else if b == isa::LEF {
        Some((BinKind::Le, NumTy::F))
    } else if b == isa::GEI {
        Some((BinKind::Ge, NumTy::I))
    } else if b == isa::GEU {
        Some((BinKind::Ge, NumTy::U))
    } else if b == isa::GEF {
        Some((BinKind::Ge, NumTy::F))
    } else if b == isa::EQI {
        Some((BinKind::Eq, NumTy::I))
    } else if b == isa::EQU {
        Some((BinKind::Eq, NumTy::U))
    } else if b == isa::EQF {
        Some((BinKind::Eq, NumTy::F))
    } else if b == isa::NEI {
        Some((BinKind::Ne, NumTy::I))
    } else if b == isa::NEU {
        Some((BinKind::Ne, NumTy::U))
    } else if b == isa::NEF {
        Some((BinKind::Ne, NumTy::F))
    } else {
        None
    }
}

fn bin_of(b: u8) -> (r: Option<(BinKind, NumTy)>)
    ensures
        r == spec_bin_of(b),
{
    if b == isa::ADDI {
        Some((BinKind::Add, NumTy::I))
    } else if b == isa::ADDU {
        Some((BinKind::Add, NumTy::U))
    } else if b == isa::ADDF {
        Some((BinKind::Add, NumTy::F))
    } else if b == isa::SUBI {
        Some((BinKind::Sub, NumTy::I))
    } else if b == isa::SUBU {
        Some((BinKind::Sub, NumTy::U))
    } else if b == isa::SUBF {
        Some((BinKind::Sub, NumTy::F))
    } else if b == isa::MULI {
        Some((BinKind::Mul, NumTy::I))
    } else if b == isa::MULU {
        Some((BinKind::Mul, NumTy::U))
    } else if b == isa::MULF {
        Some((BinKind::Mul, NumTy::F))
    } else if b == isa::DIVI {
        Some((BinKind::Div, NumTy::I))
    } else if b == isa::DIVU {
        Some((BinKind::Div, NumTy::U))
    } else if b == isa::DIVF {
        Some((BinKind::Div, NumTy::F))
    } else if b == isa::REMI {
        Some((BinKind::Rem, NumTy::I))
    } else if b == isa::REMU {
        Some((BinKind::Rem, NumTy::U))
    } else if b == isa::REMF {
        Some((BinKind::Rem, NumTy::F))
    } else if b == isa::LSI {
        Some((BinKind::Shl, NumTy::I))
    } else if b == isa::LSU {
        Some((BinKind::Shl, NumTy::U))
    } else if b == isa::RSI {
        Some((BinKind::Shr, NumTy::I))
    } else if b == isa::RSU {
        Some((BinKind::Shr, NumTy::U))
    } else if b == isa::LTI {
        Some((BinKind::Lt, NumTy::I))
    } else if b == isa::LTU {
        Some((BinKind::Lt, NumTy::U))
    } else if b == isa::LTF {
        Some((BinKind::Lt, NumTy::F))
    } else if b == isa::GTI {
        Some((BinKind::Gt, NumTy::I))
    } else if b == isa::GTU {
        Some((BinKind::Gt, NumTy::U))
    } else if b == isa::GTF {
        Some((BinKind::Gt, NumTy::F))
    } else if b == isa::LEI {
        Some((BinKind::Le, NumTy::I))
    } else if b == isa::LEU {
        Some((BinKind::Le, NumTy::U))
    } else if b == isa::LEF {
        Some((BinKind::Le, NumTy::F))
    } else if b == isa::GEI {
        Some((BinKind::Ge, NumTy::I))
    } else if b == isa::GEU {
        Some((BinKind::Ge, NumTy::U))
    } else if b == isa::GEF {
        Some((BinKind::Ge, NumTy::F))
    } else if b == isa::EQI {
        Some((BinKind::Eq, NumTy::I))
    } else if b == isa::EQU {
        Some((BinKind::Eq, NumTy::U))
    } else if b == isa::EQF {
        Some((BinKind::Eq, NumTy::F))
    } else if b == isa::NEI {
        Some((BinKind::Ne, NumTy::I))
    } else if b == isa::NEU {
        Some((BinKind::Ne, NumTy::U))
    } else if b == isa::NEF {
        Some((BinKind::Ne, NumTy::F))
    } else {
        None
    }
}

/// Decode the instruction at `ip`.  Fails with `UnknownOpcode` on a byte
/// outside the catalogue and with `IpOutOfRange` when the stream ends inside
/// the instruction.  On success the second component is the cursor position
/// after the instruction, argument bytes of a call included.
pub open spec fn spec_decode(code: Seq<u8>, ip: int) -> Result<(Instr, int), VmError> {
    if ip + 1 > code.len() {
        Err(VmError::IpOutOfRange)
    } else {
        let b = code[ip];
        if b == isa::RETURN {
            Ok((Instr::Return, ip + 1))
        } else if b == isa::COPY {
            if ip + 3 <= code.len() {
                Ok((Instr::Copy(code[ip + 1], code[ip + 2]), ip + 3))
            } else {
                Err(VmError::IpOutOfRange)
            }
        } else if b == isa::SWAP {
            if ip + 3 <= code.len() {
                Ok((Instr::Swap(code[ip + 1], code[ip + 2]), ip + 3))
            } else {
                Err(VmError::IpOutOfRange)
            }
        } else if b == isa::SET {
            if ip + 4 <= code.len() {
                Ok((Instr::SetConst(code[ip + 1], le16_at(code, ip + 2) as u16), ip + 4))
            } else {
                Err(VmError::IpOutOfRange)
            }
        } else if b == isa::PUSH {
            if ip + 2 <= code.len() {
                Ok((Instr::Push(code[ip + 1]), ip + 2))
            } else {
                Err(VmError::IpOutOfRange)
            }
        } else if b == isa::POP {
            if ip + 2 <= code.len() {
                Ok((Instr::Pop(code[ip + 1]), ip + 2))
            } else {
                Err(VmError::IpOutOfRange)
            }
        } else if b == isa::PRINT {
            if ip + 2 <= code.len() {
                Ok((Instr::Print(code[ip + 1]), ip + 2))
            } else {
                Err(VmError::IpOutOfRange)
            }
        } else if b == isa::JIF {
            if ip + 10 <= code.len() {
                Ok(
                    (
                        Instr::Jif(
                            code[ip + 1],
                            le32_at(code, ip + 2) as u32,
                            le32_at(code, ip + 6) as u32,
                        ),
                        ip + 10,
                    ),
                )
            } else {
                Err(VmError::IpOutOfRange)
            }
        } else if b == isa::JNIF {
            if ip + 10 <= code.len() {
                Ok(
                    (
                        Instr::Jnif(
                            code[ip + 1],
                            le32_at(code, ip + 2) as u32,
                            le32_at(code, ip + 6) as u32,
                        ),
                        ip + 10,
                    ),
                )
            } else {
                Err(VmError::IpOutOfRange)
            }
        } else if b == isa::IJIF {
            if ip + 6 <= code.len() {
                Ok((Instr::Ijif(code[ip + 1], le32_at(code, ip + 2) as u32), ip + 6))
            } else {
                Err(VmError::IpOutOfRange)
            }
        } else if b == isa::IJNIF {
            if ip + 6 <= code.len() {
                Ok((Instr::Ijnif(code[ip + 1], le32_at(code, ip + 2) as u32), ip + 6))
            } else {
                Err(VmError::IpOutOfRange)
            }
        } else if b == isa::JMP {
            if ip + 5 <= code.len() {
                Ok((Instr::Jmp(le32_at(code, ip + 1) as u32), ip + 5))
            } else {
                Err(VmError::IpOutOfRange)
            }
        } else if b == isa::CALL {
            if ip + 7 <= code.len() {
                let argc = code[ip + 6];
                if ip + 7 + argc <= code.len() {
                    Ok(
                        (
                            Instr::Call(code[ip + 1], le32_at(code, ip + 2) as u32, argc),
                            ip + 7 + argc,
                        ),
                    )
                } else {
                    Err(VmError::IpOutOfRange)
                }
            } else {
                Err(VmError::IpOutOfRange)
            }
        } else if b == isa::CASTIU {
            if ip + 3 <= code.len() {
                Ok((Instr::CastIU(code[ip + 1], code[ip + 2]), ip + 3))
            } else {
                Err(VmError::IpOutOfRange)
            }
        } else if b == isa::CASTIF {
            if ip + 3 <= code.len() {
                Ok((Instr::CastIF(code[ip + 1], code[ip + 2]), ip + 3))
            } else {
                Err(VmError::IpOutOfRange)
            }
        } else if b == isa::CASTUI {
            if ip + 3 <= code.len() {
                Ok((Instr::CastUI(code[ip + 1], code[ip + 2]), ip + 3))
            } else {
                Err(VmError::IpOutOfRange)
            }
        } else if b == isa::CASTUF {
            if ip + 3 <= code.len() {
                Ok((Instr::CastUF(code[ip + 1], code[ip + 2]), ip + 3))
            } else {
                Err(VmError::IpOutOfRange)
            }
        } else if b == isa::CASTFI {
            if ip + 3 <= code.len() {
                Ok((Instr::CastFI(code[ip + 1], code[ip + 2]), ip + 3))
            } else {
                Err(VmError::IpOutOfRange)
            }
        } else if b == isa::CASTFU {
            if ip + 3 <= code.len() {
                Ok((Instr::CastFU(code[ip + 1], code[ip + 2]), ip + 3))
            } else {
                Err(VmError::IpOutOfRange)
            }
        } else {
            match spec_bin_of(b) {
                Some((kind, ty)) => if ip + 4 <= code.len() {
                    Ok((Instr::Bin(kind, ty, code[ip + 1], code[ip + 2], code[ip + 3]), ip + 4))
                } else {
                    Err(VmError::IpOutOfRange)
                },
                None => Err(VmError::UnknownOpcode(b)),
            }
        }
    }
}

/// Executable decoder; it follows [`spec_decode`] exactly.
#[verifier::rlimit(40)]
fn decode(code: &Vec<u8>, ip: usize) -> (r: Result<(Instr, usize), VmError>)
    requires
        ip <= code.len(),
    ensures
        match r {
            Ok((instr, next)) => spec_decode(code@, ip as int) == Ok::<(Instr, int), VmError>(
                (instr, next as int),
            ) && ip < next <= code.len(),
            Err(e) => spec_decode(code@, ip as int) == Err::<(Instr, int), VmError>(e),
        },
{
    let rem = code.len() - ip;
    if rem < 1 {
        return Err(VmError::IpOutOfRange);
    }
    let b = code[ip];
    if b == isa::RETURN {
        Ok((Instr::Return, ip + 1))
    } else if b == isa::COPY || b == isa::SWAP || (isa::CASTIU <= b && b <= isa::CASTFU) {
        if rem >= 3 {
            let x = code[ip + 1];
            let y = code[ip + 2];
            let instr = if b == isa::COPY {
                Instr::Copy(x, y)
            } else if b == isa::SWAP {
                Instr::Swap(x, y)
            } else if b == isa::CASTIU {
                Instr::CastIU(x, y)
            } else if b == isa::CASTIF {
                Instr::CastIF(x, y)
            } else if b == isa::CASTUI {
                Instr::CastUI(x, y)
            } else if b == isa::CASTUF {
                Instr::CastUF(x, y)
            } else if b == isa::CASTFI {
                Instr::CastFI(x, y)
            } else {
                Instr::CastFU(x, y)
            };
            Ok((instr, ip + 3))
        } else {
            Err(VmError::IpOutOfRange)
        }
    } else if b == isa::SET {
        if rem >= 4 {
            Ok((Instr::SetConst(code[ip + 1], read_u16_le(code, ip + 2)), ip + 4))
        } else {
            Err(VmError::IpOutOfRange)
        }
    } else if b == isa::PUSH || b == isa::POP || b == isa::PRINT {
        if rem >= 2 {
            let x = code[ip + 1];
            let instr = if b == isa::PUSH {
                Instr::Push(x)
            } else if b == isa::POP {
                Instr::Pop(x)
            } else {
                Instr::Print(x)
            };
            Ok((instr, ip + 2))
        } else {
            Err(VmError::IpOutOfRange)
        }
    } else if b == isa::JIF || b == isa::JNIF {
        if rem >= 10 {
            let c = code[ip + 1];
            let yes = read_u32_le(code, ip + 2);
            let no = read_u32_le(code, ip + 6);
            let instr = if b == isa::JIF {
                Instr::Jif(c, yes, no)
            } else {
                Instr::Jnif(c, yes, no)
            };
            Ok((instr, ip + 10))
        } else {
            Err(VmError::IpOutOfRange)
        }
    } else if b == isa::IJIF || b == isa::IJNIF {
        if rem >= 6 {
            let c = code[ip + 1];
            let yes = read_u32_le(code, ip + 2);
            let instr = if b == isa::IJIF {
                Instr::Ijif(c, yes)
            } else {
                Instr::Ijnif(c, yes)
            };
            Ok((instr, ip + 6))
        } else {
            Err(VmError::IpOutOfRange)
        }
    } else if b == isa::JMP {
        if rem >= 5 {
            Ok((Instr::Jmp(read_u32_le(code, ip + 1)), ip + 5))
        } else {
            Err(VmError::IpOutOfRange)
        }
    } else if b == isa::CALL {
        if rem >= 7 {
            let argc = code[ip + 6];
            if rem - 7 >= argc as usize {
                Ok((Instr::Call(code[ip + 1], read_u32_le(code, ip + 2), argc), ip + 7
                    + argc as usize))
            } else {
                Err(VmError::IpOutOfRange)
            }
        } else {
            Err(VmError::IpOutOfRange)
        }
    } else {
        match bin_of(b) {
            Some((kind, ty)) => {
                if rem >= 4 {
                    Ok((Instr::Bin(kind, ty, code[ip + 1], code[ip + 2], code[ip + 3]), ip + 4))
                } else {
                    Err(VmError::IpOutOfRange)
                }
            },
            None => Err(VmError::UnknownOpcode(b)),
        }
    }
}

/// The machine: the value stack, the saved frames, the active frame, the
/// constant pool, the bytecode, everything `PRINT` has emitted so far, and
/// the float request (if any) the host still owes an answer to.
#[derive(Debug)]
pub struct VM {
    pub stack: Stack,
    pub callstack: Vec<Code>,
    pub current: Code,
    pub constants: Vec<Data>,
    pub code: Vec<u8>,
    pub output: Vec<Data>,
    pub pending: Option<(u8, HostOp)>,
}

/// The machine, as the specification sees it: every mutable and immutable
/// component as a mathematical value.  The stack sequence's length is the
/// allocated capacity.
#[verifier::ext_equal]
pub ghost struct MachineState {
    pub stack: Seq<Data>,
    pub bottom: int,
    pub top: int,
    pub frames: Seq<Code>,
    pub current: Code,
    pub constants: Seq<Data>,
    pub code: Seq<u8>,
    pub output: Seq<Data>,
    pub pending: Option<(u8, HostOp)>,
}

impl View for VM {
    type V = MachineState;

    open spec fn view(&self) -> MachineState {
        MachineState {
            stack: self.stack.values@,
            bottom: self.stack.bottom as int,
            top: self.stack.top as int,
            frames: self.callstack@,
            current: self.current,
            constants: self.constants@,
            code: self.code@,
            output: self.output@,
            pending: self.pending,
        }
    }
}

/// Either the post-state of a successful step with its reported event, or
/// the error of a failing one.
pub ghost enum StepSpec {
    Next(MachineState, Step),
    Fail(VmError),
}

impl VM {
    /// Well-formedness: the window is inside the stack, `bottom` is the
    /// active frame's register base, every saved cursor is inside the code,
    /// and the saved frame bases never descend.
    pub open spec fn wf(&self) -> bool {
        &&& self.stack.wf()
        &&& self.stack.bottom == self.current.offset
        &&& self.current.ip <= self.code@.len()
        &&& forall|i: int|
            0 <= i < self.callstack@.len() ==> {
                &&& (#[trigger] self.callstack@[i]).ip <= self.code@.len()
                &&& self.callstack@[i].offset <= (if i + 1 < self.callstack@.len() {
                    self.callstack@[i + 1].offset as int
                } else {
                    self.current.offset as int
                })
            }
    }

    /// A fresh machine over a loaded module: `cap` stack slots, all
    /// uninitialized, the cursor at offset 0, and an empty call stack.
    pub fn new(constants: Vec<Data>, code: Vec<u8>, cap: usize) -> (r: VM)
        requires
            cap >= 1,
        ensures
            r.wf(),
            r.constants@ == constants@,
            r.code@ == code@,
            r.stack.values@.len() == cap,
            r.stack.bottom == 0,
            r.stack.top == 0,
            forall|i: int| 0 <= i < cap ==> r.stack.values@[i] == Data::Uninit,
            r.callstack@.len() == 0,
            r.current == (Code { ip: 0, return_to: 0, offset: 0, argc: 0 }),
            r.output@.len() == 0,
            r.pending is None,
    {
        VM {
            stack: Stack::with_capacity(cap),
            callstack: Vec::new(),
            current: Code::new(0, 0, 0, 0),
            constants,
            code,
            output: Vec::new(),
            pending: None,
        }
    }
}

/// Register `r` names an allocated slot.  The window marks what a frame
/// has claimed, but access is bounded by the allocation alone, as the
/// machine's release discipline has it: slots past `top` read whatever
/// they hold and must be written before they mean anything.
pub open spec fn reg_ok(m: MachineState, r: u8) -> bool {
    m.bottom + r < m.stack.len()
}

/// The value of register `r`.
pub open spec fn regv(m: MachineState, r: u8) -> Data {
    m.stack[m.bottom + r]
}

/// The active frame with its cursor moved to `next`.
pub open spec fn advanced(m: MachineState, next: int) -> Code {
    Code { ip: next as usize, ..m.current }
}

/// `RETURN`: with no saved frame, halt.  Otherwise write the callee's
/// register 0 into the caller's `return_to` register, restore the caller's
/// window base, release `argc` slots, and resume at the saved cursor.
pub open spec fn spec_exec_return(m: MachineState) -> StepSpec {
    if m.frames.len() == 0 {
        StepSpec::Next(m, Step::Halt)
    } else {
        let fr = m.frames.last();
        let ret = m.stack[m.bottom as int];
        let rt = m.current.return_to;
        let argc = m.current.argc;
        if fr.offset + rt >= m.stack.len() {
            StepSpec::Fail(VmError::RegOutOfRange)
        } else if m.top - argc < fr.offset {
            StepSpec::Fail(VmError::StackUnderflow)
        } else {
            StepSpec::Next(
                MachineState {
                    stack: m.stack.update(fr.offset + rt, ret),
                    bottom: fr.offset as int,
                    top: m.top - argc,
                    frames: m.frames.drop_last(),
                    current: fr,
                    ..m
                }, Step::Continue)
        }
    }
}

/// `COPY dst src`.
pub open spec fn spec_exec_copy(m: MachineState, dst: u8, src: u8, next: int) -> StepSpec {
    if !reg_ok(m, src) {
        StepSpec::Fail(VmError::RegOutOfRange)
    } else if !reg_ok(m, dst) {
        StepSpec::Fail(VmError::RegOutOfRange)
    } else {
        StepSpec::Next(
            MachineState {
                stack: m.stack.update(m.bottom + dst, regv(m, src)),
                current: advanced(m, next),
                ..m
            }, Step::Continue)
    }
}

/// `SWAP a b`.
pub open spec fn spec_exec_swap(m: MachineState, a: u8, b: u8, next: int) -> StepSpec {
    if !reg_ok(m, a) {
        StepSpec::Fail(VmError::RegOutOfRange)
    } else if !reg_ok(m, b) {
        StepSpec::Fail(VmError::RegOutOfRange)
    } else {
        StepSpec::Next(
            MachineState {
                stack: m.stack.update(m.bottom + a, regv(m, b)).update(
                    m.bottom + b,
                    regv(m, a),
                ),
                current: advanced(m, next),
                ..m
            }, Step::Continue)
    }
}

/// `SET dst ki`: load constant `ki` into `dst`.
pub open spec fn spec_exec_set(m: MachineState, dst: u8, ki: u16, next: int) -> StepSpec {
    if ki >= m.constants.len() {
        StepSpec::Fail(VmError::ConstantOutOfRange)
    } else if !reg_ok(m, dst) {
        StepSpec::Fail(VmError::RegOutOfRange)
    } else {
        StepSpec::Next(
            MachineState {
                stack: m.stack.update(m.bottom + dst, m.constants[ki as int]),
                current: advanced(m, next),
                ..m
            }, Step::Continue)
    }
}

/// `PUSH n`.
pub open spec fn spec_exec_push(m: MachineState, n: u8, next: int) -> StepSpec {
    if m.top + n >= m.stack.len() {
        StepSpec::Fail(VmError::StackOverflow)
    } else {
        StepSpec::Next(
            MachineState { top: m.top + n, current: advanced(m, next), ..m }, Step::Continue)
    }
}

/// `POP n`.
pub open spec fn spec_exec_pop(m: MachineState, n: u8, next: int) -> StepSpec {
    if m.top - n < m.bottom {
        StepSpec::Fail(VmError::StackUnderflow)
    } else {
        StepSpec::Next(
            MachineState { top: m.top - n, current: advanced(m, next), ..m }, Step::Continue)
    }
}

/// `PRINT r`: append the register's value to the output stream.
pub open spec fn spec_exec_print(m: MachineState, r: u8, next: int) -> StepSpec {
    if !reg_ok(m, r) {
        StepSpec::Fail(VmError::RegOutOfRange)
    } else {
        StepSpec::Next(
            MachineState {
                output: m.output.push(regv(m, r)),
                current: advanced(m, next),
                ..m
            }, Step::Continue)
    }
}

/// `JMP target`.
pub open spec fn spec_exec_jmp(m: MachineState, target: u32) -> StepSpec {
    if target > m.code.len() {
        StepSpec::Fail(VmError::IpOutOfRange)
    } else {
        StepSpec::Next(
            MachineState { current: Code { ip: target as usize, ..m.current }, ..m }, Step::Continue)
    }
}

/// The two-target conditional jumps; `invert` distinguishes `JNIF` from
/// `JIF`.  The condition register must hold a boolean; only the taken
/// target is range-checked, as only it becomes the cursor.
pub open spec fn spec_exec_jif(m: MachineState, invert: bool, c: u8, yes: u32, no: u32) -> StepSpec {
    if !reg_ok(m, c) {
        StepSpec::Fail(VmError::RegOutOfRange)
    } else {
        match regv(m, c) {
            Data::Bool(v) => {
                let taken = if v != invert {
                    yes
                } else {
                    no
                };
                if taken > m.code.len() {
                    StepSpec::Fail(VmError::IpOutOfRange)
                } else {
                    StepSpec::Next(
                        MachineState {
                            current: Code { ip: taken as usize, ..m.current },
                            ..m
                        }, Step::Continue)
                }
            },
            _ => StepSpec::Fail(VmError::TagMismatch),
        }
    }
}

/// The one-target conditional jumps (`IJIF`, `IJNIF`): jump when the
/// condition (inverted for `IJNIF`) holds, fall through otherwise.
pub open spec fn spec_exec_ijif(m: MachineState, invert: bool, c: u8, yes: u32, next: int) -> StepSpec {
    if !reg_ok(m, c) {
        StepSpec::Fail(VmError::RegOutOfRange)
    } else {
        match regv(m, c) {
            Data::Bool(v) => {
                if v != invert {
                    if yes > m.code.len() {
                        StepSpec::Fail(VmError::IpOutOfRange)
                    } else {
                        StepSpec::Next(
                            MachineState {
                                current: Code { ip: yes as usize, ..m.current },
                                ..m
                            }, Step::Continue)
                    }
                } else {
                    StepSpec::Next(MachineState { current: advanced(m, next), ..m }, Step::Continue)
                }
            },
            _ => StepSpec::Fail(VmError::TagMismatch),
        }
    }
}

/// The byte naming the `k`-th argument register of a call whose operand
/// bytes end at `next`.
pub open spec fn call_arg_reg(code: Seq<u8>, next: int, argc: u8, k: int) -> u8 {
    code[next - argc + k]
}

/// The stack after the first `k` argument values have been staged into the
/// callee's registers `1..=k`.  Every value is read from the caller's
/// original window, so an argument register that names a slot being written
/// still hands over the pre-call value.
pub open spec fn call_args_written(m: MachineState, next: int, argc: u8, k: int) -> Seq<Data>
    decreases k,
{
    if k <= 0 {
        m.stack
    } else {
        call_args_written(m, next, argc, k - 1).update(
            m.top + k,
            m.stack[m.bottom + call_arg_reg(m.code, next, argc, k - 1)],
        )
    }
}

/// `CALL dst target argc …`: reserve `argc + 1` slots, stage the argument
/// values, save the caller's frame, and enter the callee with its register 0
/// at the old `top`.
pub open spec fn spec_exec_call(m: MachineState, dst: u8, target: u32, argc: u8, next: int) -> StepSpec {
    if m.top + argc + 1 >= m.stack.len() {
        StepSpec::Fail(VmError::StackOverflow)
    } else if exists|k: int|
        0 <= k < argc && m.bottom + call_arg_reg(m.code, next, argc, k) >= m.stack.len() {
        StepSpec::Fail(VmError::RegOutOfRange)
    } else if target > m.code.len() {
        StepSpec::Fail(VmError::IpOutOfRange)
    } else {
        StepSpec::Next(
            MachineState {
                stack: call_args_written(m, next, argc, argc as int),
                bottom: m.top as int,
                top: m.top + argc + 1,
                frames: m.frames.push(advanced(m, next)),
                current: Code {
                    ip: target as usize,
                    return_to: dst,
                    offset: m.top as usize,
                    argc,
                },
                ..m
            }, Step::Continue)
    }
}

/// A comparison, as opposed to an arithmetic operation.
pub open spec fn bin_is_cmp(kind: BinKind) -> bool {
    kind is Lt || kind is Gt || kind is Le || kind is Ge || kind is Eq || kind is Ne
}

/// The result of an integer binary operation on two `i64` payloads, or the
/// error it raises.  Arithmetic wraps; division and remainder fail on a zero
/// divisor, and the one overflowing division (`i64::MIN / -1`) wraps too.
pub open spec fn spec_bin_i(kind: BinKind, a: i64, b: i64) -> Result<Data, VmError> {
    match kind {
        BinKind::Add => Ok(Data::I64(vstd::wrapping::i64_specs::wrapping_add(a, b))),
        BinKind::Sub => Ok(Data::I64(vstd::wrapping::i64_specs::wrapping_sub(a, b))),
        BinKind::Mul => Ok(Data::I64(vstd::wrapping::i64_specs::wrapping_mul(a, b))),
        BinKind::Div => if b == 0 {
            Err(VmError::DivisionByZero)
        } else {
            Ok(
                Data::I64(
                    match a.checked_div(b) {
                        Some(v) => v,
                        None => i64::MIN,
                    },
                ),
            )
        },
        BinKind::Rem => if b == 0 {
            Err(VmError::DivisionByZero)
        } else {
            Ok(
                Data::I64(
                    match a.checked_rem(b) {
                        Some(v) => v,
                        None => 0,
                    },
                ),
            )
        },
        BinKind::Shl => Ok(Data::I64(vstd::wrapping::i64_specs::wrapping_shl(a, b as u32))),
        BinKind::Shr => Ok(Data::I64(vstd::wrapping::i64_specs::wrapping_shr(a, b as u32))),
        BinKind::Lt => Ok(Data::Bool(a < b)),
        BinKind::Gt => Ok(Data::Bool(a > b)),
        BinKind::Le => Ok(Data::Bool(a <= b)),
        BinKind::Ge => Ok(Data::Bool(a >= b)),
        BinKind::Eq => Ok(Data::Bool(a == b)),
        BinKind::Ne => Ok(Data::Bool(a != b)),
    }
}

/// The result of an unsigned binary operation on two `u64` payloads, or the
/// error it raises.
pub open spec fn spec_bin_u(kind: BinKind, a: u64, b: u64) -> Result<Data, VmError> {
    match kind {
        BinKind::Add => Ok(Data::U64(vstd::wrapping::u64_specs::wrapping_add(a, b))),
        BinKind::Sub => Ok(Data::U64(vstd::wrapping::u64_specs::wrapping_sub(a, b))),
        BinKind::Mul => Ok(Data::U64(vstd::wrapping::u64_specs::wrapping_mul(a, b))),
        BinKind::Div => if b == 0 {
            Err(VmError::DivisionByZero)
        } else {
            Ok(Data::U64((a / b) as u64))
        },
        BinKind::Rem => if b == 0 {
            Err(VmError::DivisionByZero)
        } else {
            Ok(Data::U64((a % b) as u64))
        },
        BinKind::Shl => Ok(Data::U64(vstd::wrapping::u64_specs::wrapping_shl(a, b as u32))),
        BinKind::Shr => Ok(Data::U64(vstd::wrapping::u64_specs::wrapping_shr(a, b as u32))),
        BinKind::Lt => Ok(Data::Bool(a < b)),
        BinKind::Gt => Ok(Data::Bool(a > b)),
        BinKind::Le => Ok(Data::Bool(a <= b)),
        BinKind::Ge => Ok(Data::Bool(a >= b)),
        BinKind::Eq => Ok(Data::Bool(a == b)),
        BinKind::Ne => Ok(Data::Bool(a != b)),
    }
}

/// A typed binary instruction.  Integer and unsigned operations complete
/// here; float operations check tags and the float-zero divisor, then defer
/// the value computation to the host.
pub open spec fn spec_exec_bin(
    m: MachineState,
    kind: BinKind,
    ty: NumTy,
    dst: u8,
    lhs: u8,
    rhs: u8,
    next: int,
) -> StepSpec {
    if !reg_ok(m, lhs) {
        StepSpec::Fail(VmError::RegOutOfRange)
    } else if !reg_ok(m, rhs) {
        StepSpec::Fail(VmError::RegOutOfRange)
    } else {
        let lv = regv(m, lhs);
        let rv = regv(m, rhs);
        match ty {
            NumTy::I => {
                if !(lv is I64 && rv is I64) {
                    StepSpec::Fail(VmError::TagMismatch)
                } else if !reg_ok(m, dst) {
                    StepSpec::Fail(VmError::RegOutOfRange)
                } else {
                    match spec_bin_i(kind, lv->I64_0, rv->I64_0) {
                        Ok(res) => StepSpec::Next(
                            MachineState {
                                stack: m.stack.update(m.bottom + dst, res),
                                current: advanced(m, next),
                                ..m
                            }, Step::Continue),
                        Err(e) => StepSpec::Fail(e),
                    }
                }
            },
            NumTy::U => {
                if !(lv is U64 && rv is U64) {
                    StepSpec::Fail(VmError::TagMismatch)
                } else if !reg_ok(m, dst) {
                    StepSpec::Fail(VmError::RegOutOfRange)
                } else {
                    match spec_bin_u(kind, lv->U64_0, rv->U64_0) {
                        Ok(res) => StepSpec::Next(
                            MachineState {
                                stack: m.stack.update(m.bottom + dst, res),
                                current: advanced(m, next),
                                ..m
                            }, Step::Continue),
                        Err(e) => StepSpec::Fail(e),
                    }
                }
            },
            NumTy::F => {
                if !(lv is F64 && rv is F64) {
                    StepSpec::Fail(VmError::TagMismatch)
                } else if !reg_ok(m, dst) {
                    StepSpec::Fail(VmError::RegOutOfRange)
                } else if kind is Div && f64_bits_are_zero(rv->F64_0) {
                    StepSpec::Fail(VmError::DivisionByZero)
                } else {
                    let op = HostOp::Bin(kind, lv->F64_0, rv->F64_0);
                    StepSpec::Next(
                        MachineState {
                            current: advanced(m, next),
                            pending: Some((dst, op)),                            ..m
                        }, Step::Host(op))
                }
            },
        }
    }
}

/// A two-register cast.  The integer-to-integer casts reinterpret the
/// payload; the four involving a double defer to the host.
pub open spec fn spec_exec_cast(m: MachineState, instr: Instr, dst: u8, src: u8, next: int) -> StepSpec {
    if !reg_ok(m, src) {
        StepSpec::Fail(VmError::RegOutOfRange)
    } else if !reg_ok(m, dst) {
        StepSpec::Fail(VmError::RegOutOfRange)
    } else {
        let v = regv(m, src);
        match instr {
            Instr::CastIU(_, _) => match v {
                Data::I64(a) => StepSpec::Next(
                    MachineState {
                        stack: m.stack.update(m.bottom + dst, Data::U64(a as u64)),
                        current: advanced(m, next),
                        ..m
                    }, Step::Continue),
                _ => StepSpec::Fail(VmError::TagMismatch),
            },
            Instr::CastUI(_, _) => match v {
                Data::U64(a) => StepSpec::Next(
                    MachineState {
                        stack: m.stack.update(m.bottom + dst, Data::I64(a as i64)),
                        current: advanced(m, next),
                        ..m
                    }, Step::Continue),
                _ => StepSpec::Fail(VmError::TagMismatch),
            },
            Instr::CastIF(_, _) => match v {
                Data::I64(a) => {
                    let op = HostOp::FromI(a);
                    StepSpec::Next(
                        MachineState {
                            current: advanced(m, next),
                            pending: Some((dst, op)),                            ..m
                        }, Step::Host(op))
                },
                _ => StepSpec::Fail(VmError::TagMismatch),
            },
            Instr::CastUF(_, _) => match v {
                Data::U64(a) => {
                    let op = HostOp::FromU(a);
                    StepSpec::Next(
                        MachineState {
                            current: advanced(m, next),
                            pending: Some((dst, op)),                            ..m
                        }, Step::Host(op))
                },
                _ => StepSpec::Fail(VmError::TagMismatch),
            },
            Instr::CastFI(_, _) => match v {
                Data::F64(a) => {
                    let op = HostOp::ToI(a);
                    StepSpec::Next(
                        MachineState {
                            current: advanced(m, next),
                            pending: Some((dst, op)),                            ..m
                        }, Step::Host(op))
                },
                _ => StepSpec::Fail(VmError::TagMismatch),
            },
            Instr::CastFU(_, _) => match v {
                Data::F64(a) => {
                    let op = HostOp::ToU(a);
                    StepSpec::Next(
                        MachineState {
                            current: advanced(m, next),
                            pending: Some((dst, op)),                            ..m
                        }, Step::Host(op))
                },
                _ => StepSpec::Fail(VmError::TagMismatch),
            },
            _ => StepSpec::Fail(VmError::TagMismatch),
        }
    }
}

/// Execute one decoded instruction.
pub open spec fn spec_exec(m: MachineState, instr: Instr, next: int) -> StepSpec {
    match instr {
        Instr::Return => spec_exec_return(m),
        Instr::Copy(d, s) => spec_exec_copy(m, d, s, next),
        Instr::Swap(a, b) => spec_exec_swap(m, a, b, next),
        Instr::SetConst(d, ki) => spec_exec_set(m, d, ki, next),
        Instr::Push(n) => spec_exec_push(m, n, next),
        Instr::Pop(n) => spec_exec_pop(m, n, next),
        Instr::Print(r) => spec_exec_print(m, r, next),
        Instr::Jif(c, yes, no) => spec_exec_jif(m, false, c, yes, no),
        Instr::Jnif(c, yes, no) => spec_exec_jif(m, true, c, yes, no),
        Instr::Ijif(c, yes) => spec_exec_ijif(m, false, c, yes, next),
        Instr::Ijnif(c, yes) => spec_exec_ijif(m, true, c, yes, next),
        Instr::Jmp(t) => spec_exec_jmp(m, t),
        Instr::Call(d, t, argc) => spec_exec_call(m, d, t, argc, next),
        Instr::Bin(kind, ty, d, l, r) => spec_exec_bin(m, kind, ty, d, l, r, next),
        Instr::CastIU(d, s) => spec_exec_cast(m, instr, d, s, next),
        Instr::CastIF(d, s) => spec_exec_cast(m, instr, d, s, next),
        Instr::CastUI(d, s) => spec_exec_cast(m, instr, d, s, next),
        Instr::CastUF(d, s) => spec_exec_cast(m, instr, d, s, next),
        Instr::CastFI(d, s) => spec_exec_cast(m, instr, d, s, next),
        Instr::CastFU(d, s) => spec_exec_cast(m, instr, d, s, next),
    }
}

/// The machine's whole transition relation: decode at the cursor, then
/// execute.
pub open spec fn spec_step(m: MachineState) -> StepSpec {
    match spec_decode(m.code, m.current.ip as int) {
        Ok((instr, next)) => spec_exec(m, instr, next),
        Err(e) => StepSpec::Fail(e),
    }
}

/// The two machine states hold the same values, component by component.
pub open spec fn state_eq(a: MachineState, b: MachineState) -> bool {
    &&& a.stack == b.stack
    &&& a.bottom == b.bottom
    &&& a.top == b.top
    &&& a.frames == b.frames
    &&& a.current == b.current
    &&& a.constants == b.constants
    &&& a.code == b.code
    &&& a.output == b.output
    &&& a.pending == b.pending
}

/// The step's observable behaviour agrees with the spec outcome `s`: on
/// success the machine equals the described post-state and the event is
/// the described one; on failure the machine is untouched and the exact
/// error is returned.
pub open spec fn step_obeys(
    pre: MachineState,
    post: MachineState,
    r: Result<Step, VmError>,
    s: StepSpec,
) -> bool {
    match s {
        StepSpec::Next(m2, ev) => r == Ok::<Step, VmError>(ev) && state_eq(post, m2),
        StepSpec::Fail(e) => r == Err::<Step, VmError>(e) && state_eq(post, pre),
    }
}

/// Whether `v` has the tag a host answer to `op` must carry.
pub open spec fn host_result_tag_ok(op: HostOp, v: Data) -> bool {
    match op {
        HostOp::Bin(kind, _, _) => if bin_is_cmp(kind) {
            v is Bool
        } else if kind is Shl || kind is Shr {
            false
        } else {
            v is F64
        },
        HostOp::FromI(_) => v is F64,
        HostOp::FromU(_) => v is F64,
        HostOp::ToI(_) => v is I64,
        HostOp::ToU(_) => v is U64,
    }
}

impl VM {
    #[verifier::rlimit(60)]
    fn exec_return(&mut self) -> (r: Result<Step, VmError>)
        requires
            old(self).wf(),
        ensures
            step_obeys(old(self)@, final(self)@, r, spec_exec_return(old(self)@)),
            final(self).wf(),
    {
        if self.callstack.len() == 0 {
            return Ok(Step::Halt);
        }
        let ghost pre = *self;
        let last = self.callstack.len() - 1;
        let fr = self.callstack[last];
        let ret = self.stack.reg(0);
        let rt = self.current.return_to;
        let argc = self.current.argc;
        // fr.offset <= current.offset == bottom <= top by the frame chain
        assert(fr.offset <= self.stack.top) by {
            assert(pre.callstack@[last as int].offset <= pre.current.offset as int);
        }
        if rt as usize >= self.stack.values.len() - fr.offset {
            return Err(VmError::RegOutOfRange);
        }
        if (argc as usize) > self.stack.top || self.stack.top - (argc as usize) < fr.offset {
            return Err(VmError::StackUnderflow);
        }
        self.callstack.pop();
        self.current = fr;
        self.stack.bottom = fr.offset;
        self.stack.set_reg(rt, ret);
        self.stack.pop(argc as usize);
        assert(self.callstack@ =~= pre.callstack@.drop_last());
        assert forall|i: int| 0 <= i < self.callstack@.len() implies {
            &&& (#[trigger] self.callstack@[i]).ip <= self.code@.len()
            &&& self.callstack@[i].offset <= (if i + 1 < self.callstack@.len() {
                self.callstack@[i + 1].offset as int
            } else {
                self.current.offset as int
            })
        } by {
            assert(pre.callstack@[i].ip <= pre.code@.len());
            assert(pre.callstack@[i].offset <= (if i + 1 < pre.callstack@.len() {
                pre.callstack@[i + 1].offset as int
            } else {
                pre.current.offset as int
            }));
        }
        Ok(Step::Continue)
    }

    fn exec_copy(&mut self, dst: u8, src: u8, next: usize) -> (r: Result<Step, VmError>)
        requires
            old(self).wf(),
            next <= old(self).code@.len(),
        ensures
            step_obeys(old(self)@, final(self)@, r, spec_exec_copy(old(self)@, dst, src, next as int)),
            final(self).wf(),
    {
        if src as usize >= self.stack.values.len() - self.stack.bottom {
            return Err(VmError::RegOutOfRange);
        }
        if dst as usize >= self.stack.values.len() - self.stack.bottom {
            return Err(VmError::RegOutOfRange);
        }
        let v = self.stack.reg(src);
        self.stack.set_reg(dst, v);
        self.current.ip = next;
        Ok(Step::Continue)
    }

    fn exec_swap(&mut self, a: u8, b: u8, next: usize) -> (r: Result<Step, VmError>)
        requires
            old(self).wf(),
            next <= old(self).code@.len(),
        ensures
            step_obeys(old(self)@, final(self)@, r, spec_exec_swap(old(self)@, a, b, next as int)),
            final(self).wf(),
    {
        if a as usize >= self.stack.values.len() - self.stack.bottom {
            return Err(VmError::RegOutOfRange);
        }
        if b as usize >= self.stack.values.len() - self.stack.bottom {
            return Err(VmError::RegOutOfRange);
        }
        let va = self.stack.reg(a);
        let vb = self.stack.reg(b);
        self.stack.set_reg(a, vb);
        self.stack.set_reg(b, va);
        self.current.ip = next;
        Ok(Step::Continue)
    }

    fn exec_set(&mut self, dst: u8, ki: u16, next: usize) -> (r: Result<Step, VmError>)
        requires
            old(self).wf(),
            next <= old(self).code@.len(),
        ensures
            step_obeys(old(self)@, final(self)@, r, spec_exec_set(old(self)@, dst, ki, next as int)),
            final(self).wf(),
    {
        if ki as usize >= self.constants.len() {
            return Err(VmError::ConstantOutOfRange);
        }
        if dst as usize >= self.stack.values.len() - self.stack.bottom {
            return Err(VmError::RegOutOfRange);
        }
        let v = self.constants[ki as usize];
        self.stack.set_reg(dst, v);
        self.current.ip = next;
        Ok(Step::Continue)
    }

    fn exec_push(&mut self, n: u8, next: usize) -> (r: Result<Step, VmError>)
        requires
            old(self).wf(),
            next <= old(self).code@.len(),
        ensures
            step_obeys(old(self)@, final(self)@, r, spec_exec_push(old(self)@, n, next as int)),
            final(self).wf(),
    {
        if n as usize >= self.stack.values.len() - self.stack.top {
            return Err(VmError::StackOverflow);
        }
        self.stack.push(n as usize);
        self.current.ip = next;
        Ok(Step::Continue)
    }

    fn exec_pop(&mut self, n: u8, next: usize) -> (r: Result<Step, VmError>)
        requires
            old(self).wf(),
            next <= old(self).code@.len(),
        ensures
            step_obeys(old(self)@, final(self)@, r, spec_exec_pop(old(self)@, n, next as int)),
            final(self).wf(),
    {
        if n as usize > self.stack.top - self.stack.bottom {
            return Err(VmError::StackUnderflow);
        }
        self.stack.pop(n as usize);
        self.current.ip = next;
        Ok(Step::Continue)
    }

    fn exec_print(&mut self, r0: u8, next: usize) -> (r: Result<Step, VmError>)
        requires
            old(self).wf(),
            next <= old(self).code@.len(),
        ensures
            step_obeys(old(self)@, final(self)@, r, spec_exec_print(old(self)@, r0, next as int)),
            final(self).wf(),
    {
        if r0 as usize >= self.stack.values.len() - self.stack.bottom {
            return Err(VmError::RegOutOfRange);
        }
        let v = self.stack.reg(r0);
        self.output.push(v);
        self.current.ip = next;
        Ok(Step::Continue)
    }

    fn exec_jmp(&mut self, target: u32) -> (r: Result<Step, VmError>)
        requires
            old(self).wf(),
        ensures
            step_obeys(old(self)@, final(self)@, r, spec_exec_jmp(old(self)@, target)),
            final(self).wf(),
    {
        if target as usize > self.code.len() {
            return Err(VmError::IpOutOfRange);
        }
        self.current.ip = target as usize;
        Ok(Step::Continue)
    }

    fn exec_jif(&mut self, invert: bool, c: u8, yes: u32, no: u32) -> (r: Result<Step, VmError>)
        requires
            old(self).wf(),
        ensures
            step_obeys(old(self)@, final(self)@, r, spec_exec_jif(old(self)@, invert, c, yes, no)),
            final(self).wf(),
    {
        if c as usize >= self.stack.values.len() - self.stack.bottom {
            return Err(VmError::RegOutOfRange);
        }
        let v = self.stack.reg(c);
        match v {
            Data::Bool(b) => {
                let taken = if b != invert {
                    yes
                } else {
                    no
                };
                if taken as usize > self.code.len() {
                    return Err(VmError::IpOutOfRange);
                }
                self.current.ip = taken as usize;
                Ok(Step::Continue)
            },
            _ => Err(VmError::TagMismatch),
        }
    }

    fn exec_ijif(&mut self, invert: bool, c: u8, yes: u32, next: usize) -> (r: Result<
        Step,
        VmError,
    >)
        requires
            old(self).wf(),
            next <= old(self).code@.len(),
        ensures
            step_obeys(
                old(self)@,
                final(self)@,
                r,
                spec_exec_ijif(old(self)@, invert, c, yes, next as int),
            ),
            final(self).wf(),
    {
        if c as usize >= self.stack.values.len() - self.stack.bottom {
            return Err(VmError::RegOutOfRange);
        }
        let v = self.stack.reg(c);
        match v {
            Data::Bool(b) => {
                if b != invert {
                    if yes as usize > self.code.len() {
                        return Err(VmError::IpOutOfRange);
                    }
                    self.current.ip = yes as usize;
                } else {
                    self.current.ip = next;
                }
                Ok(Step::Continue)
            },
            _ => Err(VmError::TagMismatch),
        }
    }

    #[verifier::rlimit(60)]
    fn exec_call(&mut self, dst: u8, target: u32, argc: u8, next: usize) -> (r: Result<
        Step,
        VmError,
    >)
        requires
            old(self).wf(),
            argc + 7 <= next <= old(self).code@.len(),
        ensures
            step_obeys(
                old(self)@,
                final(self)@,
                r,
                spec_exec_call(old(self)@, dst, target, argc, next as int),
            ),
            final(self).wf(),
    {
        let needed = argc as usize + 1;
        if needed >= self.stack.values.len() - self.stack.top {
            return Err(VmError::StackOverflow);
        }
        let top2 = self.stack.top + needed;
        // gather the argument values first; reject any register outside the
        // allocated stack
        let mut args: Vec<Data> = Vec::new();
        let mut k: usize = 0;
        while k < argc as usize
            invariant
                old(self).wf(),
                *self == *old(self),
                0 <= k <= argc,
                argc + 7 <= next <= self.code@.len(),
                top2 == self.stack.top + argc + 1,
                top2 < self.stack.values@.len(),
                args@.len() == k,
                forall|j: int|
                    0 <= j < k ==> self.stack.bottom + call_arg_reg(
                        self.code@,
                        next as int,
                        argc,
                        j,
                    ) < self.stack.values@.len(),
                forall|j: int|
                    0 <= j < k ==> args@[j] == self.stack.values@[self.stack.bottom + call_arg_reg(
                        self.code@,
                        next as int,
                        argc,
                        j,
                    )],
            decreases argc as int - k,
        {
            let reg = self.code[next - argc as usize + k];
            if reg as usize >= self.stack.values.len() - self.stack.bottom {
                assert(self.stack.bottom + call_arg_reg(self.code@, next as int, argc, k as int)
                    >= self.stack.values@.len());
                return Err(VmError::RegOutOfRange);
            }
            args.push(self.stack.values[self.stack.bottom + reg as usize]);
            k = k + 1;
        }
        if target as usize > self.code.len() {
            return Err(VmError::IpOutOfRange);
        }
        let ghost pre = *self;
        // commit: widen the window, stage the arguments, save the frame
        let old_top = self.stack.top;
        self.stack.push(needed);
        let mut k: usize = 0;
        while k < argc as usize
            invariant
                pre.wf(),
                0 <= k <= argc,
                args@.len() == argc,
                forall|j: int|
                    0 <= j < argc ==> args@[j] == pre.stack.values@[pre.stack.bottom
                        + call_arg_reg(pre.code@, next as int, argc, j)],
                old_top == pre.stack.top,
                self.stack.bottom == pre.stack.bottom,
                self.stack.top == pre.stack.top + argc + 1,
                self.stack.top < self.stack.values@.len(),
                self.stack.values@.len() == pre.stack.values@.len(),
                self.stack.values@ == call_args_written(pre@, next as int, argc, k as int),
                self.callstack@ == pre.callstack@,
                self.current == pre.current,
                self.constants@ == pre.constants@,
                self.code@ == pre.code@,
                self.output@ == pre.output@,
                self.pending == pre.pending,
            decreases argc as int - k,
        {
            let i = old_top + 1 + k;
            assert(i < self.stack.values@.len());
            self.stack.values[i] = args[k];
            assert(self.stack.values@ == call_args_written(pre@, next as int, argc, k + 1 as int));
            k = k + 1;
        }
        let saved = Code {
            ip: next,
            return_to: self.current.return_to,
            offset: self.current.offset,
            argc: self.current.argc,
        };
        self.callstack.push(saved);
        self.current = Code { ip: target as usize, return_to: dst, offset: old_top, argc };
        self.stack.bottom = old_top;
        Ok(Step::Continue)
    }

    fn exec_bin(&mut self, kind: BinKind, ty: NumTy, dst: u8, lhs: u8, rhs: u8, next: usize) -> (r:
        Result<Step, VmError>)
        requires
            old(self).wf(),
            old(self).pending is None,
            next <= old(self).code@.len(),
        ensures
            step_obeys(
                old(self)@,
                final(self)@,
                r,
                spec_exec_bin(old(self)@, kind, ty, dst, lhs, rhs, next as int),
            ),
            final(self).wf(),
    {
        if lhs as usize >= self.stack.values.len() - self.stack.bottom {
            return Err(VmError::RegOutOfRange);
        }
        if rhs as usize >= self.stack.values.len() - self.stack.bottom {
            return Err(VmError::RegOutOfRange);
        }
        let lv = self.stack.reg(lhs);
        let rv = self.stack.reg(rhs);
        match ty {
            NumTy::I => {
                let (a, b) = match (lv, rv) {
                    (Data::I64(a), Data::I64(b)) => (a, b),
                    _ => { return Err(VmError::TagMismatch) },
                };
                if dst as usize >= self.stack.values.len() - self.stack.bottom {
                    return Err(VmError::RegOutOfRange);
                }
                let res = match kind {
                    BinKind::Add => Data::I64(a.wrapping_add(b)),
                    BinKind::Sub => Data::I64(a.wrapping_sub(b)),
                    BinKind::Mul => Data::I64(a.wrapping_mul(b)),
                    BinKind::Div => {
                        if b == 0 {
                            return Err(VmError::DivisionByZero);
                        }
                        Data::I64(
                            match a.checked_div(b) {
                                Some(v) => v,
                                None => i64::MIN,
                            },
                        )
                    },
                    BinKind::Rem => {
                        if b == 0 {
                            return Err(VmError::DivisionByZero);
                        }
                        Data::I64(
                            match a.checked_rem(b) {
                                Some(v) => v,
                                None => 0,
                            },
                        )
                    },
                    BinKind::Shl => Data::I64(a.wrapping_shl(b as u32)),
                    BinKind::Shr => Data::I64(a.wrapping_shr(b as u32)),
                    BinKind::Lt => Data::Bool(a < b),
                    BinKind::Gt => Data::Bool(a > b),
                    BinKind::Le => Data::Bool(a <= b),
                    BinKind::Ge => Data::Bool(a >= b),
                    BinKind::Eq => Data::Bool(a == b),
                    BinKind::Ne => Data::Bool(a != b),
                };
                self.stack.set_reg(dst, res);
                self.current.ip = next;
                Ok(Step::Continue)
            },
            NumTy::U => {
                let (a, b) = match (lv, rv) {
                    (Data::U64(a), Data::U64(b)) => (a, b),
                    _ => { return Err(VmError::TagMismatch) },
                };
                if dst as usize >= self.stack.values.len() - self.stack.bottom {
                    return Err(VmError::RegOutOfRange);
                }
                let res = match kind {
                    BinKind::Add => Data::U64(a.wrapping_add(b)),
                    BinKind::Sub => Data::U64(a.wrapping_sub(b)),
                    BinKind::Mul => Data::U64(a.wrapping_mul(b)),
                    BinKind::Div => {
                        if b == 0 {
                            return Err(VmError::DivisionByZero);
                        }
                        Data::U64(a / b)
                    },
                    BinKind::Rem => {
                        if b == 0 {
                            return Err(VmError::DivisionByZero);
                        }
                        Data::U64(a % b)
                    },
                    BinKind::Shl => Data::U64(a.wrapping_shl(b as u32)),
                    BinKind::Shr => Data::U64(a.wrapping_shr(b as u32)),
                    BinKind::Lt => Data::Bool(a < b),
                    BinKind::Gt => Data::Bool(a > b),
                    BinKind::Le => Data::Bool(a <= b),
                    BinKind::Ge => Data::Bool(a >= b),
                    BinKind::Eq => Data::Bool(a == b),
                    BinKind::Ne => Data::Bool(a != b),
                };
                self.stack.set_reg(dst, res);
                self.current.ip = next;
                Ok(Step::Continue)
            },
            NumTy::F => {
                let (a, b) = match (lv, rv) {
                    (Data::F64(a), Data::F64(b)) => (a, b),
                    _ => { return Err(VmError::TagMismatch) },
                };
                if dst as usize >= self.stack.values.len() - self.stack.bottom {
                    return Err(VmError::RegOutOfRange);
                }
                let is_div = match kind {
                    BinKind::Div => true,
                    _ => false,
                };
                if is_div && (b == 0 || b == 0x8000_0000_0000_0000) {
                    return Err(VmError::DivisionByZero);
                }
                let op = HostOp::Bin(kind, a, b);
                self.pending = Some((dst, op));
                self.current.ip = next;
                Ok(Step::Host(op))
            },
        }
    }

    fn exec_cast(&mut self, instr: Instr, dst: u8, src: u8, next: usize) -> (r: Result<
        Step,
        VmError,
    >)
        requires
            old(self).wf(),
            old(self).pending is None,
            next <= old(self).code@.len(),
            instr is CastIU || instr is CastIF || instr is CastUI || instr is CastUF
                || instr is CastFI || instr is CastFU,
        ensures
            step_obeys(
                old(self)@,
                final(self)@,
                r,
                spec_exec_cast(old(self)@, instr, dst, src, next as int),
            ),
            final(self).wf(),
    {
        if src as usize >= self.stack.values.len() - self.stack.bottom {
            return Err(VmError::RegOutOfRange);
        }
        if dst as usize >= self.stack.values.len() - self.stack.bottom {
            return Err(VmError::RegOutOfRange);
        }
        let v = self.stack.reg(src);
        match instr {
            Instr::CastIU(_, _) => match v {
                Data::I64(a) => {
                    self.stack.set_reg(dst, Data::U64(a as u64));
                    self.current.ip = next;
                    Ok(Step::Continue)
                },
                _ => Err(VmError::TagMismatch),
            },
            Instr::CastUI(_, _) => match v {
                Data::U64(a) => {
                    self.stack.set_reg(dst, Data::I64(a as i64));
                    self.current.ip = next;
                    Ok(Step::Continue)
                },
                _ => Err(VmError::TagMismatch),
            },
            Instr::CastIF(_, _) => match v {
                Data::I64(a) => {
                    let op = HostOp::FromI(a);
                    self.pending = Some((dst, op));
                    self.current.ip = next;
                    Ok(Step::Host(op))
                },
                _ => Err(VmError::TagMismatch),
            },
            Instr::CastUF(_, _) => match v {
                Data::U64(a) => {
                    let op = HostOp::FromU(a);
                    self.pending = Some((dst, op));
                    self.current.ip = next;
                    Ok(Step::Host(op))
                },
                _ => Err(VmError::TagMismatch),
            },
            Instr::CastFI(_, _) => match v {
                Data::F64(a) => {
                    let op = HostOp::ToI(a);
                    self.pending = Some((dst, op));
                    self.current.ip = next;
                    Ok(Step::Host(op))
                },
                _ => Err(VmError::TagMismatch),
            },
            _ => match v {
                Data::F64(a) => {
                    let op = HostOp::ToU(a);
                    self.pending = Some((dst, op));
                    self.current.ip = next;
                    Ok(Step::Host(op))
                },
                _ => Err(VmError::TagMismatch),
            },
        }
    }

    /// Decode and execute the instruction at the cursor.  The result and
    /// the machine's new state follow [`spec_step`] exactly.
    pub fn step(&mut self) -> (r: Result<Step, VmError>)
        requires
            old(self).wf(),
            old(self).pending is None,
        ensures
            step_obeys(old(self)@, final(self)@, r, spec_step(old(self)@)),
            final(self).wf(),
    {
        let dec = decode(&self.code, self.current.ip);
        let (instr, next) = match dec {
            Ok(v) => v,
            Err(e) => { return Err(e) },
        };
        match instr {
            Instr::Return => self.exec_return(),
            Instr::Copy(d, s) => self.exec_copy(d, s, next),
            Instr::Swap(a, b) => self.exec_swap(a, b, next),
            Instr::SetConst(d, ki) => self.exec_set(d, ki, next),
            Instr::Push(n) => self.exec_push(n, next),
            Instr::Pop(n) => self.exec_pop(n, next),
            Instr::Print(r0) => self.exec_print(r0, next),
            Instr::Jif(c, yes, no) => self.exec_jif(false, c, yes, no),
            Instr::Jnif(c, yes, no) => self.exec_jif(true, c, yes, no),
            Instr::Ijif(c, yes) => self.exec_ijif(false, c, yes, next),
            Instr::Ijnif(c, yes) => self.exec_ijif(true, c, yes, next),
            Instr::Jmp(t) => self.exec_jmp(t),
            Instr::Call(d, t, argc) => {
                assert(argc + 7 <= next);
                self.exec_call(d, t, argc, next)
            },
            Instr::Bin(kind, ty, d, l, r0) => self.exec_bin(kind, ty, d, l, r0, next),
            Instr::CastIU(d, s) => self.exec_cast(instr, d, s, next),
            Instr::CastIF(d, s) => self.exec_cast(instr, d, s, next),
            Instr::CastUI(d, s) => self.exec_cast(instr, d, s, next),
            Instr::CastUF(d, s) => self.exec_cast(instr, d, s, next),
            Instr::CastFI(d, s) => self.exec_cast(instr, d, s, next),
            Instr::CastFU(d, s) => self.exec_cast(instr, d, s, next),
        }
    }

    /// Hand back the host's answer to the pending float request.  A value
    /// of the wrong tag is a tag mismatch and changes nothing; otherwise the
    /// value lands in the destination register recorded by the step that
    /// raised the request.
    pub fn resolve_host(&mut self, v: Data) -> (r: Result<(), VmError>)
        requires
            old(self).wf(),
            old(self).pending is Some,
        ensures
            final(self).wf(),
            ({
                let (dst, op) = old(self).pending->0;
                if !host_result_tag_ok(op, v) {
                    r == Err::<(), VmError>(VmError::TagMismatch) && state_eq(
                        final(self)@,
                        old(self)@,
                    )
                } else if old(self).stack.bottom + dst >= old(self).stack.values@.len() {
                    r == Err::<(), VmError>(VmError::RegOutOfRange) && state_eq(
                        final(self)@,
                        old(self)@,
                    )
                } else {
                    &&& r == Ok::<(), VmError>(())
                    &&& final(self).stack.values@ == old(self).stack.values@.update(
                        old(self).stack.bottom + dst,
                        v,
                    )
                    &&& final(self).stack.bottom == old(self).stack.bottom
                    &&& final(self).stack.top == old(self).stack.top
                    &&& final(self).callstack@ == old(self).callstack@
                    &&& final(self).current == old(self).current
                    &&& final(self).constants@ == old(self).constants@
                    &&& final(self).code@ == old(self).code@
                    &&& final(self).output@ == old(self).output@
                    &&& final(self).pending is None
                }
            }),
    {
        let (dst, op) = match self.pending {
            Some(p) => p,
            None => { return Err(VmError::TagMismatch) },
        };
        let tag_ok = match op {
            HostOp::Bin(kind, _, _) => match kind {
                BinKind::Lt | BinKind::Gt | BinKind::Le | BinKind::Ge | BinKind::Eq
                    | BinKind::Ne => matches!(v, Data::Bool(_)),
                BinKind::Shl | BinKind::Shr => false,
                _ => matches!(v, Data::F64(_)),
            },
            HostOp::FromI(_) => matches!(v, Data::F64(_)),
            HostOp::FromU(_) => matches!(v, Data::F64(_)),
            HostOp::ToI(_) => matches!(v, Data::I64(_)),
            HostOp::ToU(_) => matches!(v, Data::U64(_)),
        };
        if !tag_ok {
            return Err(VmError::TagMismatch);
        }
        if dst as usize >= self.stack.values.len() - self.stack.bottom {
            return Err(VmError::RegOutOfRange);
        }
        self.stack.set_reg(dst, v);
        self.pending = None;
        Ok(())
    }

    /// Run up to `fuel` steps of [`VM::step`].  `Ok(Halt)` is the end of
    /// the program and `Err` a fatal error; `Ok(Host(op))` asks the host to
    /// answer `op` through [`VM::resolve_host`] and call `run` again; and
    /// `Ok(Continue)` means the fuel ran out with the machine still able to
    /// go on.  A program can loop forever, so the host chooses how long to
    /// wait by choosing `fuel`.  The result and the machine's final state
    /// are exactly what [`spec_run`], the iterated transition relation,
    /// fixes for the starting state.
    pub fn run(&mut self, fuel: u64) -> (r: Result<Step, VmError>)
        requires
            old(self).wf(),
            old(self).pending is None,
        ensures
            final(self).wf(),
            ({
                let (m2, res) = spec_run(old(self)@, fuel as nat);
                &&& final(self)@ == m2
                &&& r == res
            }),
            match r {
                Ok(ev) => {
                    &&& (ev matches Step::Host(op) ==> final(self).pending matches Some((_, p))
                        && p == op)
                    &&& (ev is Halt ==> final(self).pending is None)
                    &&& (ev is Continue ==> final(self).pending is None)
                },
                Err(_) => final(self).pending is None,
            },
    {
        let mut left: u64 = fuel;
        loop
            invariant
                self.wf(),
                self.pending is None,
                spec_run(old(self)@, fuel as nat) == spec_run(self@, left as nat),
            decreases left,
        {
            if left == 0 {
                assert(spec_run(self@, 0) == (self@, Ok::<Step, VmError>(Step::Continue)));
                return Ok(Step::Continue);
            }
            left = left - 1;
            let ghost pre = self@;
            match self.step() {
                Ok(Step::Continue) => {
                    proof {
                        match spec_step(pre) {
                            StepSpec::Next(m2, ev) => {
                                assert(self@ =~= m2);
                                assert(spec_run(pre, (left + 1) as nat) == spec_run(
                                    m2,
                                    left as nat,
                                ));
                            },
                            StepSpec::Fail(_) => {},
                        }
                    }
                },
                Ok(Step::Halt) => {
                    proof {
                        match spec_step(pre) {
                            StepSpec::Next(m2, ev) => {
                                assert(self@ =~= m2);
                            },
                            StepSpec::Fail(_) => {},
                        }
                    }
                    return Ok(Step::Halt);
                },
                Ok(Step::Host(op)) => {
                    proof {
                        match spec_step(pre) {
                            StepSpec::Next(m2, ev) => {
                                assert(self@ =~= m2);
                            },
                            StepSpec::Fail(_) => {},
                        }
                    }
                    return Ok(Step::Host(op));
                },
                Err(e) => {
                    proof {
                        assert(self@ =~= pre);
                    }
                    return Err(e);
                },
            }
        }
    }
}

/// The iterated transition relation: fold [`spec_step`] from `m` until it
/// halts, raises a host request, fails, or the fuel runs out (then the
/// machine stands as it is, reporting `Continue`).
pub open spec fn spec_run(m: MachineState, fuel: nat) -> (MachineState, Result<Step, VmError>)
    decreases fuel,
{
    if fuel == 0 {
        (m, Ok(Step::Continue))
    } else {
        match spec_step(m) {
            StepSpec::Fail(e) => (m, Err(e)),
            StepSpec::Next(m2, ev) => match ev {
                Step::Continue => spec_run(m2, (fuel - 1) as nat),
                Step::Halt => (m2, Ok(Step::Halt)),
                Step::Host(op) => (m2, Ok(Step::Host(op))),
            },
        }
    }
}

/// The operand tags the instruction at hand requires, looking at the
/// registers it reads: binary operations need both operands to carry the
/// operation's type, conditional jumps need a boolean, casts need the source
/// type; everything else reads values without a tag requirement.
pub open spec fn operand_tags_ok(m: MachineState, instr: Instr) -> bool {
    match instr {
        Instr::Bin(_, ty, _, l, r) => {
            let lv = regv(m, l);
            let rv = regv(m, r);
            match ty {
                NumTy::I => lv is I64 && rv is I64,
                NumTy::U => lv is U64 && rv is U64,
                NumTy::F => lv is F64 && rv is F64,
            }
        },
        Instr::Jif(c, _, _) => regv(m, c) is Bool,
        Instr::Jnif(c, _, _) => regv(m, c) is Bool,
        Instr::Ijif(c, _) => regv(m, c) is Bool,
        Instr::Ijnif(c, _) => regv(m, c) is Bool,
        Instr::CastIU(_, s) => regv(m, s) is I64,
        Instr::CastIF(_, s) => regv(m, s) is I64,
        Instr::CastUI(_, s) => regv(m, s) is U64,
        Instr::CastUF(_, s) => regv(m, s) is U64,
        Instr::CastFI(_, s) => regv(m, s) is F64,
        Instr::CastFU(_, s) => regv(m, s) is F64,
        _ => true,
    }
}

/// Tag soundness: a step never completes over a register whose tag is not
/// the one its instruction requires — such a state fails, and when every
/// register operand names an allocated slot the failure is exactly
/// `TagMismatch`.
pub proof fn lemma_tag_soundness(m: MachineState, instr: Instr, next: int)
    requires
        spec_decode(m.code, m.current.ip as int) == Ok::<(Instr, int), VmError>((instr, next)),
    ensures
        spec_step(m) is Next ==> operand_tags_ok(m, instr),
        !operand_tags_ok(m, instr) && (forall|r: u8| reg_ok(m, r)) ==> spec_step(m)
            == StepSpec::Fail(VmError::TagMismatch),
{
    assert(spec_step(m) == spec_exec(m, instr, next));
}

/// Dispatch totality: decoding fails with `UnknownOpcode` exactly on the
/// bytes outside the catalogue, and then reports the byte itself.  Every
/// defined opcode byte is handled by some other outcome.
pub proof fn lemma_dispatch_totality(code: Seq<u8>, ip: int)
    requires
        0 <= ip < code.len(),
    ensures
        spec_decode(code, ip) == Err::<(Instr, int), VmError>(
            VmError::UnknownOpcode(code[ip]),
        ) <==> !isa::opcode_defined(code[ip]),
        forall|e: VmError|
            spec_decode(code, ip) == Err::<(Instr, int), VmError>(e) ==> (e matches
                VmError::UnknownOpcode(b) ==> b == code[ip]),
{
}

/// Frame integrity: take a `CALL` from state `s`, and any later state `t`
/// of the same callee activation (same saved frames, same window base, the
/// callee frame fields untouched) whose `RETURN` succeeds.  The return
/// restores the caller's window base and the call-stack depth exactly,
/// resumes the caller right after the call instruction, and writes the
/// callee's register 0 into the caller's `return_to` register.  Of the
/// `argc + 1` reserved slots all but one are released: the slot that held
/// the return value survives, so `top` comes back one above its pre-call
/// value whenever the callee left `top` where the call put it.
pub proof fn lemma_frame_integrity(
    s: MachineState,
    dst: u8,
    target: u32,
    argc: u8,
    nexti: int,
    t: MachineState,
)
    requires
        s.bottom == s.current.offset,
        spec_exec_call(s, dst, target, argc, nexti) is Next,
        ({
            let p = spec_exec_call(s, dst, target, argc, nexti)->Next_0;
            &&& t.frames == p.frames
            &&& t.bottom == p.bottom
            &&& t.current.return_to == dst
            &&& t.current.argc == argc
            &&& t.current.offset == s.top
        }),
        spec_exec_return(t) is Next,
    ensures
        ({
            let p = spec_exec_call(s, dst, target, argc, nexti)->Next_0;
            let q = spec_exec_return(t)->Next_0;
            &&& q.bottom == s.bottom
            &&& q.frames == s.frames
            &&& q.frames.len() == s.frames.len()
            &&& q.current == advanced(s, nexti)
            &&& q.top == t.top - argc
            &&& (t.top == p.top ==> q.top == s.top + 1)
            &&& q.stack[s.bottom + dst] == t.stack[t.bottom]
        }),
{
    let p = spec_exec_call(s, dst, target, argc, nexti)->Next_0;
    assert(t.frames.last() == advanced(s, nexti));
    assert(t.frames.drop_last() =~= s.frames);
}

} // verus!
