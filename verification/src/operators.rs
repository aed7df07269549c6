//! The assembler's operator catalogue: literals, the mnemonic table, and
//! the symbolic operator forms the parser produces.
//!
//! Each operator maps to exactly one opcode byte of [`crate::isa`], so the
//! encoder and the machine's decoder share a single source of truth.

use vstd::prelude::*;
use vstd::string::StrSliceExecFns;
use vstd::string::StringExecFns;

use crate::isa;
use crate::parser::BlockId;
use crate::symbols::{SymbolIndex, SymbolMap};
use crate::text::{fmt_i64, fmt_u64, str_eq};

verus! {

/// A literal as it appears in assembler source.  A float literal carries
/// the IEEE 754 bit pattern of its value; a string literal carries the
/// interned symbol of its text.
#[derive(Debug, PartialEq, Eq, Structural, Clone, Copy)]
pub enum Literal {
    Integer(i64),
    Float(u64),
    Str(SymbolIndex),
    Bool(bool),
    Empty,
}

/// Rendering against the symbol table, for diagnostics and tooling.
pub trait PrettyPrint {
    /// A human-readable form of the value.
    fn pretty_print(&self, symbol_map: &SymbolMap) -> String;
}

impl PrettyPrint for Literal {
    fn pretty_print(&self, symbol_map: &SymbolMap) -> String {
        let mut s = "lit(".to_owned();
        match self {
            Literal::Integer(v) => { s.append(fmt_i64(*v).as_str()) },
            Literal::Float(bits) => {
                s.append("f64-bits ");
                s.append(fmt_u64(*bits).as_str());
            },
            Literal::Str(v) => {
                if v.0 < symbol_map.len() {
                    s.append(symbol_map.get(*v));
                }
            },
            Literal::Bool(v) => {
                if *v {
                    s.append("true");
                } else {
                    s.append("false");
                }
            },
            Literal::Empty => { s.append("()") },
        }
        s.append(")");
        s
    }
}

/// The operator mnemonics, one per opcode.
#[derive(Debug, PartialEq, Eq, Structural, Clone, Copy)]
pub enum OperatorToken {
    Ret,
    Cpy,
    Swap,
    SetOp,
    Push,
    Pop,
    Jif,
    JNif,
    Jmp,
    IJif,
    IJNif,
    Call,
    AddI,
    AddU,
    AddF,
    SubI,
    SubU,
    SubF,
    MulI,
    MulU,
    MulF,
    DivI,
    DivU,
    DivF,
    RemI,
    RemU,
    RemF,
    LsI,
    LsU,
    RsI,
    RsU,
    LtI,
    LtU,
    LtF,
    GtI,
    GtU,
    GtF,
    LeI,
    LeU,
    LeF,
    GeI,
    GeU,
    GeF,
    EqI,
    EqU,
    EqF,
    NeI,
    NeU,
    NeF,
    Cast_IU,
    Cast_IF,
    Cast_UI,
    Cast_UF,
    Cast_FI,
    Cast_FU,
    Print,
}

/// A parsed operator: its form and the source span it came from.
#[derive(Debug, Clone)]
pub struct Operator {
    pub kind: OperatorKind,
    pub source_range: crate::symbols::SourceRange,
}

/// The operator forms, with their operands: registers, a literal for
/// `SetOp`, block labels for jumps, and a callee with argument registers
/// for `Call`.
#[derive(Debug, Clone)]
pub enum OperatorKind {
    Ret,
    Cpy(u8, u8),
    Swap(u8, u8),
    SetOp(u8, Literal),
    Push(u8),
    Pop(u8),
    Jif(u8, BlockId, BlockId),
    JNif(u8, BlockId, BlockId),
    Jmp(BlockId),
    IJif(u8, BlockId),
    IJNif(u8, BlockId),
    Call(u8, SymbolIndex, Vec<u8>),
    AddI(u8, u8, u8),
    AddU(u8, u8, u8),
    AddF(u8, u8, u8),
    SubI(u8, u8, u8),
    SubU(u8, u8, u8),
    SubF(u8, u8, u8),
    MulI(u8, u8, u8),
    MulU(u8, u8, u8),
    MulF(u8, u8, u8),
    DivI(u8, u8, u8),
    DivU(u8, u8, u8),
    DivF(u8, u8, u8),
    RemI(u8, u8, u8),
    RemU(u8, u8, u8),
    RemF(u8, u8, u8),
    LsI(u8, u8, u8),
    LsU(u8, u8, u8),
    RsI(u8, u8, u8),
    RsU(u8, u8, u8),
    LtI(u8, u8, u8),
    LtU(u8, u8, u8),
    LtF(u8, u8, u8),
    GtI(u8, u8, u8),
    GtU(u8, u8, u8),
    GtF(u8, u8, u8),
    LeI(u8, u8, u8),
    LeU(u8, u8, u8),
    LeF(u8, u8, u8),
    GeI(u8, u8, u8),
    GeU(u8, u8, u8),
    GeF(u8, u8, u8),
    EqI(u8, u8, u8),
    EqU(u8, u8, u8),
    EqF(u8, u8, u8),
    NeI(u8, u8, u8),
    NeU(u8, u8, u8),
    NeF(u8, u8, u8),
    Cast_IU(u8, u8),
    Cast_IF(u8, u8),
    Cast_UI(u8, u8),
    Cast_UF(u8, u8),
    Cast_FI(u8, u8),
    Cast_FU(u8, u8),
    Print(u8),
}

/// The opcode byte of an operator form.
pub open spec fn spec_opcode_of(k: OperatorKind) -> u8 {
    match k {
        OperatorKind::Ret => isa::RETURN,
        OperatorKind::Cpy(..) => isa::COPY,
        OperatorKind::Swap(..) => isa::SWAP,
        OperatorKind::SetOp(..) => isa::SET,
        OperatorKind::Push(..) => isa::PUSH,
        OperatorKind::Pop(..) => isa::POP,
        OperatorKind::Jif(..) => isa::JIF,
        OperatorKind::JNif(..) => isa::JNIF,
        OperatorKind::Jmp(..) => isa::JMP,
        OperatorKind::IJif(..) => isa::IJIF,
        OperatorKind::IJNif(..) => isa::IJNIF,
        OperatorKind::Call(..) => isa::CALL,
        OperatorKind::AddI(..) => isa::ADDI,
        OperatorKind::AddU(..) => isa::ADDU,
        OperatorKind::AddF(..) => isa::ADDF,
        OperatorKind::SubI(..) => isa::SUBI,
        OperatorKind::SubU(..) => isa::SUBU,
        OperatorKind::SubF(..) => isa::SUBF,
        OperatorKind::MulI(..) => isa::MULI,
        OperatorKind::MulU(..) => isa::MULU,
        OperatorKind::MulF(..) => isa::MULF,
        OperatorKind::DivI(..) => isa::DIVI,
        OperatorKind::DivU(..) => isa::DIVU,
        OperatorKind::DivF(..) => isa::DIVF,
        OperatorKind::RemI(..) => isa::REMI,
        OperatorKind::RemU(..) => isa::REMU,
        OperatorKind::RemF(..) => isa::REMF,
        OperatorKind::LsI(..) => isa::LSI,
        OperatorKind::LsU(..) => isa::LSU,
        OperatorKind::RsI(..) => isa::RSI,
        OperatorKind::RsU(..) => isa::RSU,
        OperatorKind::LtI(..) => isa::LTI,
        OperatorKind::LtU(..) => isa::LTU,
        OperatorKind::LtF(..) => isa::LTF,
        OperatorKind::GtI(..) => isa::GTI,
        OperatorKind::GtU(..) => isa::GTU,
        OperatorKind::GtF(..) => isa::GTF,
        OperatorKind::LeI(..) => isa::LEI,
        OperatorKind::LeU(..) => isa::LEU,
        OperatorKind::LeF(..) => isa::LEF,
        OperatorKind::GeI(..) => isa::GEI,
        OperatorKind::GeU(..) => isa::GEU,
        OperatorKind::GeF(..) => isa::GEF,
        OperatorKind::EqI(..) => isa::EQI,
        OperatorKind::EqU(..) => isa::EQU,
        OperatorKind::EqF(..) => isa::EQF,
        OperatorKind::NeI(..) => isa::NEI,
        OperatorKind::NeU(..) => isa::NEU,
        OperatorKind::NeF(..) => isa::NEF,
        OperatorKind::Cast_IU(..) => isa::CASTIU,
        OperatorKind::Cast_IF(..) => isa::CASTIF,
        OperatorKind::Cast_UI(..) => isa::CASTUI,
        OperatorKind::Cast_UF(..) => isa::CASTUF,
        OperatorKind::Cast_FI(..) => isa::CASTFI,
        OperatorKind::Cast_FU(..) => isa::CASTFU,
        OperatorKind::Print(..) => isa::PRINT,
    }
}

impl OperatorKind {
    /// The opcode byte this operator is encoded with.
    pub fn as_bytecode(&self) -> (r: u8)
        ensures
            r == spec_opcode_of(*self),
    {
        match self {
            OperatorKind::Ret => isa::RETURN,
            OperatorKind::Cpy(..) => isa::COPY,
            OperatorKind::Swap(..) => isa::SWAP,
            OperatorKind::SetOp(..) => isa::SET,
            OperatorKind::Push(..) => isa::PUSH,
            OperatorKind::Pop(..) => isa::POP,
            OperatorKind::Jif(..) => isa::JIF,
            OperatorKind::JNif(..) => isa::JNIF,
            OperatorKind::Jmp(..) => isa::JMP,
            OperatorKind::IJif(..) => isa::IJIF,
            OperatorKind::IJNif(..) => isa::IJNIF,
            OperatorKind::Call(..) => isa::CALL,
            OperatorKind::AddI(..) => isa::ADDI,
            OperatorKind::AddU(..) => isa::ADDU,
            OperatorKind::AddF(..) => isa::ADDF,
            OperatorKind::SubI(..) => isa::SUBI,
            OperatorKind::SubU(..) => isa::SUBU,
            OperatorKind::SubF(..) => isa::SUBF,
            OperatorKind::MulI(..) => isa::MULI,
            OperatorKind::MulU(..) => isa::MULU,
            OperatorKind::MulF(..) => isa::MULF,
            OperatorKind::DivI(..) => isa::DIVI,
            OperatorKind::DivU(..) => isa::DIVU,
            OperatorKind::DivF(..) => isa::DIVF,
            OperatorKind::RemI(..) => isa::REMI,
            OperatorKind::RemU(..) => isa::REMU,
            OperatorKind::RemF(..) => isa::REMF,
            OperatorKind::LsI(..) => isa::LSI,
            OperatorKind::LsU(..) => isa::LSU,
            OperatorKind::RsI(..) => isa::RSI,
            OperatorKind::RsU(..) => isa::RSU,
            OperatorKind::LtI(..) => isa::LTI,
            OperatorKind::LtU(..) => isa::LTU,
            OperatorKind::LtF(..) => isa::LTF,
            OperatorKind::GtI(..) => isa::GTI,
            OperatorKind::GtU(..) => isa::GTU,
            OperatorKind::GtF(..) => isa::GTF,
            OperatorKind::LeI(..) => isa::LEI,
            OperatorKind::LeU(..) => isa::LEU,
            OperatorKind::LeF(..) => isa::LEF,
            OperatorKind::GeI(..) => isa::GEI,
            OperatorKind::GeU(..) => isa::GEU,
            OperatorKind::GeF(..) => isa::GEF,
            OperatorKind::EqI(..) => isa::EQI,
            OperatorKind::EqU(..) => isa::EQU,
            OperatorKind::EqF(..) => isa::EQF,
            OperatorKind::NeI(..) => isa::NEI,
            OperatorKind::NeU(..) => isa::NEU,
            OperatorKind::NeF(..) => isa::NEF,
            OperatorKind::Cast_IU(..) => isa::CASTIU,
            OperatorKind::Cast_IF(..) => isa::CASTIF,
            OperatorKind::Cast_UI(..) => isa::CASTUI,
            OperatorKind::Cast_UF(..) => isa::CASTUF,
            OperatorKind::Cast_FI(..) => isa::CASTFI,
            OperatorKind::Cast_FU(..) => isa::CASTFU,
            OperatorKind::Print(..) => isa::PRINT,
        }
    }
}

/// The operator a mnemonic spells: the lowercased form of each name in the
/// catalogue.
pub open spec fn spec_operator_token(s: Seq<char>) -> Option<OperatorToken> {
    if s == "ret"@ {
        Some(OperatorToken::Ret)
    } else if s == "cpy"@ {
        Some(OperatorToken::Cpy)
    } else if s == "swap"@ {
        Some(OperatorToken::Swap)
    } else if s == "set"@ {
        Some(OperatorToken::SetOp)
    } else if s == "push"@ {
        Some(OperatorToken::Push)
    } else if s == "pop"@ {
        Some(OperatorToken::Pop)
    } else if s == "jif"@ {
        Some(OperatorToken::Jif)
    } else if s == "jnif"@ {
        Some(OperatorToken::JNif)
    } else if s == "jmp"@ {
        Some(OperatorToken::Jmp)
    } else if s == "ijif"@ {
        Some(OperatorToken::IJif)
    } else if s == "ijnif"@ {
        Some(OperatorToken::IJNif)
    } else if s == "call"@ {
        Some(OperatorToken::Call)
    } else if s == "addi"@ {
        Some(OperatorToken::AddI)
    } else if s == "addu"@ {
        Some(OperatorToken::AddU)
    } else if s == "addf"@ {
        Some(OperatorToken::AddF)
    } else if s == "subi"@ {
        Some(OperatorToken::SubI)
    } else if s == "subu"@ {
        Some(OperatorToken::SubU)
    } else if s == "subf"@ {
        Some(OperatorToken::SubF)
    } else if s == "muli"@ {
        Some(OperatorToken::MulI)
    } else if s == "mulu"@ {
        Some(OperatorToken::MulU)
    } else if s == "mulf"@ {
        Some(OperatorToken::MulF)
    } else if s == "divi"@ {
        Some(OperatorToken::DivI)
    } else if s == "divu"@ {
        Some(OperatorToken::DivU)
    } else if s == "divf"@ {
        Some(OperatorToken::DivF)
    } else if s == "remi"@ {
        Some(OperatorToken::RemI)
    } else if s == "remu"@ {
        Some(OperatorToken::RemU)
    } else if s == "remf"@ {
        Some(OperatorToken::RemF)
    } else if s == "lsi"@ {
        Some(OperatorToken::LsI)
    } else if s == "lsu"@ {
        Some(OperatorToken::LsU)
    } else if s == "rsi"@ {
        Some(OperatorToken::RsI)
    } else if s == "rsu"@ {
        Some(OperatorToken::RsU)
    } else if s == "lti"@ {
        Some(OperatorToken::LtI)
    } else if s == "ltu"@ {
        Some(OperatorToken::LtU)
    } else if s == "ltf"@ {
        Some(OperatorToken::LtF)
    } else if s == "gti"@ {
        Some(OperatorToken::GtI)
    } else if s == "gtu"@ {
        Some(OperatorToken::GtU)
    } else if s == "gtf"@ {
        Some(OperatorToken::GtF)
    } else if s == "lei"@ {
        Some(OperatorToken::LeI)
    } else if s == "leu"@ {
        Some(OperatorToken::LeU)
    } else if s == "lef"@ {
        Some(OperatorToken::LeF)
    } else if s == "gei"@ {
        Some(OperatorToken::GeI)
    } else if s == "geu"@ {
        Some(OperatorToken::GeU)
    } else if s == "gef"@ {
        Some(OperatorToken::GeF)
    } else if s == "eqi"@ {
        Some(OperatorToken::EqI)
    } else if s == "equ"@ {
        Some(OperatorToken::EqU)
    } else if s == "eqf"@ {
        Some(OperatorToken::EqF)
    } else if s == "nei"@ {
        Some(OperatorToken::NeI)
    } else if s == "neu"@ {
        Some(OperatorToken::NeU)
    } else if s == "nef"@ {
        Some(OperatorToken::NeF)
    } else if s == "cast_iu"@ {
        Some(OperatorToken::Cast_IU)
    } else if s == "cast_if"@ {
        Some(OperatorToken::Cast_IF)
    } else if s == "cast_ui"@ {
        Some(OperatorToken::Cast_UI)
    } else if s == "cast_uf"@ {
        Some(OperatorToken::Cast_UF)
    } else if s == "cast_fi"@ {
        Some(OperatorToken::Cast_FI)
    } else if s == "cast_fu"@ {
        Some(OperatorToken::Cast_FU)
    } else if s == "print"@ {
        Some(OperatorToken::Print)
    } else {
        None
    }
}


impl OperatorToken {
    /// The mnemonic this operator is written with in source.
    pub fn mnemonic(self) -> (r: &'static str) {
        let r = match self {
            OperatorToken::Ret => "ret",
            OperatorToken::Cpy => "cpy",
            OperatorToken::Swap => "swap",
            OperatorToken::SetOp => "set",
            OperatorToken::Push => "push",
            OperatorToken::Pop => "pop",
            OperatorToken::Jif => "jif",
            OperatorToken::JNif => "jnif",
            OperatorToken::Jmp => "jmp",
            OperatorToken::IJif => "ijif",
            OperatorToken::IJNif => "ijnif",
            OperatorToken::Call => "call",
            OperatorToken::AddI => "addi",
            OperatorToken::AddU => "addu",
            OperatorToken::AddF => "addf",
            OperatorToken::SubI => "subi",
            OperatorToken::SubU => "subu",
            OperatorToken::SubF => "subf",
            OperatorToken::MulI => "muli",
            OperatorToken::MulU => "mulu",
            OperatorToken::MulF => "mulf",
            OperatorToken::DivI => "divi",
            OperatorToken::DivU => "divu",
            OperatorToken::DivF => "divf",
            OperatorToken::RemI => "remi",
            OperatorToken::RemU => "remu",
            OperatorToken::RemF => "remf",
            OperatorToken::LsI => "lsi",
            OperatorToken::LsU => "lsu",
            OperatorToken::RsI => "rsi",
            OperatorToken::RsU => "rsu",
            OperatorToken::LtI => "lti",
            OperatorToken::LtU => "ltu",
            OperatorToken::LtF => "ltf",
            OperatorToken::GtI => "gti",
            OperatorToken::GtU => "gtu",
            OperatorToken::GtF => "gtf",
            OperatorToken::LeI => "lei",
            OperatorToken::LeU => "leu",
            OperatorToken::LeF => "lef",
            OperatorToken::GeI => "gei",
            OperatorToken::GeU => "geu",
            OperatorToken::GeF => "gef",
            OperatorToken::EqI => "eqi",
            OperatorToken::EqU => "equ",
            OperatorToken::EqF => "eqf",
            OperatorToken::NeI => "nei",
            OperatorToken::NeU => "neu",
            OperatorToken::NeF => "nef",
            OperatorToken::Cast_IU => "cast_iu",
            OperatorToken::Cast_IF => "cast_if",
            OperatorToken::Cast_UI => "cast_ui",
            OperatorToken::Cast_UF => "cast_uf",
            OperatorToken::Cast_FI => "cast_fi",
            OperatorToken::Cast_FU => "cast_fu",
            OperatorToken::Print => "print",
        };
        r
    }
}

/// Look a mnemonic up in the catalogue.
#[verifier::rlimit(60)]
pub fn operator_token(s: &str) -> (r: Option<OperatorToken>)
    ensures
        r == spec_operator_token(s@),
{
    if str_eq(s, "ret") {
        Some(OperatorToken::Ret)
    } else if str_eq(s, "cpy") {
        Some(OperatorToken::Cpy)
    } else if str_eq(s, "swap") {
        Some(OperatorToken::Swap)
    } else if str_eq(s, "set") {
        Some(OperatorToken::SetOp)
    } else if str_eq(s, "push") {
        Some(OperatorToken::Push)
    } else if str_eq(s, "pop") {
        Some(OperatorToken::Pop)
    } else if str_eq(s, "jif") {
        Some(OperatorToken::Jif)
    } else if str_eq(s, "jnif") {
        Some(OperatorToken::JNif)
    } else if str_eq(s, "jmp") {
        Some(OperatorToken::Jmp)
    } else if str_eq(s, "ijif") {
        Some(OperatorToken::IJif)
    } else if str_eq(s, "ijnif") {
        Some(OperatorToken::IJNif)
    } else if str_eq(s, "call") {
        Some(OperatorToken::Call)
    } else if str_eq(s, "addi") {
        Some(OperatorToken::AddI)
    } else if str_eq(s, "addu") {
        Some(OperatorToken::AddU)
    } else if str_eq(s, "addf") {
        Some(OperatorToken::AddF)
    } else if str_eq(s, "subi") {
        Some(OperatorToken::SubI)
    } else if str_eq(s, "subu") {
        Some(OperatorToken::SubU)
    } else if str_eq(s, "subf") {
        Some(OperatorToken::SubF)
    } else if str_eq(s, "muli") {
        Some(OperatorToken::MulI)
    } else if str_eq(s, "mulu") {
        Some(OperatorToken::MulU)
    } else if str_eq(s, "mulf") {
        Some(OperatorToken::MulF)
    } else if str_eq(s, "divi") {
        Some(OperatorToken::DivI)
    } else if str_eq(s, "divu") {
        Some(OperatorToken::DivU)
    } else if str_eq(s, "divf") {
        Some(OperatorToken::DivF)
    } else if str_eq(s, "remi") {
        Some(OperatorToken::RemI)
    } else if str_eq(s, "remu") {
        Some(OperatorToken::RemU)
    } else if str_eq(s, "remf") {
        Some(OperatorToken::RemF)
    } else if str_eq(s, "lsi") {
        Some(OperatorToken::LsI)
    } else if str_eq(s, "lsu") {
        Some(OperatorToken::LsU)
    } else if str_eq(s, "rsi") {
        Some(OperatorToken::RsI)
    } else if str_eq(s, "rsu") {
        Some(OperatorToken::RsU)
    } else if str_eq(s, "lti") {
        Some(OperatorToken::LtI)
    } else if str_eq(s, "ltu") {
        Some(OperatorToken::LtU)
    } else if str_eq(s, "ltf") {
        Some(OperatorToken::LtF)
    } else if str_eq(s, "gti") {
        Some(OperatorToken::GtI)
    } else if str_eq(s, "gtu") {
        Some(OperatorToken::GtU)
    } else if str_eq(s, "gtf") {
        Some(OperatorToken::GtF)
    } else if str_eq(s, "lei") {
        Some(OperatorToken::LeI)
    } else if str_eq(s, "leu") {
        Some(OperatorToken::LeU)
    } else if str_eq(s, "lef") {
        Some(OperatorToken::LeF)
    } else if str_eq(s, "gei") {
        Some(OperatorToken::GeI)
    } else if str_eq(s, "geu") {
        Some(OperatorToken::GeU)
    } else if str_eq(s, "gef") {
        Some(OperatorToken::GeF)
    } else if str_eq(s, "eqi") {
        Some(OperatorToken::EqI)
    } else if str_eq(s, "equ") {
        Some(OperatorToken::EqU)
    } else if str_eq(s, "eqf") {
        Some(OperatorToken::EqF)
    } else if str_eq(s, "nei") {
        Some(OperatorToken::NeI)
    } else if str_eq(s, "neu") {
        Some(OperatorToken::NeU)
    } else if str_eq(s, "nef") {
        Some(OperatorToken::NeF)
    } else if str_eq(s, "cast_iu") {
        Some(OperatorToken::Cast_IU)
    } else if str_eq(s, "cast_if") {
        Some(OperatorToken::Cast_IF)
    } else if str_eq(s, "cast_ui") {
        Some(OperatorToken::Cast_UI)
    } else if str_eq(s, "cast_uf") {
        Some(OperatorToken::Cast_UF)
    } else if str_eq(s, "cast_fi") {
        Some(OperatorToken::Cast_FI)
    } else if str_eq(s, "cast_fu") {
        Some(OperatorToken::Cast_FU)
    } else if str_eq(s, "print") {
        Some(OperatorToken::Print)
    } else {
        None
    }
}

} // verus!
