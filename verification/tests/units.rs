//! Unit tests for the assembler stages, the byte codecs, and the machine's
//! error cases.

use anatase::bytes::{read_u16_le, read_u32_le, read_u64_le};
use anatase::codegen::{codegen, CodegenError};
use anatase::constpool::{encode_constants, parse_constants, LoadError};
use anatase::garbage_collector::{MemoryPool, Object, ObjectData};
use anatase::container::{pack_blobs, unpack_blobs};
use anatase::lexer::{lex, map_to_hex, Keyword, TokenKind};
use anatase::operators::{operator_token, Literal, Operator, OperatorKind, OperatorToken};
use anatase::parser::{parse, Block, BlockId, Function};
use anatase::runtime::{Code, Step, VM, VmError};
use anatase::semantic_anal::analyze;
use anatase::stack::Stack;
use anatase::symbols::{SourceRange, SymbolIndex, SymbolMap};
use anatase::text::{fmt_i64, fmt_u64};
use anatase::value::Data;

#[test]
fn little_endian_reads() {
    let bytes = vec![0x01, 0x02, 0x03, 0x04, 0x05, 0x06, 0x07, 0x08, 0x09];
    assert_eq!(read_u16_le(&bytes, 0), 0x0201);
    assert_eq!(read_u32_le(&bytes, 1), 0x05040302);
    assert_eq!(read_u64_le(&bytes, 1), 0x0908070605040302);
}

#[test]
fn symbol_map_interns_once() {
    let mut m = SymbolMap::new();
    let a = m.push("alpha".to_string());
    let b = m.push("beta".to_string());
    let a2 = m.push("alpha".to_string());
    assert_eq!(a, a2);
    assert_ne!(a, b);
    assert_eq!(m.get(a), "alpha");
    assert_eq!(m.get(b), "beta");
    assert_eq!(m.find("beta"), Some(b));
    assert_eq!(m.find("gamma"), None);
}

#[test]
fn source_range_with_extends() {
    let a = SourceRange::new(1, 4);
    let b = SourceRange::new(6, 9);
    let c = a.with(b);
    assert_eq!(c.start, 1);
    assert_eq!(c.end, 9);
}

#[test]
fn map_to_hex_digits() {
    assert_eq!(map_to_hex('0'), Some(0));
    assert_eq!(map_to_hex('9'), Some(9));
    assert_eq!(map_to_hex('A'), Some(10));
    assert_eq!(map_to_hex('F'), Some(15));
    assert_eq!(map_to_hex('G'), None);
    assert_eq!(map_to_hex('a'), None);
}

#[test]
fn operator_token_mnemonics() {
    assert_eq!(operator_token("ret"), Some(OperatorToken::Ret));
    assert_eq!(operator_token("addi"), Some(OperatorToken::AddI));
    assert_eq!(operator_token("cast_fu"), Some(OperatorToken::Cast_FU));
    assert_eq!(operator_token("print"), Some(OperatorToken::Print));
    assert_eq!(operator_token("set"), Some(OperatorToken::SetOp));
    assert_eq!(operator_token("frobnicate"), None);
}

#[test]
fn lex_basic_tokens() {
    let mut m = SymbolMap::new();
    let file = m.push("t".to_string());
    let (tokens, pending) = lex(file, "fn main ~0 $e\n$e\nset @0 7\nret\n", &mut m).unwrap();
    assert!(pending.is_empty());
    assert_eq!(tokens[0].token_kind, TokenKind::Keyword(Keyword::Fn));
    assert!(matches!(tokens[1].token_kind, TokenKind::Identifier(_)));
    assert_eq!(tokens[2].token_kind, TokenKind::SquigglyDash);
    assert_eq!(tokens[3].token_kind, TokenKind::Literal(Literal::Integer(0)));
    assert_eq!(tokens[4].token_kind, TokenKind::DollarSign);
    assert!(matches!(
        tokens.last().unwrap().token_kind,
        TokenKind::EndOfFile
    ));
}

#[test]
fn lex_number_bases_and_underscores() {
    let mut m = SymbolMap::new();
    let file = m.push("t".to_string());
    let (tokens, _) = lex(file, "0b101 0o17 0xF 1_000", &mut m).unwrap();
    assert_eq!(tokens[0].token_kind, TokenKind::Literal(Literal::Integer(5)));
    assert_eq!(tokens[1].token_kind, TokenKind::Literal(Literal::Integer(15)));
    assert_eq!(tokens[2].token_kind, TokenKind::Literal(Literal::Integer(15)));
    assert_eq!(
        tokens[3].token_kind,
        TokenKind::Literal(Literal::Integer(1000))
    );
}

#[test]
fn lex_comments_and_booleans() {
    let mut m = SymbolMap::new();
    let file = m.push("t".to_string());
    let (tokens, _) = lex(file, "true -- a comment\nfalse", &mut m).unwrap();
    assert_eq!(
        tokens[0].token_kind,
        TokenKind::Literal(Literal::Bool(true))
    );
    assert_eq!(
        tokens[1].token_kind,
        TokenKind::Literal(Literal::Bool(false))
    );
    assert_eq!(tokens.len(), 3);
}

#[test]
fn lex_string_with_escapes() {
    let mut m = SymbolMap::new();
    let file = m.push("t".to_string());
    let (tokens, _) = lex(file, "\"ab\\n\\u{41}\"", &mut m).unwrap();
    match tokens[0].token_kind {
        TokenKind::Literal(Literal::Str(s)) => {
            assert_eq!(m.get(s), "ab\nA");
        }
        _ => panic!("expected a string literal"),
    }
}

#[test]
fn lex_rejects_invalid_character() {
    let mut m = SymbolMap::new();
    let file = m.push("t".to_string());
    assert!(lex(file, "set @0 ?", &mut m).is_err());
}

#[test]
fn lex_rejects_huge_number() {
    let mut m = SymbolMap::new();
    let file = m.push("t".to_string());
    assert!(lex(file, "99999999999999999999999999", &mut m).is_err());
}

#[test]
fn lex_float_literal_is_pending() {
    let mut m = SymbolMap::new();
    let file = m.push("t".to_string());
    let (tokens, pending) = lex(file, "1.5", &mut m).unwrap();
    assert_eq!(pending.len(), 1);
    assert_eq!(pending[0].int_part, 1);
    assert_eq!(pending[0].base, 10);
    assert_eq!(pending[0].frac_digits, vec![5]);
    assert_eq!(pending[0].token_index, 0);
    assert!(matches!(
        tokens[0].token_kind,
        TokenKind::Literal(Literal::Float(_))
    ));
}

fn parse_src(src: &str) -> (SymbolMap, SymbolIndex, Vec<anatase::parser::Function>) {
    let mut m = SymbolMap::new();
    let file = m.push("t".to_string());
    let (tokens, _) = lex(file, src, &mut m).unwrap();
    let fs = parse(file, tokens, &m).unwrap();
    (m, file, fs)
}

#[test]
fn parse_function_shape() {
    let (_, _, fs) = parse_src("fn main ~2 $e\n$e\nset @0 7\nret\n$x\nret\n");
    assert_eq!(fs.len(), 1);
    assert_eq!(fs[0].argc, 2);
    assert_eq!(fs[0].body.len(), 2);
    assert_eq!(fs[0].body[0].operators.len(), 2);
    assert_eq!(fs[0].body[1].operators.len(), 1);
    assert_eq!(fs[0].entry, fs[0].body[0].id);
}

#[test]
fn parse_rejects_register_out_of_range() {
    let mut m = SymbolMap::new();
    let file = m.push("t".to_string());
    let (tokens, _) = lex(file, "fn main ~0 $e\n$e\nset @900 7\nret\n", &mut m).unwrap();
    assert!(parse(file, tokens, &m).is_err());
}

#[test]
fn analyze_accepts_good_program() {
    let (mut m, file, fs) = parse_src("fn main ~0 $e\n$e\nret\n");
    assert!(analyze(file, &mut m, &fs).is_ok());
}

#[test]
fn analyze_requires_main() {
    let (mut m, file, fs) = parse_src("fn other ~0 $e\n$e\nret\n");
    assert!(analyze(file, &mut m, &fs).is_err());
}

#[test]
fn analyze_rejects_duplicate_function() {
    let (mut m, file, fs) = parse_src("fn main ~0 $e\n$e\nret\nfn main ~0 $e\n$e\nret\n");
    assert!(analyze(file, &mut m, &fs).is_err());
}

#[test]
fn analyze_rejects_missing_entry() {
    let (mut m, file, fs) = parse_src("fn main ~0 $e\n$x\nret\n");
    assert!(analyze(file, &mut m, &fs).is_err());
}

#[test]
fn analyze_rejects_undefined_callee() {
    let (mut m, file, fs) = parse_src("fn main ~0 $e\n$e\ncall @0 ghost\nret\n");
    assert!(analyze(file, &mut m, &fs).is_err());
}

#[test]
fn analyze_rejects_arity_mismatch() {
    let (mut m, file, fs) = parse_src(
        "fn add ~2 $e\n$e\naddi @0 @1 @2\nret\nfn main ~0 $e\n$e\npush 1\nset @1 3\ncall @0 add @1\nret\n",
    );
    assert!(analyze(file, &mut m, &fs).is_err());
}

#[test]
fn codegen_rejects_undefined_label() {
    let (m, _, fs) = parse_src("fn main ~0 $e\n$e\njmp $nowhere\nret\n");
    assert_eq!(codegen(&m, &fs).unwrap_err(), CodegenError::UndefinedLabel);
}

#[test]
fn codegen_rejects_missing_main_symbol() {
    let m = SymbolMap::new();
    let fs = Vec::new();
    assert_eq!(codegen(&m, &fs).unwrap_err(), CodegenError::NoMain);
}

#[test]
fn constants_round_trip() {
    let mut m = SymbolMap::new();
    let pool = vec![
        Literal::Integer(-3),
        Literal::Integer(1 << 40),
        Literal::Float((2.5f64).to_bits()),
        Literal::Bool(true),
        Literal::Bool(false),
    ];
    let blob = encode_constants(&pool, &m);
    let values = parse_constants(&blob).unwrap();
    assert_eq!(
        values,
        vec![
            Data::new_i64(-3),
            Data::new_i64(1 << 40),
            Data::new_f64((2.5f64).to_bits()),
            Data::new_bool(true),
            Data::new_bool(false),
        ]
    );
}

#[test]
fn constants_reject_unknown_tag() {
    assert_eq!(parse_constants(&vec![9u8]), Err(LoadError::UnknownTag(9)));
}

#[test]
fn constants_reject_truncated_record() {
    assert_eq!(parse_constants(&vec![0u8, 1, 2]), Err(LoadError::Truncated));
}

#[test]
fn container_round_trip() {
    let a = vec![1u8, 2, 3];
    let b = vec![9u8, 8];
    let packed = pack_blobs(&a, &b);
    let (a2, b2) = unpack_blobs(&packed).unwrap();
    assert_eq!(a, a2);
    assert_eq!(b, b2);
}

#[test]
fn container_rejects_truncation() {
    let a = vec![1u8, 2, 3];
    let b = vec![9u8, 8];
    let mut packed = pack_blobs(&a, &b);
    packed.pop();
    assert!(unpack_blobs(&packed).is_err());
}

#[test]
fn stack_window_operations() {
    let mut s = Stack::with_capacity(16);
    assert_eq!(s.bottom, 0);
    assert_eq!(s.top, 0);
    assert_eq!(s.reg(0), Data::new_uninit());
    s.set_reg(0, Data::new_i64(9));
    assert_eq!(s.reg(0), Data::new_i64(9));
}

#[test]
fn vm_reports_unknown_opcode() {
    let mut vm = VM::new(Vec::new(), vec![99u8], 16);
    assert_eq!(vm.step(), Err(VmError::UnknownOpcode(99)));
}

#[test]
fn vm_reports_truncated_instruction() {
    // COPY needs two operand bytes
    let mut vm = VM::new(Vec::new(), vec![1u8], 16);
    assert_eq!(vm.step(), Err(VmError::IpOutOfRange));
}

#[test]
fn vm_reports_stack_underflow() {
    // POP 1 with an empty window
    let mut vm = VM::new(Vec::new(), vec![8u8, 1u8], 16);
    assert_eq!(vm.step(), Err(VmError::StackUnderflow));
}

#[test]
fn vm_reports_constant_out_of_range() {
    // SET r0 <- constant 0 with an empty pool
    let mut vm = VM::new(Vec::new(), vec![3u8, 0u8, 0u8, 0u8], 16);
    assert_eq!(vm.step(), Err(VmError::ConstantOutOfRange));
}

#[test]
fn vm_halts_on_return_with_empty_callstack() {
    let mut vm = VM::new(Vec::new(), vec![0u8], 16);
    assert_eq!(vm.step(), Ok(Step::Halt));
}

#[test]
fn code_frame_fields() {
    let c = Code::new(5, 2, 7, 3);
    assert_eq!(c.ip, 5);
    assert_eq!(c.return_to, 2);
    assert_eq!(c.offset, 7);
    assert_eq!(c.argc, 3);
}

#[test]
fn vm_reports_register_out_of_range() {
    // COPY r5 <- r0 with only 4 allocated slots
    let mut vm = VM::new(Vec::new(), vec![1u8, 5u8, 0u8], 4);
    assert_eq!(vm.step(), Err(VmError::RegOutOfRange));
}

#[test]
fn vm_reports_stack_overflow() {
    // PUSH 9 with only 4 slots
    let mut vm = VM::new(Vec::new(), vec![7u8, 9u8], 4);
    assert_eq!(vm.step(), Err(VmError::StackOverflow));
}

#[test]
fn codegen_rejects_duplicate_function() {
    // straight to codegen, skipping the analysis that would catch it first
    let (m, _, fs) = parse_src("fn main ~0 $e\n$e\nret\nfn main ~0 $e\n$e\nret\n");
    assert_eq!(
        codegen(&m, &fs).unwrap_err(),
        CodegenError::DuplicateFunction
    );
}

#[test]
fn codegen_rejects_undefined_callee() {
    let (m, _, fs) = parse_src("fn main ~0 $e\n$e\ncall @0 ghost\nret\n");
    assert_eq!(
        codegen(&m, &fs).unwrap_err(),
        CodegenError::UndefinedFunction
    );
}

#[test]
fn codegen_rejects_oversized_argument_list() {
    let mut m = SymbolMap::new();
    let main = m.push("main".to_string());
    let span = SourceRange::new(0, 0);
    let entry = BlockId(main);
    let call = Operator {
        kind: OperatorKind::Call(0, main, vec![1u8; 300]),
        source_range: span,
    };
    let ret = Operator {
        kind: OperatorKind::Ret,
        source_range: span,
    };
    let f = Function {
        name: main,
        body: vec![Block {
            operators: vec![call, ret],
            id: entry,
        }],
        entry,
        declaration_range: span,
        argc: 0,
    };
    assert_eq!(codegen(&m, &vec![f]).unwrap_err(), CodegenError::TooManyArgs);
}

#[test]
fn codegen_rejects_overfull_constant_pool() {
    let mut m = SymbolMap::new();
    let main = m.push("main".to_string());
    let span = SourceRange::new(0, 0);
    let entry = BlockId(main);
    let mut operators = Vec::new();
    for v in 0..65537i64 {
        operators.push(Operator {
            kind: OperatorKind::SetOp(0, Literal::Integer(v)),
            source_range: span,
        });
    }
    operators.push(Operator {
        kind: OperatorKind::Ret,
        source_range: span,
    });
    let f = Function {
        name: main,
        body: vec![Block {
            operators,
            id: entry,
        }],
        entry,
        declaration_range: span,
        argc: 0,
    };
    assert_eq!(
        codegen(&m, &vec![f]).unwrap_err(),
        CodegenError::TooManyConstants
    );
}

#[test]
fn decimal_rendering() {
    assert_eq!(fmt_u64(0), "0");
    assert_eq!(fmt_u64(907), "907");
    assert_eq!(fmt_i64(-35), "-35");
    assert_eq!(fmt_i64(i64::MIN), "-9223372036854775808");
}

#[test]
fn token_rendering_names_kind_and_span() {
    let mut m = SymbolMap::new();
    let file = m.push("t".to_string());
    let (tokens, _) = lex(file, "ret", &mut m).unwrap();
    let text = tokens[0].pretty_print(&m);
    assert_eq!(text, "[kind: 'ret', src: 0..3]");
}

#[test]
fn lex_rejects_unterminated_string() {
    let mut m = SymbolMap::new();
    let file = m.push("t".to_string());
    assert!(lex(file, "\"abc", &mut m).is_err());
}

#[test]
fn lex_comment_only_input_has_just_eof() {
    let mut m = SymbolMap::new();
    let file = m.push("t".to_string());
    let (tokens, pending) = lex(file, "-- nothing here\n", &mut m).unwrap();
    assert_eq!(tokens.len(), 1);
    assert!(matches!(tokens[0].token_kind, TokenKind::EndOfFile));
    assert!(pending.is_empty());
}

#[test]
fn memory_pool_allocates_in_free_list_order() {
    let mut pool = MemoryPool::with_capacity(2);
    let a = pool.add(Object {
        data: ObjectData::Data([0u8; 32]),
        marked: 0,
    });
    let b = pool.add(Object {
        data: ObjectData::Data([1u8; 32]),
        marked: 0,
    });
    let c = pool.add(Object {
        data: ObjectData::Data([2u8; 32]),
        marked: 0,
    });
    assert_eq!(a, Some(0));
    assert_eq!(b, Some(1));
    assert_eq!(c, None);
}
