//! End-to-end scenarios: assemble a source program, frame and reload the
//! module, and execute it, playing host for float requests.

use anatase::codegen::codegen;
use anatase::constpool::{encode_constants, parse_constants};
use anatase::container::{pack_blobs, unpack_blobs};
use anatase::lexer::{apply_float_bits, lex};
use anatase::operators::Literal;
use anatase::parser::parse;
use anatase::runtime::{BinKind, HostOp, Step, VM, VmError};
use anatase::semantic_anal::analyze;
use anatase::symbols::SymbolMap;
use anatase::value::Data;

fn assemble(src: &str) -> (Vec<Literal>, Vec<u8>, SymbolMap) {
    let mut symbols = SymbolMap::new();
    let file = symbols.push("test.an".to_string());
    let (mut tokens, pending) = lex(file, src, &mut symbols).expect("lexing failed");
    for p in &pending {
        let mut frac = 0.0f64;
        let mut scale = 1.0f64 / p.base as f64;
        for d in &p.frac_digits {
            frac += *d as f64 * scale;
            scale /= p.base as f64;
        }
        let bits = (p.int_part as f64 + frac).to_bits();
        apply_float_bits(&mut tokens, p.token_index, bits);
    }
    let functions = parse(file, tokens, &symbols).expect("parsing failed");
    analyze(file, &mut symbols, &functions).expect("analysis failed");
    let (pool, bc) = codegen(&symbols, &functions).expect("codegen failed");
    (pool, bc, symbols)
}

fn host_compute(op: HostOp) -> Data {
    match op {
        HostOp::Bin(kind, a, b) => {
            let x = f64::from_bits(a);
            let y = f64::from_bits(b);
            match kind {
                BinKind::Add => Data::new_f64((x + y).to_bits()),
                BinKind::Sub => Data::new_f64((x - y).to_bits()),
                BinKind::Mul => Data::new_f64((x * y).to_bits()),
                BinKind::Div => Data::new_f64((x / y).to_bits()),
                BinKind::Rem => Data::new_f64((x % y).to_bits()),
                BinKind::Lt => Data::new_bool(x < y),
                BinKind::Gt => Data::new_bool(x > y),
                BinKind::Le => Data::new_bool(x <= y),
                BinKind::Ge => Data::new_bool(x >= y),
                BinKind::Eq => Data::new_bool(x == y),
                BinKind::Ne => Data::new_bool(x != y),
                _ => panic!("no float shifts"),
            }
        }
        HostOp::FromI(v) => Data::new_f64((v as f64).to_bits()),
        HostOp::FromU(v) => Data::new_f64((v as f64).to_bits()),
        HostOp::ToI(bits) => Data::new_i64(f64::from_bits(bits) as i64),
        HostOp::ToU(bits) => Data::new_u64(f64::from_bits(bits) as u64),
    }
}

/// Assemble, pack, unpack, load, and run; report the final register 0.
fn run_program(src: &str) -> Result<(Data, VM), VmError> {
    let (pool, bc, symbols) = assemble(src);
    let blob = encode_constants(&pool, &symbols);
    let module = pack_blobs(&blob, &bc);
    let (blob2, bc2) = unpack_blobs(&module).expect("container did not round-trip");
    assert_eq!(blob, blob2);
    assert_eq!(bc, bc2);
    let constants = parse_constants(&blob2).expect("constant pool did not load");
    let mut vm = VM::new(constants, bc2, 4096);
    loop {
        match vm.run(1_000_000)? {
            Step::Halt => {
                let result = vm.stack.reg(0);
                return Ok((result, vm));
            }
            Step::Host(op) => {
                let answer = host_compute(op);
                vm.resolve_host(answer).expect("host answer rejected");
            }
            Step::Continue => panic!("program ran out of fuel"),
        }
    }
}

#[test]
fn arithmetic_identity() {
    let src = "fn main ~0 $e\n$e\nset @0 7\nset @1 5\naddi @0 @0 @1\nret\n";
    let (result, _) = run_program(src).unwrap();
    assert_eq!(result, Data::new_i64(12));
}

#[test]
fn integer_division_by_zero() {
    let src = "fn main ~0 $e\n$e\nset @0 1\nset @1 0\ndivi @0 @0 @1\nret\n";
    let err = run_program(src).unwrap_err();
    assert_eq!(err, VmError::DivisionByZero);
}

#[test]
fn conditional_jump_true() {
    let src = "fn main ~0 $e\n$e\nset @0 true\njif @0 $t $f\n$t\nset @0 1\njmp $end\n$f\nset @0 2\njmp $end\n$end\nret\n";
    let (result, _) = run_program(src).unwrap();
    assert_eq!(result, Data::new_i64(1));
}

#[test]
fn conditional_jump_false() {
    let src = "fn main ~0 $e\n$e\nset @0 false\njif @0 $t $f\n$t\nset @0 1\njmp $end\n$f\nset @0 2\njmp $end\n$end\nret\n";
    let (result, _) = run_program(src).unwrap();
    assert_eq!(result, Data::new_i64(2));
}

#[test]
fn call_return_with_arguments() {
    let src = "fn add ~2 $e\n$e\naddi @0 @1 @2\nret\nfn main ~0 $e\n$e\nset @1 3\nset @2 4\ncall @0 add @1 @2\nret\n";
    let (result, vm) = run_program(src).unwrap();
    assert_eq!(result, Data::new_i64(7));
    // the call reserved argc + 1 = 3 slots on top of main's window of one;
    // the return released the two argument slots, keeping the return-value
    // slot: top went 1 -> 4 -> 2
    assert_eq!(vm.stack.top, 2);
}

#[test]
fn recursive_factorial() {
    let src = "fn fact ~1 $e\n$e\nset @2 0\neqi @3 @1 @2\nijif @3 $base\nset @2 1\nsubi @3 @1 @2\ncall @2 fact @3\nmuli @0 @1 @2\nret\n$base\nset @0 1\nret\nfn main ~0 $e\n$e\nset @1 5\ncall @0 fact @1\nret\n";
    let (result, _) = run_program(src).unwrap();
    assert_eq!(result, Data::new_i64(120));
}

#[test]
fn cast_chain() {
    let src = "fn main ~0 $e\n$e\nset @0 7\ncast_if @1 @0\ncast_fu @2 @1\nret\n";
    let (_, vm) = run_program(src).unwrap();
    // the chained cast lands in register 2 with the unsigned tag
    assert_eq!(vm.stack.reg(2), Data::new_u64(7));
}

#[test]
fn float_arithmetic_through_host() {
    let src = "fn main ~0 $e\n$e\nset @0 1.5\nset @1 2.25\naddf @2 @0 @1\ncpy @0 @2\nret\n";
    let (result, _) = run_program(src).unwrap();
    assert_eq!(result, Data::new_f64((3.75f64).to_bits()));
}

#[test]
fn float_division_by_zero_is_fatal() {
    let src = "fn main ~0 $e\n$e\nset @0 1.5\nset @1 0.0\ndivf @2 @0 @1\nret\n";
    let err = run_program(src).unwrap_err();
    assert_eq!(err, VmError::DivisionByZero);
}

#[test]
fn print_collects_output() {
    let src = "fn main ~0 $e\n$e\nset @0 41\nprint @0\nset @0 42\nprint @0\nret\n";
    let (_, vm) = run_program(src).unwrap();
    assert_eq!(vm.output, vec![Data::new_i64(41), Data::new_i64(42)]);
}

#[test]
fn unsigned_and_comparison_ops() {
    let src = "fn main ~0 $e\n$e\nset @0 10\nset @1 3\ncast_iu @0 @0\ncast_iu @1 @1\ndivu @2 @0 @1\nremu @3 @0 @1\naddu @0 @2 @3\nret\n";
    let (result, _) = run_program(src).unwrap();
    // 10 / 3 + 10 % 3 == 3 + 1
    assert_eq!(result, Data::new_u64(4));
}

#[test]
fn swap_and_copy() {
    let src = "fn main ~0 $e\n$e\nset @0 1\nset @1 2\nswap @0 @1\nret\n";
    let (result, _) = run_program(src).unwrap();
    assert_eq!(result, Data::new_i64(2));
}

#[test]
fn tag_mismatch_is_fatal() {
    let src = "fn main ~0 $e\n$e\nset @0 true\nset @1 2\naddi @0 @0 @1\nret\n";
    let err = run_program(src).unwrap_err();
    assert_eq!(err, VmError::TagMismatch);
}

#[test]
fn jump_stability_across_label_rename() {
    // renaming a block's label, with its position kept, leaves the emitted
    // bytes unchanged
    let a = "fn main ~0 $e\n$e\nset @0 true\njif @0 $t $f\n$t\nset @0 1\njmp $end\n$f\nset @0 2\njmp $end\n$end\nret\n";
    let b = "fn main ~0 $e\n$e\nset @0 true\njif @0 $taken $f\n$taken\nset @0 1\njmp $end\n$f\nset @0 2\njmp $end\n$end\nret\n";
    let (pool_a, bc_a, _) = assemble(a);
    let (pool_b, bc_b, _) = assemble(b);
    assert_eq!(bc_a, bc_b);
    assert_eq!(pool_a, pool_b);
}

#[test]
fn constant_pool_is_deduplicated() {
    let src = "fn main ~0 $e\n$e\nset @0 7\nset @1 7\nset @2 9\nset @3 7\nret\n";
    let (pool, _, _) = assemble(src);
    assert_eq!(pool, vec![Literal::Integer(7), Literal::Integer(9)]);
}

#[test]
fn prologue_calls_main_and_halts() {
    let src = "fn main ~0 $e\n$e\nset @0 5\nret\n";
    let (_, bc, _) = assemble(src);
    // CALL dst=0 target argc=0, then RETURN
    assert_eq!(bc[0], 50);
    assert_eq!(bc[1], 0);
    assert_eq!(bc[6], 0);
    assert_eq!(bc[7], 0);
    // the patched target points at the first function, right after the
    // 8-byte prologue
    assert_eq!(u32::from_le_bytes([bc[2], bc[3], bc[4], bc[5]]), 8);
}

#[test]
fn registers_above_top_are_usable_within_allocation() {
    // the window marks what a frame has claimed; access is bounded by the
    // allocation, so a frame may stage values above `top` before a push
    let src = "fn main ~0 $e\n$e\nset @5 9\ncpy @0 @5\nret\n";
    let (result, _) = run_program(src).unwrap();
    assert_eq!(result, Data::new_i64(9));
}
