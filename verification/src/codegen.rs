//! The assembler back end: two passes over one output buffer.
//!
//! The emit pass walks the functions and blocks, writes each operator's
//! opcode and operands, interns `set` literals into the constant pool, and
//! reserves four zero bytes for every jump or call target while recording
//! the slot in a pending-patch list.  The patch pass resolves every slot:
//! jumps against the function's own block offsets, calls against the whole
//! program's function offsets.
//!
//! The whole translation is written down once more as a spec-level fold
//! ([`spec_codegen`]); the executable [`codegen`] is proved to produce
//! exactly that fold's outcome, errors included.

use vstd::prelude::*;

use crate::bytes::{u16_bytes, u32_bytes};
use crate::isa;
use crate::operators::{spec_opcode_of, Literal, OperatorKind};
use crate::parser::{Block, BlockId, Function};
use crate::symbols::{spec_find_str, SymbolIndex, SymbolMap};

verus! {

broadcast use vstd::std_specs::vec::group_vec_axioms;

/// The emit pass refuses to grow the stream past this many bytes, so every
/// patched offset fits a `u32` and the cursor arithmetic cannot wrap.
pub const CODE_LIMIT: usize = 0xFFFF_0000;

/// Why code generation fails.
#[derive(Clone, Copy, Debug, PartialEq, Eq, Structural)]
pub enum CodegenError {
    /// No function named `main` is interned, so no entry call can be made.
    NoMain,
    /// Two functions carry the same name.
    DuplicateFunction,
    /// A jump names a label with no block in the function.
    UndefinedLabel,
    /// A call names a function that was never emitted.
    UndefinedFunction,
    /// The constant pool outgrew its 16-bit index space.
    TooManyConstants,
    /// The bytecode outgrew the 32-bit offset space.
    OffsetTooLarge,
    /// A call's argument list outgrew its 8-bit count.
    TooManyArgs,
    /// A patch slot no longer held the reserved zero bytes.
    PatchClobbered,
}

/// A reserved jump slot: where in the stream the target bytes sit, and the
/// labels to resolve.
#[derive(Clone, Copy, Debug, PartialEq, Eq, Structural)]
pub enum PendingJump {
    /// A `jif`/`jnif` slot: eight bytes, taken target then fallback target.
    Two { yes: BlockId, no: BlockId, at: usize },
    /// A `jmp` slot: four bytes.  The zero check guards it.
    Plain { target: BlockId, at: usize },
    /// An `ijif`/`ijnif` slot: four bytes.
    One { target: BlockId, at: usize },
}

/// The emit pass's running state: the stream, the interned pool, the jump
/// slots of the function being emitted, and the call slots of the whole
/// program.
#[verifier::ext_equal]
pub ghost struct EmitSt {
    pub bc: Seq<u8>,
    pub pool: Seq<Literal>,
    pub jumps: Seq<PendingJump>,
    pub calls: Seq<(SymbolIndex, usize)>,
}

/// The position of a literal in the pool, if it is interned.
pub open spec fn lit_find(pool: Seq<Literal>, l: Literal) -> Option<int>
    decreases pool.len(),
{
    if pool.len() == 0 {
        None
    } else if pool.first() == l {
        Some(0int)
    } else {
        match lit_find(pool.drop_first(), l) {
            Some(i) => Some(i + 1),
            None => None,
        }
    }
}

proof fn lemma_lit_find_hit(pool: Seq<Literal>, l: Literal, k: int)
    requires
        0 <= k < pool.len(),
        pool[k] == l,
        forall|j: int| 0 <= j < k ==> pool[j] != l,
    ensures
        lit_find(pool, l) == Some(k),
    decreases k,
{
    if k == 0 {
    } else {
        assert(forall|j: int| 0 <= j < k - 1 ==> #[trigger] pool.drop_first()[j] == pool[j + 1]);
        assert(pool.drop_first()[k - 1] == pool[k]);
        lemma_lit_find_hit(pool.drop_first(), l, k - 1);
    }
}

proof fn lemma_lit_find_miss(pool: Seq<Literal>, l: Literal)
    requires
        forall|j: int| 0 <= j < pool.len() ==> pool[j] != l,
    ensures
        lit_find(pool, l) is None,
    decreases pool.len(),
{
    if pool.len() == 0 {
    } else {
        assert(forall|j: int|
            0 <= j < pool.len() - 1 ==> #[trigger] pool.drop_first()[j] == pool[j + 1]);
        lemma_lit_find_miss(pool.drop_first(), l);
    }
}

/// The last binding of `id` in a block-offset table; insertion overwrites.
pub open spec fn lookup_block(assoc: Seq<(BlockId, usize)>, id: BlockId) -> Option<usize>
    decreases assoc.len(),
{
    if assoc.len() == 0 {
        None
    } else if assoc.last().0 == id {
        Some(assoc.last().1)
    } else {
        lookup_block(assoc.drop_last(), id)
    }
}

/// The last binding of `name` in a function-offset table.
pub open spec fn lookup_fn(assoc: Seq<(SymbolIndex, usize)>, name: SymbolIndex) -> Option<usize>
    decreases assoc.len(),
{
    if assoc.len() == 0 {
        None
    } else if assoc.last().0 == name {
        Some(assoc.last().1)
    } else {
        lookup_fn(assoc.drop_last(), name)
    }
}

/// Four zero bytes stand at `at`.
pub open spec fn zeros4(bc: Seq<u8>, at: int) -> bool {
    bc[at] == 0 && bc[at + 1] == 0 && bc[at + 2] == 0 && bc[at + 3] == 0
}

/// The stream with the four bytes at `at` replaced by `v`, little-endian.
pub open spec fn write4(bc: Seq<u8>, at: int, v: u32) -> Seq<u8> {
    Seq::new(
        bc.len(),
        |p: int|
            if at <= p < at + 4 {
                u32_bytes(v)[p - at]
            } else {
                bc[p]
            },
    )
}

/// Emit one operator: the opcode byte, then its operands, reserving zeroed
/// slots for targets and recording them.
#[verifier::opaque]
pub open spec fn spec_emit_op(st: EmitSt, k: OperatorKind) -> Result<EmitSt, CodegenError> {
    if st.bc.len() > CODE_LIMIT {
        Err(CodegenError::OffsetTooLarge)
    } else {
        let bc = st.bc.push(spec_opcode_of(k));
        match k {
            OperatorKind::Ret => Ok(EmitSt { bc, ..st }),
            OperatorKind::Cpy(a, b) => Ok(EmitSt { bc: bc + seq![a, b], ..st }),
            OperatorKind::Swap(a, b) => Ok(EmitSt { bc: bc + seq![a, b], ..st }),
            OperatorKind::SetOp(d, l) => {
                let idx = match lit_find(st.pool, l) {
                    Some(i) => i,
                    None => st.pool.len() as int,
                };
                let pool = match lit_find(st.pool, l) {
                    Some(_) => st.pool,
                    None => st.pool.push(l),
                };
                if idx > 0xFFFF {
                    Err(CodegenError::TooManyConstants)
                } else {
                    Ok(EmitSt { bc: bc + seq![d] + u16_bytes(idx as u16), pool, ..st })
                }
            },
            OperatorKind::Push(v) => Ok(EmitSt { bc: bc + seq![v], ..st }),
            OperatorKind::Pop(v) => Ok(EmitSt { bc: bc + seq![v], ..st }),
            OperatorKind::Jif(c, yes, no) => Ok(
                EmitSt {
                    bc: bc + seq![c] + seq![0u8, 0u8, 0u8, 0u8, 0u8, 0u8, 0u8, 0u8],
                    jumps: st.jumps.push(
                        PendingJump::Two { yes, no, at: (st.bc.len() + 2) as usize },
                    ),
                    ..st
                },
            ),
            OperatorKind::JNif(c, yes, no) => Ok(
                EmitSt {
                    bc: bc + seq![c] + seq![0u8, 0u8, 0u8, 0u8, 0u8, 0u8, 0u8, 0u8],
                    jumps: st.jumps.push(
                        PendingJump::Two { yes, no, at: (st.bc.len() + 2) as usize },
                    ),
                    ..st
                },
            ),
            OperatorKind::Jmp(t) => Ok(
                EmitSt {
                    bc: bc + seq![0u8, 0u8, 0u8, 0u8],
                    jumps: st.jumps.push(
                        PendingJump::Plain { target: t, at: (st.bc.len() + 1) as usize },
                    ),
                    ..st
                },
            ),
            OperatorKind::IJif(c, t) => Ok(
                EmitSt {
                    bc: bc + seq![c] + seq![0u8, 0u8, 0u8, 0u8],
                    jumps: st.jumps.push(
                        PendingJump::One { target: t, at: (st.bc.len() + 2) as usize },
                    ),
                    ..st
                },
            ),
            OperatorKind::IJNif(c, t) => Ok(
                EmitSt {
                    bc: bc + seq![c] + seq![0u8, 0u8, 0u8, 0u8],
                    jumps: st.jumps.push(
                        PendingJump::One { target: t, at: (st.bc.len() + 2) as usize },
                    ),
                    ..st
                },
            ),
            OperatorKind::Call(d, f, args) => {
                if args@.len() > 255 {
                    Err(CodegenError::TooManyArgs)
                } else {
                    Ok(
                        EmitSt {
                            bc: bc + seq![d] + seq![0u8, 0u8, 0u8, 0u8] + seq![
                                args@.len() as u8,
                            ] + args@,
                            calls: st.calls.push((f, (st.bc.len() + 2) as usize)),
                            ..st
                        },
                    )
                }
            },
            OperatorKind::Print(r) => Ok(EmitSt { bc: bc + seq![r], ..st }),
            OperatorKind::Cast_IU(a, b) => Ok(EmitSt { bc: bc + seq![a, b], ..st }),
            OperatorKind::Cast_IF(a, b) => Ok(EmitSt { bc: bc + seq![a, b], ..st }),
            OperatorKind::Cast_UI(a, b) => Ok(EmitSt { bc: bc + seq![a, b], ..st }),
            OperatorKind::Cast_UF(a, b) => Ok(EmitSt { bc: bc + seq![a, b], ..st }),
            OperatorKind::Cast_FI(a, b) => Ok(EmitSt { bc: bc + seq![a, b], ..st }),
            OperatorKind::Cast_FU(a, b) => Ok(EmitSt { bc: bc + seq![a, b], ..st }),
            OperatorKind::AddI(a, b, c) => Ok(EmitSt { bc: bc + seq![a, b, c], ..st }),
            OperatorKind::AddU(a, b, c) => Ok(EmitSt { bc: bc + seq![a, b, c], ..st }),
            OperatorKind::AddF(a, b, c) => Ok(EmitSt { bc: bc + seq![a, b, c], ..st }),
            OperatorKind::SubI(a, b, c) => Ok(EmitSt { bc: bc + seq![a, b, c], ..st }),
            OperatorKind::SubU(a, b, c) => Ok(EmitSt { bc: bc + seq![a, b, c], ..st }),
            OperatorKind::SubF(a, b, c) => Ok(EmitSt { bc: bc + seq![a, b, c], ..st }),
            OperatorKind::MulI(a, b, c) => Ok(EmitSt { bc: bc + seq![a, b, c], ..st }),
            OperatorKind::MulU(a, b, c) => Ok(EmitSt { bc: bc + seq![a, b, c], ..st }),
            OperatorKind::MulF(a, b, c) => Ok(EmitSt { bc: bc + seq![a, b, c], ..st }),
            OperatorKind::DivI(a, b, c) => Ok(EmitSt { bc: bc + seq![a, b, c], ..st }),
            OperatorKind::DivU(a, b, c) => Ok(EmitSt { bc: bc + seq![a, b, c], ..st }),
            OperatorKind::DivF(a, b, c) => Ok(EmitSt { bc: bc + seq![a, b, c], ..st }),
            OperatorKind::RemI(a, b, c) => Ok(EmitSt { bc: bc + seq![a, b, c], ..st }),
            OperatorKind::RemU(a, b, c) => Ok(EmitSt { bc: bc + seq![a, b, c], ..st }),
            OperatorKind::RemF(a, b, c) => Ok(EmitSt { bc: bc + seq![a, b, c], ..st }),
            OperatorKind::LsI(a, b, c) => Ok(EmitSt { bc: bc + seq![a, b, c], ..st }),
            OperatorKind::LsU(a, b, c) => Ok(EmitSt { bc: bc + seq![a, b, c], ..st }),
            OperatorKind::RsI(a, b, c) => Ok(EmitSt { bc: bc + seq![a, b, c], ..st }),
            OperatorKind::RsU(a, b, c) => Ok(EmitSt { bc: bc + seq![a, b, c], ..st }),
            OperatorKind::LtI(a, b, c) => Ok(EmitSt { bc: bc + seq![a, b, c], ..st }),
            OperatorKind::LtU(a, b, c) => Ok(EmitSt { bc: bc + seq![a, b, c], ..st }),
            OperatorKind::LtF(a, b, c) => Ok(EmitSt { bc: bc + seq![a, b, c], ..st }),
            OperatorKind::GtI(a, b, c) => Ok(EmitSt { bc: bc + seq![a, b, c], ..st }),
            OperatorKind::GtU(a, b, c) => Ok(EmitSt { bc: bc + seq![a, b, c], ..st }),
            OperatorKind::GtF(a, b, c) => Ok(EmitSt { bc: bc + seq![a, b, c], ..st }),
            OperatorKind::LeI(a, b, c) => Ok(EmitSt { bc: bc + seq![a, b, c], ..st }),
            OperatorKind::LeU(a, b, c) => Ok(EmitSt { bc: bc + seq![a, b, c], ..st }),
            OperatorKind::LeF(a, b, c) => Ok(EmitSt { bc: bc + seq![a, b, c], ..st }),
            OperatorKind::GeI(a, b, c) => Ok(EmitSt { bc: bc + seq![a, b, c], ..st }),
            OperatorKind::GeU(a, b, c) => Ok(EmitSt { bc: bc + seq![a, b, c], ..st }),
            OperatorKind::GeF(a, b, c) => Ok(EmitSt { bc: bc + seq![a, b, c], ..st }),
            OperatorKind::EqI(a, b, c) => Ok(EmitSt { bc: bc + seq![a, b, c], ..st }),
            OperatorKind::EqU(a, b, c) => Ok(EmitSt { bc: bc + seq![a, b, c], ..st }),
            OperatorKind::EqF(a, b, c) => Ok(EmitSt { bc: bc + seq![a, b, c], ..st }),
            OperatorKind::NeI(a, b, c) => Ok(EmitSt { bc: bc + seq![a, b, c], ..st }),
            OperatorKind::NeU(a, b, c) => Ok(EmitSt { bc: bc + seq![a, b, c], ..st }),
            OperatorKind::NeF(a, b, c) => Ok(EmitSt { bc: bc + seq![a, b, c], ..st }),
        }
    }
}

/// Emit a block's operators in order.
#[verifier::opaque]
pub open spec fn spec_emit_ops(st: EmitSt, ops: Seq<crate::operators::Operator>) -> Result<
    EmitSt,
    CodegenError,
>
    decreases ops.len(),
{
    if ops.len() == 0 {
        Ok(st)
    } else {
        match spec_emit_op(st, ops.first().kind) {
            Ok(st2) => spec_emit_ops(st2, ops.drop_first()),
            Err(e) => Err(e),
        }
    }
}

/// Emit a function's blocks, recording where each begins.
#[verifier::opaque]
pub open spec fn spec_emit_blocks(
    st: EmitSt,
    bstarts: Seq<(BlockId, usize)>,
    body: Seq<Block>,
) -> Result<(EmitSt, Seq<(BlockId, usize)>), CodegenError>
    decreases body.len(),
{
    if body.len() == 0 {
        Ok((st, bstarts))
    } else {
        let bstarts2 = bstarts.push((body.first().id, st.bc.len() as usize));
        match spec_emit_ops(st, body.first().operators@) {
            Ok(st2) => spec_emit_blocks(st2, bstarts2, body.drop_first()),
            Err(e) => Err(e),
        }
    }
}

/// Resolve one label against the block table, as a 32-bit offset.
pub open spec fn resolve_block(bstarts: Seq<(BlockId, usize)>, id: BlockId) -> Result<
    u32,
    CodegenError,
> {
    match lookup_block(bstarts, id) {
        None => Err(CodegenError::UndefinedLabel),
        Some(off) => if off > u32::MAX {
            Err(CodegenError::OffsetTooLarge)
        } else {
            Ok(off as u32)
        },
    }
}

/// Resolve and write one reserved jump slot.  A `jmp` slot must still hold
/// its reserved zeros when written.
pub open spec fn patch_step(
    bc: Seq<u8>,
    j: PendingJump,
    bstarts: Seq<(BlockId, usize)>,
) -> Result<Seq<u8>, CodegenError> {
    match j {
        PendingJump::Two { yes, no, at } => match resolve_block(bstarts, yes) {
            Ok(y) => match resolve_block(bstarts, no) {
                Ok(n) => Ok(write4(write4(bc, at as int, y), at + 4, n)),
                Err(e) => Err(e),
            },
            Err(e) => Err(e),
        },
        PendingJump::Plain { target, at } => match resolve_block(bstarts, target) {
            Ok(t) => if !zeros4(bc, at as int) {
                Err(CodegenError::PatchClobbered)
            } else {
                Ok(write4(bc, at as int, t))
            },
            Err(e) => Err(e),
        },
        PendingJump::One { target, at } => match resolve_block(bstarts, target) {
            Ok(t) => Ok(write4(bc, at as int, t)),
            Err(e) => Err(e),
        },
    }
}

/// Apply a function's jump patches in order.
#[verifier::opaque]
pub open spec fn spec_patch_jumps(
    bc: Seq<u8>,
    jumps: Seq<PendingJump>,
    bstarts: Seq<(BlockId, usize)>,
) -> Result<Seq<u8>, CodegenError>
    decreases jumps.len(),
{
    if jumps.len() == 0 {
        Ok(bc)
    } else {
        match patch_step(bc, jumps.first(), bstarts) {
            Ok(bc2) => spec_patch_jumps(bc2, jumps.drop_first(), bstarts),
            Err(e) => Err(e),
        }
    }
}

/// Emit one function: record its start, jump to its entry block, emit its
/// blocks, and resolve its jumps.
#[verifier::opaque]
pub open spec fn spec_emit_function(
    st: EmitSt,
    fstarts: Seq<(SymbolIndex, usize)>,
    f: Function,
) -> Result<(EmitSt, Seq<(SymbolIndex, usize)>), CodegenError> {
    if lookup_fn(fstarts, f.name) is Some {
        Err(CodegenError::DuplicateFunction)
    } else {
        let fstarts2 = fstarts.push((f.name, st.bc.len() as usize));
        match spec_emit_op(EmitSt { jumps: Seq::empty(), ..st }, OperatorKind::Jmp(f.entry)) {
            Ok(st2) => match spec_emit_blocks(st2, Seq::empty(), f.body@) {
                Ok((st3, bstarts)) => match spec_patch_jumps(st3.bc, st3.jumps, bstarts) {
                    Ok(bc) => Ok((EmitSt { bc, jumps: Seq::empty(), ..st3 }, fstarts2)),
                    Err(e) => Err(e),
                },
                Err(e) => Err(e),
            },
            Err(e) => Err(e),
        }
    }
}

/// Emit every function in order.
pub open spec fn spec_emit_functions(
    st: EmitSt,
    fstarts: Seq<(SymbolIndex, usize)>,
    fs: Seq<Function>,
) -> Result<(EmitSt, Seq<(SymbolIndex, usize)>), CodegenError>
    decreases fs.len(),
{
    if fs.len() == 0 {
        Ok((st, fstarts))
    } else {
        match spec_emit_function(st, fstarts, fs.first()) {
            Ok((st2, fstarts2)) => spec_emit_functions(st2, fstarts2, fs.drop_first()),
            Err(e) => Err(e),
        }
    }
}

/// Apply the whole-program call patches.  Every slot must still hold its
/// reserved zeros.
pub open spec fn spec_patch_calls(
    bc: Seq<u8>,
    calls: Seq<(SymbolIndex, usize)>,
    fstarts: Seq<(SymbolIndex, usize)>,
) -> Result<Seq<u8>, CodegenError>
    decreases calls.len(),
{
    if calls.len() == 0 {
        Ok(bc)
    } else {
        let (name, at) = calls.first();
        match lookup_fn(fstarts, name) {
            None => Err(CodegenError::UndefinedFunction),
            Some(off) => if off > u32::MAX {
                Err(CodegenError::OffsetTooLarge)
            } else if !zeros4(bc, at as int) {
                Err(CodegenError::PatchClobbered)
            } else {
                spec_patch_calls(write4(bc, at as int, off as u32), calls.drop_first(), fstarts)
            },
        }
    }
}

/// The module prologue: call `main` with no arguments, then return, so that
/// execution from offset 0 runs `main` and halts on its return.  The call's
/// target slot is byte 2.
pub open spec fn spec_prologue() -> Seq<u8> {
    seq![isa::CALL, 0u8, 0u8, 0u8, 0u8, 0u8, 0u8, isa::RETURN]
}

/// The whole translation: prologue, every function, then the call patches.
pub open spec fn spec_codegen(symbols: Seq<Seq<char>>, fs: Seq<Function>) -> Result<
    (Seq<Literal>, Seq<u8>),
    CodegenError,
> {
    match spec_find_str(symbols, "main"@) {
        None => Err(CodegenError::NoMain),
        Some(m) => {
            let main = SymbolIndex(m as usize);
            let st0 = EmitSt {
                bc: spec_prologue(),
                pool: Seq::empty(),
                jumps: Seq::empty(),
                calls: seq![(main, 2usize)],
            };
            match spec_emit_functions(st0, Seq::empty(), fs) {
                Ok((st, fstarts)) => match spec_patch_calls(st.bc, st.calls, fstarts) {
                    Ok(bc) => Ok((st.pool, bc)),
                    Err(e) => Err(e),
                },
                Err(e) => Err(e),
            }
        },
    }
}

/// Every recorded call slot lies inside the stream.
pub open spec fn calls_within(st: EmitSt) -> bool {
    forall|i: int| 0 <= i < st.calls.len() ==> (#[trigger] st.calls[i]).1 + 4 <= st.bc.len()
}

/// Every recorded jump slot lies inside the stream.
pub open spec fn jumps_within(st: EmitSt) -> bool {
    forall|i: int|
        0 <= i < st.jumps.len() ==> (match #[trigger] st.jumps[i] {
            PendingJump::Two { at, .. } => at + 8 <= st.bc.len(),
            PendingJump::Plain { at, .. } => at + 4 <= st.bc.len(),
            PendingJump::One { at, .. } => at + 4 <= st.bc.len(),
        })
}

/// One emitted operator only appends, and keeps every recorded slot inside
/// the stream.
proof fn lemma_emit_op_frame(st: EmitSt, k: OperatorKind)
    requires
        calls_within(st),
        jumps_within(st),
    ensures
        spec_emit_op(st, k) matches Ok(st2) ==> {
            &&& st2.bc.len() >= st.bc.len()
            &&& calls_within(st2)
            &&& jumps_within(st2)
        },
{
    reveal(spec_emit_op);
}

/// Emitting a run of operators only appends and keeps slots inside.
proof fn lemma_emit_ops_frame(st: EmitSt, ops: Seq<crate::operators::Operator>)
    requires
        calls_within(st),
        jumps_within(st),
    ensures
        spec_emit_ops(st, ops) matches Ok(st2) ==> {
            &&& st2.bc.len() >= st.bc.len()
            &&& calls_within(st2)
            &&& jumps_within(st2)
        },
    decreases ops.len(),
{
    reveal(spec_emit_ops);
    if ops.len() == 0 {
    } else {
        lemma_emit_op_frame(st, ops.first().kind);
        match spec_emit_op(st, ops.first().kind) {
            Ok(st2) => {
                lemma_emit_ops_frame(st2, ops.drop_first());
            },
            Err(_) => {},
        }
    }
}

/// Emitting blocks only appends and keeps slots inside.
proof fn lemma_emit_blocks_frame(st: EmitSt, bstarts: Seq<(BlockId, usize)>, body: Seq<Block>)
    requires
        calls_within(st),
        jumps_within(st),
    ensures
        spec_emit_blocks(st, bstarts, body) matches Ok((st2, _)) ==> {
            &&& st2.bc.len() >= st.bc.len()
            &&& calls_within(st2)
            &&& jumps_within(st2)
        },
    decreases body.len(),
{
    reveal(spec_emit_blocks);
    if body.len() == 0 {
    } else {
        lemma_emit_ops_frame(st, body.first().operators@);
        match spec_emit_ops(st, body.first().operators@) {
            Ok(st2) => {
                lemma_emit_blocks_frame(
                    st2,
                    bstarts.push((body.first().id, st.bc.len() as usize)),
                    body.drop_first(),
                );
            },
            Err(_) => {},
        }
    }
}

/// Folding one more function is folding the prefix and then that function.
#[verifier::rlimit(100)]
#[verifier::spinoff_prover]
proof fn lemma_emit_functions_snoc(
    st: EmitSt,
    fstarts: Seq<(SymbolIndex, usize)>,
    fs: Seq<Function>,
)
    requires
        fs.len() >= 1,
    ensures
        spec_emit_functions(st, fstarts, fs) == (match spec_emit_functions(
            st,
            fstarts,
            fs.drop_last(),
        ) {
            Ok((st2, fstarts2)) => spec_emit_function(st2, fstarts2, fs.last()),
            Err(e) => Err(e),
        }),
    decreases fs.len(),
{
    if fs.len() == 1 {
        assert(fs.drop_last() =~= Seq::<Function>::empty());
        assert(fs.drop_first() =~= Seq::<Function>::empty());
        assert(fs.first() == fs.last());
        match spec_emit_function(st, fstarts, fs.first()) {
            Ok((a, b)) => {
                assert(spec_emit_functions(a, b, fs.drop_first()) == Ok::<
                    (EmitSt, Seq<(SymbolIndex, usize)>),
                    CodegenError,
                >((a, b)));
            },
            Err(_) => {},
        }
    } else {
        assert(fs.drop_first().drop_last() =~= fs.drop_last().drop_first());
        assert(fs.drop_first().last() == fs.last());
        assert(fs.drop_last().first() == fs.first());
        match spec_emit_function(st, fstarts, fs.first()) {
            Ok((st2, fstarts2)) => {
                lemma_emit_functions_snoc(st2, fstarts2, fs.drop_first());
                assert(spec_emit_functions(st, fstarts, fs) == spec_emit_functions(
                    st2,
                    fstarts2,
                    fs.drop_first(),
                ));
                assert(spec_emit_functions(st, fstarts, fs.drop_last()) == spec_emit_functions(
                    st2,
                    fstarts2,
                    fs.drop_last().drop_first(),
                ));
            },
            Err(_) => {},
        }
    }
}

/// The emit pass's executable state.
pub struct GenState {
    pub bc: Vec<u8>,
    pub pool: Vec<Literal>,
    pub jumps: Vec<PendingJump>,
    pub calls: Vec<(SymbolIndex, usize)>,
}

impl View for GenState {
    type V = EmitSt;

    open spec fn view(&self) -> EmitSt {
        EmitSt { bc: self.bc@, pool: self.pool@, jumps: self.jumps@, calls: self.calls@ }
    }
}

/// Find a literal in the pool.
fn find_literal(pool: &Vec<Literal>, l: Literal) -> (r: Option<usize>)
    ensures
        match r {
            Some(i) => lit_find(pool@, l) == Some(i as int),
            None => lit_find(pool@, l) is None,
        },
{
    let mut i: usize = 0;
    while i < pool.len()
        invariant
            i <= pool@.len(),
            forall|j: int| 0 <= j < i ==> pool@[j] != l,
        decreases pool@.len() - i,
    {
        if pool[i] == l {
            proof {
                lemma_lit_find_hit(pool@, l, i as int);
            }
            return Some(i);
        }
        i = i + 1;
    }
    proof {
        lemma_lit_find_miss(pool@, l);
    }
    None
}

/// Look a label up in a block-offset table, last binding first.
fn find_block(assoc: &Vec<(BlockId, usize)>, id: BlockId) -> (r: Option<usize>)
    ensures
        r == lookup_block(assoc@, id),
{
    let mut i: usize = assoc.len();
    assert(assoc@.subrange(0, assoc@.len() as int) =~= assoc@);
    while i > 0
        invariant
            i <= assoc@.len(),
            lookup_block(assoc@, id) == lookup_block(assoc@.subrange(0, i as int), id),
        decreases i,
    {
        i = i - 1;
        let (k, v) = assoc[i];
        assert(assoc@.subrange(0, i + 1 as int).last() == assoc@[i as int]);
        assert(assoc@.subrange(0, i + 1 as int).drop_last() =~= assoc@.subrange(0, i as int));
        if k == id {
            return Some(v);
        }
    }
    assert(assoc@.subrange(0, 0) =~= Seq::<(BlockId, usize)>::empty());
    None
}

/// Look a function up in a function-offset table, last binding first.
fn find_fn(assoc: &Vec<(SymbolIndex, usize)>, name: SymbolIndex) -> (r: Option<usize>)
    ensures
        r == lookup_fn(assoc@, name),
{
    let mut i: usize = assoc.len();
    assert(assoc@.subrange(0, assoc@.len() as int) =~= assoc@);
    while i > 0
        invariant
            i <= assoc@.len(),
            lookup_fn(assoc@, name) == lookup_fn(assoc@.subrange(0, i as int), name),
        decreases i,
    {
        i = i - 1;
        let (k, v) = assoc[i];
        assert(assoc@.subrange(0, i + 1 as int).last() == assoc@[i as int]);
        assert(assoc@.subrange(0, i + 1 as int).drop_last() =~= assoc@.subrange(0, i as int));
        if k == name {
            return Some(v);
        }
    }
    assert(assoc@.subrange(0, 0) =~= Seq::<(SymbolIndex, usize)>::empty());
    None
}

/// Resolve a label to its 32-bit block offset.
fn resolve_block_exec(bstarts: &Vec<(BlockId, usize)>, id: BlockId) -> (r: Result<
    u32,
    CodegenError,
>)
    ensures
        r == resolve_block(bstarts@, id),
{
    match find_block(bstarts, id) {
        Some(off) => {
            if off as u64 > u32::MAX as u64 {
                Err(CodegenError::OffsetTooLarge)
            } else {
                Ok(off as u32)
            }
        },
        None => Err(CodegenError::UndefinedLabel),
    }
}

/// Overwrite the four bytes at `at` with a little-endian offset.
fn write4_exec(bc: &mut Vec<u8>, at: usize, v: u32)
    requires
        at + 4 <= old(bc).len(),
    ensures
        final(bc)@ == write4(old(bc)@, at as int, v),
        final(bc)@.len() == old(bc)@.len(),
{
    bc[at] = (v % 0x100) as u8;
    bc[at + 1] = ((v / 0x100) % 0x100) as u8;
    bc[at + 2] = ((v / 0x1_0000) % 0x100) as u8;
    bc[at + 3] = ((v / 0x100_0000) % 0x100) as u8;
    assert(final(bc)@ =~= write4(old(bc)@, at as int, v));
}

impl GenState {
    /// Emit one operator, as [`spec_emit_op`] describes.
    #[verifier::rlimit(100)]
    #[verifier::spinoff_prover]
    #[verifier::loop_isolation(false)]
    fn emit_op(&mut self, k: &OperatorKind) -> (r: Result<(), CodegenError>)
        ensures
            match r {
                Ok(_) => spec_emit_op(old(self)@, *k) == Ok::<EmitSt, CodegenError>(final(self)@),
                Err(e) => spec_emit_op(old(self)@, *k) == Err::<EmitSt, CodegenError>(e),
            },
    {
        proof {
            reveal(spec_emit_op);
        }
        if self.bc.len() > CODE_LIMIT {
            return Err(CodegenError::OffsetTooLarge);
        }
        let ghost base = self@;
        self.bc.push(k.as_bytecode());
        match k {
            OperatorKind::Ret => {
                assert(self.bc@ =~= base.bc.push(spec_opcode_of(*k)));
                assert(spec_emit_op(base, *k) == Ok::<EmitSt, CodegenError>(self@));
            },
            OperatorKind::Cpy(a, b)
            | OperatorKind::Swap(a, b)
            | OperatorKind::Cast_IU(a, b)
            | OperatorKind::Cast_IF(a, b)
            | OperatorKind::Cast_UI(a, b)
            | OperatorKind::Cast_UF(a, b)
            | OperatorKind::Cast_FI(a, b)
            | OperatorKind::Cast_FU(a, b) => {
                self.bc.push(*a);
                self.bc.push(*b);
                assert(self.bc@ =~= base.bc.push(spec_opcode_of(*k)) + seq![*a, *b]);
                assert(spec_emit_op(base, *k) == Ok::<EmitSt, CodegenError>(self@));
            },
            OperatorKind::SetOp(d, l) => {
                let idx = match find_literal(&self.pool, *l) {
                    Some(i) => i,
                    None => {
                        let n = self.pool.len();
                        self.pool.push(*l);
                        n
                    },
                };
                if idx > 0xFFFF {
                    return Err(CodegenError::TooManyConstants);
                }
                self.bc.push(*d);
                let x = idx as u16;
                self.bc.push((x % 0x100) as u8);
                self.bc.push(((x / 0x100) % 0x100) as u8);
                assert(self.bc@ =~= base.bc.push(spec_opcode_of(*k)) + seq![*d] + u16_bytes(
                    (idx as u16),
                ));
                assert(spec_emit_op(base, *k) == Ok::<EmitSt, CodegenError>(self@));
            },
            OperatorKind::Push(v) | OperatorKind::Pop(v) | OperatorKind::Print(v) => {
                self.bc.push(*v);
                assert(self.bc@ =~= base.bc.push(spec_opcode_of(*k)) + seq![*v]);
                assert(spec_emit_op(base, *k) == Ok::<EmitSt, CodegenError>(self@));
            },
            OperatorKind::Jif(c, yes, no) | OperatorKind::JNif(c, yes, no) => {
                let at = self.bc.len() + 1;
                self.bc.push(*c);
                let mut z: usize = 0;
                while z < 8
                    invariant
                        z <= 8,
                        self.pool@ == base.pool,
                        self.jumps@ == base.jumps,
                        self.calls@ == base.calls,
                        at == base.bc.len() + 2,
                        self.bc@ == base.bc.push(spec_opcode_of(*k)) + seq![*c] + Seq::new(
                            z as nat,
                            |q: int| 0u8,
                        ),
                    decreases 8 - z,
                {
                    self.bc.push(0u8);
                    assert(self.bc@ =~= base.bc.push(spec_opcode_of(*k)) + seq![*c] + Seq::new(
                        (z + 1) as nat,
                        |q: int| 0u8,
                    ));
                    z = z + 1;
                }
                assert(Seq::new(8nat, |q: int| 0u8) =~= seq![
                    0u8,
                    0u8,
                    0u8,
                    0u8,
                    0u8,
                    0u8,
                    0u8,
                    0u8,
                ]);
                self.jumps.push(PendingJump::Two { yes: *yes, no: *no, at });
                assert(spec_emit_op(base, *k) == Ok::<EmitSt, CodegenError>(self@));
            },
            OperatorKind::Jmp(t) => {
                let at = self.bc.len();
                self.bc.push(0u8);
                self.bc.push(0u8);
                self.bc.push(0u8);
                self.bc.push(0u8);
                assert(self.bc@ =~= base.bc.push(spec_opcode_of(*k)) + seq![0u8, 0u8, 0u8, 0u8]);
                self.jumps.push(PendingJump::Plain { target: *t, at });
                assert(spec_emit_op(base, *k) == Ok::<EmitSt, CodegenError>(self@));
            },
            OperatorKind::IJif(c, t) | OperatorKind::IJNif(c, t) => {
                let at = self.bc.len() + 1;
                self.bc.push(*c);
                self.bc.push(0u8);
                self.bc.push(0u8);
                self.bc.push(0u8);
                self.bc.push(0u8);
                assert(self.bc@ =~= base.bc.push(spec_opcode_of(*k)) + seq![*c] + seq![
                    0u8,
                    0u8,
                    0u8,
                    0u8,
                ]);
                self.jumps.push(PendingJump::One { target: *t, at });
                assert(spec_emit_op(base, *k) == Ok::<EmitSt, CodegenError>(self@));
            },
            OperatorKind::Call(d, f, args) => {
                if args.len() > 255 {
                    return Err(CodegenError::TooManyArgs);
                }
                let at = self.bc.len() + 1;
                self.bc.push(*d);
                self.bc.push(0u8);
                self.bc.push(0u8);
                self.bc.push(0u8);
                self.bc.push(0u8);
                self.bc.push(args.len() as u8);
                let ghost mid = self.bc@;
                let mut q: usize = 0;
                while q < args.len()
                    invariant
                        q <= args@.len(),
                        self.pool@ == base.pool,
                        self.jumps@ == base.jumps,
                        self.calls@ == base.calls,
                        at == base.bc.len() + 2,
                        mid == base.bc.push(spec_opcode_of(*k)) + seq![*d] + seq![
                            0u8,
                            0u8,
                            0u8,
                            0u8,
                        ] + seq![args@.len() as u8],
                        self.bc@ == mid + args@.subrange(0, q as int),
                    decreases args@.len() - q,
                {
                    self.bc.push(args[q]);
                    assert(self.bc@ =~= mid + args@.subrange(0, q + 1 as int));
                    q = q + 1;
                }
                assert(args@.subrange(0, args@.len() as int) =~= args@);
                assert(self.bc@ =~= base.bc.push(spec_opcode_of(*k)) + seq![*d] + seq![
                    0u8,
                    0u8,
                    0u8,
                    0u8,
                ] + seq![args@.len() as u8] + args@);
                self.calls.push((*f, at));
                assert(spec_emit_op(base, *k) == Ok::<EmitSt, CodegenError>(self@));
            },
            OperatorKind::AddI(a, b, c)
            | OperatorKind::AddU(a, b, c)
            | OperatorKind::AddF(a, b, c)
            | OperatorKind::SubI(a, b, c)
            | OperatorKind::SubU(a, b, c)
            | OperatorKind::SubF(a, b, c)
            | OperatorKind::MulI(a, b, c)
            | OperatorKind::MulU(a, b, c)
            | OperatorKind::MulF(a, b, c)
            | OperatorKind::DivI(a, b, c)
            | OperatorKind::DivU(a, b, c)
            | OperatorKind::DivF(a, b, c)
            | OperatorKind::RemI(a, b, c)
            | OperatorKind::RemU(a, b, c)
            | OperatorKind::RemF(a, b, c)
            | OperatorKind::LsI(a, b, c)
            | OperatorKind::LsU(a, b, c)
            | OperatorKind::RsI(a, b, c)
            | OperatorKind::RsU(a, b, c)
            | OperatorKind::LtI(a, b, c)
            | OperatorKind::LtU(a, b, c)
            | OperatorKind::LtF(a, b, c)
            | OperatorKind::GtI(a, b, c)
            | OperatorKind::GtU(a, b, c)
            | OperatorKind::GtF(a, b, c)
            | OperatorKind::LeI(a, b, c)
            | OperatorKind::LeU(a, b, c)
            | OperatorKind::LeF(a, b, c)
            | OperatorKind::GeI(a, b, c)
            | OperatorKind::GeU(a, b, c)
            | OperatorKind::GeF(a, b, c)
            | OperatorKind::EqI(a, b, c)
            | OperatorKind::EqU(a, b, c)
            | OperatorKind::EqF(a, b, c)
            | OperatorKind::NeI(a, b, c)
            | OperatorKind::NeU(a, b, c)
            | OperatorKind::NeF(a, b, c) => {
                self.bc.push(*a);
                self.bc.push(*b);
                self.bc.push(*c);
                assert(self.bc@ =~= base.bc.push(spec_opcode_of(*k)) + seq![*a, *b, *c]);
                assert(spec_emit_op(base, *k) == Ok::<EmitSt, CodegenError>(self@));
            },
        }
        Ok(())
    }

    /// Emit one function and resolve its jumps, as [`spec_emit_function`]
    /// describes.
    #[verifier::rlimit(100)]
    #[verifier::spinoff_prover]
    #[verifier::loop_isolation(false)]
    fn emit_function(&mut self, fstarts: &mut Vec<(SymbolIndex, usize)>, f: &Function) -> (r:
        Result<(), CodegenError>)
        requires
            calls_within(old(self)@),
            old(self)@.jumps.len() == 0,
        ensures
            match r {
                Ok(_) => spec_emit_function(old(self)@, old(fstarts)@, *f) == Ok::<
                    (EmitSt, Seq<(SymbolIndex, usize)>),
                    CodegenError,
                >((final(self)@, final(fstarts)@)) && calls_within(final(self)@)
                    && final(self)@.jumps.len() == 0,
                Err(e) => spec_emit_function(old(self)@, old(fstarts)@, *f) == Err::<
                    (EmitSt, Seq<(SymbolIndex, usize)>),
                    CodegenError,
                >(e),
            },
    {
        proof {
            reveal(spec_emit_function);
            reveal(spec_emit_ops);
            reveal(spec_emit_blocks);
        }
        let ghost st0 = self@;
        if find_fn(fstarts, f.name).is_some() {
            return Err(CodegenError::DuplicateFunction);
        }
        fstarts.push((f.name, self.bc.len()));
        assert(EmitSt { jumps: Seq::<PendingJump>::empty(), ..st0 } =~= st0);
        let entry_jmp = OperatorKind::Jmp(f.entry);
        match self.emit_op(&entry_jmp) {
            Ok(_) => {},
            Err(e) => { return Err(e) },
        }
        let ghost st2 = self@;
        let mut bstarts: Vec<(BlockId, usize)> = Vec::new();
        proof {
            assert(bstarts@ =~= Seq::<(BlockId, usize)>::empty());
            assert(f.body@.subrange(0, f.body@.len() as int) =~= f.body@);
        }
        let mut bi: usize = 0;
        while bi < f.body.len()
            invariant
                bi <= f.body@.len(),
                calls_within(st0),
                spec_emit_blocks(st2, Seq::<(BlockId, usize)>::empty(), f.body@) == (
                match spec_emit_blocks(self@, bstarts@, f.body@.subrange(
                    bi as int,
                    f.body@.len() as int,
                )) {
                    Ok(v) => Ok::<(EmitSt, Seq<(BlockId, usize)>), CodegenError>(v),
                    Err(e) => Err::<(EmitSt, Seq<(BlockId, usize)>), CodegenError>(e),
                }),
            decreases f.body@.len() - bi,
        {
            let ghost before = self@;
            let ghost rem = f.body@.subrange(bi as int, f.body@.len() as int);
            bstarts.push((f.body[bi].id, self.bc.len()));
            let block = &f.body[bi];
            proof {
                assert(f.body@[bi as int].operators@.subrange(
                    0,
                    f.body@[bi as int].operators@.len() as int,
                ) =~= f.body@[bi as int].operators@);
            }
            let mut oi: usize = 0;
            while oi < block.operators.len()
                invariant
                    oi <= block.operators@.len(),
                    block == &f.body@[bi as int],
                    bi < f.body@.len(),
                    spec_emit_ops(before, f.body@[bi as int].operators@) == (
                    match spec_emit_ops(self@, f.body@[bi as int].operators@.subrange(
                        oi as int,
                        f.body@[bi as int].operators@.len() as int,
                    )) {
                        Ok(v) => Ok::<EmitSt, CodegenError>(v),
                        Err(e) => Err::<EmitSt, CodegenError>(e),
                    }),
                decreases block.operators@.len() - oi,
            {
                let ghost ops_rem = f.body@[bi as int].operators@.subrange(
                    oi as int,
                    f.body@[bi as int].operators@.len() as int,
                );
                assert(ops_rem.first() == f.body@[bi as int].operators@[oi as int]);
                match self.emit_op(&block.operators[oi].kind) {
                    Ok(_) => {},
                    Err(e) => {
                        proof {
                            assert(spec_emit_ops(before, f.body@[bi as int].operators@)
                                == Err::<EmitSt, CodegenError>(e));
                        }
                        return Err(e);
                    },
                }
                proof {
                    assert(ops_rem.drop_first() =~= f.body@[bi as int].operators@.subrange(
                        oi + 1 as int,
                        f.body@[bi as int].operators@.len() as int,
                    ));
                }
                oi = oi + 1;
            }
            proof {
                assert(f.body@[bi as int].operators@.subrange(
                    f.body@[bi as int].operators@.len() as int,
                    f.body@[bi as int].operators@.len() as int,
                ) =~= Seq::<crate::operators::Operator>::empty());
                assert(rem.first() == f.body@[bi as int]);
                assert(rem.drop_first() =~= f.body@.subrange(bi + 1 as int, f.body@.len() as int));
            }
            bi = bi + 1;
        }
        proof {
            assert(f.body@.subrange(f.body@.len() as int, f.body@.len() as int) =~= Seq::<
                Block,
            >::empty());
            assert(spec_emit_blocks(st2, Seq::<(BlockId, usize)>::empty(), f.body@) == Ok::<
                (EmitSt, Seq<(BlockId, usize)>),
                CodegenError,
            >((self@, bstarts@)));
            lemma_emit_op_frame(st0, entry_jmp);
            lemma_emit_blocks_frame(st2, Seq::<(BlockId, usize)>::empty(), f.body@);
        }
        let ghost stb = self@;
        match self.patch_jumps_exec(&bstarts) {
            Ok(_) => {
                proof {
                    assert(self@ =~= EmitSt {
                        bc: self@.bc,
                        pool: stb.pool,
                        jumps: Seq::<PendingJump>::empty(),
                        calls: stb.calls,
                    });
                }
            },
            Err(e) => { return Err(e) },
        }
        Ok(())
    }

    /// Resolve and write one jump slot.
    #[verifier::rlimit(100)]
    #[verifier::spinoff_prover]
    fn patch_one(&mut self, j: PendingJump, bstarts: &Vec<(BlockId, usize)>) -> (r: Result<
        (),
        CodegenError,
    >)
        requires
            match j {
                PendingJump::Two { at, .. } => at + 8 <= old(self).bc.len(),
                PendingJump::Plain { at, .. } => at + 4 <= old(self).bc.len(),
                PendingJump::One { at, .. } => at + 4 <= old(self).bc.len(),
            },
        ensures
            match r {
                Ok(_) => {
                    &&& patch_step(old(self)@.bc, j, bstarts@) == Ok::<Seq<u8>, CodegenError>(
                        final(self)@.bc,
                    )
                    &&& final(self)@.pool == old(self)@.pool
                    &&& final(self)@.calls == old(self)@.calls
                    &&& final(self)@.jumps == old(self)@.jumps
                    &&& final(self)@.bc.len() == old(self)@.bc.len()
                },
                Err(e) => patch_step(old(self)@.bc, j, bstarts@) == Err::<Seq<u8>, CodegenError>(
                    e,
                ) && final(self)@ == old(self)@,
            },
    {
        match j {
            PendingJump::Two { yes, no, at } => {
                let y = match resolve_block_exec(bstarts, yes) {
                    Ok(v) => v,
                    Err(e) => { return Err(e) },
                };
                let n = match resolve_block_exec(bstarts, no) {
                    Ok(v) => v,
                    Err(e) => { return Err(e) },
                };
                write4_exec(&mut self.bc, at, y);
                write4_exec(&mut self.bc, at + 4, n);
                Ok(())
            },
            PendingJump::Plain { target, at } => {
                let t = match resolve_block_exec(bstarts, target) {
                    Ok(v) => v,
                    Err(e) => { return Err(e) },
                };
                if self.bc[at] != 0 || self.bc[at + 1] != 0 || self.bc[at + 2] != 0 || self.bc[at
                    + 3] != 0 {
                    return Err(CodegenError::PatchClobbered);
                }
                write4_exec(&mut self.bc, at, t);
                Ok(())
            },
            PendingJump::One { target, at } => {
                let t = match resolve_block_exec(bstarts, target) {
                    Ok(v) => v,
                    Err(e) => { return Err(e) },
                };
                write4_exec(&mut self.bc, at, t);
                Ok(())
            },
        }
    }

    /// Resolve the pending jump slots of the function just emitted.
    #[verifier::rlimit(100)]
    #[verifier::spinoff_prover]
    #[verifier::loop_isolation(false)]
    fn patch_jumps_exec(&mut self, bstarts: &Vec<(BlockId, usize)>) -> (r: Result<
        (),
        CodegenError,
    >)
        requires
            jumps_within(old(self)@),
        ensures
            match r {
                Ok(_) => {
                    &&& spec_patch_jumps(old(self)@.bc, old(self)@.jumps, bstarts@) == Ok::<
                        Seq<u8>,
                        CodegenError,
                    >(final(self)@.bc)
                    &&& final(self)@.pool == old(self)@.pool
                    &&& final(self)@.calls == old(self)@.calls
                    &&& final(self)@.jumps.len() == 0
                    &&& final(self)@.bc.len() == old(self)@.bc.len()
                },
                Err(e) => spec_patch_jumps(old(self)@.bc, old(self)@.jumps, bstarts@) == Err::<
                    Seq<u8>,
                    CodegenError,
                >(e),
            },
    {
        proof {
            reveal(spec_patch_jumps);
        }
        let ghost st3 = self@;
        assert(st3.jumps.subrange(0, st3.jumps.len() as int) =~= st3.jumps);
        let mut ji: usize = 0;
        while ji < self.jumps.len()
            invariant
                ji <= self.jumps@.len(),
                self.jumps@ == st3.jumps,
                self.pool@ == st3.pool,
                self.calls@ == st3.calls,
                self.bc@.len() == st3.bc.len(),
                jumps_within(st3),
                spec_patch_jumps(st3.bc, st3.jumps, bstarts@) == (match spec_patch_jumps(
                    self.bc@,
                    st3.jumps.subrange(ji as int, st3.jumps.len() as int),
                    bstarts@,
                ) {
                    Ok(v) => Ok::<Seq<u8>, CodegenError>(v),
                    Err(e) => Err::<Seq<u8>, CodegenError>(e),
                }),
            decreases self.jumps@.len() - ji,
        {
            let ghost jrem = st3.jumps.subrange(ji as int, st3.jumps.len() as int);
            assert(jrem.first() == st3.jumps[ji as int]);
            assert(jrem.drop_first() =~= st3.jumps.subrange(ji + 1 as int, st3.jumps.len() as int));
            let j = self.jumps[ji];
            match self.patch_one(j, bstarts) {
                Ok(_) => {},
                Err(e) => { return Err(e) },
            }
            ji = ji + 1;
        }
        proof {
            assert(st3.jumps.subrange(st3.jumps.len() as int, st3.jumps.len() as int) =~= Seq::<
                PendingJump,
            >::empty());
        }
        self.jumps = Vec::new();
        Ok(())
    }
}
/// Translate an analyzed program into its constant pool and bytecode, as
/// [`spec_codegen`] describes.
#[verifier::rlimit(100)]
#[verifier::spinoff_prover]
#[verifier::loop_isolation(false)]
pub fn codegen(symbol_map: &SymbolMap, functions: &Vec<Function>) -> (r: Result<
    (Vec<Literal>, Vec<u8>),
    CodegenError,
>)
    ensures
        match r {
            Ok((pool, bc)) => spec_codegen(symbol_map@, functions@) == Ok::<
                (Seq<Literal>, Seq<u8>),
                CodegenError,
            >((pool@, bc@)),
            Err(e) => spec_codegen(symbol_map@, functions@) == Err::<
                (Seq<Literal>, Seq<u8>),
                CodegenError,
            >(e),
        },
{
    let main = match symbol_map.find("main") {
        Some(m) => m,
        None => { return Err(CodegenError::NoMain) },
    };
    let mut bc: Vec<u8> = Vec::new();
    bc.push(isa::CALL);
    bc.push(0u8);
    bc.push(0u8);
    bc.push(0u8);
    bc.push(0u8);
    bc.push(0u8);
    bc.push(0u8);
    bc.push(isa::RETURN);
    assert(bc@ =~= spec_prologue());
    let mut calls: Vec<(SymbolIndex, usize)> = Vec::new();
    calls.push((main, 2usize));
    let mut st = GenState { bc, pool: Vec::new(), jumps: Vec::new(), calls };
    let ghost st0 = st@;
    assert(st0.calls =~= seq![(main, 2usize)]);
    assert(calls_within(st0));
    let mut fstarts: Vec<(SymbolIndex, usize)> = Vec::new();
    let mut fi: usize = 0;
    while fi < functions.len()
        invariant
            fi <= functions@.len(),
            spec_emit_functions(st0, Seq::<(SymbolIndex, usize)>::empty(), functions@.subrange(
                0,
                fi as int,
            )) == Ok::<(EmitSt, Seq<(SymbolIndex, usize)>), CodegenError>((st@, fstarts@)),
            calls_within(st@),
            st@.jumps.len() == 0,
        decreases functions@.len() - fi,
    {
        match st.emit_function(&mut fstarts, &functions[fi]) {
            Ok(_) => {},
            Err(e) => {
                proof {
                    lemma_emit_functions_snoc(
                        st0,
                        Seq::<(SymbolIndex, usize)>::empty(),
                        functions@.subrange(0, fi + 1 as int),
                    );
                    assert(functions@.subrange(0, fi + 1 as int).drop_last() =~= functions@.subrange(
                        0,
                        fi as int,
                    ));
                    assert(functions@.subrange(0, fi + 1 as int).last() == functions@[fi as int]);
                    lemma_emit_functions_prefix_err(
                        st0,
                        Seq::<(SymbolIndex, usize)>::empty(),
                        functions@,
                        fi + 1,
                        e,
                    );
                }
                return Err(e);
            },
        }
        proof {
            lemma_emit_functions_snoc(
                st0,
                Seq::<(SymbolIndex, usize)>::empty(),
                functions@.subrange(0, fi + 1 as int),
            );
            assert(functions@.subrange(0, fi + 1 as int).drop_last() =~= functions@.subrange(
                0,
                fi as int,
            ));
            assert(functions@.subrange(0, fi + 1 as int).last() == functions@[fi as int]);
        }
        fi = fi + 1;
    }
    assert(functions@.subrange(0, functions@.len() as int) =~= functions@);
    // patch the call slots against the function offsets
    let ghost stf = st@;
    assert(stf.calls.subrange(0, stf.calls.len() as int) =~= stf.calls);
    let mut ci: usize = 0;
    while ci < st.calls.len()
        invariant
            ci <= st.calls@.len(),
            st.calls@ == stf.calls,
            st.pool@ == stf.pool,
            st.bc@.len() == stf.bc.len(),
            calls_within(stf),
            spec_patch_calls(stf.bc, stf.calls, fstarts@) == (match spec_patch_calls(
                st.bc@,
                stf.calls.subrange(ci as int, stf.calls.len() as int),
                fstarts@,
            ) {
                Ok(v) => Ok::<Seq<u8>, CodegenError>(v),
                Err(e) => Err::<Seq<u8>, CodegenError>(e),
            }),
        decreases st.calls@.len() - ci,
    {
        let ghost crem = stf.calls.subrange(ci as int, stf.calls.len() as int);
        assert(crem.first() == stf.calls[ci as int]);
        assert(crem.drop_first() =~= stf.calls.subrange(ci + 1 as int, stf.calls.len() as int));
        let (name, at) = st.calls[ci];
        assert(stf.calls[ci as int].1 + 4 <= stf.bc.len());
        assert(at + 4 <= st.bc.len());
        let off = match find_fn(&fstarts, name) {
            Some(off) => off,
            None => { return Err(CodegenError::UndefinedFunction) },
        };
        if off as u64 > u32::MAX as u64 {
            return Err(CodegenError::OffsetTooLarge);
        }
        if st.bc[at] != 0 || st.bc[at + 1] != 0 || st.bc[at + 2] != 0 || st.bc[at + 3] != 0 {
            return Err(CodegenError::PatchClobbered);
        }
        write4_exec(&mut st.bc, at, off as u32);
        ci = ci + 1;
    }
    proof {
        assert(stf.calls.subrange(stf.calls.len() as int, stf.calls.len() as int) =~= Seq::<
            (SymbolIndex, usize),
        >::empty());
    }
    Ok((st.pool, st.bc))
}

/// Where a reserved slot's bytes start.
pub open spec fn slot_at(j: PendingJump) -> int {
    match j {
        PendingJump::Two { at, .. } => at as int,
        PendingJump::Plain { at, .. } => at as int,
        PendingJump::One { at, .. } => at as int,
    }
}

/// How many bytes a reserved slot holds.
pub open spec fn slot_width(j: PendingJump) -> int {
    match j {
        PendingJump::Two { .. } => 8,
        PendingJump::Plain { .. } => 4,
        PendingJump::One { .. } => 4,
    }
}

/// The slot's bytes are all still zero.
pub open spec fn slot_zero(bc: Seq<u8>, j: PendingJump) -> bool {
    forall|p: int| slot_at(j) <= p < slot_at(j) + slot_width(j) ==> bc[p] == 0
}

/// Every recorded slot lies inside the stream with its reserved zeros
/// intact.
pub open spec fn slots_zeroed(bc: Seq<u8>, jumps: Seq<PendingJump>) -> bool {
    forall|i: int|
        0 <= i < jumps.len() ==> slot_at(#[trigger] jumps[i]) + slot_width(jumps[i]) <= bc.len()
            && slot_at(jumps[i]) >= 0 && slot_zero(bc, jumps[i])
}

/// The slots were recorded in stream order and never overlap.
pub open spec fn slots_ordered(jumps: Seq<PendingJump>) -> bool {
    forall|i: int, j: int|
        0 <= i < j < jumps.len() ==> slot_at(#[trigger] jumps[i]) + slot_width(jumps[i]) <= slot_at(
            #[trigger] jumps[j],
        )
}

/// Every label a slot names resolves against the block table.
pub open spec fn targets_ok(jumps: Seq<PendingJump>, bstarts: Seq<(BlockId, usize)>) -> bool {
    forall|i: int|
        0 <= i < jumps.len() ==> (match #[trigger] jumps[i] {
            PendingJump::Two { yes, no, .. } => resolve_block(bstarts, yes) is Ok && resolve_block(
                bstarts,
                no,
            ) is Ok,
            PendingJump::Plain { target, .. } => resolve_block(bstarts, target) is Ok,
            PendingJump::One { target, .. } => resolve_block(bstarts, target) is Ok,
        })
}

/// The position lies inside one of the recorded slots.
pub open spec fn in_slots(jumps: Seq<PendingJump>, p: int) -> bool {
    exists|i: int|
        0 <= i < jumps.len() && slot_at(#[trigger] jumps[i]) <= p < slot_at(jumps[i]) + slot_width(
            jumps[i],
        )
}

/// The slot holds exactly its resolved target bytes.
pub open spec fn slot_filled(bc: Seq<u8>, j: PendingJump, bstarts: Seq<(BlockId, usize)>) -> bool {
    match j {
        PendingJump::Two { yes, no, at } => {
            &&& bc.subrange(at as int, at + 4) == u32_bytes(resolve_block(bstarts, yes)->Ok_0)
            &&& bc.subrange(at + 4, at + 8) == u32_bytes(resolve_block(bstarts, no)->Ok_0)
        },
        PendingJump::Plain { target, at } => bc.subrange(at as int, at + 4) == u32_bytes(
            resolve_block(bstarts, target)->Ok_0,
        ),
        PendingJump::One { target, at } => bc.subrange(at as int, at + 4) == u32_bytes(
            resolve_block(bstarts, target)->Ok_0,
        ),
    }
}

/// One emitted operator keeps every already-recorded slot zeroed and in
/// order, and reserves any new slot as zeros past them.
#[verifier::rlimit(100)]
#[verifier::spinoff_prover]
proof fn lemma_emit_op_slots(st: EmitSt, k: OperatorKind)
    requires
        slots_zeroed(st.bc, st.jumps),
        slots_ordered(st.jumps),
    ensures
        spec_emit_op(st, k) matches Ok(st2) ==> slots_zeroed(st2.bc, st2.jumps) && slots_ordered(
            st2.jumps,
        ),
{
    reveal(spec_emit_op);
    match spec_emit_op(st, k) {
        Ok(st2) => {
            assert(forall|p: int| 0 <= p < st.bc.len() ==> st2.bc[p] == st.bc[p]);
            assert(st2.bc.len() >= st.bc.len());
            assert forall|i: int| 0 <= i < st2.jumps.len() implies slot_at(
                #[trigger] st2.jumps[i],
            ) + slot_width(st2.jumps[i]) <= st2.bc.len() && slot_at(st2.jumps[i]) >= 0
                && slot_zero(st2.bc, st2.jumps[i]) by {
                if i < st.jumps.len() {
                    assert(st2.jumps[i] == st.jumps[i]);
                    assert(slot_zero(st.bc, st.jumps[i]));
                    assert forall|p: int|
                        slot_at(st2.jumps[i]) <= p < slot_at(st2.jumps[i]) + slot_width(
                            st2.jumps[i],
                        ) implies st2.bc[p] == 0 by {
                        assert(st2.bc[p] == st.bc[p]);
                    }
                } else {
                    assert(st2.jumps[i] == st2.jumps.last());
                }
            }
            assert forall|i: int, j: int| 0 <= i < j < st2.jumps.len() implies slot_at(
                #[trigger] st2.jumps[i],
            ) + slot_width(st2.jumps[i]) <= slot_at(#[trigger] st2.jumps[j]) by {
                if j < st.jumps.len() {
                    assert(st2.jumps[i] == st.jumps[i] && st2.jumps[j] == st.jumps[j]);
                } else if st2.jumps.len() > st.jumps.len() && j == st.jumps.len() {
                    assert(st2.jumps[i] == st.jumps[i]);
                    assert(slot_at(st.jumps[i]) + slot_width(st.jumps[i]) <= st.bc.len());
                }
            }
        },
        Err(_) => {},
    }
}

/// A block's operators keep the slot discipline.
proof fn lemma_emit_ops_slots(st: EmitSt, ops: Seq<crate::operators::Operator>)
    requires
        slots_zeroed(st.bc, st.jumps),
        slots_ordered(st.jumps),
    ensures
        spec_emit_ops(st, ops) matches Ok(st2) ==> slots_zeroed(st2.bc, st2.jumps)
            && slots_ordered(st2.jumps),
    decreases ops.len(),
{
    reveal(spec_emit_ops);
    if ops.len() == 0 {
    } else {
        lemma_emit_op_slots(st, ops.first().kind);
        match spec_emit_op(st, ops.first().kind) {
            Ok(st2) => {
                lemma_emit_ops_slots(st2, ops.drop_first());
            },
            Err(_) => {},
        }
    }
}

/// The whole emit pass of a function body reserves its slots zeroed, in
/// order, and without overlap — exactly what [`lemma_patch_closure`] needs,
/// so the patch pass's zero check never fires on the emit pass's output.
pub proof fn lemma_emit_reserves_slots(
    st: EmitSt,
    bstarts: Seq<(BlockId, usize)>,
    body: Seq<Block>,
)
    requires
        slots_zeroed(st.bc, st.jumps),
        slots_ordered(st.jumps),
    ensures
        spec_emit_blocks(st, bstarts, body) matches Ok((st2, _)) ==> slots_zeroed(
            st2.bc,
            st2.jumps,
        ) && slots_ordered(st2.jumps),
    decreases body.len(),
{
    reveal(spec_emit_blocks);
    if body.len() == 0 {
    } else {
        lemma_emit_ops_slots(st, body.first().operators@);
        match spec_emit_ops(st, body.first().operators@) {
            Ok(st2) => {
                lemma_emit_reserves_slots(
                    st2,
                    bstarts.push((body.first().id, st.bc.len() as usize)),
                    body.drop_first(),
                );
            },
            Err(_) => {},
        }
    }
}

/// Patch closure: when every recorded slot still holds its reserved zeros,
/// the slots are disjoint, and every named label resolves, the patch pass
/// succeeds — its zero check never fires — and afterwards every slot holds
/// exactly the little-endian offset of its target, with every byte outside
/// the slots untouched.
#[verifier::rlimit(100)]
#[verifier::spinoff_prover]
pub proof fn lemma_patch_closure(bc: Seq<u8>, jumps: Seq<PendingJump>, bstarts: Seq<(BlockId, usize)>)
    requires
        slots_zeroed(bc, jumps),
        slots_ordered(jumps),
        targets_ok(jumps, bstarts),
    ensures
        spec_patch_jumps(bc, jumps, bstarts) is Ok,
        ({
            let bc2 = spec_patch_jumps(bc, jumps, bstarts)->Ok_0;
            &&& bc2.len() == bc.len()
            &&& forall|i: int| 0 <= i < jumps.len() ==> slot_filled(bc2, #[trigger] jumps[i], bstarts)
            &&& forall|p: int| 0 <= p < bc.len() && !in_slots(jumps, p) ==> bc2[p] == bc[p]
        }),
    decreases jumps.len(),
{
    reveal(spec_patch_jumps);
    if jumps.len() == 0 {
    } else {
        let j0 = jumps.first();
        assert(jumps[0] == j0);
        let rest = jumps.drop_first();
        assert(forall|i: int| 0 <= i < rest.len() ==> #[trigger] rest[i] == jumps[i + 1]);
        let step = patch_step(bc, j0, bstarts);
        assert(slot_zero(bc, j0));
        match j0 {
            PendingJump::Plain { target, at } => {
                assert(zeros4(bc, at as int));
            },
            _ => {},
        }
        assert(step is Ok);
        let bc1 = step->Ok_0;
        // one step writes only its own slot
        assert(bc1.len() == bc.len());
        assert(forall|p: int|
            0 <= p < bc.len() && !(slot_at(j0) <= p < slot_at(j0) + slot_width(j0))
                ==> bc1[p] == bc[p]);
        assert(slot_filled(bc1, j0, bstarts)) by {
            match j0 {
                PendingJump::Two { yes, no, at } => {
                    let y = resolve_block(bstarts, yes)->Ok_0;
                    let n = resolve_block(bstarts, no)->Ok_0;
                    assert(bc1.subrange(at as int, at + 4) =~= u32_bytes(y));
                    assert(bc1.subrange(at + 4, at + 8) =~= u32_bytes(n));
                },
                PendingJump::Plain { target, at } => {
                    let t = resolve_block(bstarts, target)->Ok_0;
                    assert(bc1.subrange(at as int, at + 4) =~= u32_bytes(t));
                },
                PendingJump::One { target, at } => {
                    let t = resolve_block(bstarts, target)->Ok_0;
                    assert(bc1.subrange(at as int, at + 4) =~= u32_bytes(t));
                },
            }
        }
        // the later slots keep their zeros: they lie past this slot
        assert(slots_zeroed(bc1, rest)) by {
            assert forall|i: int| 0 <= i < rest.len() implies slot_at(#[trigger] rest[i])
                + slot_width(rest[i]) <= bc1.len() && slot_at(rest[i]) >= 0 && slot_zero(
                bc1,
                rest[i],
            ) by {
                assert(rest[i] == jumps[i + 1]);
                assert(slot_at(j0) + slot_width(j0) <= slot_at(jumps[i + 1]));
                assert(slot_zero(bc, jumps[i + 1]));
                assert forall|p: int|
                    slot_at(rest[i]) <= p < slot_at(rest[i]) + slot_width(rest[i]) implies bc1[p]
                    == 0 by {
                    assert(bc1[p] == bc[p]);
                }
            }
        }
        assert(slots_ordered(rest));
        assert(targets_ok(rest, bstarts));
        lemma_patch_closure(bc1, rest, bstarts);
        let bc2 = spec_patch_jumps(bc1, rest, bstarts)->Ok_0;
        assert(spec_patch_jumps(bc, jumps, bstarts) == Ok::<Seq<u8>, CodegenError>(bc2));
        // this slot's bytes survive the later patches: they all lie past it
        assert forall|p: int|
            slot_at(j0) <= p < slot_at(j0) + slot_width(j0) implies bc2[p] == bc1[p] by {
            assert(!in_slots(rest, p)) by {
                if in_slots(rest, p) {
                    let i = choose|i: int|
                        0 <= i < rest.len() && slot_at(#[trigger] rest[i]) <= p < slot_at(rest[i])
                            + slot_width(rest[i]);
                    assert(rest[i] == jumps[i + 1]);
                    assert(slot_at(j0) + slot_width(j0) <= slot_at(jumps[i + 1]));
                }
            }
        }
        assert(slot_filled(bc2, j0, bstarts)) by {
            match j0 {
                PendingJump::Two { yes, no, at } => {
                    assert(bc2.subrange(at as int, at + 4) =~= bc1.subrange(at as int, at + 4));
                    assert(bc2.subrange(at + 4, at + 8) =~= bc1.subrange(at + 4, at + 8));
                },
                PendingJump::Plain { target, at } => {
                    assert(bc2.subrange(at as int, at + 4) =~= bc1.subrange(at as int, at + 4));
                },
                PendingJump::One { target, at } => {
                    assert(bc2.subrange(at as int, at + 4) =~= bc1.subrange(at as int, at + 4));
                },
            }
        }
        assert forall|i: int| 0 <= i < jumps.len() implies slot_filled(
            spec_patch_jumps(bc, jumps, bstarts)->Ok_0,
            #[trigger] jumps[i],
            bstarts,
        ) by {
            if i > 0 {
                assert(jumps[i] == rest[i - 1]);
            }
        }
        assert forall|p: int|
            0 <= p < bc.len() && !in_slots(jumps, p) implies bc2[p] == bc[p] by {
            assert(!(slot_at(j0) <= p < slot_at(j0) + slot_width(j0))) by {
                if slot_at(j0) <= p < slot_at(j0) + slot_width(j0) {
                    assert(0 <= 0 < jumps.len() && slot_at(jumps[0]) <= p < slot_at(jumps[0])
                        + slot_width(jumps[0]));
                }
            }
            assert(!in_slots(rest, p)) by {
                if in_slots(rest, p) {
                    let i = choose|i: int|
                        0 <= i < rest.len() && slot_at(#[trigger] rest[i]) <= p < slot_at(rest[i])
                            + slot_width(rest[i]);
                    assert(jumps[i + 1] == rest[i]);
                    assert(slot_at(jumps[i + 1]) <= p < slot_at(jumps[i + 1]) + slot_width(
                        jumps[i + 1],
                    ));
                }
            }
            assert(bc1[p] == bc[p]);
        }
    }
}

/// The label with `a` replaced by `b`.
pub open spec fn rn_id(id: BlockId, a: BlockId, b: BlockId) -> BlockId {
    if id == a {
        b
    } else {
        id
    }
}

/// The operator with every jump label renamed; everything else untouched.
pub open spec fn rn_kind(k: OperatorKind, a: BlockId, b: BlockId) -> OperatorKind {
    match k {
        OperatorKind::Jif(c, yes, no) => OperatorKind::Jif(c, rn_id(yes, a, b), rn_id(no, a, b)),
        OperatorKind::JNif(c, yes, no) => OperatorKind::JNif(c, rn_id(yes, a, b), rn_id(no, a, b)),
        OperatorKind::Jmp(t) => OperatorKind::Jmp(rn_id(t, a, b)),
        OperatorKind::IJif(c, t) => OperatorKind::IJif(c, rn_id(t, a, b)),
        OperatorKind::IJNif(c, t) => OperatorKind::IJNif(c, rn_id(t, a, b)),
        _ => k,
    }
}

/// The recorded slot with its labels renamed; the position is untouched.
pub open spec fn rn_jump(j: PendingJump, a: BlockId, b: BlockId) -> PendingJump {
    match j {
        PendingJump::Two { yes, no, at } => PendingJump::Two {
            yes: rn_id(yes, a, b),
            no: rn_id(no, a, b),
            at,
        },
        PendingJump::Plain { target, at } => PendingJump::Plain {
            target: rn_id(target, a, b),
            at,
        },
        PendingJump::One { target, at } => PendingJump::One { target: rn_id(target, a, b), at },
    }
}

/// `ys` is `xs` with every jump label renamed, operator for operator.
pub open spec fn ops_renamed(
    xs: Seq<crate::operators::Operator>,
    ys: Seq<crate::operators::Operator>,
    a: BlockId,
    b: BlockId,
) -> bool {
    xs.len() == ys.len() && forall|i: int|
        0 <= i < xs.len() ==> (#[trigger] ys[i]).kind == rn_kind(xs[i].kind, a, b)
}

/// `ys` is `xs` with the label renamed in block ids and jump operands.
pub open spec fn body_renamed(xs: Seq<Block>, ys: Seq<Block>, a: BlockId, b: BlockId) -> bool {
    xs.len() == ys.len() && forall|j: int|
        0 <= j < xs.len() ==> (#[trigger] ys[j]).id == rn_id(xs[j].id, a, b) && ops_renamed(
            xs[j].operators@,
            ys[j].operators@,
            a,
            b,
        )
}

/// `g` is `f` with one block label consistently replaced.
pub open spec fn fn_renamed(f: Function, g: Function, a: BlockId, b: BlockId) -> bool {
    &&& g.name == f.name
    &&& g.argc == f.argc
    &&& g.entry == rn_id(f.entry, a, b)
    &&& body_renamed(f.body@, g.body@, a, b)
}

/// `b` appears nowhere in the function: not as a block id, not as the
/// entry, and not as a jump operand.
pub open spec fn label_fresh(f: Function, b: BlockId) -> bool {
    &&& f.entry != b
    &&& forall|j: int| 0 <= j < f.body@.len() ==> (#[trigger] f.body@[j]).id != b
    &&& forall|j: int, i: int|
        0 <= j < f.body@.len() && 0 <= i < f.body@[j].operators@.len() ==> (match (
        #[trigger] f.body@[j].operators@[i]).kind {
            OperatorKind::Jif(_, yes, no) => yes != b && no != b,
            OperatorKind::JNif(_, yes, no) => yes != b && no != b,
            OperatorKind::Jmp(t) => t != b,
            OperatorKind::IJif(_, t) => t != b,
            OperatorKind::IJNif(_, t) => t != b,
            _ => true,
        })
}

/// The two jump lists are the same slots with renamed labels.
pub open spec fn jumps_renamed(
    xs: Seq<PendingJump>,
    ys: Seq<PendingJump>,
    a: BlockId,
    b: BlockId,
) -> bool {
    xs.len() == ys.len() && forall|i: int|
        0 <= i < xs.len() ==> #[trigger] ys[i] == rn_jump(xs[i], a, b)
}

/// The two block tables bind renamed labels to the same offsets.
pub open spec fn bstarts_renamed(
    xs: Seq<(BlockId, usize)>,
    ys: Seq<(BlockId, usize)>,
    a: BlockId,
    b: BlockId,
) -> bool {
    xs.len() == ys.len() && forall|i: int|
        0 <= i < xs.len() ==> #[trigger] ys[i] == (rn_id(xs[i].0, a, b), xs[i].1)
}

/// Looking a renamed label up in the renamed table finds the original
/// label's binding, provided `b` was never a key.
proof fn lemma_lookup_renamed(
    xs: Seq<(BlockId, usize)>,
    ys: Seq<(BlockId, usize)>,
    a: BlockId,
    b: BlockId,
    id: BlockId,
)
    requires
        bstarts_renamed(xs, ys, a, b),
        id != b,
        forall|i: int| 0 <= i < xs.len() ==> (#[trigger] xs[i]).0 != b,
    ensures
        lookup_block(ys, rn_id(id, a, b)) == lookup_block(xs, id),
    decreases xs.len(),
{
    if xs.len() == 0 {
    } else {
        assert(ys.last() == (rn_id(xs.last().0, a, b), xs.last().1));
        assert(xs.drop_last().len() == ys.drop_last().len());
        assert(forall|i: int|
            0 <= i < xs.drop_last().len() ==> #[trigger] ys.drop_last()[i] == (
            rn_id(xs.drop_last()[i].0, a, b),
            xs.drop_last()[i].1,
            ));
        assert(forall|i: int|
            0 <= i < xs.drop_last().len() ==> (#[trigger] xs.drop_last()[i]).0 != b);
        // renaming is injective here: `b` is neither a key nor the probe
        assert((rn_id(xs.last().0, a, b) == rn_id(id, a, b)) == (xs.last().0 == id));
        lemma_lookup_renamed(xs.drop_last(), ys.drop_last(), a, b, id);
    }
}

/// Emitting an operator and its renamed form from related states produces
/// the same bytes, pool, and calls, and related jump lists.
#[verifier::rlimit(100)]
#[verifier::spinoff_prover]
proof fn lemma_rn_emit_op(st1: EmitSt, st2: EmitSt, k: OperatorKind, a: BlockId, b: BlockId)
    requires
        st2.bc == st1.bc,
        st2.pool == st1.pool,
        st2.calls == st1.calls,
        jumps_renamed(st1.jumps, st2.jumps, a, b),
    ensures
        match (spec_emit_op(st1, k), spec_emit_op(st2, rn_kind(k, a, b))) {
            (Ok(r1), Ok(r2)) => {
                &&& r2.bc == r1.bc
                &&& r2.pool == r1.pool
                &&& r2.calls == r1.calls
                &&& jumps_renamed(r1.jumps, r2.jumps, a, b)
            },
            (Err(e1), Err(e2)) => e1 == e2,
            _ => false,
        },
{
    reveal(spec_emit_op);
    assert(spec_opcode_of(rn_kind(k, a, b)) == spec_opcode_of(k));
    match (spec_emit_op(st1, k), spec_emit_op(st2, rn_kind(k, a, b))) {
        (Ok(r1), Ok(r2)) => {
            assert forall|i: int| 0 <= i < r1.jumps.len() implies #[trigger] r2.jumps[i]
                == rn_jump(r1.jumps[i], a, b) by {
                if i < st1.jumps.len() {
                    assert(r1.jumps[i] == st1.jumps[i] && r2.jumps[i] == st2.jumps[i]);
                }
            }
        },
        _ => {},
    }
}

/// A run of operators and its renamed form emit the same bytes.
proof fn lemma_rn_emit_ops(
    st1: EmitSt,
    st2: EmitSt,
    xs: Seq<crate::operators::Operator>,
    ys: Seq<crate::operators::Operator>,
    a: BlockId,
    b: BlockId,
)
    requires
        st2.bc == st1.bc,
        st2.pool == st1.pool,
        st2.calls == st1.calls,
        jumps_renamed(st1.jumps, st2.jumps, a, b),
        ops_renamed(xs, ys, a, b),
    ensures
        match (spec_emit_ops(st1, xs), spec_emit_ops(st2, ys)) {
            (Ok(r1), Ok(r2)) => {
                &&& r2.bc == r1.bc
                &&& r2.pool == r1.pool
                &&& r2.calls == r1.calls
                &&& jumps_renamed(r1.jumps, r2.jumps, a, b)
            },
            (Err(e1), Err(e2)) => e1 == e2,
            _ => false,
        },
    decreases xs.len(),
{
    reveal(spec_emit_ops);
    if xs.len() == 0 {
    } else {
        assert(ys.first().kind == rn_kind(xs.first().kind, a, b));
        lemma_rn_emit_op(st1, st2, xs.first().kind, a, b);
        match (spec_emit_op(st1, xs.first().kind), spec_emit_op(st2, ys.first().kind)) {
            (Ok(r1), Ok(r2)) => {
                assert(forall|i: int|
                    0 <= i < xs.drop_first().len() ==> (#[trigger] ys.drop_first()[i]).kind
                        == rn_kind(xs.drop_first()[i].kind, a, b));
                lemma_rn_emit_ops(r1, r2, xs.drop_first(), ys.drop_first(), a, b);
            },
            _ => {},
        }
    }
}

/// A body and its renamed form emit the same bytes and build renamed block
/// tables.
proof fn lemma_rn_emit_blocks(
    st1: EmitSt,
    st2: EmitSt,
    bs1: Seq<(BlockId, usize)>,
    bs2: Seq<(BlockId, usize)>,
    xs: Seq<Block>,
    ys: Seq<Block>,
    a: BlockId,
    b: BlockId,
)
    requires
        st2.bc == st1.bc,
        st2.pool == st1.pool,
        st2.calls == st1.calls,
        jumps_renamed(st1.jumps, st2.jumps, a, b),
        bstarts_renamed(bs1, bs2, a, b),
        body_renamed(xs, ys, a, b),
    ensures
        match (spec_emit_blocks(st1, bs1, xs), spec_emit_blocks(st2, bs2, ys)) {
            (Ok((r1, t1)), Ok((r2, t2))) => {
                &&& r2.bc == r1.bc
                &&& r2.pool == r1.pool
                &&& r2.calls == r1.calls
                &&& jumps_renamed(r1.jumps, r2.jumps, a, b)
                &&& bstarts_renamed(t1, t2, a, b)
            },
            (Err(e1), Err(e2)) => e1 == e2,
            _ => false,
        },
    decreases xs.len(),
{
    reveal(spec_emit_blocks);
    if xs.len() == 0 {
    } else {
        let nb1 = bs1.push((xs.first().id, st1.bc.len() as usize));
        let nb2 = bs2.push((ys.first().id, st2.bc.len() as usize));
        assert(ys.first().id == rn_id(xs.first().id, a, b));
        assert forall|i: int| 0 <= i < nb1.len() implies #[trigger] nb2[i] == (
            rn_id(nb1[i].0, a, b),
            nb1[i].1,
        ) by {
            if i < bs1.len() {
                assert(nb1[i] == bs1[i] && nb2[i] == bs2[i]);
            }
        }
        assert(ops_renamed(xs.first().operators@, ys.first().operators@, a, b));
        lemma_rn_emit_ops(st1, st2, xs.first().operators@, ys.first().operators@, a, b);
        match (
            spec_emit_ops(st1, xs.first().operators@),
            spec_emit_ops(st2, ys.first().operators@),
        ) {
            (Ok(r1), Ok(r2)) => {
                assert(forall|j: int|
                    0 <= j < xs.drop_first().len() ==> (#[trigger] ys.drop_first()[j]).id == rn_id(
                        xs.drop_first()[j].id,
                        a,
                        b,
                    ) && ops_renamed(
                        xs.drop_first()[j].operators@,
                        ys.drop_first()[j].operators@,
                        a,
                        b,
                    ));
                lemma_rn_emit_blocks(r1, r2, nb1, nb2, xs.drop_first(), ys.drop_first(), a, b);
            },
            _ => {},
        }
    }
}

/// Patching renamed jumps against the renamed table writes the same bytes.
proof fn lemma_rn_patch(
    bc: Seq<u8>,
    js1: Seq<PendingJump>,
    js2: Seq<PendingJump>,
    bs1: Seq<(BlockId, usize)>,
    bs2: Seq<(BlockId, usize)>,
    a: BlockId,
    b: BlockId,
)
    requires
        jumps_renamed(js1, js2, a, b),
        bstarts_renamed(bs1, bs2, a, b),
        forall|i: int| 0 <= i < bs1.len() ==> (#[trigger] bs1[i]).0 != b,
        forall|i: int|
            0 <= i < js1.len() ==> (match #[trigger] js1[i] {
                PendingJump::Two { yes, no, .. } => yes != b && no != b,
                PendingJump::Plain { target, .. } => target != b,
                PendingJump::One { target, .. } => target != b,
            }),
    ensures
        spec_patch_jumps(bc, js2, bs2) == spec_patch_jumps(bc, js1, bs1),
    decreases js1.len(),
{
    reveal(spec_patch_jumps);
    if js1.len() == 0 {
    } else {
        assert(js2.first() == rn_jump(js1.first(), a, b));
        match js1.first() {
            PendingJump::Two { yes, no, at } => {
                lemma_lookup_renamed(bs1, bs2, a, b, yes);
                lemma_lookup_renamed(bs1, bs2, a, b, no);
            },
            PendingJump::Plain { target, at } => {
                lemma_lookup_renamed(bs1, bs2, a, b, target);
            },
            PendingJump::One { target, at } => {
                lemma_lookup_renamed(bs1, bs2, a, b, target);
            },
        }
        assert(patch_step(bc, js2.first(), bs2) == patch_step(bc, js1.first(), bs1));
        match patch_step(bc, js1.first(), bs1) {
            Ok(bc1) => {
                assert(forall|i: int|
                    0 <= i < js1.drop_first().len() ==> #[trigger] js2.drop_first()[i] == rn_jump(
                        js1.drop_first()[i],
                        a,
                        b,
                    ));
                assert(forall|i: int|
                    0 <= i < js1.drop_first().len() ==> (match #[trigger] js1.drop_first()[i] {
                        PendingJump::Two { yes, no, .. } => yes != b && no != b,
                        PendingJump::Plain { target, .. } => target != b,
                        PendingJump::One { target, .. } => target != b,
                    }));
                lemma_rn_patch(bc1, js1.drop_first(), js2.drop_first(), bs1, bs2, a, b);
            },
            Err(_) => {},
        }
    }
}

/// No recorded slot names the label `b`.
pub open spec fn jumps_no_label(js: Seq<PendingJump>, b: BlockId) -> bool {
    forall|i: int|
        0 <= i < js.len() ==> (match #[trigger] js[i] {
            PendingJump::Two { yes, no, .. } => yes != b && no != b,
            PendingJump::Plain { target, .. } => target != b,
            PendingJump::One { target, .. } => target != b,
        })
}

/// No operand of the operator names the label `b`.
pub open spec fn kind_no_label(k: OperatorKind, b: BlockId) -> bool {
    match k {
        OperatorKind::Jif(_, yes, no) => yes != b && no != b,
        OperatorKind::JNif(_, yes, no) => yes != b && no != b,
        OperatorKind::Jmp(t) => t != b,
        OperatorKind::IJif(_, t) => t != b,
        OperatorKind::IJNif(_, t) => t != b,
        _ => true,
    }
}

/// No key of the block table is the label `b`.
pub open spec fn keys_no_label(bs: Seq<(BlockId, usize)>, b: BlockId) -> bool {
    forall|i: int| 0 <= i < bs.len() ==> (#[trigger] bs[i]).0 != b
}

proof fn lemma_emit_op_fresh(st: EmitSt, k: OperatorKind, b: BlockId)
    requires
        jumps_no_label(st.jumps, b),
        kind_no_label(k, b),
    ensures
        spec_emit_op(st, k) matches Ok(st2) ==> jumps_no_label(st2.jumps, b),
{
    reveal(spec_emit_op);
    match spec_emit_op(st, k) {
        Ok(st2) => {
            assert forall|i: int| 0 <= i < st2.jumps.len() implies (match #[trigger] st2.jumps[i] {
                PendingJump::Two { yes, no, .. } => yes != b && no != b,
                PendingJump::Plain { target, .. } => target != b,
                PendingJump::One { target, .. } => target != b,
            }) by {
                if i < st.jumps.len() {
                    assert(st2.jumps[i] == st.jumps[i]);
                }
            }
        },
        Err(_) => {},
    }
}

proof fn lemma_emit_ops_fresh(st: EmitSt, ops: Seq<crate::operators::Operator>, b: BlockId)
    requires
        jumps_no_label(st.jumps, b),
        forall|i: int| 0 <= i < ops.len() ==> kind_no_label((#[trigger] ops[i]).kind, b),
    ensures
        spec_emit_ops(st, ops) matches Ok(st2) ==> jumps_no_label(st2.jumps, b),
    decreases ops.len(),
{
    reveal(spec_emit_ops);
    if ops.len() == 0 {
    } else {
        lemma_emit_op_fresh(st, ops.first().kind, b);
        match spec_emit_op(st, ops.first().kind) {
            Ok(st2) => {
                assert(forall|i: int|
                    0 <= i < ops.drop_first().len() ==> kind_no_label(
                        (#[trigger] ops.drop_first()[i]).kind,
                        b,
                    ));
                lemma_emit_ops_fresh(st2, ops.drop_first(), b);
            },
            Err(_) => {},
        }
    }
}

proof fn lemma_emit_blocks_fresh(
    st: EmitSt,
    bs: Seq<(BlockId, usize)>,
    body: Seq<Block>,
    b: BlockId,
)
    requires
        jumps_no_label(st.jumps, b),
        keys_no_label(bs, b),
        forall|j: int| 0 <= j < body.len() ==> (#[trigger] body[j]).id != b,
        forall|j: int, i: int|
            0 <= j < body.len() && 0 <= i < body[j].operators@.len() ==> kind_no_label(
                (#[trigger] body[j].operators@[i]).kind,
                b,
            ),
    ensures
        spec_emit_blocks(st, bs, body) matches Ok((st2, bs2)) ==> jumps_no_label(st2.jumps, b)
            && keys_no_label(bs2, b),
    decreases body.len(),
{
    reveal(spec_emit_blocks);
    if body.len() == 0 {
    } else {
        let nb = bs.push((body.first().id, st.bc.len() as usize));
        assert forall|i: int| 0 <= i < nb.len() implies (#[trigger] nb[i]).0 != b by {
            if i < bs.len() {
                assert(nb[i] == bs[i]);
            }
        }
        assert(forall|i: int|
            0 <= i < body.first().operators@.len() ==> kind_no_label(
                (#[trigger] body.first().operators@[i]).kind,
                b,
            )) by {
            assert(body[0] == body.first());
        }
        lemma_emit_ops_fresh(st, body.first().operators@, b);
        match spec_emit_ops(st, body.first().operators@) {
            Ok(st2) => {
                assert(forall|j: int|
                    0 <= j < body.drop_first().len() ==> (#[trigger] body.drop_first()[j]).id
                        != b);
                assert(forall|j: int, i: int|
                    0 <= j < body.drop_first().len() && 0 <= i
                        < body.drop_first()[j].operators@.len() ==> kind_no_label(
                        (#[trigger] body.drop_first()[j].operators@[i]).kind,
                        b,
                    ));
                lemma_emit_blocks_fresh(st2, nb, body.drop_first(), b);
            },
            Err(_) => {},
        }
    }
}

/// Jump stability: replacing a block's label with a fresh symbol, in the
/// block and in every jump that targets it, leaves the emitted bytecode,
/// the constant pool, and the recorded calls unchanged — errors included.
#[verifier::rlimit(100)]
#[verifier::spinoff_prover]
pub proof fn lemma_jump_stability(
    st: EmitSt,
    fstarts: Seq<(SymbolIndex, usize)>,
    f: Function,
    g: Function,
    a: BlockId,
    b: BlockId,
)
    requires
        fn_renamed(f, g, a, b),
        label_fresh(f, b),
        st.jumps.len() == 0,
    ensures
        match (spec_emit_function(st, fstarts, f), spec_emit_function(st, fstarts, g)) {
            (Ok((r1, t1)), Ok((r2, t2))) => r2.bc == r1.bc && r2.pool == r1.pool && r2.calls
                == r1.calls && t2 == t1,
            (Err(e1), Err(e2)) => e1 == e2,
            _ => false,
        },
{
    reveal(spec_emit_function);
    if lookup_fn(fstarts, f.name) is Some {
    } else {
        let st1 = EmitSt { jumps: Seq::empty(), ..st };
        assert(jumps_renamed(st1.jumps, st1.jumps, a, b));
        assert(rn_kind(OperatorKind::Jmp(f.entry), a, b) == OperatorKind::Jmp(g.entry));
        lemma_rn_emit_op(st1, st1, OperatorKind::Jmp(f.entry), a, b);
        match (
            spec_emit_op(st1, OperatorKind::Jmp(f.entry)),
            spec_emit_op(st1, OperatorKind::Jmp(g.entry)),
        ) {
            (Ok(s1), Ok(s2)) => {
                assert(bstarts_renamed(
                    Seq::<(BlockId, usize)>::empty(),
                    Seq::<(BlockId, usize)>::empty(),
                    a,
                    b,
                ));
                lemma_rn_emit_blocks(
                    s1,
                    s2,
                    Seq::<(BlockId, usize)>::empty(),
                    Seq::<(BlockId, usize)>::empty(),
                    f.body@,
                    g.body@,
                    a,
                    b,
                );
                match (
                    spec_emit_blocks(s1, Seq::<(BlockId, usize)>::empty(), f.body@),
                    spec_emit_blocks(s2, Seq::<(BlockId, usize)>::empty(), g.body@),
                ) {
                    (Ok((r1, t1)), Ok((r2, t2))) => {
                        assert(jumps_no_label(s1.jumps, b)) by {
                            lemma_emit_op_fresh(st1, OperatorKind::Jmp(f.entry), b);
                        }
                        assert(keys_no_label(Seq::<(BlockId, usize)>::empty(), b));
                        lemma_emit_blocks_fresh(
                            s1,
                            Seq::<(BlockId, usize)>::empty(),
                            f.body@,
                            b,
                        );
                        lemma_rn_patch(r1.bc, r1.jumps, r2.jumps, t1, t2, a, b);
                    },
                    _ => {},
                }
            },
            _ => {},
        }
    }
}

/// If the fold fails on a prefix, it fails on the whole list.
proof fn lemma_emit_functions_prefix_err(
    st: EmitSt,
    fstarts: Seq<(SymbolIndex, usize)>,
    fs: Seq<Function>,
    k: int,
    e: CodegenError,
)
    requires
        0 <= k <= fs.len(),
        spec_emit_functions(st, fstarts, fs.subrange(0, k)) == Err::<
            (EmitSt, Seq<(SymbolIndex, usize)>),
            CodegenError,
        >(e),
    ensures
        spec_emit_functions(st, fstarts, fs) == Err::<
            (EmitSt, Seq<(SymbolIndex, usize)>),
            CodegenError,
        >(e),
    decreases k,
{
    let pre = fs.subrange(0, k);
    if k == 0 {
        assert(pre =~= Seq::<Function>::empty());
    } else {
        assert(pre.first() == fs.first());
        if fs.len() >= 1 {
            match spec_emit_function(st, fstarts, fs.first()) {
                Ok((st2, fstarts2)) => {
                    assert(pre.drop_first() =~= fs.drop_first().subrange(0, k - 1));
                    lemma_emit_functions_prefix_err(st2, fstarts2, fs.drop_first(), k - 1, e);
                },
                Err(_) => {},
            }
        }
    }
}

} // verus!
