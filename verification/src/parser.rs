//! The assembler's parser: tokens in, functions with labeled blocks out.
//!
//! The grammar is flat: a file is a sequence of `fn NAME ~ARGC $ENTRY`
//! declarations, each followed by labeled blocks (`$LABEL` and then
//! operators) until the next `fn` or the end of input.

use vstd::prelude::*;

use crate::errors::{CompilerError, Error};
use crate::lexer::{Keyword, Token, TokenKind};
use crate::operators::{Literal, Operator, OperatorKind, OperatorToken};
use crate::symbols::{SourceRange, SymbolIndex, SymbolMap};

verus! {

broadcast use vstd::std_specs::vec::group_vec_axioms;

/// A parsed function: its name, blocks, entry label, declaration span, and
/// declared argument count.
#[derive(Debug)]
pub struct Function {
    pub name: SymbolIndex,
    pub body: Vec<Block>,
    pub entry: BlockId,
    pub declaration_range: SourceRange,
    pub argc: u8,
}

/// A labeled block: its operators in source order.
#[derive(Debug)]
pub struct Block {
    pub operators: Vec<Operator>,
    pub id: BlockId,
}

/// A block label, by its interned symbol.
#[derive(Clone, Copy, Debug, PartialEq, Eq, Structural, Hash)]
pub struct BlockId(pub SymbolIndex);

/// A source span with the bounds put in order.
fn make_range(a: usize, b: usize) -> (r: SourceRange)
    ensures
        r.start <= r.end,
{
    if a <= b {
        SourceRange::new(a, b)
    } else {
        SourceRange::new(b, a)
    }
}

/// A token kind that ends a call's argument list.
pub open spec fn reg_list_end_kind(k: TokenKind) -> bool {
    k is DollarSign || k is EndOfFile || k == TokenKind::Keyword(Keyword::Fn) || k is Operator
}

/// The register operands of a call, read from position `i`: consecutive
/// `@N` pairs with `N` a byte, ending (exclusively) at the first list-ending
/// token.  Anything else is a malformed list.
pub open spec fn spec_reg_list(toks: Seq<Token>, i: int) -> Result<(Seq<u8>, int), ()>
    decreases toks.len() - i,
{
    if i < 0 || i >= toks.len() {
        Err(())
    } else if reg_list_end_kind(toks[i].token_kind) {
        Ok((Seq::<u8>::empty(), i))
    } else if toks[i].token_kind is At && i + 1 < toks.len() {
        match toks[i + 1].token_kind {
            TokenKind::Literal(Literal::Integer(n)) => if 0 <= n <= 255 {
                match spec_reg_list(toks, i + 2) {
                    Ok((rest, end)) => Ok((seq![n as u8] + rest, end)),
                    Err(e) => Err(e),
                }
            } else {
                Err(())
            },
            _ => Err(()),
        }
    } else {
        Err(())
    }
}


/// The mnemonic token `t` stands at position `i`.
pub open spec fn tok_op_at(toks: Seq<Token>, i: int, t: OperatorToken) -> bool {
    0 <= i < toks.len() && toks[i].token_kind == TokenKind::Operator(t)
}

/// An `@N` register operand stands at positions `i`, `i + 1`.
pub open spec fn regpair_at(toks: Seq<Token>, i: int, v: u8) -> bool {
    &&& 0 <= i && i + 2 <= toks.len()
    &&& toks[i].token_kind is At
    &&& toks[i + 1].token_kind == TokenKind::Literal(Literal::Integer(v as i64))
}

/// A `$LABEL` operand stands at positions `i`, `i + 1`.
pub open spec fn label_at(toks: Seq<Token>, i: int, b: BlockId) -> bool {
    &&& 0 <= i && i + 2 <= toks.len()
    &&& toks[i].token_kind is DollarSign
    &&& toks[i + 1].token_kind == TokenKind::Identifier(b.0)
}

/// How many tokens the operator occupies in source, mnemonic included.
pub open spec fn op_token_len(k: OperatorKind) -> int {
    match k {
        OperatorKind::Ret => 1,
        OperatorKind::Cpy(..) => 5,
        OperatorKind::Swap(..) => 5,
        OperatorKind::Cast_IU(..) => 5,
        OperatorKind::Cast_IF(..) => 5,
        OperatorKind::Cast_UI(..) => 5,
        OperatorKind::Cast_UF(..) => 5,
        OperatorKind::Cast_FI(..) => 5,
        OperatorKind::Cast_FU(..) => 5,
        OperatorKind::SetOp(..) => 4,
        OperatorKind::Push(..) => 2,
        OperatorKind::Pop(..) => 2,
        OperatorKind::Jif(..) => 7,
        OperatorKind::JNif(..) => 7,
        OperatorKind::Jmp(..) => 3,
        OperatorKind::IJif(..) => 5,
        OperatorKind::IJNif(..) => 5,
        OperatorKind::Call(_, _, args) => 4 + 2 * args@.len() as int,
        OperatorKind::Print(..) => 3,
        _ => 7,
    }
}

/// The operator form `k` is spelled out at position `i` of the stream,
/// mnemonic and operands in order.
pub open spec fn op_at(toks: Seq<Token>, i: int, k: OperatorKind) -> bool {
    match k {
        OperatorKind::Ret => tok_op_at(toks, i, OperatorToken::Ret),
        OperatorKind::Cpy(a, b) => tok_op_at(toks, i, OperatorToken::Cpy) && regpair_at(
            toks,
            i + 1,
            a,
        ) && regpair_at(toks, i + 3, b),
        OperatorKind::Swap(a, b) => tok_op_at(toks, i, OperatorToken::Swap) && regpair_at(
            toks,
            i + 1,
            a,
        ) && regpair_at(toks, i + 3, b),
        OperatorKind::Cast_IU(a, b) => tok_op_at(toks, i, OperatorToken::Cast_IU) && regpair_at(
            toks,
            i + 1,
            a,
        ) && regpair_at(toks, i + 3, b),
        OperatorKind::Cast_IF(a, b) => tok_op_at(toks, i, OperatorToken::Cast_IF) && regpair_at(
            toks,
            i + 1,
            a,
        ) && regpair_at(toks, i + 3, b),
        OperatorKind::Cast_UI(a, b) => tok_op_at(toks, i, OperatorToken::Cast_UI) && regpair_at(
            toks,
            i + 1,
            a,
        ) && regpair_at(toks, i + 3, b),
        OperatorKind::Cast_UF(a, b) => tok_op_at(toks, i, OperatorToken::Cast_UF) && regpair_at(
            toks,
            i + 1,
            a,
        ) && regpair_at(toks, i + 3, b),
        OperatorKind::Cast_FI(a, b) => tok_op_at(toks, i, OperatorToken::Cast_FI) && regpair_at(
            toks,
            i + 1,
            a,
        ) && regpair_at(toks, i + 3, b),
        OperatorKind::Cast_FU(a, b) => tok_op_at(toks, i, OperatorToken::Cast_FU) && regpair_at(
            toks,
            i + 1,
            a,
        ) && regpair_at(toks, i + 3, b),
        OperatorKind::SetOp(d, l) => tok_op_at(toks, i, OperatorToken::SetOp) && regpair_at(
            toks,
            i + 1,
            d,
        ) && i + 4 <= toks.len() && toks[i + 3].token_kind == TokenKind::Literal(l),
        OperatorKind::Push(v) => tok_op_at(toks, i, OperatorToken::Push) && i + 2 <= toks.len()
            && toks[i + 1].token_kind == TokenKind::Literal(Literal::Integer(v as i64)),
        OperatorKind::Pop(v) => tok_op_at(toks, i, OperatorToken::Pop) && i + 2 <= toks.len()
            && toks[i + 1].token_kind == TokenKind::Literal(Literal::Integer(v as i64)),
        OperatorKind::Jif(c, yes, no) => tok_op_at(toks, i, OperatorToken::Jif) && regpair_at(
            toks,
            i + 1,
            c,
        ) && label_at(toks, i + 3, yes) && label_at(toks, i + 5, no),
        OperatorKind::JNif(c, yes, no) => tok_op_at(toks, i, OperatorToken::JNif) && regpair_at(
            toks,
            i + 1,
            c,
        ) && label_at(toks, i + 3, yes) && label_at(toks, i + 5, no),
        OperatorKind::Jmp(t) => tok_op_at(toks, i, OperatorToken::Jmp) && label_at(toks, i + 1, t),
        OperatorKind::IJif(c, t) => tok_op_at(toks, i, OperatorToken::IJif) && regpair_at(
            toks,
            i + 1,
            c,
        ) && label_at(toks, i + 3, t),
        OperatorKind::IJNif(c, t) => tok_op_at(toks, i, OperatorToken::IJNif) && regpair_at(
            toks,
            i + 1,
            c,
        ) && label_at(toks, i + 3, t),
        OperatorKind::Call(d, f, args) => tok_op_at(toks, i, OperatorToken::Call) && regpair_at(
            toks,
            i + 1,
            d,
        ) && i + 4 <= toks.len() && toks[i + 3].token_kind == TokenKind::Identifier(f)
            && spec_reg_list(toks, i + 4) == Ok::<(Seq<u8>, int), ()>(
            (args@, i + 4 + 2 * args@.len()),
        ),
        OperatorKind::Print(a) => tok_op_at(toks, i, OperatorToken::Print) && regpair_at(
            toks,
            i + 1,
            a,
        ),
        OperatorKind::AddI(a, b, c) => op3_at(toks, i, OperatorToken::AddI, a, b, c),
        OperatorKind::AddU(a, b, c) => op3_at(toks, i, OperatorToken::AddU, a, b, c),
        OperatorKind::AddF(a, b, c) => op3_at(toks, i, OperatorToken::AddF, a, b, c),
        OperatorKind::SubI(a, b, c) => op3_at(toks, i, OperatorToken::SubI, a, b, c),
        OperatorKind::SubU(a, b, c) => op3_at(toks, i, OperatorToken::SubU, a, b, c),
        OperatorKind::SubF(a, b, c) => op3_at(toks, i, OperatorToken::SubF, a, b, c),
        OperatorKind::MulI(a, b, c) => op3_at(toks, i, OperatorToken::MulI, a, b, c),
        OperatorKind::MulU(a, b, c) => op3_at(toks, i, OperatorToken::MulU, a, b, c),
        OperatorKind::MulF(a, b, c) => op3_at(toks, i, OperatorToken::MulF, a, b, c),
        OperatorKind::DivI(a, b, c) => op3_at(toks, i, OperatorToken::DivI, a, b, c),
        OperatorKind::DivU(a, b, c) => op3_at(toks, i, OperatorToken::DivU, a, b, c),
        OperatorKind::DivF(a, b, c) => op3_at(toks, i, OperatorToken::DivF, a, b, c),
        OperatorKind::RemI(a, b, c) => op3_at(toks, i, OperatorToken::RemI, a, b, c),
        OperatorKind::RemU(a, b, c) => op3_at(toks, i, OperatorToken::RemU, a, b, c),
        OperatorKind::RemF(a, b, c) => op3_at(toks, i, OperatorToken::RemF, a, b, c),
        OperatorKind::LsI(a, b, c) => op3_at(toks, i, OperatorToken::LsI, a, b, c),
        OperatorKind::LsU(a, b, c) => op3_at(toks, i, OperatorToken::LsU, a, b, c),
        OperatorKind::RsI(a, b, c) => op3_at(toks, i, OperatorToken::RsI, a, b, c),
        OperatorKind::RsU(a, b, c) => op3_at(toks, i, OperatorToken::RsU, a, b, c),
        OperatorKind::LtI(a, b, c) => op3_at(toks, i, OperatorToken::LtI, a, b, c),
        OperatorKind::LtU(a, b, c) => op3_at(toks, i, OperatorToken::LtU, a, b, c),
        OperatorKind::LtF(a, b, c) => op3_at(toks, i, OperatorToken::LtF, a, b, c),
        OperatorKind::GtI(a, b, c) => op3_at(toks, i, OperatorToken::GtI, a, b, c),
        OperatorKind::GtU(a, b, c) => op3_at(toks, i, OperatorToken::GtU, a, b, c),
        OperatorKind::GtF(a, b, c) => op3_at(toks, i, OperatorToken::GtF, a, b, c),
        OperatorKind::LeI(a, b, c) => op3_at(toks, i, OperatorToken::LeI, a, b, c),
        OperatorKind::LeU(a, b, c) => op3_at(toks, i, OperatorToken::LeU, a, b, c),
        OperatorKind::LeF(a, b, c) => op3_at(toks, i, OperatorToken::LeF, a, b, c),
        OperatorKind::GeI(a, b, c) => op3_at(toks, i, OperatorToken::GeI, a, b, c),
        OperatorKind::GeU(a, b, c) => op3_at(toks, i, OperatorToken::GeU, a, b, c),
        OperatorKind::GeF(a, b, c) => op3_at(toks, i, OperatorToken::GeF, a, b, c),
        OperatorKind::EqI(a, b, c) => op3_at(toks, i, OperatorToken::EqI, a, b, c),
        OperatorKind::EqU(a, b, c) => op3_at(toks, i, OperatorToken::EqU, a, b, c),
        OperatorKind::EqF(a, b, c) => op3_at(toks, i, OperatorToken::EqF, a, b, c),
        OperatorKind::NeI(a, b, c) => op3_at(toks, i, OperatorToken::NeI, a, b, c),
        OperatorKind::NeU(a, b, c) => op3_at(toks, i, OperatorToken::NeU, a, b, c),
        OperatorKind::NeF(a, b, c) => op3_at(toks, i, OperatorToken::NeF, a, b, c),
    }
}

/// A three-register operator at position `i`.
pub open spec fn op3_at(toks: Seq<Token>, i: int, t: OperatorToken, a: u8, b: u8, c: u8) -> bool {
    tok_op_at(toks, i, t) && regpair_at(toks, i + 1, a) && regpair_at(toks, i + 3, b)
        && regpair_at(toks, i + 5, c)
}

/// How many tokens a run of operators occupies.
pub open spec fn ops_token_len(ops: Seq<Operator>) -> int
    decreases ops.len(),
{
    if ops.len() == 0 {
        0
    } else {
        op_token_len(ops.first().kind) + ops_token_len(ops.drop_first())
    }
}

/// The operators stand consecutively from position `i`.
pub open spec fn ops_at(toks: Seq<Token>, i: int, ops: Seq<Operator>) -> bool
    decreases ops.len(),
{
    if ops.len() == 0 {
        true
    } else {
        op_at(toks, i, ops.first().kind) && ops_at(
            toks,
            i + op_token_len(ops.first().kind),
            ops.drop_first(),
        )
    }
}

/// How many tokens a run of blocks occupies.
pub open spec fn blocks_token_len(blocks: Seq<Block>) -> int
    decreases blocks.len(),
{
    if blocks.len() == 0 {
        0
    } else {
        2 + ops_token_len(blocks.first().operators@) + blocks_token_len(blocks.drop_first())
    }
}

/// The blocks stand consecutively from position `i`: each one's label,
/// then its operators.
pub open spec fn blocks_at(toks: Seq<Token>, i: int, blocks: Seq<Block>) -> bool
    decreases blocks.len(),
{
    if blocks.len() == 0 {
        true
    } else {
        label_at(toks, i, blocks.first().id) && ops_at(toks, i + 2, blocks.first().operators@)
            && blocks_at(
            toks,
            i + 2 + ops_token_len(blocks.first().operators@),
            blocks.drop_first(),
        )
    }
}

/// How many tokens a whole function declaration occupies.
pub open spec fn fn_token_len(f: Function) -> int {
    6 + blocks_token_len(f.body@)
}

/// The function declaration stands at position `i`: the `fn` keyword, the
/// declared name, `~argc`, the `$entry` label, then its blocks.
pub open spec fn fn_at(toks: Seq<Token>, i: int, f: Function) -> bool {
    &&& 0 <= i && i + 6 <= toks.len()
    &&& toks[i].token_kind == TokenKind::Keyword(Keyword::Fn)
    &&& toks[i + 1].token_kind == TokenKind::Identifier(f.name)
    &&& toks[i + 2].token_kind is SquigglyDash
    &&& toks[i + 3].token_kind == TokenKind::Literal(Literal::Integer(f.argc as i64))
    &&& label_at(toks, i + 4, f.entry)
    &&& blocks_at(toks, i + 6, f.body@)
}

/// How many tokens a run of function declarations occupies.
pub open spec fn fns_token_len(fs: Seq<Function>) -> int
    decreases fs.len(),
{
    if fs.len() == 0 {
        0
    } else {
        fn_token_len(fs.first()) + fns_token_len(fs.drop_first())
    }
}

/// The function declarations stand consecutively from position `i`.
pub open spec fn fns_prefix_at(toks: Seq<Token>, i: int, fs: Seq<Function>) -> bool
    decreases fs.len(),
{
    if fs.len() == 0 {
        true
    } else {
        fn_at(toks, i, fs.first()) && fns_prefix_at(
            toks,
            i + fn_token_len(fs.first()),
            fs.drop_first(),
        )
    }
}

/// The whole stream from position `i` is exactly these function
/// declarations, in order, followed by the end-of-input token.
pub open spec fn fns_at(toks: Seq<Token>, i: int, fs: Seq<Function>) -> bool {
    &&& fns_prefix_at(toks, i, fs)
    &&& 0 <= i + fns_token_len(fs) < toks.len()
    &&& toks[i + fns_token_len(fs)].token_kind is EndOfFile
}

/// Appending one parsed operator extends a consecutive run.
proof fn lemma_ops_at_snoc(toks: Seq<Token>, i: int, ops: Seq<Operator>, o: Operator)
    requires
        ops_at(toks, i, ops),
        op_at(toks, i + ops_token_len(ops), o.kind),
    ensures
        ops_at(toks, i, ops.push(o)),
        ops_token_len(ops.push(o)) == ops_token_len(ops) + op_token_len(o.kind),
    decreases ops.len(),
{
    if ops.len() == 0 {
        assert(ops.push(o).first() == o);
        assert(ops.push(o).drop_first() =~= Seq::<Operator>::empty());
        assert(ops_at(toks, i + op_token_len(o.kind), Seq::<Operator>::empty()));
        assert(ops_token_len(Seq::<Operator>::empty()) == 0);
        assert(ops_token_len(ops) == 0);
    } else {
        assert(ops.push(o).first() == ops.first());
        assert(ops.push(o).drop_first() =~= ops.drop_first().push(o));
        lemma_ops_at_snoc(toks, i + op_token_len(ops.first().kind), ops.drop_first(), o);
    }
}

/// Appending one parsed block extends a consecutive run.
proof fn lemma_blocks_at_snoc(toks: Seq<Token>, i: int, blocks: Seq<Block>, b: Block)
    requires
        blocks_at(toks, i, blocks),
        label_at(toks, i + blocks_token_len(blocks), b.id),
        ops_at(toks, i + blocks_token_len(blocks) + 2, b.operators@),
    ensures
        blocks_at(toks, i, blocks.push(b)),
        blocks_token_len(blocks.push(b)) == blocks_token_len(blocks) + 2 + ops_token_len(
            b.operators@,
        ),
    decreases blocks.len(),
{
    if blocks.len() == 0 {
        assert(blocks.push(b).first() == b);
        assert(blocks.push(b).drop_first() =~= Seq::<Block>::empty());
        assert(blocks_at(toks, i + 2 + ops_token_len(b.operators@), Seq::<Block>::empty()));
        assert(blocks_token_len(Seq::<Block>::empty()) == 0);
        assert(blocks_token_len(blocks) == 0);
    } else {
        assert(blocks.push(b).first() == blocks.first());
        assert(blocks.push(b).drop_first() =~= blocks.drop_first().push(b));
        lemma_blocks_at_snoc(
            toks,
            i + 2 + ops_token_len(blocks.first().operators@),
            blocks.drop_first(),
            b,
        );
    }
}

/// Appending one parsed function extends a consecutive run.
proof fn lemma_fns_at_snoc(toks: Seq<Token>, i: int, fs: Seq<Function>, f: Function)
    requires
        fns_prefix_at(toks, i, fs),
        fn_at(toks, i + fns_token_len(fs), f),
    ensures
        fns_prefix_at(toks, i, fs.push(f)),
        fns_token_len(fs.push(f)) == fns_token_len(fs) + fn_token_len(f),
    decreases fs.len(),
{
    if fs.len() == 0 {
        assert(fs.push(f).first() == f);
        assert(fs.push(f).drop_first() =~= Seq::<Function>::empty());
        assert(fns_prefix_at(toks, i + fn_token_len(f), Seq::<Function>::empty()));
        assert(fns_token_len(Seq::<Function>::empty()) == 0);
        assert(fns_token_len(fs) == 0);
    } else {
        assert(fs.push(f).first() == fs.first());
        assert(fs.push(f).drop_first() =~= fs.drop_first().push(f));
        lemma_fns_at_snoc(toks, i + fn_token_len(fs.first()), fs.drop_first(), f);
    }
}

/// A well-formed argument list ends two tokens per register after it
/// began.
proof fn lemma_reg_list_span(toks: Seq<Token>, i: int)
    requires
        spec_reg_list(toks, i) is Ok,
    ensures
        ({
            let (vals, end) = spec_reg_list(toks, i)->Ok_0;
            end == i + 2 * vals.len()
        }),
    decreases toks.len() - i,
{
    if i < 0 || i >= toks.len() {
    } else if reg_list_end_kind(toks[i].token_kind) {
    } else if toks[i].token_kind is At && i + 1 < toks.len() {
        match toks[i + 1].token_kind {
            TokenKind::Literal(Literal::Integer(n)) => {
                if 0 <= n <= 255 {
                    lemma_reg_list_span(toks, i + 2);
                }
            },
            _ => {},
        }
    }
}

/// No operator's last token is the end-of-input token.
proof fn lemma_op_last_not_eof(toks: Seq<Token>, i: int, k: OperatorKind)
    requires
        op_at(toks, i, k),
    ensures
        0 <= i + op_token_len(k) - 1 < toks.len(),
        !(toks[i + op_token_len(k) - 1].token_kind is EndOfFile),
{
    match k {
        OperatorKind::Call(d, f, args) => {
            lemma_reg_list_span(toks, i + 4);
            if args@.len() > 0 {
                lemma_reg_list_last(toks, i + 4);
            }
        },
        _ => {},
    }
}

/// A nonempty argument list's last token is an integer literal.
proof fn lemma_reg_list_last(toks: Seq<Token>, i: int)
    requires
        spec_reg_list(toks, i) is Ok,
        spec_reg_list(toks, i)->Ok_0.0.len() > 0,
    ensures
        ({
            let (vals, end) = spec_reg_list(toks, i)->Ok_0;
            &&& 0 <= end - 1 < toks.len()
            &&& toks[end - 1].token_kind matches TokenKind::Literal(l) && l is Integer
        }),
    decreases toks.len() - i,
{
    if i < 0 || i >= toks.len() {
    } else if reg_list_end_kind(toks[i].token_kind) {
    } else if toks[i].token_kind is At && i + 1 < toks.len() {
        match toks[i + 1].token_kind {
            TokenKind::Literal(Literal::Integer(n)) => {
                if 0 <= n <= 255 {
                    lemma_reg_list_span(toks, i + 2);
                    match spec_reg_list(toks, i + 2) {
                        Ok((rest, end)) => {
                            if rest.len() > 0 {
                                lemma_reg_list_last(toks, i + 2);
                            }
                        },
                        Err(_) => {},
                    }
                }
            },
            _ => {},
        }
    }
}

/// The parser state: the token stream and a cursor into it.
pub struct Parser {
    pub tokens: Vec<Token>,
    pub index: usize,
    pub file: SymbolIndex,
}

impl Parser {
    /// The cursor is inside the stream, which ends with its only
    /// `EndOfFile` token.
    pub open spec fn wf(&self) -> bool {
        &&& self.tokens@.len() >= 1
        &&& self.index < self.tokens@.len()
        &&& self.tokens@.last().token_kind is EndOfFile
        &&& forall|i: int|
            0 <= i < self.tokens@.len() - 1 ==> !((#[trigger] self.tokens@[i]).token_kind
                is EndOfFile)
    }

    /// The stream and file are those of `other` and the cursor moved by at
    /// most the given bounds; a shorthand for the helpers' framing.
    pub open spec fn same_stream(&self, other: &Parser) -> bool {
        self.tokens@ == other.tokens@ && self.file == other.file
    }

    /// Move the cursor one token forward and hand the new token back.
    pub fn advance(&mut self) -> (r: Token)
        requires
            old(self).wf(),
            !(old(self).tokens@[old(self).index as int].token_kind is EndOfFile),
        ensures
            final(self).wf(),
            final(self).same_stream(old(self)),
            final(self).index == old(self).index + 1,
            r == final(self).tokens@[final(self).index as int],
    {
        proof {
            vstd::std_specs::vec::axiom_spec_len(&self.tokens);
        }
        self.index = self.index + 1;
        self.tokens[self.index]
    }

    /// Move the cursor one token back and hand the new token back.
    pub fn retreat(&mut self) -> (r: Token)
        requires
            old(self).wf(),
            old(self).index >= 1,
        ensures
            final(self).wf(),
            final(self).same_stream(old(self)),
            final(self).index == old(self).index - 1,
            r == final(self).tokens@[final(self).index as int],
    {
        self.index = self.index - 1;
        self.tokens[self.index]
    }

    /// The token under the cursor.
    pub fn current_token(&self) -> (r: Token)
        requires
            self.wf(),
        ensures
            r == self.tokens@[self.index as int],
    {
        self.tokens[self.index]
    }

    /// The kind of the token under the cursor.
    pub fn current_kind(&self) -> (r: TokenKind)
        requires
            self.wf(),
        ensures
            r == self.tokens@[self.index as int].token_kind,
    {
        self.current_token().token_kind
    }

    /// The token the cursor rests on (an alias of [`Parser::current_token`]).
    pub fn peek_token(&self) -> (r: Token)
        requires
            self.wf(),
        ensures
            r == self.tokens@[self.index as int],
    {
        self.tokens[self.index]
    }

    /// The kind the cursor rests on (an alias of [`Parser::current_kind`]).
    pub fn peek_kind(&self) -> (r: TokenKind)
        requires
            self.wf(),
        ensures
            r == self.tokens@[self.index as int].token_kind,
    {
        self.peek_token().token_kind
    }

    /// The identifier under the cursor; an error for any other token.
    pub fn expect_identifier(&self) -> (r: Result<SymbolIndex, Error>)
        requires
            self.wf(),
        ensures
            match r {
                Ok(v) => self.tokens@[self.index as int].token_kind == TokenKind::Identifier(v),
                Err(_) => !(self.tokens@[self.index as int].token_kind is Identifier),
            },
    {
        if let TokenKind::Identifier(v) = self.current_kind() {
            return Ok(v);
        }
        Err(
            CompilerError::new(self.file, "expected identifier").highlight(
                self.current_token().source_range,
            ).build(),
        )
    }

    /// Demand the given token kind under the cursor.
    pub fn expect(&self, kind: TokenKind) -> (r: Result<(), Error>)
        requires
            self.wf(),
        ensures
            r is Ok <==> self.tokens@[self.index as int].token_kind == kind,
    {
        if self.current_kind() != kind {
            return Err(
                CompilerError::new(self.file, "unexpected value").highlight(
                    self.current_token().source_range,
                ).note("the token here is not the one the grammar expects".to_owned()).build(),
            );
        }
        Ok(())
    }

    /// Parse `$IDENT` as a block label, leaving the cursor on the
    /// identifier: it succeeds exactly on a `$` followed by an identifier.
    pub fn label(&mut self) -> (r: Result<BlockId, Error>)
        requires
            old(self).wf(),
        ensures
            final(self).wf(),
            final(self).same_stream(old(self)),
            old(self).index <= final(self).index <= old(self).index + 1,
            r is Ok ==> final(self).index == old(self).index + 1,
            r is Ok <==> (old(self).tokens@[old(self).index as int].token_kind is DollarSign
                && old(self).tokens@[old(self).index + 1].token_kind is Identifier),
            r matches Ok(b) ==> label_at(old(self).tokens@, old(self).index as int, b),
            r matches Ok(b) ==> final(self).tokens@[final(self).index as int].token_kind
                == TokenKind::Identifier(b.0),
    {
        match self.expect(TokenKind::DollarSign) {
            Ok(_) => {},
            Err(e) => { return Err(e) },
        }
        self.advance();
        match self.expect_identifier() {
            Ok(v) => Ok(BlockId(v)),
            Err(e) => Err(e),
        }
    }

    /// Parse `@N` as a register index, leaving the cursor on the number:
    /// it succeeds exactly on an `@` followed by an integer literal that
    /// fits a byte, and then returns that literal.
    pub fn reg(&mut self) -> (r: Result<u8, Error>)
        requires
            old(self).wf(),
        ensures
            final(self).wf(),
            final(self).same_stream(old(self)),
            old(self).index <= final(self).index <= old(self).index + 1,
            r is Ok ==> final(self).index == old(self).index + 1,
            r is Ok <==> (old(self).tokens@[old(self).index as int].token_kind is At && (
            old(self).tokens@[old(self).index + 1].token_kind matches TokenKind::Literal(
                Literal::Integer(n),
            ) && 0 <= n <= 255)),
            r matches Ok(v) ==> old(self).tokens@[old(self).index + 1].token_kind
                == TokenKind::Literal(Literal::Integer(v as i64)),
            r matches Ok(_) ==> (final(self).tokens@[final(self).index as int].token_kind matches
                TokenKind::Literal(l) && l is Integer),
    {
        match self.expect(TokenKind::At) {
            Ok(_) => {},
            Err(e) => { return Err(e) },
        }
        self.advance();
        self.literal_u8()
    }

    /// The integer literal under the cursor, narrowed to a byte: it
    /// succeeds exactly on an integer literal between 0 and 255.
    pub fn literal_u8(&self) -> (r: Result<u8, Error>)
        requires
            self.wf(),
        ensures
            r is Ok <==> (self.tokens@[self.index as int].token_kind matches TokenKind::Literal(
                Literal::Integer(n),
            ) && 0 <= n <= 255),
            r matches Ok(v) ==> self.tokens@[self.index as int].token_kind == TokenKind::Literal(
                Literal::Integer(v as i64),
            ),
    {
        let v = match self.literal_int() {
            Ok(v) => v,
            Err(e) => { return Err(e) },
        };
        if 0 <= v && v <= 255 {
            Ok(v as u8)
        } else {
            Err(
                CompilerError::new(self.file, "value doesn't fit in a u8").highlight(
                    self.current_token().source_range,
                ).build(),
            )
        }
    }

    /// The integer literal under the cursor.
    pub fn literal_int(&self) -> (r: Result<i64, Error>)
        requires
            self.wf(),
        ensures
            match r {
                Ok(v) => self.tokens@[self.index as int].token_kind == TokenKind::Literal(
                    Literal::Integer(v),
                ),
                Err(_) => !(self.tokens@[self.index as int].token_kind matches TokenKind::Literal(
                    l,
                ) && l is Integer),
            },
    {
        if let TokenKind::Literal(Literal::Integer(v)) = self.current_kind() {
            return Ok(v);
        }
        Err(
            CompilerError::new(self.file, "expected an integer literal").highlight(
                self.current_token().source_range,
            ).build(),
        )
    }

    /// The literal under the cursor, of any kind.
    pub fn literal(&self) -> (r: Result<Literal, Error>)
        requires
            self.wf(),
        ensures
            match r {
                Ok(v) => self.tokens@[self.index as int].token_kind == TokenKind::Literal(v),
                Err(_) => !(self.tokens@[self.index as int].token_kind is Literal),
            },
    {
        match self.current_kind() {
            TokenKind::Literal(v) => Ok(v),
            _ => Err(
                CompilerError::new(self.file, "expected a literal").highlight(
                    self.current_token().source_range,
                ).build(),
            ),
        }
    }

    /// Parse the argument registers of a call: `@N` operands until the next
    /// operator, label, function, or the end of input, exactly as
    /// [`spec_reg_list`] fixes them.  The cursor retreats onto the last
    /// consumed token.
    #[verifier::loop_isolation(false)]
    pub fn reg_list(&mut self) -> (r: Result<Vec<u8>, Error>)
        requires
            old(self).wf(),
            old(self).index >= 1,
        ensures
            final(self).wf(),
            final(self).same_stream(old(self)),
            old(self).index <= final(self).index + 1,
            match r {
                Ok(v) => spec_reg_list(old(self).tokens@, old(self).index as int) matches Ok(
                    (vals, end),
                ) && v@ == vals && final(self).index == end - 1,
                Err(_) => spec_reg_list(old(self).tokens@, old(self).index as int) is Err,
            },
    {
        let ghost toks = self.tokens@;
        let ghost i0 = self.index as int;
        let mut vec: Vec<u8> = Vec::new();
        while !self.at_reg_list_end()
            invariant
                self.wf(),
                self.same_stream(old(self)),
                self.tokens@ == toks,
                old(self).index <= self.index,
                self.index >= 1,
                spec_reg_list(toks, i0) == (match spec_reg_list(toks, self.index as int) {
                    Ok((rest, end)) => Ok::<(Seq<u8>, int), ()>((vec@ + rest, end)),
                    Err(e) => Err::<(Seq<u8>, int), ()>(e),
                }),
            decreases self.tokens@.len() - self.index,
        {
            let ghost pre = self.index as int;
            let ghost prevec = vec@;
            let v = match self.reg() {
                Ok(v) => v,
                Err(e) => {
                    proof {
                        assert(spec_reg_list(toks, pre) is Err);
                    }
                    return Err(e);
                },
            };
            vec.push(v);
            self.advance();
            proof {
                assert(toks[pre + 1].token_kind matches TokenKind::Literal(Literal::Integer(n))
                    && n == v as i64 && n as u8 == v);
                assert(spec_reg_list(toks, pre) == (match spec_reg_list(toks, pre + 2) {
                    Ok((rest, end)) => Ok::<(Seq<u8>, int), ()>((seq![v] + rest, end)),
                    Err(e) => Err::<(Seq<u8>, int), ()>(e),
                }));
                match spec_reg_list(toks, pre + 2) {
                    Ok((rest, end)) => {
                        assert(prevec + (seq![v] + rest) =~= vec@ + rest);
                    },
                    Err(_) => {},
                }
            }
        }
        proof {
            assert(spec_reg_list(toks, self.index as int) == Ok::<(Seq<u8>, int), ()>(
                (Seq::<u8>::empty(), self.index as int),
            ));
            assert(vec@ + Seq::<u8>::empty() =~= vec@);
        }
        self.retreat();
        Ok(vec)
    }

    /// Whether the token under the cursor ends an argument list.
    fn at_reg_list_end(&self) -> (r: bool)
        requires
            self.wf(),
        ensures
            ({
                let k = self.tokens@[self.index as int].token_kind;
                r == (k is DollarSign || k is EndOfFile || k == TokenKind::Keyword(Keyword::Fn)
                    || k is Operator)
            }),
    {
        match self.current_kind() {
            TokenKind::DollarSign => true,
            TokenKind::EndOfFile => true,
            TokenKind::Keyword(Keyword::Fn) => true,
            TokenKind::Operator(_) => true,
            _ => false,
        }
    }

    /// Parse two register operands.
    fn two_regs(&mut self) -> (r: Result<(u8, u8), Error>)
        requires
            old(self).wf(),
            !(old(self).tokens@[old(self).index as int].token_kind is EndOfFile),
        ensures
            final(self).wf(),
            final(self).same_stream(old(self)),
            old(self).index <= final(self).index,
            r matches Ok((a, b)) ==> {
                &&& regpair_at(old(self).tokens@, old(self).index + 1, a)
                &&& regpair_at(old(self).tokens@, old(self).index + 3, b)
                &&& final(self).index == old(self).index + 4
            },
            r is Ok ==> (final(self).tokens@[final(self).index as int].token_kind matches
                TokenKind::Literal(l) && l is Integer),
    {
        self.advance();
        let a = match self.reg() {
            Ok(v) => v,
            Err(e) => { return Err(e) },
        };
        self.advance();
        let b = match self.reg() {
            Ok(v) => v,
            Err(e) => { return Err(e) },
        };
        Ok((a, b))
    }

    /// Parse three register operands.
    fn three_regs(&mut self) -> (r: Result<(u8, u8, u8), Error>)
        requires
            old(self).wf(),
            !(old(self).tokens@[old(self).index as int].token_kind is EndOfFile),
        ensures
            final(self).wf(),
            final(self).same_stream(old(self)),
            old(self).index <= final(self).index,
            r matches Ok((a, b, c)) ==> {
                &&& regpair_at(old(self).tokens@, old(self).index + 1, a)
                &&& regpair_at(old(self).tokens@, old(self).index + 3, b)
                &&& regpair_at(old(self).tokens@, old(self).index + 5, c)
                &&& final(self).index == old(self).index + 6
            },
            r is Ok ==> (final(self).tokens@[final(self).index as int].token_kind matches
                TokenKind::Literal(l) && l is Integer),
    {
        let (a, b) = match self.two_regs() {
            Ok(v) => v,
            Err(e) => { return Err(e) },
        };
        self.advance();
        let c = match self.reg() {
            Ok(v) => v,
            Err(e) => { return Err(e) },
        };
        Ok((a, b, c))
    }

    /// Parse one operator with its operands: on success it is spelled at
    /// the entry position exactly as [`op_at`] fixes, and the cursor rests
    /// on its last token.
    #[verifier::rlimit(100)]
    #[verifier::spinoff_prover]
    fn operator(&mut self) -> (r: Result<Operator, Error>)
        requires
            old(self).wf(),
        ensures
            final(self).wf(),
            final(self).same_stream(old(self)),
            old(self).index <= final(self).index,
            r matches Ok(op) ==> {
                &&& op_at(old(self).tokens@, old(self).index as int, op.kind)
                &&& final(self).index + 1 == old(self).index + op_token_len(op.kind)
            },
    {
        let start = self.current_token().source_range.start;
        let kind = match self.current_kind() {
            TokenKind::Operator(OperatorToken::Ret) => OperatorKind::Ret,
            TokenKind::Operator(OperatorToken::Cpy) => {
                let (a, b) = self.two_regs()?;
                OperatorKind::Cpy(a, b)
            },
            TokenKind::Operator(OperatorToken::Swap) => {
                let (a, b) = self.two_regs()?;
                OperatorKind::Swap(a, b)
            },
            TokenKind::Operator(OperatorToken::Cast_IU) => {
                let (a, b) = self.two_regs()?;
                OperatorKind::Cast_IU(a, b)
            },
            TokenKind::Operator(OperatorToken::Cast_IF) => {
                let (a, b) = self.two_regs()?;
                OperatorKind::Cast_IF(a, b)
            },
            TokenKind::Operator(OperatorToken::Cast_UI) => {
                let (a, b) = self.two_regs()?;
                OperatorKind::Cast_UI(a, b)
            },
            TokenKind::Operator(OperatorToken::Cast_UF) => {
                let (a, b) = self.two_regs()?;
                OperatorKind::Cast_UF(a, b)
            },
            TokenKind::Operator(OperatorToken::Cast_FI) => {
                let (a, b) = self.two_regs()?;
                OperatorKind::Cast_FI(a, b)
            },
            TokenKind::Operator(OperatorToken::Cast_FU) => {
                let (a, b) = self.two_regs()?;
                OperatorKind::Cast_FU(a, b)
            },
            TokenKind::Operator(OperatorToken::SetOp) => {
                self.advance();
                let a = self.reg()?;
                self.advance();
                let l = self.literal()?;
                OperatorKind::SetOp(a, l)
            },
            TokenKind::Operator(OperatorToken::Push) => {
                self.advance();
                let n = self.literal_u8()?;
                OperatorKind::Push(n)
            },
            TokenKind::Operator(OperatorToken::Pop) => {
                self.advance();
                let n = self.literal_u8()?;
                OperatorKind::Pop(n)
            },
            TokenKind::Operator(OperatorToken::Jif) => {
                self.advance();
                let c = self.reg()?;
                self.advance();
                let yes = self.label()?;
                self.advance();
                let no = self.label()?;
                OperatorKind::Jif(c, yes, no)
            },
            TokenKind::Operator(OperatorToken::JNif) => {
                self.advance();
                let c = self.reg()?;
                self.advance();
                let yes = self.label()?;
                self.advance();
                let no = self.label()?;
                OperatorKind::JNif(c, yes, no)
            },
            TokenKind::Operator(OperatorToken::Jmp) => {
                self.advance();
                let t = self.label()?;
                OperatorKind::Jmp(t)
            },
            TokenKind::Operator(OperatorToken::IJif) => {
                self.advance();
                let c = self.reg()?;
                self.advance();
                let t = self.label()?;
                OperatorKind::IJif(c, t)
            },
            TokenKind::Operator(OperatorToken::IJNif) => {
                self.advance();
                let c = self.reg()?;
                self.advance();
                let t = self.label()?;
                OperatorKind::IJNif(c, t)
            },
            TokenKind::Operator(OperatorToken::Call) => {
                self.advance();
                let dst = self.reg()?;
                self.advance();
                let callee = self.expect_identifier()?;
                self.advance();
                let args = self.reg_list()?;
                proof {
                    lemma_reg_list_span(old(self).tokens@, old(self).index + 4);
                }
                OperatorKind::Call(dst, callee, args)
            },
            TokenKind::Operator(OperatorToken::AddI) => {
                let (a, b, c) = self.three_regs()?;
                OperatorKind::AddI(a, b, c)
            },
            TokenKind::Operator(OperatorToken::AddU) => {
                let (a, b, c) = self.three_regs()?;
                OperatorKind::AddU(a, b, c)
            },
            TokenKind::Operator(OperatorToken::AddF) => {
                let (a, b, c) = self.three_regs()?;
                OperatorKind::AddF(a, b, c)
            },
            TokenKind::Operator(OperatorToken::SubI) => {
                let (a, b, c) = self.three_regs()?;
                OperatorKind::SubI(a, b, c)
            },
            TokenKind::Operator(OperatorToken::SubU) => {
                let (a, b, c) = self.three_regs()?;
                OperatorKind::SubU(a, b, c)
            },
            TokenKind::Operator(OperatorToken::SubF) => {
                let (a, b, c) = self.three_regs()?;
                OperatorKind::SubF(a, b, c)
            },
            TokenKind::Operator(OperatorToken::MulI) => {
                let (a, b, c) = self.three_regs()?;
                OperatorKind::MulI(a, b, c)
            },
            TokenKind::Operator(OperatorToken::MulU) => {
                let (a, b, c) = self.three_regs()?;
                OperatorKind::MulU(a, b, c)
            },
            TokenKind::Operator(OperatorToken::MulF) => {
                let (a, b, c) = self.three_regs()?;
                OperatorKind::MulF(a, b, c)
            },
            TokenKind::Operator(OperatorToken::DivI) => {
                let (a, b, c) = self.three_regs()?;
                OperatorKind::DivI(a, b, c)
            },
            TokenKind::Operator(OperatorToken::DivU) => {
                let (a, b, c) = self.three_regs()?;
                OperatorKind::DivU(a, b, c)
            },
            TokenKind::Operator(OperatorToken::DivF) => {
                let (a, b, c) = self.three_regs()?;
                OperatorKind::DivF(a, b, c)
            },
            TokenKind::Operator(OperatorToken::RemI) => {
                let (a, b, c) = self.three_regs()?;
                OperatorKind::RemI(a, b, c)
            },
            TokenKind::Operator(OperatorToken::RemU) => {
                let (a, b, c) = self.three_regs()?;
                OperatorKind::RemU(a, b, c)
            },
            TokenKind::Operator(OperatorToken::RemF) => {
                let (a, b, c) = self.three_regs()?;
                OperatorKind::RemF(a, b, c)
            },
            TokenKind::Operator(OperatorToken::LsI) => {
                let (a, b, c) = self.three_regs()?;
                OperatorKind::LsI(a, b, c)
            },
            TokenKind::Operator(OperatorToken::LsU) => {
                let (a, b, c) = self.three_regs()?;
                OperatorKind::LsU(a, b, c)
            },
            TokenKind::Operator(OperatorToken::RsI) => {
                let (a, b, c) = self.three_regs()?;
                OperatorKind::RsI(a, b, c)
            },
            TokenKind::Operator(OperatorToken::RsU) => {
                let (a, b, c) = self.three_regs()?;
                OperatorKind::RsU(a, b, c)
            },
            TokenKind::Operator(OperatorToken::LtI) => {
                let (a, b, c) = self.three_regs()?;
                OperatorKind::LtI(a, b, c)
            },
            TokenKind::Operator(OperatorToken::LtU) => {
                let (a, b, c) = self.three_regs()?;
                OperatorKind::LtU(a, b, c)
            },
            TokenKind::Operator(OperatorToken::LtF) => {
                let (a, b, c) = self.three_regs()?;
                OperatorKind::LtF(a, b, c)
            },
            TokenKind::Operator(OperatorToken::GtI) => {
                let (a, b, c) = self.three_regs()?;
                OperatorKind::GtI(a, b, c)
            },
            TokenKind::Operator(OperatorToken::GtU) => {
                let (a, b, c) = self.three_regs()?;
                OperatorKind::GtU(a, b, c)
            },
            TokenKind::Operator(OperatorToken::GtF) => {
                let (a, b, c) = self.three_regs()?;
                OperatorKind::GtF(a, b, c)
            },
            TokenKind::Operator(OperatorToken::LeI) => {
                let (a, b, c) = self.three_regs()?;
                OperatorKind::LeI(a, b, c)
            },
            TokenKind::Operator(OperatorToken::LeU) => {
                let (a, b, c) = self.three_regs()?;
                OperatorKind::LeU(a, b, c)
            },
            TokenKind::Operator(OperatorToken::LeF) => {
                let (a, b, c) = self.three_regs()?;
                OperatorKind::LeF(a, b, c)
            },
            TokenKind::Operator(OperatorToken::GeI) => {
                let (a, b, c) = self.three_regs()?;
                OperatorKind::GeI(a, b, c)
            },
            TokenKind::Operator(OperatorToken::GeU) => {
                let (a, b, c) = self.three_regs()?;
                OperatorKind::GeU(a, b, c)
            },
            TokenKind::Operator(OperatorToken::GeF) => {
                let (a, b, c) = self.three_regs()?;
                OperatorKind::GeF(a, b, c)
            },
            TokenKind::Operator(OperatorToken::EqI) => {
                let (a, b, c) = self.three_regs()?;
                OperatorKind::EqI(a, b, c)
            },
            TokenKind::Operator(OperatorToken::EqU) => {
                let (a, b, c) = self.three_regs()?;
                OperatorKind::EqU(a, b, c)
            },
            TokenKind::Operator(OperatorToken::EqF) => {
                let (a, b, c) = self.three_regs()?;
                OperatorKind::EqF(a, b, c)
            },
            TokenKind::Operator(OperatorToken::NeI) => {
                let (a, b, c) = self.three_regs()?;
                OperatorKind::NeI(a, b, c)
            },
            TokenKind::Operator(OperatorToken::NeU) => {
                let (a, b, c) = self.three_regs()?;
                OperatorKind::NeU(a, b, c)
            },
            TokenKind::Operator(OperatorToken::NeF) => {
                let (a, b, c) = self.three_regs()?;
                OperatorKind::NeF(a, b, c)
            },
            TokenKind::Operator(OperatorToken::Print) => {
                self.advance();
                let a = self.reg()?;
                OperatorKind::Print(a)
            },
            _ => {
                return Err(
                    CompilerError::new(self.file, "unknown operator").highlight(
                        self.current_token().source_range,
                    ).build(),
                );
            },
        };
        let end = self.current_token().source_range.end;
        Ok(Operator { kind, source_range: make_range(start, end) })
    }
}

/// Parse a token stream into functions.
///
/// The stream must be a lexer's output: nonempty, with its only
/// `EndOfFile` token at the end.  On success the declarations returned are
/// exactly what the stream spells out, in order — name, argument count,
/// entry label, and every block with its operators — as [`fns_at`] fixes
/// from position 0.
#[verifier::rlimit(100)]
#[verifier::spinoff_prover]
#[verifier::loop_isolation(false)]
pub fn parse(file: SymbolIndex, tokens: Vec<Token>, symbol_map: &SymbolMap) -> (r: Result<
    Vec<Function>,
    Error,
>)
    requires
        tokens@.len() >= 1,
        tokens@.last().token_kind is EndOfFile,
        forall|i: int|
            0 <= i < tokens@.len() - 1 ==> !((#[trigger] tokens@[i]).token_kind is EndOfFile),
    ensures
        r matches Ok(fs) ==> fns_at(tokens@, 0, fs@),
{
    // the grammar needs no symbol lookups; the table parameter keeps the
    // stage interface uniform for diagnostics-rendering callers
    let _ = symbol_map;
    let mut vec: Vec<Function> = Vec::new();
    let mut parser = Parser { tokens, index: 0, file };
    let ghost toks = parser.tokens@;
    loop
        invariant
            parser.wf(),
            parser.file == file,
            parser.tokens@ == toks,
            fns_prefix_at(toks, 0, vec@),
            parser.index == fns_token_len(vec@),
        decreases parser.tokens@.len() - parser.index,
    {
        if match parser.current_kind() {
            TokenKind::EndOfFile => true,
            _ => false,
        } {
            break ;
        }
        let ghost fuel0 = parser.index;
        let ghost prevec = vec@;
        let start_pos = parser.current_token().source_range.start;
        match parser.expect(TokenKind::Keyword(Keyword::Fn)) {
            Ok(_) => {},
            Err(e) => { return Err(e) },
        }
        parser.advance();
        let name = match parser.expect_identifier() {
            Ok(v) => v,
            Err(e) => { return Err(e) },
        };
        parser.advance();
        match parser.expect(TokenKind::SquigglyDash) {
            Ok(_) => {},
            Err(e) => { return Err(e) },
        }
        parser.advance();
        let argc = match parser.literal_u8() {
            Ok(v) => v,
            Err(e) => { return Err(e) },
        };
        parser.advance();
        let start = match parser.label() {
            Ok(v) => v,
            Err(e) => { return Err(e) },
        };
        let declaration_range = make_range(start_pos, parser.current_token().source_range.end);
        parser.advance();
        let mut blocks: Vec<Block> = Vec::new();
        loop
            invariant
                parser.wf(),
                parser.file == file,
                parser.tokens@ == toks,
                parser.index > fuel0,
                blocks_at(toks, fuel0 + 6, blocks@),
                parser.index == fuel0 + 6 + blocks_token_len(blocks@),
            decreases parser.tokens@.len() - parser.index,
        {
            if parser.at_function_end() {
                break ;
            }
            let ghost bstart = parser.index;
            let ghost preblocks = blocks@;
            let bname = match parser.label() {
                Ok(v) => v,
                Err(e) => { return Err(e) },
            };
            parser.advance();
            let mut operators: Vec<Operator> = Vec::new();
            loop
                invariant
                    parser.wf(),
                    parser.file == file,
                    parser.tokens@ == toks,
                    parser.index > fuel0,
                    parser.index > bstart,
                    ops_at(toks, bstart + 2, operators@),
                    parser.index == bstart + 2 + ops_token_len(operators@),
                decreases parser.tokens@.len() - parser.index,
            {
                if parser.at_block_end() {
                    break ;
                }
                let ghost preops = operators@;
                let ghost opos = parser.index as int;
                let op = match parser.operator() {
                    Ok(v) => v,
                    Err(e) => { return Err(e) },
                };
                proof {
                    lemma_ops_at_snoc(toks, bstart + 2, preops, op);
                }
                operators.push(op);
                if match parser.current_kind() {
                    TokenKind::EndOfFile => true,
                    _ => false,
                } {
                    // an operator's last token is never the end-of-input
                    // token, so this break cannot be taken
                    proof {
                        lemma_op_last_not_eof(toks, opos, operators@.last().kind);
                        assert(false);
                    }
                    break ;
                }
                parser.advance();
            }
            proof {
                lemma_blocks_at_snoc(
                    toks,
                    fuel0 + 6,
                    preblocks,
                    Block { operators: operators, id: bname },
                );
            }
            blocks.push(Block { operators, id: bname });
        }
        let f = Function { name, body: blocks, entry: start, argc, declaration_range };
        proof {
            assert(fn_at(toks, fuel0 as int, f));
            lemma_fns_at_snoc(toks, 0, prevec, f);
        }
        vec.push(f);
    }
    Ok(vec)
}

impl Parser {
    /// Whether the token under the cursor ends a function body.
    fn at_function_end(&self) -> (r: bool)
        requires
            self.wf(),
        ensures
            ({
                let k = self.tokens@[self.index as int].token_kind;
                r == (k is EndOfFile || k == TokenKind::Keyword(Keyword::Fn))
            }),
    {
        match self.current_kind() {
            TokenKind::EndOfFile => true,
            TokenKind::Keyword(Keyword::Fn) => true,
            _ => false,
        }
    }

    /// Whether the token under the cursor ends a block.
    fn at_block_end(&self) -> (r: bool)
        requires
            self.wf(),
        ensures
            ({
                let k = self.tokens@[self.index as int].token_kind;
                r == (k is EndOfFile || k == TokenKind::Keyword(Keyword::Fn) || k is DollarSign)
            }),
    {
        match self.current_kind() {
            TokenKind::EndOfFile => true,
            TokenKind::Keyword(Keyword::Fn) => true,
            TokenKind::DollarSign => true,
            _ => false,
        }
    }
}

} // verus!
