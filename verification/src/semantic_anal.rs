//! The assembler's semantic checks: a `main` function exists, function
//! names are unique, every declared entry block exists, and every call
//! names a defined function with the right number of arguments.

use vstd::prelude::*;

use crate::errors::{CompilerError, Error};
use crate::operators::OperatorKind;
use crate::parser::Function;
use crate::symbols::{spec_find_str, SymbolIndex, SymbolMap};

verus! {

broadcast use vstd::std_specs::vec::group_vec_axioms;

/// The function at `i` has a block carrying its declared entry label.
pub open spec fn entry_defined(fs: Seq<Function>, i: int) -> bool {
    exists|j: int| 0 <= j < fs[i].body@.len() && fs[i].body@[j].id == fs[i].entry
}

/// Every call in the program names a defined function whose declared
/// argument count matches the argument list.
pub open spec fn calls_ok(fs: Seq<Function>) -> bool {
    forall|i: int, j: int, k: int|
        0 <= i < fs.len() && 0 <= j < fs[i].body@.len() && 0 <= k
            < fs[i].body@[j].operators@.len() ==> ((#[trigger] fs[i].body@[j].operators@[k].kind)
            matches OperatorKind::Call(_, name, args) ==> exists|t: int|
            0 <= t < fs.len() && fs[t].name == name && fs[t].argc == args@.len())
}

/// Everything the analysis demands of a program, given the symbol `main`
/// is interned at.
pub open spec fn spec_analysis_ok(fs: Seq<Function>, main: SymbolIndex) -> bool {
    &&& exists|i: int| 0 <= i < fs.len() && (#[trigger] fs[i]).name == main
    &&& forall|i: int, j: int| 0 <= i < j < fs.len() ==> fs[i].name != fs[j].name
    &&& forall|i: int| 0 <= i < fs.len() ==> entry_defined(fs, i)
    &&& calls_ok(fs)
}

#[verifier::rlimit(100)]
/// Check a parsed program.  `main` is interned on the way (the table is
/// otherwise untouched), and the result is `Ok` exactly when every rule
/// above holds.
#[verifier::spinoff_prover]
#[verifier::loop_isolation(false)]
pub fn analyze(file: SymbolIndex, symbol_table: &mut SymbolMap, functions: &Vec<Function>) -> (r:
    Result<(), Error>)
    ensures
        ({
            let mi = match spec_find_str(old(symbol_table)@, "main"@) {
                Some(i) => SymbolIndex(i as usize),
                None => SymbolIndex(old(symbol_table)@.len() as usize),
            };
            &&& final(symbol_table)@ == (match spec_find_str(old(symbol_table)@, "main"@) {
                Some(_) => old(symbol_table)@,
                None => old(symbol_table)@.push("main"@),
            })
            &&& (r is Ok <==> spec_analysis_ok(functions@, mi))
        }),
{
    let main_ident = symbol_table.push("main".to_owned());
    let ghost tbl = symbol_table@;
    let n = functions.len();
    let mut has_main = false;
    let mut i: usize = 0;
    while i < n
        invariant
            symbol_table@ == tbl,
            n == functions@.len(),
            i <= n,
            has_main <==> exists|t: int| 0 <= t < i && (#[trigger] functions@[t]).name
                == main_ident,
        decreases n - i,
    {
        if functions[i].name == main_ident {
            has_main = true;
        }
        i = i + 1;
    }
    if !has_main {
        return Err(CompilerError::new(file, "no 'main' function defined").build());
    }
    let mut i: usize = 0;
    while i < n
        invariant
            symbol_table@ == tbl,
            n == functions@.len(),
            i <= n,
            forall|a: int, b: int| 0 <= a < b < i ==> functions@[a].name != functions@[b].name,
            forall|a: int| 0 <= a < i ==> entry_defined(functions@, a),
            forall|a: int, j: int, k: int|
                0 <= a < i && 0 <= j < functions@[a].body@.len() && 0 <= k
                    < functions@[a].body@[j].operators@.len() ==> ((
                #[trigger] functions@[a].body@[j].operators@[k].kind) matches OperatorKind::Call(
                    _,
                    name,
                    args,
                ) ==> exists|t: int|
                    0 <= t < functions@.len() && functions@[t].name == name && functions@[t].argc
                        == args@.len()),
        decreases n - i,
    {
        let f = &functions[i];
        // a name seen before is a duplicate definition
        let mut a: usize = 0;
        while a < i
            invariant
                symbol_table@ == tbl,
                n == functions@.len(),
                i < n,
                a <= i,
                f == &functions@[i as int],
                forall|b: int| 0 <= b < a ==> functions@[b].name != f.name,
            decreases i - a,
        {
            if functions[a].name == f.name {
                proof {
                    if spec_analysis_ok(functions@, main_ident) {
                        assert(functions@[a as int].name != functions@[i as int].name);
                        assert(false);
                    }
                }
                return Err(
                    CompilerError::new(file, "function already defined").highlight(
                        f.declaration_range,
                    ).note(
                        "this function is already defined earlier in the program".to_owned(),
                    ).build(),
                );
            }
            a = a + 1;
        }
        // the declared entry block must exist in the body
        let mut has_entry = false;
        let mut j: usize = 0;
        while j < f.body.len()
            invariant
                symbol_table@ == tbl,
                n == functions@.len(),
                i < n,
                f == &functions@[i as int],
                j <= f.body@.len(),
                has_entry <==> exists|b: int| 0 <= b < j && f.body@[b].id == f.entry,
            decreases f.body@.len() - j,
        {
            if f.body[j].id == f.entry {
                has_entry = true;
            }
            j = j + 1;
        }
        if !has_entry {
            assert(!entry_defined(functions@, i as int));
            return Err(
                CompilerError::new(file, "entry block isn't defined").highlight(
                    f.declaration_range,
                ).note(
                    "the entry block named in the declaration doesn't exist in the body".to_owned(),
                ).build(),
            );
        }
        // every call must name a defined function with matching arity
        let mut j: usize = 0;
        while j < f.body.len()
            invariant
                symbol_table@ == tbl,
                n == functions@.len(),
                i < n,
                f == &functions@[i as int],
                j <= f.body@.len(),
                forall|jj: int, k: int|
                    0 <= jj < j && 0 <= k < functions@[i as int].body@[jj].operators@.len() ==> ((
                    #[trigger] functions@[i as int].body@[jj].operators@[k].kind) matches
                    OperatorKind::Call(_, name, args) ==> exists|t: int|
                        0 <= t < functions@.len() && functions@[t].name == name
                            && functions@[t].argc == args@.len()),
            decreases f.body@.len() - j,
        {
            let block = &f.body[j];
            let mut k: usize = 0;
            while k < block.operators.len()
                invariant
                    symbol_table@ == tbl,
                    n == functions@.len(),
                    i < n,
                    f == &functions@[i as int],
                    j < f.body@.len(),
                    block == &functions@[i as int].body@[j as int],
                    k <= block.operators@.len(),
                    forall|kk: int|
                        0 <= kk < k ==> ((
                        #[trigger] functions@[i as int].body@[j as int].operators@[kk].kind)
                            matches OperatorKind::Call(_, name, args) ==> exists|t: int|
                            0 <= t < functions@.len() && functions@[t].name == name
                                && functions@[t].argc == args@.len()),
                decreases block.operators@.len() - k,
            {
                if let OperatorKind::Call(_, name, args) = &block.operators[k].kind {
                    let mut found = false;
                    let mut fa: u8 = 0;
                    let mut fidx: usize = 0;
                    let mut t: usize = 0;
                    while t < n
                        invariant
                            symbol_table@ == tbl,
                            n == functions@.len(),
                            t <= n,
                            !found ==> forall|b: int|
                                0 <= b < t ==> functions@[b].name != *name,
                            found ==> fidx < t && functions@[fidx as int].name == *name
                                && functions@[fidx as int].argc == fa && forall|b: int|
                                0 <= b < fidx ==> functions@[b].name != *name,
                        decreases n - t,
                    {
                        if !found && functions[t].name == *name {
                            found = true;
                            fa = functions[t].argc;
                            fidx = t;
                        }
                        t = t + 1;
                    }
                    if !found {
                        proof {
                            let kind = functions@[i as int].body@[j as int].operators@[
                                k as int].kind;
                            assert(kind matches OperatorKind::Call(_, nm, ag) && nm == *name);
                            if calls_ok(functions@) {
                                assert(kind matches OperatorKind::Call(_, nm, ag)
                                    ==> exists|t2: int|
                                    0 <= t2 < functions@.len() && functions@[t2].name == nm
                                        && functions@[t2].argc == ag@.len());
                                assert(false);
                            }
                        }
                        return Err(
                            CompilerError::new(file, "function isn't defined").highlight(
                                block.operators[k].source_range,
                            ).build(),
                        );
                    }
                    if args.len() != fa as usize {
                        // the first function with the name decides the
                        // expected arity: with unique names it is the only
                        // one, so either the arity rule or the uniqueness
                        // rule is broken
                        proof {
                            let kind = functions@[i as int].body@[j as int].operators@[
                                k as int].kind;
                            assert(kind matches OperatorKind::Call(_, nm, ag) && nm == *name
                                && ag@ == args@);
                            if (forall|x: int, y: int|
                                0 <= x < y < functions@.len() ==> functions@[x].name
                                    != functions@[y].name) && calls_ok(functions@) {
                                assert(kind matches OperatorKind::Call(_, nm, ag)
                                    ==> exists|t2: int|
                                    0 <= t2 < functions@.len() && functions@[t2].name == nm
                                        && functions@[t2].argc == ag@.len());
                                let t2 = choose|t2: int|
                                    0 <= t2 < functions@.len() && functions@[t2].name == *name
                                        && functions@[t2].argc == args@.len();
                                if t2 != fidx {
                                    assert(functions@[t2].name == functions@[fidx as int].name);
                                    if t2 < fidx {
                                        assert(false);
                                    } else {
                                        assert(false);
                                    }
                                }
                                assert(false);
                            }
                        }
                        return Err(
                            CompilerError::new(file, "differing argument counts").highlight(
                                block.operators[k].source_range,
                            ).note(
                                "the number of arguments doesn't match the declaration".to_owned(),
                            ).build(),
                        );
                    }
                }
                k = k + 1;
            }
            j = j + 1;
        }
        i = i + 1;
    }
    Ok(())
}

} // verus!

