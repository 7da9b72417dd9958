//! Lowering of a program: its functions, each generic function once for
//! each copy, the methods of its implementations, and its constants.

use crate::ast::types as ast;
use crate::ast::types::{view_tys, Ident, SpecTy};
use crate::ast::symbol::Interner;
use crate::lir::fold::{fold_items, items_folded};
use crate::lir::instances::{instance_name, MonoNames};
use crate::lir::lower::{plain_lowerable, ty_lowered, Const, Expr, Func, Item, Ty};
use crate::lir::lower_expr::{expr_lowerable, expr_lowered, LowerCx, LowerError, Lowering};
use crate::lir::lower_stmt::{func_lowerable, func_lowered};
use crate::lir::mono::{
    all_candidates, base_cx, build, build_names, candidates, copies_lowerable, copies_lowered,
    copies_of, dedup, program_cx, CandidateModel,
};
use crate::typeck::TyCheckRes;
use vstd::prelude::*;

verus! {

/// The functions of a list of items; `None` where an item is no function.
pub open spec fn as_funcs(part: Seq<Item>) -> Option<Seq<Func>> {
    if forall|i: int| 0 <= i < part.len() ==> (#[trigger] part[i]) is Func {
        Some(Seq::new(part.len(), |i: int| part[i]->Func_0))
    } else {
        None
    }
}

/// The name of the copy of the implementation `imp`, if the table of
/// copies holds one.
pub open spec fn impl_name(cx: LowerCx, imp: ast::Impl) -> Option<Ident> {
    if imp.path@.len() > 0 {
        instance_name(cx.tbl, imp.path@.last(), view_tys(imp.type_arguments@))
    } else {
        None
    }
}

/// `true` when what a declaration lowers to can be lowered.
pub open spec fn decl_lowerable(cx: LowerCx, d: ast::Decl) -> bool {
    match d {
        ast::Decl::Func(f) => if f.generics@.len() == 0 {
            func_lowerable(cx, f)
        } else {
            copies_lowerable(cx, f)
        },
        ast::Decl::Impl(imp) => impl_name(cx, imp) is Some ==> func_lowerable(cx, imp.method),
        ast::Decl::Const(c) => plain_lowerable(cx.env, cx.fuel, c.ty@) && expr_lowerable(
            cx,
            c.init,
        ),
        _ => true,
    }
}

/// `true` when `part` is what the declaration `d` lowers to.
///
/// - A function that is not generic: the function, under its own name.
/// - A generic function: its copies, one for each copy of it in the table
///   of copies.
/// - An implementation of a trait: its method, under the name of the
///   implementation's copy; nothing where the table holds no copy of it.
/// - A constant: the constant, marked as global.
/// - A struct, an enum or a trait: nothing; they stand in the types that
///   carry them.
pub open spec fn decl_lowered(cx: LowerCx, d: ast::Decl, part: Seq<Item>) -> bool {
    match d {
        ast::Decl::Func(f) => if f.generics@.len() == 0 {
            part.len() == 1 && (part[0] matches Item::Func(r) && func_lowered(cx, f, f.ident, r))
        } else {
            as_funcs(part) matches Some(rs) && copies_lowered(cx, f, rs)
        },
        ast::Decl::Impl(imp) => match impl_name(cx, imp) {
            Some(name) => part.len() == 1 && (part[0] matches Item::Func(r) && func_lowered(
                cx,
                imp.method,
                name,
                r,
            )),
            None => part.len() == 0,
        },
        ast::Decl::Const(c) => {
            &&& part.len() == 1
            &&& part[0] matches Item::Const(k)
            &&& k.ident == c.ident
            &&& k.is_global
            &&& ty_lowered(cx.env, cx.fuel, c.ty@, k.ty)
            &&& expr_lowered(cx, c.init, k.init)
        },
        _ => part.len() == 0,
    }
}

/// The number of items that a declaration lowers to.
pub open spec fn decl_len(cx: LowerCx, d: ast::Decl) -> nat {
    match d {
        ast::Decl::Func(f) => if f.generics@.len() == 0 {
            1
        } else {
            copies_of(cx.tbl, f.ident, cx.tbl.len()).len()
        },
        ast::Decl::Impl(imp) => if impl_name(cx, imp) is Some {
            1
        } else {
            0
        },
        ast::Decl::Const(_) => 1,
        _ => 0,
    }
}

/// The number of items that the first `n` declarations lower to.
pub open spec fn total_len(cx: LowerCx, decls: Seq<ast::Declaration>, n: nat) -> nat
    decreases n,
{
    if n == 0 || n > decls.len() {
        0
    } else {
        total_len(cx, decls, (n - 1) as nat) + decl_len(cx, decls[n - 1].val)
    }
}

/// `true` when what each of the first `n` declarations lowers to can be
/// lowered.
pub open spec fn items_lowerable(cx: LowerCx, decls: Seq<ast::Declaration>, n: nat) -> bool
    decreases n,
{
    if n == 0 || n > decls.len() {
        true
    } else {
        items_lowerable(cx, decls, (n - 1) as nat) && decl_lowerable(cx, decls[n - 1].val)
    }
}

/// `true` when `out` is what the first `n` declarations lower to: for each
/// declaration in order what [`decl_lowered`] states.
pub open spec fn items_lowered(cx: LowerCx, decls: Seq<ast::Declaration>, n: nat, out: Seq<Item>) -> bool
    decreases n,
{
    if n == 0 || n > decls.len() {
        out.len() == 0
    } else {
        let k = total_len(cx, decls, (n - 1) as nat);
        &&& out.len() == k + decl_len(cx, decls[n - 1].val)
        &&& items_lowered(cx, decls, (n - 1) as nat, out.subrange(0, k as int))
        &&& decl_lowered(cx, decls[n - 1].val, out.subrange(k as int, out.len() as int))
    }
}

/// Where the first declarations cannot be lowered, no more of them can.
pub proof fn lemma_items_lowerable_prefix(cx: LowerCx, decls: Seq<ast::Declaration>, n: nat, m: nat)
    requires
        n <= m <= decls.len(),
        items_lowerable(cx, decls, m),
    ensures
        items_lowerable(cx, decls, n),
    decreases m - n,
{
    if n < m {
        lemma_items_lowerable_prefix(cx, decls, n, (m - 1) as nat);
    }
}

/// One declaration that cannot be lowered keeps the program from being lowered.
pub proof fn lemma_not_lowerable(cx: LowerCx, decls: Seq<ast::Declaration>, i: nat)
    requires
        i < decls.len(),
        !decl_lowerable(cx, decls[i as int].val),
    ensures
        !items_lowerable(cx, decls, decls.len()),
{
    if items_lowerable(cx, decls, decls.len()) {
        lemma_items_lowerable_prefix(cx, decls, i + 1, decls.len());
    }
}

/// The functions of a list as items.
pub open spec fn as_items(fs: Seq<Func>) -> Seq<Item> {
    Seq::new(fs.len(), |i: int| Item::Func(fs[i]))
}

/// Puts the functions of `fs` behind `out`, in order.
fn push_funcs(out: &mut Vec<Item>, fs: Vec<Func>)
    ensures
        final(out)@ == old(out)@ + as_items(fs@),
{
    let ghost rs = fs@;
    let mut fs = fs;
    let mut rest: Vec<Func> = Vec::new();
    while fs.len() > 0
        invariant
            fs@.len() + rest@.len() == rs.len(),
            forall|a: int| 0 <= a < fs@.len() ==> fs@[a] == rs[a],
            forall|a: int| 0 <= a < rest@.len() ==> rest@[a] == rs[rs.len() - 1 - a],
        decreases fs.len(),
    {
        match fs.pop() {
            Some(x) => {
                rest.push(x);
            },
            None => {},
        }
    }
    let ghost done: int = 0;
    assert(out@ =~= old(out)@ + as_items(rs.subrange(0, 0)));
    while rest.len() > 0
        invariant
            rest@.len() <= rs.len(),
            done == rs.len() - rest@.len(),
            out@ == old(out)@ + as_items(rs.subrange(0, done)),
            forall|a: int| 0 <= a < rest@.len() ==> rest@[a] == rs[rs.len() - 1 - a],
        decreases rest.len(),
    {
        match rest.pop() {
            Some(x) => {
                out.push(Item::Func(x));
                proof {
                    assert(x == rs[done]);
                    assert(out@ =~= old(out)@ + as_items(rs.subrange(0, done + 1)));
                    done = done + 1;
                }
            },
            None => {},
        }
    }
    assert(rs.subrange(0, rs.len() as int) =~= rs);
}

/// Lowers a program: each declaration in order.
///
/// The result is what [`items_lowered`] states of all the declarations.
/// Lowering fails where a part of the program cannot be lowered; see
/// [`items_lowerable`].
pub fn lower_items<'ast>(
    items: &Vec<ast::Declaration>,
    tcxt: &TyCheckRes<'ast>,
    names: &MonoNames,
    fuel: usize,
) -> (r: Result<Vec<Item>, LowerError>)
    ensures
        r is Ok == items_lowerable(base_cx(*tcxt, *names, fuel as nat), items@, items@.len()),
        r matches Ok(v) ==> items_lowered(
            base_cx(*tcxt, *names, fuel as nat),
            items@,
            items@.len(),
            v@,
        ),
{
    let none_params: Vec<Ident> = Vec::new();
    let none_args: Vec<ast::Ty> = Vec::new();
    let cx = Lowering { tcxt, names, params: &none_params, args: &none_args, fuel };
    let ghost c = base_cx(*tcxt, *names, fuel as nat);
    assert(view_tys(none_args@) =~= Seq::<SpecTy>::empty());
    assert(none_params@ =~= Seq::<Ident>::empty());
    assert(cx@ == c);
    let mut out: Vec<Item> = Vec::new();
    let mut i: usize = 0;
    while i < items.len()
        invariant
            i <= items.len(),
            cx@ == c,
            c == base_cx(*tcxt, *names, fuel as nat),
            cx.tcxt == tcxt,
            cx.names == names,
            cx.fuel == fuel,
            items_lowerable(c, items@, i as nat),
            items_lowered(c, items@, i as nat, out@),
            out@.len() == total_len(c, items@, i as nat),
        decreases items.len() - i,
    {
        let ghost before = out@;
        match &items[i].val {
            ast::Decl::Func(f) => {
                if f.generics.len() == 0 {
                    match Func::lower(&cx, f, f.ident) {
                        Ok(r) => {
                            out.push(Item::Func(r));
                        },
                        Err(err) => {
                            proof {
                                lemma_not_lowerable(c, items@, i as nat);
                            }
                            return Err(err);
                        },
                    }
                } else {
                    match tcxt.mono_func(names, f, fuel) {
                        Ok(copies) => {
                            let ghost rs = copies@;
                            push_funcs(&mut out, copies);
                            proof {
                                let part = out@.subrange(before.len() as int, out@.len() as int);
                                assert(part =~= as_items(rs));
                                assert(as_funcs(part)->0 =~= rs);
                            }
                        },
                        Err(err) => {
                            proof {
                                lemma_not_lowerable(c, items@, i as nat);
                            }
                            return Err(err);
                        },
                    }
                }
            },
            ast::Decl::Impl(imp) => {
                let name = match imp.path.local_ident() {
                    Some(t) => names.lookup(t, &imp.type_arguments),
                    None => None,
                };
                match name {
                    Some(n) => match Func::lower(&cx, &imp.method, n) {
                        Ok(r) => {
                            out.push(Item::Func(r));
                        },
                        Err(err) => {
                            proof {
                                lemma_not_lowerable(c, items@, i as nat);
                            }
                            return Err(err);
                        },
                    },
                    None => {},
                }
            },
            ast::Decl::Const(k) => {
                let ty = match Ty::lower_plain(tcxt, &k.ty, fuel) {
                    Some(t) => t,
                    None => {
                        proof {
                            lemma_not_lowerable(c, items@, i as nat);
                        }
                        return Err(LowerError::NotLowerable);
                    },
                };
                match Expr::lower(&cx, &k.init) {
                    Ok(init) => {
                        out.push(Item::Const(Const { ty, ident: k.ident, init, is_global: true }));
                    },
                    Err(err) => {
                        proof {
                            lemma_not_lowerable(c, items@, i as nat);
                        }
                        return Err(err);
                    },
                }
            },
            _ => {},
        }
        proof {
            assert(out@.subrange(0, before.len() as int) =~= before);
        }
        i += 1;
    }
    Ok(out)
}


/// The candidates for copies that the program `decls` asks for, each once.
pub open spec fn program_candidates(tcxt: TyCheckRes, decls: Seq<ast::Declaration>, depth: nat) -> Seq<
    CandidateModel,
> {
    dedup(
        all_candidates(tcxt.generic_res@, depth, decls, decls.len()),
        all_candidates(tcxt.generic_res@, depth, decls, decls.len()).len(),
    )
}

/// Lowers a checked program: names the copies that the program asks for,
/// puts their names into the table of names, and lowers each declaration.
///
/// `depth` bounds how far the generic functions that a generic function
/// depends on are followed, and `fuel` how deep the definitions that a type
/// carries are lowered.
pub fn lower_program<'ast>(
    items: &Vec<ast::Declaration>,
    tcxt: &TyCheckRes<'ast>,
    symbols: &mut Interner,
    depth: usize,
    fuel: usize,
) -> (r: Result<Vec<Item>, LowerError>)
    requires
        old(symbols).wf(),
        old(symbols)@.len() < usize::MAX,
    ensures
        final(symbols).wf(),
        final(symbols)@ == build(
            old(symbols)@,
            program_candidates(*tcxt, items@, depth as nat),
            program_candidates(*tcxt, items@, depth as nat).len(),
        ).names,
        r is Ok == items_lowerable(
            program_cx(
                *tcxt,
                build(
                    old(symbols)@,
                    program_candidates(*tcxt, items@, depth as nat),
                    program_candidates(*tcxt, items@, depth as nat).len(),
                ).tbl,
                fuel as nat,
            ),
            items@,
            items@.len(),
        ),
        r matches Ok(v) ==> items_lowered(
            program_cx(
                *tcxt,
                build(
                    old(symbols)@,
                    program_candidates(*tcxt, items@, depth as nat),
                    program_candidates(*tcxt, items@, depth as nat).len(),
                ).tbl,
                fuel as nat,
            ),
            items@,
            items@.len(),
            v@,
        ),
{
    let cands = candidates(tcxt, items, depth);
    let names = build_names(&cands, symbols);
    assert(base_cx(*tcxt, names, fuel as nat) == program_cx(*tcxt, names@, fuel as nat));
    lower_items(items, tcxt, &names, fuel)
}


/// `true` when `out` is what the declarations `decls` lower to, with its
/// constants folded.
pub open spec fn lowered_and_folded(cx: LowerCx, decls: Seq<ast::Declaration>, out: Seq<Item>, consts: Map<usize, ast::Val>) -> bool {
    exists|plain: Seq<Item>|
        items_lowered(cx, decls, decls.len(), plain) && #[trigger] items_folded(plain, out, consts)
}

/// Lowers a checked program as [`lower_program`] does, and folds the
/// constants of what comes out: the result is the lowered program with
/// each operator on literals replaced by the literal it yields.
pub fn lower_folded<'ast>(
    items: &Vec<ast::Declaration>,
    tcxt: &TyCheckRes<'ast>,
    symbols: &mut Interner,
    depth: usize,
    fuel: usize,
) -> (r: Result<Vec<Item>, LowerError>)
    requires
        old(symbols).wf(),
        old(symbols)@.len() < usize::MAX,
    ensures
        final(symbols).wf(),
        final(symbols)@ == build(
            old(symbols)@,
            program_candidates(*tcxt, items@, depth as nat),
            program_candidates(*tcxt, items@, depth as nat).len(),
        ).names,
        r is Ok == items_lowerable(
            program_cx(
                *tcxt,
                build(
                    old(symbols)@,
                    program_candidates(*tcxt, items@, depth as nat),
                    program_candidates(*tcxt, items@, depth as nat).len(),
                ).tbl,
                fuel as nat,
            ),
            items@,
            items@.len(),
        ),
        r matches Ok(v) ==> lowered_and_folded(
            program_cx(
                *tcxt,
                build(
                    old(symbols)@,
                    program_candidates(*tcxt, items@, depth as nat),
                    program_candidates(*tcxt, items@, depth as nat).len(),
                ).tbl,
                fuel as nat,
            ),
            items@,
            v@,
            tcxt.consts@,
        ),
{
    let ghost cx = program_cx(
        *tcxt,
        build(
            old(symbols)@,
            program_candidates(*tcxt, items@, depth as nat),
            program_candidates(*tcxt, items@, depth as nat).len(),
        ).tbl,
        fuel as nat,
    );
    match lower_program(items, tcxt, symbols, depth, fuel) {
        Ok(plain) => {
            let ghost held = plain@;
            assert(items_lowered(cx, items@, items@.len(), held));
            let out = fold_items(plain, &tcxt.consts);
            assert(items_folded(held, out@, tcxt.consts@));
            assert(lowered_and_folded(cx, items@, out@, tcxt.consts@));
            Ok(out)
        },
        Err(e) => Err(e),
    }
}

} // verus!
