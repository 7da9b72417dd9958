//! The check pass over expressions: whether the arguments of calls and the
//! values of initializers have the types that are asked for, and which
//! generic items are used with which types.

use crate::ast::types::{
    generic_names, names_of, position_of, view_opt, view_tys, Expr, Expression, FieldInit, Func,
    Ident, Path, SpecTy, Struct, Ty,
};
use crate::ast::types::Range;
use crate::error::{lemma_extends_refl, lemma_extends_trans, Error, ErrorKind};
use crate::typeck::coverage::covered;
use crate::typeck::faults::{fault, faults, named_fault, subject, subject_of};
use crate::typeck::infer::{entries, ty_of, TypeInfer};
use crate::typeck::check::{
    build_stack, check_dereference, coercion, deref_ok, spec_build_stack, spec_coercion, table_ty,
    table_type, table_tys,
};
use crate::typeck::generic::{spec_record_args, Node, ResolverModel};
use crate::typeck::infer::{all_typed, call_targs, field_names, unwrap_tys, variant_names};
use crate::typeck::trait_solver::{solve_in, Solved, ToSolve};
use crate::typeck::typing::{
    exec_call_targs, field_position, unwrap_all, variant_position, view_opts,
};
use crate::typeck::{param_tys, Env, TyCheckRes};
use vstd::prelude::*;

verus! {

/// `true` when an argument of type `arg` may be handed to a parameter of
/// type `param`: the argument has a type, and it is the parameter's type
/// or converts to it.
pub open spec fn arg_ok(param: SpecTy, arg: Option<SpecTy>) -> bool {
    arg matches Some(a) && spec_coercion(param, a) == param
}

/// `true` when the arguments of a call of the function `path` have the
/// types of its parameters, with the call's type arguments put in.
pub open spec fn call_args_ok(env: Env, types: Map<usize, SpecTy>, path: Seq<Ident>, args: Seq<Expression>, targs: Seq<SpecTy>) -> bool {
    &&& path.len() > 0
    &&& env.funcs.contains_key(path.last().id)
    &&& all_typed(table_tys(types, args))
    &&& args.len() == env.funcs[path.last().id].params@.len()
    &&& call_targs(*env.funcs[path.last().id], unwrap_tys(table_tys(types, args)), targs) matches Some(
        ta,
    ) && forall|i: int|
        0 <= i < args.len() ==> arg_ok(
            param_tys(*env.funcs[path.last().id])[i].subst_all(
                generic_names(env.funcs[path.last().id].generics@),
                ta,
            ),
            #[trigger] table_tys(types, args)[i],
        )
}

/// `true` when the arguments of a call of the method of trait `path` have
/// exactly the types of the method's parameters, with the call's type
/// arguments put in.
pub open spec fn trait_args_ok(env: Env, types: Map<usize, SpecTy>, path: Seq<Ident>, args: Seq<Expression>, targs: Seq<SpecTy>) -> bool {
    &&& path.len() > 0
    &&& env.traits.contains_key(path.last().id)
    &&& args.len() <= env.traits[path.last().id].method.func().params@.len()
    &&& forall|i: int|
        0 <= i < args.len() ==> (#[trigger] table_tys(types, args)[i]) == Some(
            param_tys(env.traits[path.last().id].method.func())[i].subst_all(
                generic_names(env.traits[path.last().id].generics@),
                targs,
            ),
        )
}

/// `true` when each initial value of a struct initializer has exactly the
/// declared type of its field. A field whose declared type holds a type
/// parameter takes any value.
pub open spec fn struct_fields_ok(env: Env, types: Map<usize, SpecTy>, path: Seq<Ident>, fields: Seq<FieldInit>) -> bool {
    &&& path.len() > 0
    &&& env.structs.contains_key(path.last().id)
    &&& forall|j: int|
        0 <= j < fields.len() ==> {
            let s = *env.structs[path.last().id];
            let pos = position_of(field_names(s), (#[trigger] fields[j]).ident);
            pos < s.fields@.len() && (s.fields@[pos as int].ty@.has_generics() || table_ty(
                types,
                fields[j].init,
            ) == Some(s.fields@[pos as int].ty@))
        }
}

/// `true` when each item of an enum initializer has exactly the declared
/// type of its place in the variant's payload. A place whose declared type
/// holds a type parameter takes any value.
pub open spec fn enum_items_ok(env: Env, types: Map<usize, SpecTy>, path: Seq<Ident>, variant: Ident, items: Seq<Expression>) -> bool {
    &&& path.len() > 0
    &&& env.enums.contains_key(path.last().id)
    &&& position_of(variant_names(*env.enums[path.last().id]), variant)
        < env.enums[path.last().id].variants@.len()
    &&& forall|i: int|
        0 <= i < items.len() ==> {
            let e = *env.enums[path.last().id];
            let tys = view_tys(e.variants@[position_of(variant_names(e), variant) as int].types@);
            i < tys.len() && (tys[i].has_generics() || (#[trigger] table_tys(types, items)[i])
                == Some(tys[i]))
        }
}

/// `true` when the check pass finds no fault in any of a list of
/// expressions.
pub open spec fn seq_checks(env: Env, types: Map<usize, SpecTy>, es: Seq<Expression>) -> bool
    decreases es,
{
    forall|i: int| 0 <= i < es.len() ==> expr_checks(env, types, #[trigger] es[i])
}

/// `true` when the check pass finds no fault in any initial value of a
/// struct initializer.
pub open spec fn inits_check(env: Env, types: Map<usize, SpecTy>, fs: Seq<FieldInit>) -> bool
    decreases fs,
{
    forall|i: int| 0 <= i < fs.len() ==> expr_checks(env, types, (#[trigger] fs[i]).init)
}

/// `true` when the check pass finds no fault in an expression or in an
/// expression in it: a dereference starts from a place, the arguments of
/// calls fit the parameters, and the values of initializers fit what they
/// initialize.
pub open spec fn expr_checks(env: Env, types: Map<usize, SpecTy>, e: Expression) -> bool
    decreases e,
{
    match e.val {
        Expr::Value(_) => true,
        Expr::Ident(_) => true,
        Expr::AddrOf(x) => expr_checks(env, types, *x),
        Expr::Parens(x) => expr_checks(env, types, *x),
        Expr::Urnary { expr, .. } => expr_checks(env, types, *expr),
        Expr::Deref { expr, .. } => expr_checks(env, types, *expr) && deref_ok(env, types, *expr),
        Expr::Array { exprs, .. } => seq_checks(env, types, exprs@),
        Expr::Binary { lhs, rhs, .. } => expr_checks(env, types, *lhs) && expr_checks(
            env,
            types,
            *rhs,
        ),
        Expr::Call { path, args, type_args } => seq_checks(env, types, args@) && call_args_ok(
            env,
            types,
            path@,
            args@,
            view_tys(type_args@),
        ),
        Expr::TraitMeth { trait_, args, type_args } => seq_checks(env, types, args@)
            && trait_args_ok(env, types, trait_@, args@, view_tys(type_args@)),
        Expr::FieldAccess { lhs, .. } => expr_checks(env, types, *lhs),
        Expr::StructInit { path, fields } => inits_check(env, types, fields@) && struct_fields_ok(
            env,
            types,
            path@,
            fields@,
        ),
        Expr::EnumInit { path, variant, items } => seq_checks(env, types, items@) && enum_items_ok(
            env,
            types,
            path@,
            variant,
            items@,
        ),
        Expr::ArrayInit { items } => seq_checks(env, types, items@),
    }
}

/// The types that the table of inference holds for a list of expressions.
pub fn table_types<'ast>(tcxt: &TyCheckRes<'ast>, es: &Vec<Expression>) -> (r: Vec<Option<Ty>>)
    ensures
        view_opts(r@) == table_tys(tcxt.types(), es@),
{
    let mut out: Vec<Option<Ty>> = Vec::new();
    let mut i: usize = 0;
    while i < es.len()
        invariant
            i <= es.len(),
            out@.len() == i,
            forall|j: int| 0 <= j < i ==> view_opt(#[trigger] out@[j]) == table_ty(
                tcxt.types(),
                es@[j],
            ),
        decreases es.len() - i,
    {
        out.push(table_type(tcxt, &es[i]));
        i += 1;
    }
    assert(view_opts(out@) =~= table_tys(tcxt.types(), es@));
    out
}

/// `true` when an argument of type `arg` may be handed to a parameter of
/// type `param`.
pub fn exec_arg_ok(param: &Ty, arg: &Option<Ty>) -> (r: bool)
    ensures
        r == arg_ok(param@, view_opt(*arg)),
{
    match arg {
        Some(a) => {
            let mut converted = a.clone();
            coercion(param, &mut converted);
            converted.is_ty_eq(param)
        },
        None => false,
    }
}

/// `true` when the arguments of a call of the function `path` fit its
/// parameters.
pub fn exec_call_args_ok<'ast>(
    tcxt: &TyCheckRes<'ast>,
    path: &Path,
    args: &Vec<Expression>,
    targs: &Vec<Ty>,
) -> (r: bool)
    ensures
        r == call_args_ok(tcxt.env(), tcxt.types(), path@, args@, view_tys(targs@)),
{
    let name = match path.local_ident() {
        Some(n) => n,
        None => {
            return false;
        },
    };
    let f: &Func = match tcxt.var_func.name_func.get(&name.id) {
        Some(f) => *f,
        None => {
            return false;
        },
    };
    let tys = table_types(tcxt, args);
    let acts = match unwrap_all(&tys) {
        Some(a) => a,
        None => {
            return false;
        },
    };
    if args.len() != f.params.len() {
        return false;
    }
    let ta = match exec_call_targs(f, &acts, targs) {
        Some(ta) => ta,
        None => {
            return false;
        },
    };
    let names = names_of(&f.generics);
    let ghost spec_tys = table_tys(tcxt.types(), args@);
    let mut i: usize = 0;
    while i < args.len()
        invariant
            i <= args.len(),
            args.len() == f.params.len(),
            tys@.len() == args@.len(),
            names@ == generic_names(f.generics@),
            spec_tys == table_tys(tcxt.types(), args@),
            view_opts(tys@) == spec_tys,
            path@.len() > 0,
            tcxt.env().funcs.contains_key(path@.last().id),
            *tcxt.env().funcs[path@.last().id] == *f,
            all_typed(spec_tys),
            call_targs(*f, unwrap_tys(spec_tys), view_tys(targs@)) == Some(view_tys(ta@)),
            forall|j: int|
                0 <= j < i ==> arg_ok(
                    param_tys(*f)[j].subst_all(names@, view_tys(ta@)),
                    #[trigger] spec_tys[j],
                ),
        decreases args.len() - i,
    {
        let want = f.params[i].ty.subst_all(&names, &ta);
        assert(view_opts(tys@)[i as int] == view_opt(tys@[i as int]));
        if !exec_arg_ok(&want, &tys[i]) {
            assert(!arg_ok(
                param_tys(*f)[i as int].subst_all(names@, view_tys(ta@)),
                spec_tys[i as int],
            ));
            return false;
        }
        i += 1;
    }
    true
}

/// `true` when the arguments of a call of the method of trait `path` fit
/// the method's parameters.
pub fn exec_trait_args_ok<'ast>(
    tcxt: &TyCheckRes<'ast>,
    path: &Path,
    args: &Vec<Expression>,
    targs: &Vec<Ty>,
) -> (r: bool)
    ensures
        r == trait_args_ok(tcxt.env(), tcxt.types(), path@, args@, view_tys(targs@)),
{
    let name = match path.local_ident() {
        Some(n) => n,
        None => {
            return false;
        },
    };
    let t = match tcxt.trait_solve.traits.get(&name.id) {
        Some(t) => *t,
        None => {
            return false;
        },
    };
    let m = t.method.function();
    if args.len() > m.params.len() {
        return false;
    }
    let names = names_of(&t.generics);
    let ghost spec_tys = table_tys(tcxt.types(), args@);
    let mut i: usize = 0;
    while i < args.len()
        invariant
            i <= args.len(),
            args.len() <= m.params.len(),
            *m == t.method.func(),
            names@ == generic_names(t.generics@),
            spec_tys == table_tys(tcxt.types(), args@),
            path@.len() > 0,
            tcxt.env().traits.contains_key(path@.last().id),
            *tcxt.env().traits[path@.last().id] == *t,
            forall|j: int|
                0 <= j < i ==> (#[trigger] spec_tys[j]) == Some(
                    param_tys(*m)[j].subst_all(names@, view_tys(targs@)),
                ),
        decreases args.len() - i,
    {
        let want = m.params[i].ty.subst_all(&names, targs);
        let fits = match table_type(tcxt, &args[i]) {
            Some(a) => a.is_ty_eq(&want),
            None => false,
        };
        if !fits {
            assert(spec_tys[i as int] != Some(
                param_tys(*m)[i as int].subst_all(names@, view_tys(targs@)),
            ));
            return false;
        }
        i += 1;
    }
    true
}

/// `true` when the initial values of a struct initializer fit their fields.
pub fn exec_struct_fields_ok<'ast>(tcxt: &TyCheckRes<'ast>, path: &Path, fields: &Vec<FieldInit>) -> (r:
    bool)
    ensures
        r == struct_fields_ok(tcxt.env(), tcxt.types(), path@, fields@),
{
    let name = match path.local_ident() {
        Some(n) => n,
        None => {
            return false;
        },
    };
    let s: &Struct = match tcxt.name_struct.get(&name.id) {
        Some(s) => *s,
        None => {
            return false;
        },
    };
    let mut j: usize = 0;
    while j < fields.len()
        invariant
            j <= fields.len(),
            path@.len() > 0,
            tcxt.env().structs.contains_key(path@.last().id),
            *tcxt.env().structs[path@.last().id] == *s,
            forall|k: int|
                0 <= k < j ==> {
                    let pos = position_of(field_names(*s), (#[trigger] fields@[k]).ident);
                    pos < s.fields@.len() && (s.fields@[pos as int].ty@.has_generics() || table_ty(
                        tcxt.types(),
                        fields@[k].init,
                    ) == Some(s.fields@[pos as int].ty@))
                },
        decreases fields.len() - j,
    {
        let pos = field_position(s, fields[j].ident);
        let ghost witness = fields@[j as int];
        if pos >= s.fields.len() {
            assert(!(position_of(field_names(*s), witness.ident) < s.fields@.len()));
            return false;
        }
        if !s.fields[pos].ty.has_generics() {
            let fits = match table_type(tcxt, &fields[j].init) {
                Some(t) => t.is_ty_eq(&s.fields[pos].ty),
                None => false,
            };
            if !fits {
                assert(table_ty(tcxt.types(), witness.init) != Some(s.fields@[pos as int].ty@));
                return false;
            }
        }
        j += 1;
    }
    true
}

/// `true` when the items of an enum initializer fit the variant's payload.
pub fn exec_enum_items_ok<'ast>(
    tcxt: &TyCheckRes<'ast>,
    path: &Path,
    variant: Ident,
    items: &Vec<Expression>,
) -> (r: bool)
    ensures
        r == enum_items_ok(tcxt.env(), tcxt.types(), path@, variant, items@),
{
    let name = match path.local_ident() {
        Some(n) => n,
        None => {
            return false;
        },
    };
    let e = match tcxt.name_enum.get(&name.id) {
        Some(e) => *e,
        None => {
            return false;
        },
    };
    let pos = variant_position(e, variant);
    if pos >= e.variants.len() {
        return false;
    }
    let tys = &e.variants[pos].types;
    let ghost spec_tys = table_tys(tcxt.types(), items@);
    let mut i: usize = 0;
    while i < items.len()
        invariant
            i <= items.len(),
            pos < e.variants@.len(),
            *tys == e.variants@[pos as int].types,
            spec_tys == table_tys(tcxt.types(), items@),
            path@.len() > 0,
            tcxt.env().enums.contains_key(path@.last().id),
            *tcxt.env().enums[path@.last().id] == *e,
            pos == position_of(variant_names(*e), variant),
            forall|k: int|
                0 <= k < i ==> k < view_tys(tys@).len() && (view_tys(tys@)[k].has_generics() || (
                #[trigger] spec_tys[k]) == Some(view_tys(tys@)[k])),
        decreases items.len() - i,
    {
        if i >= tys.len() {
            assert(!(i < view_tys(tys@).len()));
            assert(spec_tys[i as int] == table_ty(tcxt.types(), items@[i as int]));
            return false;
        }
        assert(view_tys(tys@)[i as int] == tys@[i as int]@);
        if !tys[i].has_generics() {
            let fits = match table_type(tcxt, &items[i]) {
                Some(t) => t.is_ty_eq(&tys[i]),
                None => false,
            };
            if !fits {
                assert(spec_tys[i as int] != Some(view_tys(tys@)[i as int]));
                return false;
            }
        }
        i += 1;
    }
    true
}

/// What the check pass over expressions leaves as it is: the declarations,
/// the table of inference and the function that is walked; and the
/// diagnostics found before are still there.
pub open spec fn check_frame(new: TyCheckRes, old: TyCheckRes) -> bool {
    &&& new.env() == old.env()
    &&& new.types() == old.types()
    &&& new.curr_fn == old.curr_fn
    &&& new.call_ty_args == old.call_ty_args
    &&& new.consts == old.consts
    &&& new.var_func.func_return == old.var_func.func_return
    &&& new.var_func.unsed_vars == old.var_func.unsed_vars
    &&& new.errors.extends(old.errors)
    &&& old.wf() ==> new.wf()
}

/// A context keeps what it holds.
pub proof fn lemma_check_frame_refl(c: TyCheckRes)
    ensures
        check_frame(c, c),
{
    lemma_extends_refl(c.errors);
}

/// What is kept over two steps is kept over both.
pub proof fn lemma_check_frame_trans(a: TyCheckRes, b: TyCheckRes, c: TyCheckRes)
    requires
        check_frame(b, a),
        check_frame(c, b),
    ensures
        check_frame(c, a),
{
    lemma_extends_trans(a.errors, b.errors, c.errors);
}

/// The rule of the check pass for `e` itself, without the expressions in
/// it.
pub open spec fn own_checks(env: Env, types: Map<usize, SpecTy>, e: Expression) -> bool {
    match e.val {
        Expr::Deref { expr, .. } => deref_ok(env, types, *expr),
        Expr::Call { path, args, type_args } => call_args_ok(
            env,
            types,
            path@,
            args@,
            view_tys(type_args@),
        ),
        Expr::TraitMeth { trait_, args, type_args } => trait_args_ok(
            env,
            types,
            trait_@,
            args@,
            view_tys(type_args@),
        ),
        Expr::StructInit { path, fields } => struct_fields_ok(env, types, path@, fields@),
        Expr::EnumInit { path, variant, items } => enum_items_ok(
            env,
            types,
            path@,
            variant,
            items@,
        ),
        _ => true,
    }
}

/// A call of a trait's method that waits for its type parameters: the
/// trait, the type arguments, and the generic items that enclose the call.
pub struct Waiting {
    pub trait_: Ident,
    pub targs: Seq<SpecTy>,
    pub stack: Seq<Node>,
}

/// The models of the calls that wait for their type parameters.
pub open spec fn view_waiting(w: Seq<ToSolve>) -> Seq<Waiting> {
    Seq::new(
        w.len(),
        |i: int| Waiting { trait_: w[i].trait_, targs: view_tys(w[i].type_args@), stack: w[i].stack@ },
    )
}

/// What the check pass has recorded of the uses of generic items: the
/// model of the generic resolver, the id for the next use, and the calls
/// of trait methods that wait for their type parameters.
pub struct Uses {
    pub res: ResolverModel,
    pub next: usize,
    pub waiting: Seq<Waiting>,
}

/// What the check pass reads when it records a use: the declarations, the
/// table of inference, the type arguments that inference found for calls,
/// and the function that is walked.
pub struct UseCx<'ast> {
    pub env: Env<'ast>,
    pub types: Map<usize, SpecTy>,
    pub found: Map<usize, Seq<SpecTy>>,
    pub curr_fn: Option<Ident>,
}

/// The uses that the context `c` holds.
pub open spec fn uses_of(c: TyCheckRes) -> Uses {
    Uses {
        res: c.generic_res@,
        next: c.uniq_generic_instance_id,
        waiting: view_waiting(c.trait_solve.unsolved@),
    }
}

/// What the check pass reads of the context `c` when it records a use.
pub open spec fn use_cx<'ast>(c: TyCheckRes<'ast>) -> UseCx<'ast> {
    UseCx {
        env: c.env(),
        types: c.types(),
        found: crate::typeck::infer::view_found(c.call_ty_args@),
        curr_fn: c.curr_fn,
    }
}

/// The id after `n`; the last id stays where the ids are used up.
pub open spec fn next_id(n: usize) -> usize {
    if n < usize::MAX {
        (n + 1) as usize
    } else {
        n
    }
}

/// The uses after a use of the generic item `node` with the type arguments
/// `targs` is recorded under the next id.
pub open spec fn recorded(cx: UseCx, u: Uses, node: Node, targs: Seq<SpecTy>) -> Uses {
    Uses {
        res: spec_record_args(
            u.res,
            targs,
            targs.len(),
            u.next,
            spec_build_stack(cx.env, cx.curr_fn, node),
        ),
        next: next_id(u.next),
        waiting: u.waiting,
    }
}

/// The type arguments of the call `e`: those written at the call, else
/// those that inference found, else none.
pub open spec fn targs_at(found: Map<usize, Seq<SpecTy>>, e: Expression, written: Seq<Ty>) -> Seq<SpecTy> {
    if written.len() > 0 {
        view_tys(written)
    } else if found.contains_key(e.id) {
        found[e.id]
    } else {
        Seq::empty()
    }
}

/// The uses after the use that the expression `e` itself makes is
/// recorded: a call uses its function with the call's type arguments, a
/// call of a trait's method the trait with the type arguments written, and
/// a struct initializer its struct with the type arguments of its type.
/// A call of a trait's method whose type arguments depend on type
/// parameters, and that no implementation answers yet, is noted as
/// waiting. Any other expression uses nothing.
pub open spec fn own_uses(cx: UseCx, u: Uses, e: Expression) -> Uses {
    match e.val {
        Expr::Call { path, type_args, .. } => if path@.len() > 0 {
            recorded(cx, u, Node::Func(path@.last()), targs_at(cx.found, e, type_args@))
        } else {
            u
        },
        Expr::TraitMeth { trait_, type_args, .. } => if trait_@.len() > 0 {
            let u1 = recorded(cx, u, Node::Trait(trait_@.last()), view_tys(type_args@));
            if solve_in(cx.env.impls, trait_@.last(), view_tys(type_args@)) is Dependent {
                Uses {
                    res: u1.res,
                    next: u1.next,
                    waiting: u1.waiting.push(
                        Waiting {
                            trait_: trait_@.last(),
                            targs: view_tys(type_args@),
                            stack: spec_build_stack(cx.env, cx.curr_fn, Node::Trait(trait_@.last())),
                        },
                    ),
                }
            } else {
                u1
            }
        } else {
            u
        },
        Expr::StructInit { path, .. } => if path@.len() > 0 {
            match table_ty(cx.types, e) {
                Some(SpecTy::Struct { gen, .. }) => recorded(cx, u, Node::Struct(path@.last()), gen),
                _ => u,
            }
        } else {
            u
        },
        _ => u,
    }
}

/// What the check pass has counted and reported: the id for the next use
/// of a generic item, the diagnostics, and the poison flag.
pub struct Marks {
    pub next: usize,
    pub errs: Seq<Error>,
    pub poisoned: bool,
}

/// The id for the next use and the diagnostics that the context `c` holds.
pub open spec fn marks_of(c: TyCheckRes) -> Marks {
    Marks {
        next: c.uniq_generic_instance_id,
        errs: c.errors.errors@,
        poisoned: c.errors.poisoned,
    }
}

/// `true` when the expression `e` itself uses a generic item: a call with
/// a name, a call of a trait's method with a name, and a struct
/// initializer with a name whose type is a struct type.
pub open spec fn makes_use(types: Map<usize, SpecTy>, e: Expression) -> bool {
    match e.val {
        Expr::Call { path, .. } => path@.len() > 0,
        Expr::TraitMeth { trait_, .. } => trait_@.len() > 0,
        Expr::StructInit { path, .. } => path@.len() > 0 && (table_ty(types, e) matches Some(
            SpecTy::Struct { .. },
        )),
        _ => false,
    }
}

/// The marks after one use took the next id: where the ids are used up a
/// diagnostic says so and the context is poisoned.
pub open spec fn used(m: Marks) -> Marks {
    Marks {
        next: next_id(m.next),
        errs: if m.next < usize::MAX {
            m.errs
        } else {
            m.errs.push(
                fault(Range { start: 0, end: 0, file_id: 0 }, ErrorKind::TooManyInstances),
            )
        },
        poisoned: m.poisoned || m.next == usize::MAX,
    }
}

/// What the fault of the check of `e` itself is called: a dereference of
/// what is no pointer, an argument of the wrong type, or a value of the
/// wrong type in an initializer.
pub open spec fn check_kind(e: Expression) -> ErrorKind {
    match e.val {
        Expr::Deref { .. } => ErrorKind::DerefNonPointer,
        Expr::Call { .. } => ErrorKind::ArgumentMismatch,
        Expr::TraitMeth { .. } => ErrorKind::ArgumentMismatch,
        _ => ErrorKind::TypeMismatch,
    }
}

/// The marks after the check of `e` itself: its use takes an id, and its
/// fault, if it has one, is reported at its span.
pub open spec fn own_marks(env: Env, types: Map<usize, SpecTy>, m: Marks, e: Expression) -> Marks {
    let m1 = if makes_use(types, e) {
        used(m)
    } else {
        m
    };
    if own_checks(env, types, e) {
        m1
    } else {
        Marks {
            next: m1.next,
            errs: m1.errs.push(named_fault(e.span, check_kind(e), subject(e))),
            poisoned: m1.poisoned,
        }
    }
}

/// The marks after the check of the first `n` expressions of `es`.
pub open spec fn seq_marks(env: Env, types: Map<usize, SpecTy>, m: Marks, es: Seq<Expression>, n: nat) -> Marks
    decreases es, n,
{
    if n == 0 || n > es.len() {
        m
    } else {
        expr_marks(env, types, seq_marks(env, types, m, es, (n - 1) as nat), es[n - 1])
    }
}

/// The marks after the check of the first `n` initial values of `fs`.
pub open spec fn inits_marks(env: Env, types: Map<usize, SpecTy>, m: Marks, fs: Seq<FieldInit>, n: nat) -> Marks
    decreases fs, n,
{
    if n == 0 || n > fs.len() {
        m
    } else {
        expr_marks(env, types, inits_marks(env, types, m, fs, (n - 1) as nat), fs[n - 1].init)
    }
}

/// The marks after the check of the expressions in `e`.
pub open spec fn kids_marks(env: Env, types: Map<usize, SpecTy>, m: Marks, e: Expression) -> Marks
    decreases e, 0nat,
{
    match e.val {
        Expr::Value(_) => m,
        Expr::Ident(_) => m,
        Expr::AddrOf(x) => expr_marks(env, types, m, *x),
        Expr::Parens(x) => expr_marks(env, types, m, *x),
        Expr::Urnary { expr, .. } => expr_marks(env, types, m, *expr),
        Expr::Deref { expr, .. } => expr_marks(env, types, m, *expr),
        Expr::Array { exprs, .. } => seq_marks(env, types, m, exprs@, exprs@.len()),
        Expr::Binary { lhs, rhs, .. } => expr_marks(
            env,
            types,
            expr_marks(env, types, m, *lhs),
            *rhs,
        ),
        Expr::Call { args, .. } => seq_marks(env, types, m, args@, args@.len()),
        Expr::TraitMeth { args, .. } => seq_marks(env, types, m, args@, args@.len()),
        Expr::FieldAccess { lhs, .. } => expr_marks(env, types, m, *lhs),
        Expr::StructInit { fields, .. } => inits_marks(env, types, m, fields@, fields@.len()),
        Expr::EnumInit { items, .. } => seq_marks(env, types, m, items@, items@.len()),
        Expr::ArrayInit { items } => seq_marks(env, types, m, items@, items@.len()),
    }
}

/// The marks after the check pass has walked the expression `e`: one error
/// at the span of each expression in it whose own check fails, in the
/// order in which they are written, `e` itself last; and one id for each
/// use of a generic item.
pub open spec fn expr_marks(env: Env, types: Map<usize, SpecTy>, m: Marks, e: Expression) -> Marks
    decreases e, 1nat,
{
    own_marks(env, types, kids_marks(env, types, m, e), e)
}

/// The marks after an expression is typed and checked: the diagnostics of
/// inference; then, where the expression has a type, those of the check
/// against the table with the expression's types in it.
pub open spec fn typed_marks(env: Env, types: Map<usize, SpecTy>, m: Marks, e: Expression) -> Marks {
    let inferred = Marks {
        next: m.next,
        errs: m.errs + faults(env, e),
        poisoned: m.poisoned || ty_of(env, e) is None,
    };
    if ty_of(env, e) is Some {
        expr_marks(env, types.union_prefer_right(entries(env, e)), inferred, e)
    } else {
        inferred
    }
}

/// The uses after those of the first `n` expressions of `es` are recorded,
/// in order.
pub open spec fn seq_uses(cx: UseCx, u: Uses, es: Seq<Expression>, n: nat) -> Uses
    decreases es, n,
{
    if n == 0 || n > es.len() {
        u
    } else {
        expr_uses(cx, seq_uses(cx, u, es, (n - 1) as nat), es[n - 1])
    }
}

/// The uses after those of the first `n` initial values of `fs` are
/// recorded, in order.
pub open spec fn inits_uses(cx: UseCx, u: Uses, fs: Seq<FieldInit>, n: nat) -> Uses
    decreases fs, n,
{
    if n == 0 || n > fs.len() {
        u
    } else {
        expr_uses(cx, inits_uses(cx, u, fs, (n - 1) as nat), fs[n - 1].init)
    }
}

/// The uses after those of the expressions in `e` are recorded.
pub open spec fn kids_uses(cx: UseCx, u: Uses, e: Expression) -> Uses
    decreases e, 0nat,
{
    match e.val {
        Expr::Value(_) => u,
        Expr::Ident(_) => u,
        Expr::AddrOf(x) => expr_uses(cx, u, *x),
        Expr::Parens(x) => expr_uses(cx, u, *x),
        Expr::Urnary { expr, .. } => expr_uses(cx, u, *expr),
        Expr::Deref { expr, .. } => expr_uses(cx, u, *expr),
        Expr::Array { exprs, .. } => seq_uses(cx, u, exprs@, exprs@.len()),
        Expr::Binary { lhs, rhs, .. } => expr_uses(cx, expr_uses(cx, u, *lhs), *rhs),
        Expr::Call { args, .. } => seq_uses(cx, u, args@, args@.len()),
        Expr::TraitMeth { args, .. } => seq_uses(cx, u, args@, args@.len()),
        Expr::FieldAccess { lhs, .. } => expr_uses(cx, u, *lhs),
        Expr::StructInit { fields, .. } => inits_uses(cx, u, fields@, fields@.len()),
        Expr::EnumInit { items, .. } => seq_uses(cx, u, items@, items@.len()),
        Expr::ArrayInit { items } => seq_uses(cx, u, items@, items@.len()),
    }
}

/// The uses after the check pass has walked the expression `e`: those of
/// the expressions in it, in the order in which they are written, then its
/// own.
pub open spec fn expr_uses(cx: UseCx, u: Uses, e: Expression) -> Uses
    decreases e, 1nat,
{
    own_uses(cx, kids_uses(cx, u, e), e)
}

impl<'ast> TyCheckRes<'ast> {
    /// Records a use of the generic item `node` with the type arguments
    /// `targs` at the expression `witness`, under a fresh id.
    pub fn record_use(&mut self, node: Node, targs: &Vec<Ty>, witness: usize)
        ensures
            check_frame(*final(self), *old(self)),
            final(self).generic_res@ == spec_record_args(
                old(self).generic_res@,
                view_tys(targs@),
                targs@.len(),
                old(self).uniq_generic_instance_id,
                spec_build_stack(old(self).env(), old(self).curr_fn, node),
            ),
            final(self).trait_solve == old(self).trait_solve,
            uses_of(*final(self)) == recorded(
                use_cx(*old(self)),
                uses_of(*old(self)),
                node,
                view_tys(targs@),
            ),
            marks_of(*final(self)) == used(marks_of(*old(self))),
    {
        let ghost before = *self;
        let id = self.unique_id();
        let mut stack = build_stack(self, node);
        let mut exprs: Vec<usize> = Vec::new();
        exprs.push(witness);
        self.generic_res.record_args(targs, id, &exprs, &mut stack);
    }

    /// Records the type arguments of the enum type `lty` of a place that
    /// is assigned to, as a use of the enum at the expression `witness`:
    /// a variant that carries no value of a type parameter leaves the
    /// parameter to the type of the place. Nothing is recorded where `lty`
    /// is no enum type.
    pub fn collect_enum_generics(&mut self, lty: Option<&Ty>, witness: usize)
        ensures
            check_frame(*final(self), *old(self)),
            final(self).trait_solve == old(self).trait_solve,
            final(self).generic_res@ == (match lty {
                Some(Ty::Enum { ident, gen }) => spec_record_args(
                    old(self).generic_res@,
                    view_tys(gen@),
                    gen@.len(),
                    old(self).uniq_generic_instance_id,
                    spec_build_stack(old(self).env(), old(self).curr_fn, Node::Enum(*ident)),
                ),
                _ => old(self).generic_res@,
            }),
            marks_of(*final(self)) == (match lty {
                Some(Ty::Enum { .. }) => used(marks_of(*old(self))),
                _ => marks_of(*old(self)),
            }),
    {
        match lty {
            Some(Ty::Enum { ident, gen }) => {
                self.record_use(Node::Enum(*ident), gen, witness);
            },
            _ => {
                proof {
                    lemma_check_frame_refl(*self);
                }
            },
        }
    }

    /// The type arguments of the call `e`: those written at the call, else
    /// those that inference found.
    fn call_type_args(&self, e: &Expression, written: &Vec<Ty>) -> (r: Vec<Ty>)
        ensures
            view_tys(r@) == targs_at(
                crate::typeck::infer::view_found(self.call_ty_args@),
                *e,
                written@,
            ),
    {
        if written.len() > 0 {
            crate::ast::types::clone_tys(written)
        } else {
            match self.call_ty_args.get(&e.id) {
                Some(ta) => crate::ast::types::clone_tys(ta),
                None => Vec::new(),
            }
        }
    }

    /// Applies the rule of the check pass for `e` itself, reports its fault
    /// if it has one, and records the use of a generic item that `e` makes.
    fn check_own(&mut self, e: &Expression) -> (r: bool)
        ensures
            check_frame(*final(self), *old(self)),
            r == own_checks(old(self).env(), old(self).types(), *e),
            uses_of(*final(self)) == own_uses(use_cx(*old(self)), uses_of(*old(self)), *e),
            marks_of(*final(self)) == own_marks(
                old(self).env(),
                old(self).types(),
                marks_of(*old(self)),
                *e,
            ),
    {
        proof {
            lemma_check_frame_refl(*self);
        }
        let ghost start = *self;
        let fault: Option<ErrorKind> = match &e.val {
            Expr::Deref { expr, .. } => if check_dereference(self, expr) {
                None
            } else {
                Some(ErrorKind::DerefNonPointer)
            },
            Expr::Call { path, args, type_args } => {
                let ok = exec_call_args_ok(self, path, args, type_args);
                match path.local_ident() {
                    Some(name) => {
                        let targs = self.call_type_args(e, type_args);
                        self.record_use(Node::Func(name), &targs, e.id);
                    },
                    None => {},
                }
                if ok {
                    None
                } else {
                    Some(ErrorKind::ArgumentMismatch)
                }
            },
            Expr::TraitMeth { trait_, args, type_args } => {
                let ok = exec_trait_args_ok(self, trait_, args, type_args);
                match trait_.local_ident() {
                    Some(name) => {
                        self.record_use(Node::Trait(name), type_args, e.id);
                        let ghost mid = *self;
                        match self.trait_solve.solve(name, type_args) {
                            Solved::Dependent => {
                                let stack = build_stack(self, Node::Trait(name));
                                self.trait_solve.to_solve(name, type_args, stack);
                                assert(view_waiting(self.trait_solve.unsolved@) =~= view_waiting(
                                    mid.trait_solve.unsolved@,
                                ).push(
                                    Waiting {
                                        trait_: name,
                                        targs: view_tys(type_args@),
                                        stack: spec_build_stack(
                                            mid.env(),
                                            mid.curr_fn,
                                            Node::Trait(name),
                                        ),
                                    },
                                ));
                            },
                            _ => {},
                        }
                    },
                    None => {},
                }
                if ok {
                    None
                } else {
                    Some(ErrorKind::ArgumentMismatch)
                }
            },
            Expr::StructInit { path, fields } => {
                let ok = exec_struct_fields_ok(self, path, fields);
                match (path.local_ident(), table_type(self, e)) {
                    (Some(name), Some(Ty::Struct { gen, .. })) => {
                        self.record_use(Node::Struct(name), &gen, e.id);
                    },
                    _ => {},
                }
                if ok {
                    None
                } else {
                    Some(ErrorKind::TypeMismatch)
                }
            },
            Expr::EnumInit { path, variant, items } => if exec_enum_items_ok(
                self,
                path,
                *variant,
                items,
            ) {
                None
            } else {
                Some(ErrorKind::TypeMismatch)
            },
            _ => None,
        };
        let ghost mid = *self;
        assert(check_frame(mid, start));
        match fault {
            Some(kind) => {
                let err = match subject_of(e) {
                    Some(x) => Error::error_with_ident(e.span, kind, x),
                    None => Error::error_with_span(e.span, kind),
                };
                self.errors.push_error(err);
                proof {
                    lemma_extends_trans(start.errors, mid.errors, self.errors);
                }
                false
            },
            None => true,
        }
    }

    fn check_exprs(&mut self, es: &Vec<Expression>) -> (r: bool)
        ensures
            check_frame(*final(self), *old(self)),
            r == seq_checks(old(self).env(), old(self).types(), es@),
            uses_of(*final(self)) == seq_uses(
                use_cx(*old(self)),
                uses_of(*old(self)),
                es@,
                es@.len(),
            ),
            marks_of(*final(self)) == seq_marks(
                old(self).env(),
                old(self).types(),
                marks_of(*old(self)),
                es@,
                es@.len(),
            ),
        decreases es,
    {
        let ghost env = self.env();
        let ghost types = self.types();
        let ghost cx = use_cx(*self);
        let ghost u0 = uses_of(*self);
        let mut ok = true;
        let mut i: usize = 0;
        proof {
            lemma_check_frame_refl(*self);
        }
        while i < es.len()
            invariant
                i <= es.len(),
                env == old(self).env(),
                types == old(self).types(),
                cx == use_cx(*old(self)),
                u0 == uses_of(*old(self)),
                use_cx(*self) == cx,
                uses_of(*self) == seq_uses(cx, u0, es@, i as nat),
                marks_of(*self) == seq_marks(env, types, marks_of(*old(self)), es@, i as nat),
                check_frame(*self, *old(self)),
                ok == forall|j: int| 0 <= j < i ==> expr_checks(env, types, #[trigger] es@[j]),
            decreases es.len() - i,
        {
            let ghost before = *self;
            let one = self.check_expr(&es[i]);
            proof {
                lemma_check_frame_trans(*old(self), before, *self);
            }
            ok = ok && one;
            i += 1;
        }
        ok
    }

    fn check_inits(&mut self, fs: &Vec<FieldInit>) -> (r: bool)
        ensures
            check_frame(*final(self), *old(self)),
            r == inits_check(old(self).env(), old(self).types(), fs@),
            uses_of(*final(self)) == inits_uses(
                use_cx(*old(self)),
                uses_of(*old(self)),
                fs@,
                fs@.len(),
            ),
            marks_of(*final(self)) == inits_marks(
                old(self).env(),
                old(self).types(),
                marks_of(*old(self)),
                fs@,
                fs@.len(),
            ),
        decreases fs,
    {
        let ghost env = self.env();
        let ghost types = self.types();
        let ghost cx = use_cx(*self);
        let ghost u0 = uses_of(*self);
        let mut ok = true;
        let mut i: usize = 0;
        proof {
            lemma_check_frame_refl(*self);
        }
        while i < fs.len()
            invariant
                i <= fs.len(),
                env == old(self).env(),
                types == old(self).types(),
                cx == use_cx(*old(self)),
                u0 == uses_of(*old(self)),
                use_cx(*self) == cx,
                uses_of(*self) == inits_uses(cx, u0, fs@, i as nat),
                marks_of(*self) == inits_marks(env, types, marks_of(*old(self)), fs@, i as nat),
                check_frame(*self, *old(self)),
                ok == forall|j: int|
                    0 <= j < i ==> expr_checks(env, types, (#[trigger] fs@[j]).init),
            decreases fs.len() - i,
        {
            let ghost before = *self;
            let one = self.check_expr(&fs[i].init);
            proof {
                lemma_check_frame_trans(*old(self), before, *self);
            }
            ok = ok && one;
            i += 1;
        }
        ok
    }

    fn check_kids(&mut self, e: &Expression) -> (r: bool)
        ensures
            check_frame(*final(self), *old(self)),
            (r && own_checks(old(self).env(), old(self).types(), *e)) == expr_checks(
                old(self).env(),
                old(self).types(),
                *e,
            ),
            uses_of(*final(self)) == kids_uses(use_cx(*old(self)), uses_of(*old(self)), *e),
            marks_of(*final(self)) == kids_marks(
                old(self).env(),
                old(self).types(),
                marks_of(*old(self)),
                *e,
            ),
        decreases e, 0nat,
    {
        proof {
            lemma_check_frame_refl(*self);
        }
        match &e.val {
            Expr::Value(_) => true,
            Expr::Ident(_) => true,
            Expr::AddrOf(x) => self.check_expr(x),
            Expr::Parens(x) => self.check_expr(x),
            Expr::Urnary { expr, .. } => self.check_expr(expr),
            Expr::Deref { expr, .. } => self.check_expr(expr),
            Expr::Array { exprs, .. } => self.check_exprs(exprs),
            Expr::Binary { lhs, rhs, .. } => {
                let a = self.check_expr(lhs);
                let ghost mid = *self;
                let b = self.check_expr(rhs);
                proof {
                    lemma_check_frame_trans(*old(self), mid, *self);
                }
                a && b
            },
            Expr::Call { args, .. } => self.check_exprs(args),
            Expr::TraitMeth { args, .. } => self.check_exprs(args),
            Expr::FieldAccess { lhs, .. } => self.check_expr(lhs),
            Expr::StructInit { fields, .. } => self.check_inits(fields),
            Expr::EnumInit { items, .. } => self.check_exprs(items),
            Expr::ArrayInit { items } => self.check_exprs(items),
        }
    }

    /// Checks an expression and every expression in it against the table of
    /// inference, reports each fault as a diagnostic, and records the uses
    /// of generic items.
    ///
    /// The result is `true` where no fault was found.
    pub fn check_expr(&mut self, e: &Expression) -> (r: bool)
        ensures
            check_frame(*final(self), *old(self)),
            r == expr_checks(old(self).env(), old(self).types(), *e),
            uses_of(*final(self)) == expr_uses(use_cx(*old(self)), uses_of(*old(self)), *e),
            marks_of(*final(self)) == expr_marks(
                old(self).env(),
                old(self).types(),
                marks_of(*old(self)),
                *e,
            ),
        decreases e, 1nat,
    {
        let kids = self.check_kids(e);
        let ghost mid = *self;
        let own = self.check_own(e);
        proof {
            lemma_check_frame_trans(*old(self), mid, *self);
        }
        kids && own
    }

    /// Types an expression and checks it: infers the type of the
    /// expression and of each expression in it and writes them into the
    /// table of inference; then, where the expression has a type, checks
    /// it and what is in it against the table and records the uses of
    /// generic items.
    ///
    /// The result is the expression's type. Where it has none, the fault is
    /// reported, the context is poisoned and nothing is checked.
    pub fn visit_expr(&mut self, e: &Expression) -> (r: Option<Ty>)
        ensures
            old(self).wf() ==> final(self).wf(),
            final(self).env() == old(self).env(),
            final(self).curr_fn == old(self).curr_fn,
            view_opt(r) == ty_of(old(self).env(), *e),
            final(self).types() == old(self).types().union_prefer_right(
                entries(old(self).env(), *e),
            ),
            !final(self).errors.poisoned ==> covered(final(self).types(), *e),
            marks_of(*final(self)) == typed_marks(
                old(self).env(),
                old(self).types(),
                marks_of(*old(self)),
                *e,
            ),
            ty_of(old(self).env(), *e) is None ==> final(self).errors.poisoned
                && final(self).generic_res == old(self).generic_res,
    {
        let ghost env = self.env();
        let ghost m0 = marks_of(*self);
        let r = TypeInfer::visit_expr(self, e);
        let ghost mid = *self;
        assert(marks_of(mid) == (Marks {
            next: m0.next,
            errs: m0.errs + faults(env, *e),
            poisoned: m0.poisoned || ty_of(env, *e) is None,
        }));
        if r.is_some() {
            self.check_expr(e);
            assert(check_frame(*self, mid));
            assert(self.types() == mid.types());
        }
        r
    }
}

} // verus!
