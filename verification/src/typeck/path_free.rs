//! Inference makes no unresolved nominal reference: where none stands in a
//! declaration, none stands in the type of an expression.

use crate::ast::types::{
    generic_names, position_of, seq_has_path, seq_subst_all, view_tys, BinOp, Expr, Expression,
    FieldInit, Ident, SpecTy,
};
use crate::typeck::check::spec_fold_ty;
use crate::typeck::infer::{
    all_typed, array_init_ty, call_targs, call_ty, entries, entries_seq, enum_init_gen,
    enum_init_ty, field_entries, field_names, field_of, field_ty, infer_one, infer_targs,
    init_decls, init_entries_seq, init_names, init_tys_of, kids_entries, own_entry,
    spec_peel_first, spec_peel_out, spec_unify, spec_unify_seq, struct_init_ty, trait_call_ty,
    ty_of, tys_of, unify_fold, unwrap_tys, variant_names,
};
use crate::typeck::trait_solver::{find_impl, lemma_find_impl, solve_in, Solved};
use crate::typeck::{field_tys, param_tys, sig_ok, struct_ok, Env};
use vstd::prelude::*;

verus! {

/// Putting types without nominal references in place of type parameters
/// makes no nominal reference.
pub proof fn lemma_subst_all_path_free(t: SpecTy, params: Seq<Ident>, args: Seq<SpecTy>)
    requires
        !t.has_path(),
        !seq_has_path(args),
    ensures
        !t.subst_all(params, args).has_path(),
    decreases t,
{
    match t {
        SpecTy::Generic { ident, .. } => {
            let pos = position_of(params, ident);
            if pos < params.len() && pos < args.len() {
                assert(!args[pos as int].has_path());
            }
        },
        SpecTy::Array { ty, .. } => lemma_subst_all_path_free(*ty, params, args),
        SpecTy::Ptr(ty) => lemma_subst_all_path_free(*ty, params, args),
        SpecTy::Ref(ty) => lemma_subst_all_path_free(*ty, params, args),
        SpecTy::Struct { gen, .. } => lemma_seq_subst_all_path_free(gen, params, args),
        SpecTy::Enum { gen, .. } => lemma_seq_subst_all_path_free(gen, params, args),
        SpecTy::Func { ret, params: ps, .. } => {
            lemma_subst_all_path_free(*ret, params, args);
            lemma_seq_subst_all_path_free(ps, params, args);
        },
        _ => {},
    }
}

pub proof fn lemma_seq_subst_all_path_free(tys: Seq<SpecTy>, params: Seq<Ident>, args: Seq<SpecTy>)
    requires
        !seq_has_path(tys),
        !seq_has_path(args),
    ensures
        !seq_has_path(seq_subst_all(tys, params, args)),
    decreases tys,
{
    let out = seq_subst_all(tys, params, args);
    assert forall|i: int| 0 <= i < out.len() implies !(#[trigger] out[i]).has_path() by {
        assert(!tys[i].has_path());
        lemma_subst_all_path_free(tys[i], params, args);
    }
}

pub proof fn lemma_strip_path_free(t: SpecTy, n: nat)
    requires
        !t.has_path(),
    ensures
        t.strip(n) matches Some(r) ==> !r.has_path(),
    decreases n,
{
    if n > 0 {
        match t {
            SpecTy::Ptr(x) => lemma_strip_path_free(*x, (n - 1) as nat),
            SpecTy::Ref(x) => lemma_strip_path_free(*x, (n - 1) as nat),
            _ => {},
        }
    }
}

pub proof fn lemma_index_path_free(t: SpecTy, n: nat)
    requires
        !t.has_path(),
    ensures
        t.index(n) matches Some(r) ==> !r.has_path(),
    decreases n,
{
    if n > 0 {
        match t {
            SpecTy::Array { ty, .. } => lemma_index_path_free(*ty, (n - 1) as nat),
            _ => {},
        }
    }
}

pub proof fn lemma_pointee_path_free(t: SpecTy)
    requires
        !t.has_path(),
    ensures
        !t.pointee().has_path(),
    decreases t,
{
    match t {
        SpecTy::Ptr(x) => lemma_pointee_path_free(*x),
        SpecTy::Ref(x) => lemma_pointee_path_free(*x),
        _ => {},
    }
}

pub proof fn lemma_fold_ty_path_free(l: SpecTy, r: SpecTy, op: BinOp)
    requires
        !l.has_path(),
        !r.has_path(),
    ensures
        spec_fold_ty(l, r, op) matches Some(t) ==> !t.has_path(),
    decreases l, r,
{
    match (l, r) {
        (SpecTy::Ref(t), _) => lemma_fold_ty_path_free(*t, r, op),
        (_, SpecTy::Ref(t)) => lemma_fold_ty_path_free(l, *t, op),
        (SpecTy::Array { size: n1, ty: t1 }, SpecTy::Array { size: n2, ty: t2 }) => {
            lemma_fold_ty_path_free(*t1, *t2, op);
        },
        _ => {},
    }
}

pub proof fn lemma_unify_path_free(a: SpecTy, b: SpecTy)
    requires
        !a.has_path(),
        !b.has_path(),
    ensures
        spec_unify(a, b) matches Some(t) ==> !t.has_path(),
    decreases a,
{
    match (a, b) {
        (SpecTy::Generic { .. }, _) => {},
        (_, SpecTy::Generic { .. }) => {},
        (SpecTy::Array { size: s1, ty: t1 }, SpecTy::Array { size: s2, ty: t2 }) => {
            lemma_unify_path_free(*t1, *t2);
        },
        (SpecTy::Struct { ident: i1, gen: g1 }, SpecTy::Struct { ident: i2, gen: g2 }) => {
            lemma_unify_seq_path_free(g1, g2);
        },
        (SpecTy::Enum { ident: i1, gen: g1 }, SpecTy::Enum { ident: i2, gen: g2 }) => {
            lemma_unify_seq_path_free(g1, g2);
        },
        (SpecTy::Ptr(t1), SpecTy::Ptr(t2)) => lemma_unify_path_free(*t1, *t2),
        (SpecTy::Ref(t1), SpecTy::Ref(t2)) => lemma_unify_path_free(*t1, *t2),
        (
            SpecTy::Func { ident: i1, ret: r1, params: p1 },
            SpecTy::Func { ident: i2, ret: r2, params: p2 },
        ) => {
            lemma_unify_path_free(*r1, *r2);
            lemma_unify_seq_path_free(p1, p2);
        },
        _ => {},
    }
}

pub proof fn lemma_unify_seq_path_free(a: Seq<SpecTy>, b: Seq<SpecTy>)
    requires
        !seq_has_path(a),
        !seq_has_path(b),
    ensures
        spec_unify_seq(a, b) matches Some(s) ==> !seq_has_path(s),
    decreases a,
{
    if let Some(s) = spec_unify_seq(a, b) {
        assert forall|i: int| 0 <= i < s.len() implies !(#[trigger] s[i]).has_path() by {
            assert(!a[i].has_path());
            assert(!b[i].has_path());
            lemma_unify_path_free(a[i], b[i]);
        }
    }
}

pub proof fn lemma_peel_out_path_free(actual: SpecTy, declared: SpecTy)
    requires
        !actual.has_path(),
    ensures
        spec_peel_out(actual, declared) matches Some(p) ==> !p.0.has_path(),
    decreases declared, 0nat,
{
    match (actual, declared) {
        (t, SpecTy::Generic { ident, .. }) => {},
        (SpecTy::Array { ty: t1, .. }, SpecTy::Array { ty: t2, .. }) => lemma_peel_out_path_free(
            *t1,
            *t2,
        ),
        (SpecTy::Struct { ident: i1, gen: g1 }, SpecTy::Struct { ident: i2, gen: g2 }) => {
            if i1 == i2 {
                lemma_peel_first_path_free(g1, g2, 0);
            }
        },
        (SpecTy::Enum { ident: i1, gen: g1 }, SpecTy::Enum { ident: i2, gen: g2 }) => {
            if i1 == i2 {
                lemma_peel_first_path_free(g1, g2, 0);
            }
        },
        (SpecTy::Ptr(t1), SpecTy::Ptr(t2)) => lemma_peel_out_path_free(*t1, *t2),
        (SpecTy::Ref(t1), SpecTy::Ref(t2)) => lemma_peel_out_path_free(*t1, *t2),
        _ => {},
    }
}

pub proof fn lemma_peel_first_path_free(acts: Seq<SpecTy>, decls: Seq<SpecTy>, i: nat)
    requires
        !seq_has_path(acts),
    ensures
        spec_peel_first(acts, decls, i) matches Some(p) ==> !p.0.has_path(),
    decreases decls, decls.len() - i,
{
    if i >= decls.len() || i >= acts.len() {
    } else {
        assert(!acts[i as int].has_path());
        lemma_peel_out_path_free(acts[i as int], decls[i as int]);
        lemma_peel_first_path_free(acts, decls, i + 1);
    }
}

pub proof fn lemma_infer_one_path_free(g: Ident, decls: Seq<SpecTy>, acts: Seq<SpecTy>, i: nat)
    requires
        !seq_has_path(acts),
    ensures
        infer_one(g, decls, acts, i) matches Some(t) ==> !t.has_path(),
    decreases decls.len() - i,
{
    if i >= decls.len() || i >= acts.len() {
    } else {
        assert(!acts[i as int].has_path());
        lemma_peel_out_path_free(acts[i as int], decls[i as int]);
        lemma_infer_one_path_free(g, decls, acts, i + 1);
    }
}

pub proof fn lemma_infer_targs_path_free(names: Seq<Ident>, decls: Seq<SpecTy>, acts: Seq<SpecTy>)
    requires
        !seq_has_path(acts),
    ensures
        infer_targs(names, decls, acts) matches Some(s) ==> !seq_has_path(s),
{
    if let Some(s) = infer_targs(names, decls, acts) {
        assert forall|k: int| 0 <= k < s.len() implies !(#[trigger] s[k]).has_path() by {
            lemma_infer_one_path_free(names[k], decls, acts, 0);
        }
    }
}

pub proof fn lemma_unify_fold_path_free(tys: Seq<SpecTy>, n: nat)
    requires
        !seq_has_path(tys),
    ensures
        unify_fold(tys, n) matches Some(t) ==> !t.has_path(),
    decreases n,
{
    if n == 0 || n > tys.len() {
    } else if n == 1 {
        assert(!tys[0].has_path());
    } else {
        lemma_unify_fold_path_free(tys, (n - 1) as nat);
        assert(!tys[n - 1].has_path());
        if let Some(u) = unify_fold(tys, (n - 1) as nat) {
            lemma_unify_path_free(u, tys[n - 1]);
        }
    }
}

/// `true` when no type of the list holds a nominal reference.
pub open spec fn opts_path_free(tys: Seq<Option<SpecTy>>) -> bool {
    forall|i: int| 0 <= i < tys.len() ==> ((#[trigger] tys[i]) matches Some(t) ==> !t.has_path())
}

pub proof fn lemma_unwrap_path_free(tys: Seq<Option<SpecTy>>)
    requires
        opts_path_free(tys),
        all_typed(tys),
    ensures
        !seq_has_path(unwrap_tys(tys)),
{
    assert forall|i: int| 0 <= i < tys.len() implies !(#[trigger] unwrap_tys(tys)[i]).has_path() by {
        assert(tys[i] is Some);
    }
}

pub proof fn lemma_type_of_ident_path_free(env: Env, id: Ident, span: crate::ast::types::Range)
    requires
        env.decls_ok(),
    ensures
        env.type_of_ident(id, span) matches Some(t) ==> !t.has_path(),
{
    if env.globals.contains_key(id.id) {
        assert(!env.globals[id.id].has_path());
    }
    match crate::typeck::scope::spec_owner(env.spans, span) {
        Some(f) => {
            if env.locals.contains_key(f.id) && env.locals[f.id].contains_key(id.id) {
                assert(!env.locals[f.id][id.id].has_path());
            }
        },
        None => {},
    }
}

pub proof fn lemma_call_ty_path_free(env: Env, path: Seq<Ident>, args: Seq<Option<SpecTy>>, targs: Seq<SpecTy>)
    requires
        env.decls_ok(),
        opts_path_free(args),
    ensures
        call_ty(env, path, args, targs) matches Some(t) ==> !t.has_path(),
{
    if let Some(t) = call_ty(env, path, args, targs) {
        let f = *env.funcs[path.last().id];
        assert(env.funcs.contains_key(path.last().id));
        assert(sig_ok(f));
        lemma_unwrap_path_free(args);
        let ta = call_targs(f, unwrap_tys(args), targs)->0;
        if targs.len() == 0 {
            lemma_infer_targs_path_free(generic_names(f.generics@), param_tys(f), unwrap_tys(args));
        }
        lemma_subst_all_path_free(f.ret@, generic_names(f.generics@), ta);
    }
}

pub proof fn lemma_trait_call_ty_path_free(env: Env, path: Seq<Ident>, args: Seq<Option<SpecTy>>, targs: Seq<SpecTy>)
    requires
        env.decls_ok(),
    ensures
        trait_call_ty(env, path, args, targs) matches Some(t) ==> !t.has_path(),
{
    if let Some(t) = trait_call_ty(env, path, args, targs) {
        let tr = env.traits[path.last().id];
        assert(env.traits.contains_key(path.last().id));
        assert(crate::typeck::trait_ok(*tr));
        match solve_in(env.impls, path.last(), targs) {
            Solved::Impl(i) => {
                let list = env.impls[path.last().id]@;
                lemma_find_impl(list, targs);
                let pos = find_impl(list, targs) as int;
                assert(sig_ok(list[pos].method));
            },
            Solved::Dependent => {
                lemma_subst_all_path_free(
                    tr.method.func().ret@,
                    generic_names(tr.generics@),
                    targs,
                );
            },
            _ => {},
        }
    }
}

pub proof fn lemma_field_of_path_free(env: Env, lhs_ty: SpecTy, f: Ident)
    requires
        env.decls_ok(),
        !lhs_ty.has_path(),
    ensures
        field_of(env, lhs_ty, f) matches Some(t) ==> !t.has_path(),
{
    lemma_pointee_path_free(lhs_ty);
    if let Some(t) = field_of(env, lhs_ty, f) {
        match lhs_ty.pointee() {
            SpecTy::Struct { ident, gen } => {
                let s = *env.structs[ident.id];
                assert(env.structs.contains_key(ident.id));
                assert(struct_ok(s));
                let pos = position_of(field_names(s), f) as int;
                assert(field_tys(s)[pos] == s.fields@[pos].ty@);
                assert(!field_tys(s)[pos].has_path());
                lemma_subst_all_path_free(s.fields@[pos].ty@, generic_names(s.generics@), gen);
            },
            _ => {},
        }
    }
}

pub proof fn lemma_struct_init_ty_path_free(env: Env, path: Seq<Ident>, names: Seq<Ident>, inits: Seq<Option<SpecTy>>)
    requires
        env.decls_ok(),
        opts_path_free(inits),
    ensures
        struct_init_ty(env, path, names, inits) matches Some(t) ==> !t.has_path(),
{
    if let Some(t) = struct_init_ty(env, path, names, inits) {
        let s = *env.structs[path.last().id];
        lemma_unwrap_path_free(inits);
        lemma_infer_targs_path_free(
            generic_names(s.generics@),
            init_decls(s, names)->0,
            unwrap_tys(inits),
        );
    }
}

pub proof fn lemma_enum_init_ty_path_free(env: Env, path: Seq<Ident>, variant: Ident, items: Seq<Option<SpecTy>>)
    requires
        env.decls_ok(),
        opts_path_free(items),
    ensures
        enum_init_ty(env, path, variant, items) matches Some(t) ==> !t.has_path(),
{
    if let Some(t) = enum_init_ty(env, path, variant, items) {
        let e = *env.enums[path.last().id];
        let pos = position_of(variant_names(e), variant) as int;
        let decls = view_tys(e.variants@[pos].types@);
        let acts = unwrap_tys(items);
        lemma_unwrap_path_free(items);
        let gen = enum_init_gen(e.generics@, decls, acts);
        assert forall|k: int| 0 <= k < gen.len() implies !(#[trigger] gen[k]).has_path() by {
            lemma_infer_one_path_free(e.generics@[k].ident, decls, acts, 0);
        }
        assert(!seq_has_path(gen));
        assert(t == SpecTy::Enum { ident: e.ident, gen });
    }
}

pub proof fn lemma_array_init_ty_path_free(items: Seq<Option<SpecTy>>)
    requires
        opts_path_free(items),
    ensures
        array_init_ty(items) matches Some(t) ==> !t.has_path(),
{
    if let Some(t) = array_init_ty(items) {
        if items.len() > 0 {
            lemma_unwrap_path_free(items);
            lemma_unify_fold_path_free(unwrap_tys(items), items.len());
            let u = unify_fold(unwrap_tys(items), items.len())->0;
            assert(!u.has_path());
            assert(t == SpecTy::Array { size: items.len() as usize, ty: Box::new(u) });
        } else {
            assert(!SpecTy::Void.has_path());
            assert(t == SpecTy::Array { size: 0, ty: Box::new(SpecTy::Void) });
        }
    }
}

pub proof fn lemma_tys_of_path_free(env: Env, es: Seq<Expression>)
    requires
        env.decls_ok(),
    ensures
        opts_path_free(tys_of(env, es)),
    decreases es,
{
    let tys = tys_of(env, es);
    assert forall|i: int| 0 <= i < tys.len() implies ((#[trigger] tys[i]) matches Some(t)
        ==> !t.has_path()) by {
        lemma_ty_of_path_free(env, es[i]);
    }
}

pub proof fn lemma_init_tys_of_path_free(env: Env, fs: Seq<FieldInit>)
    requires
        env.decls_ok(),
    ensures
        opts_path_free(init_tys_of(env, fs)),
    decreases fs,
{
    let tys = init_tys_of(env, fs);
    assert forall|i: int| 0 <= i < tys.len() implies ((#[trigger] tys[i]) matches Some(t)
        ==> !t.has_path()) by {
        lemma_ty_of_path_free(env, fs[i].init);
    }
}

pub proof fn lemma_field_ty_path_free(env: Env, lhs_ty: SpecTy, rhs: Expression)
    requires
        env.decls_ok(),
        !lhs_ty.has_path(),
    ensures
        field_ty(env, lhs_ty, rhs) matches Some(t) ==> !t.has_path(),
    decreases rhs,
{
    match rhs.val {
        Expr::Ident(f) => lemma_field_of_path_free(env, lhs_ty, f),
        Expr::Array { ident: f, exprs } => {
            lemma_field_of_path_free(env, lhs_ty, f);
            if let Some(t) = field_of(env, lhs_ty, f) {
                lemma_index_path_free(t, exprs@.len());
            }
        },
        Expr::FieldAccess { lhs: l2, rhs: r2 } => match l2.val {
            Expr::Ident(f2) => {
                lemma_field_of_path_free(env, lhs_ty, f2);
                if let Some(t2) = field_of(env, lhs_ty, f2) {
                    lemma_field_ty_path_free(env, t2, *r2);
                }
            },
            _ => {},
        },
        _ => {},
    }
}

/// Where no declaration holds an unresolved nominal reference, the type of
/// an expression holds none.
pub proof fn lemma_ty_of_path_free(env: Env, e: Expression)
    requires
        env.decls_ok(),
    ensures
        ty_of(env, e) matches Some(t) ==> !t.has_path(),
    decreases e,
{
    match e.val {
        Expr::Value(v) => {},
        Expr::Ident(x) => lemma_type_of_ident_path_free(env, x, e.span),
        Expr::AddrOf(x) => lemma_ty_of_path_free(env, *x),
        Expr::Deref { indir, expr } => {
            lemma_ty_of_path_free(env, *expr);
            if let Some(t) = ty_of(env, *expr) {
                lemma_strip_path_free(t, indir as nat);
            }
        },
        Expr::Array { ident, exprs } => {
            lemma_type_of_ident_path_free(env, ident, e.span);
            if let Some(t) = env.type_of_ident(ident, e.span) {
                lemma_index_path_free(t, exprs@.len());
            }
        },
        Expr::Urnary { op, expr } => {},
        Expr::Binary { op, lhs, rhs } => {
            lemma_ty_of_path_free(env, *lhs);
            lemma_ty_of_path_free(env, *rhs);
            if let (Some(l), Some(r)) = (ty_of(env, *lhs), ty_of(env, *rhs)) {
                lemma_fold_ty_path_free(l, r, op);
            }
        },
        Expr::Parens(x) => lemma_ty_of_path_free(env, *x),
        Expr::Call { path, args, type_args } => {
            lemma_tys_of_path_free(env, args@);
            lemma_call_ty_path_free(env, path@, tys_of(env, args@), view_tys(type_args@));
        },
        Expr::TraitMeth { trait_, args, type_args } => {
            lemma_trait_call_ty_path_free(env, trait_@, tys_of(env, args@), view_tys(type_args@));
        },
        Expr::FieldAccess { lhs, rhs } => {
            lemma_ty_of_path_free(env, *lhs);
            if let Some(t) = ty_of(env, *lhs) {
                lemma_field_ty_path_free(env, t, *rhs);
            }
        },
        Expr::StructInit { path, fields } => {
            lemma_init_tys_of_path_free(env, fields@);
            lemma_struct_init_ty_path_free(
                env,
                path@,
                init_names(fields@),
                init_tys_of(env, fields@),
            );
        },
        Expr::EnumInit { path, variant, items } => {
            lemma_tys_of_path_free(env, items@);
            lemma_enum_init_ty_path_free(env, path@, variant, tys_of(env, items@));
        },
        Expr::ArrayInit { items } => {
            lemma_tys_of_path_free(env, items@);
            lemma_array_init_ty_path_free(tys_of(env, items@));
        },
    }
}

/// `true` when no type of the table holds an unresolved nominal reference.
pub open spec fn map_path_free(m: Map<usize, SpecTy>) -> bool {
    forall|k: usize| #[trigger] m.contains_key(k) ==> !m[k].has_path()
}

pub proof fn lemma_union_path_free(a: Map<usize, SpecTy>, b: Map<usize, SpecTy>)
    requires
        map_path_free(a),
        map_path_free(b),
    ensures
        map_path_free(a.union_prefer_right(b)),
{
    let u = a.union_prefer_right(b);
    assert forall|k: usize| #[trigger] u.contains_key(k) implies !u[k].has_path() by {
        if b.contains_key(k) {
        } else {
            assert(a.contains_key(k));
        }
    }
}

pub proof fn lemma_entries_seq_path_free(env: Env, es: Seq<Expression>, n: nat)
    requires
        env.decls_ok(),
    ensures
        map_path_free(entries_seq(env, es, n)),
    decreases es, n,
{
    if n == 0 || n > es.len() {
    } else {
        lemma_entries_seq_path_free(env, es, (n - 1) as nat);
        lemma_entries_path_free(env, es[n - 1]);
        lemma_union_path_free(entries_seq(env, es, (n - 1) as nat), entries(env, es[n - 1]));
    }
}

pub proof fn lemma_init_entries_seq_path_free(env: Env, fs: Seq<FieldInit>, n: nat)
    requires
        env.decls_ok(),
    ensures
        map_path_free(init_entries_seq(env, fs, n)),
    decreases fs, n,
{
    if n == 0 || n > fs.len() {
    } else {
        lemma_init_entries_seq_path_free(env, fs, (n - 1) as nat);
        lemma_entries_path_free(env, fs[n - 1].init);
        lemma_union_path_free(
            init_entries_seq(env, fs, (n - 1) as nat),
            entries(env, fs[n - 1].init),
        );
    }
}

pub proof fn lemma_field_entries_path_free(env: Env, lhs_ty: SpecTy, rhs: Expression)
    requires
        env.decls_ok(),
        !lhs_ty.has_path(),
    ensures
        map_path_free(field_entries(env, lhs_ty, rhs)),
    decreases rhs, 0nat,
{
    lemma_field_ty_path_free(env, lhs_ty, rhs);
    let own = own_entry(rhs.id, field_ty(env, lhs_ty, rhs));
    assert(map_path_free(own));
    match rhs.val {
        Expr::Array { exprs, .. } => {
            lemma_entries_seq_path_free(env, exprs@, exprs@.len());
            lemma_union_path_free(entries_seq(env, exprs@, exprs@.len()), own);
        },
        Expr::FieldAccess { lhs: l2, rhs: r2 } => match l2.val {
            Expr::Ident(f2) => {
                lemma_field_of_path_free(env, lhs_ty, f2);
                match field_of(env, lhs_ty, f2) {
                    Some(t2) => {
                        lemma_field_entries_path_free(env, t2, *r2);
                        let first = Map::<usize, SpecTy>::empty().insert(l2.id, t2);
                        assert(map_path_free(first));
                        lemma_union_path_free(first, field_entries(env, t2, *r2));
                        lemma_union_path_free(
                            first.union_prefer_right(field_entries(env, t2, *r2)),
                            own,
                        );
                    },
                    None => {
                        lemma_union_path_free(Map::empty(), own);
                    },
                }
            },
            _ => {
                lemma_union_path_free(Map::empty(), own);
            },
        },
        _ => {
            lemma_union_path_free(Map::empty(), own);
        },
    }
}

pub proof fn lemma_kids_entries_path_free(env: Env, e: Expression)
    requires
        env.decls_ok(),
    ensures
        map_path_free(kids_entries(env, e)),
    decreases e, 0nat,
{
    match e.val {
        Expr::Value(_) => {},
        Expr::Ident(_) => {},
        Expr::AddrOf(x) => lemma_entries_path_free(env, *x),
        Expr::Deref { expr, .. } => lemma_entries_path_free(env, *expr),
        Expr::Array { exprs, .. } => lemma_entries_seq_path_free(env, exprs@, exprs@.len()),
        Expr::Urnary { expr, .. } => lemma_entries_path_free(env, *expr),
        Expr::Binary { lhs, rhs, .. } => {
            lemma_entries_path_free(env, *lhs);
            lemma_entries_path_free(env, *rhs);
            lemma_union_path_free(entries(env, *lhs), entries(env, *rhs));
        },
        Expr::Parens(x) => lemma_entries_path_free(env, *x),
        Expr::Call { args, .. } => lemma_entries_seq_path_free(env, args@, args@.len()),
        Expr::TraitMeth { args, .. } => lemma_entries_seq_path_free(env, args@, args@.len()),
        Expr::FieldAccess { lhs, rhs } => {
            lemma_entries_path_free(env, *lhs);
            lemma_ty_of_path_free(env, *lhs);
            match ty_of(env, *lhs) {
                Some(t) => {
                    lemma_field_entries_path_free(env, t, *rhs);
                    lemma_union_path_free(entries(env, *lhs), field_entries(env, t, *rhs));
                },
                None => {
                    lemma_union_path_free(entries(env, *lhs), Map::empty());
                },
            }
        },
        Expr::StructInit { fields, .. } => lemma_init_entries_seq_path_free(
            env,
            fields@,
            fields@.len(),
        ),
        Expr::EnumInit { items, .. } => lemma_entries_seq_path_free(env, items@, items@.len()),
        Expr::ArrayInit { items } => lemma_entries_seq_path_free(env, items@, items@.len()),
    }
}

/// Where no declaration holds an unresolved nominal reference, inference
/// writes no type that holds one.
pub proof fn lemma_entries_path_free(env: Env, e: Expression)
    requires
        env.decls_ok(),
    ensures
        map_path_free(entries(env, e)),
    decreases e, 1nat,
{
    lemma_kids_entries_path_free(env, e);
    lemma_ty_of_path_free(env, e);
    let own = own_entry(e.id, ty_of(env, e));
    assert(map_path_free(own));
    lemma_union_path_free(kids_entries(env, e), own);
}

} // verus!
