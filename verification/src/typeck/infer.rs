//! Type inference: the pass that gives every expression its type.

use crate::ast::types::{
    generic_names, position_of, seq_has_path, view_opt, view_tys, BinOp, Enum, Expr, Expression,
    FieldInit, Func, Generic, Ident, SpecTy, Struct, Ty, UnOp,
};
use crate::typeck::check::spec_fold_ty;
use crate::typeck::generic::view_bound;
use crate::typeck::trait_solver::{solve_in, Solved};
use crate::ast::types::Range;
use crate::error::{Error, ErrorKind};
use crate::typeck::typing::{
    all_are_int, exec_array_init_ty, exec_binary_ty, exec_call_ty, exec_enum_init_ty,
    exec_field_of, exec_struct_init_ty, exec_trait_call_ty, exec_unary_ty, view_opts,
};
use crate::typeck::coverage::{covered, lemma_covered_mono, lemma_entries_cover};
use crate::typeck::faults::{
    fault_seq, faults, faults_seq, field_fault_kind, field_faults, field_kind, init_faults_seq,
    kids_faults, lemma_add_assoc, lemma_add_empty, named_fault, own_kind, subject, subject_of,
};
use crate::typeck::typing::unwrap_all;
use crate::typeck::path_free::{lemma_entries_path_free, lemma_union_path_free, map_path_free};
use crate::typeck::{param_tys, Env, TyCheckRes};
use vstd::prelude::*;

verus! {

/// The first pair that [`spec_peel_out`] finds in the positions `i..` of two
/// lists of type arguments.
pub open spec fn spec_peel_first(acts: Seq<SpecTy>, decls: Seq<SpecTy>, i: nat) -> Option<
    (SpecTy, Ident),
>
    decreases decls, decls.len() - i,
{
    if i >= decls.len() || i >= acts.len() {
        None
    } else {
        match spec_peel_out(acts[i as int], decls[i as int]) {
            Some(p) => Some(p),
            None => spec_peel_first(acts, decls, i + 1),
        }
    }
}

/// Where `declared` holds a type parameter `T` at a position that `actual`
/// covers too, the pair of what `actual` has there and `T`. The search goes
/// through arrays, pointers, dereference layers, and structs and enums of
/// one name; where the two types differ in shape there is no pair.
pub open spec fn spec_peel_out(actual: SpecTy, declared: SpecTy) -> Option<(SpecTy, Ident)>
    decreases declared, 0nat,
{
    match (actual, declared) {
        (t, SpecTy::Generic { ident, .. }) => Some((t, ident)),
        (SpecTy::Array { ty: t1, .. }, SpecTy::Array { ty: t2, .. }) => spec_peel_out(*t1, *t2),
        (SpecTy::Struct { ident: i1, gen: g1 }, SpecTy::Struct { ident: i2, gen: g2 }) => if i1
            == i2 {
            spec_peel_first(g1, g2, 0)
        } else {
            None
        },
        (SpecTy::Enum { ident: i1, gen: g1 }, SpecTy::Enum { ident: i2, gen: g2 }) => if i1 == i2 {
            spec_peel_first(g1, g2, 0)
        } else {
            None
        },
        (SpecTy::Ptr(t1), SpecTy::Ptr(t2)) => spec_peel_out(*t1, *t2),
        (SpecTy::Ref(t1), SpecTy::Ref(t2)) => spec_peel_out(*t1, *t2),
        _ => None,
    }
}

/// The model of an optional pair of a type and a name.
pub open spec fn view_pair(p: Option<(Ty, Ident)>) -> Option<(SpecTy, Ident)> {
    match p {
        Some((t, i)) => Some((t@, i)),
        None => None,
    }
}

fn peel_first(acts: &Vec<Ty>, decls: &Vec<Ty>) -> (r: Option<(Ty, Ident)>)
    ensures
        view_pair(r) == spec_peel_first(view_tys(acts@), view_tys(decls@), 0),
    decreases decls,
{
    let mut i: usize = 0;
    while i < decls.len() && i < acts.len()
        invariant
            spec_peel_first(view_tys(acts@), view_tys(decls@), 0) == spec_peel_first(
                view_tys(acts@),
                view_tys(decls@),
                i as nat,
            ),
        decreases decls.len() - i,
    {
        match peel_out(&acts[i], &decls[i]) {
            Some(p) => {
                return Some(p);
            },
            None => {},
        }
        i += 1;
    }
    None
}

fn peel_out(actual: &Ty, declared: &Ty) -> (r: Option<(Ty, Ident)>)
    ensures
        view_pair(r) == spec_peel_out(actual@, declared@),
    decreases declared,
{
    match (actual, declared) {
        (t, Ty::Generic { ident, .. }) => Some((t.clone(), *ident)),
        (Ty::Array { ty: t1, .. }, Ty::Array { ty: t2, .. }) => peel_out(t1, t2),
        (Ty::Struct { ident: i1, gen: g1 }, Ty::Struct { ident: i2, gen: g2 }) => if *i1 == *i2 {
            peel_first(g1, g2)
        } else {
            None
        },
        (Ty::Enum { ident: i1, gen: g1 }, Ty::Enum { ident: i2, gen: g2 }) => if *i1 == *i2 {
            peel_first(g1, g2)
        } else {
            None
        },
        (Ty::Ptr(t1), Ty::Ptr(t2)) => peel_out(t1, t2),
        (Ty::Ref(t1), Ty::Ref(t2)) => peel_out(t1, t2),
        _ => None,
    }
}

/// The concrete type and the type parameter it stands for, found by laying
/// the type of an expression over a declared type. No pair where the
/// expression has no type.
pub fn peel_out_ty(exty: Option<&Ty>, has_gen: &Ty) -> (r: Option<(Ty, Ident)>)
    ensures
        view_pair(r) == (match exty {
            Some(t) => spec_peel_out(t@, has_gen@),
            None => None,
        }),
{
    match exty {
        Some(t) => peel_out(t, has_gen),
        None => None,
    }
}

/// The types of two lists unified item by item, or `None` if the lists
/// differ in length or one pair of items does not unify.
pub open spec fn spec_unify_seq(a: Seq<SpecTy>, b: Seq<SpecTy>) -> Option<Seq<SpecTy>>
    decreases a,
{
    if a.len() != b.len() {
        None
    } else if forall|i: int| 0 <= i < a.len() ==> spec_unify(#[trigger] a[i], b[i]) is Some {
        Some(
            Seq::new(
                a.len(),
                |i: int|
                    if 0 <= i < a.len() {
                        spec_unify(a[i], b[i])->0
                    } else {
                        SpecTy::Void
                    },
            ),
        )
    } else {
        None
    }
}

/// The one type that two types agree on, or `None` if they do not agree.
/// A type parameter agrees with any type and yields it; a primitive agrees
/// with itself; two types of one constructor agree if their parts do; two
/// types of different constructors do not agree.
pub open spec fn spec_unify(a: SpecTy, b: SpecTy) -> Option<SpecTy>
    decreases a,
{
    match (a, b) {
        (SpecTy::Generic { .. }, _) => Some(b),
        (_, SpecTy::Generic { .. }) => Some(a),
        (SpecTy::Array { size: s1, ty: t1 }, SpecTy::Array { size: s2, ty: t2 }) => if s1 == s2 {
            match spec_unify(*t1, *t2) {
                Some(t) => Some(SpecTy::Array { size: s1, ty: Box::new(t) }),
                None => None,
            }
        } else {
            None
        },
        (SpecTy::Struct { ident: i1, gen: g1 }, SpecTy::Struct { ident: i2, gen: g2 }) => if i1
            == i2 {
            match spec_unify_seq(g1, g2) {
                Some(g) => Some(SpecTy::Struct { ident: i1, gen: g }),
                None => None,
            }
        } else {
            None
        },
        (SpecTy::Enum { ident: i1, gen: g1 }, SpecTy::Enum { ident: i2, gen: g2 }) => if i1 == i2 {
            match spec_unify_seq(g1, g2) {
                Some(g) => Some(SpecTy::Enum { ident: i1, gen: g }),
                None => None,
            }
        } else {
            None
        },
        (SpecTy::Ptr(t1), SpecTy::Ptr(t2)) => match spec_unify(*t1, *t2) {
            Some(t) => Some(SpecTy::Ptr(Box::new(t))),
            None => None,
        },
        (SpecTy::Ref(t1), SpecTy::Ref(t2)) => match spec_unify(*t1, *t2) {
            Some(t) => Some(SpecTy::Ref(Box::new(t))),
            None => None,
        },
        (SpecTy::Func { ident: i1, ret: r1, params: p1 }, SpecTy::Func { ident: i2, ret: r2, params: p2 }) => if i1
            == i2 {
            match (spec_unify(*r1, *r2), spec_unify_seq(p1, p2)) {
                (Some(r), Some(p)) => Some(SpecTy::Func { ident: i1, ret: Box::new(r), params: p }),
                _ => None,
            }
        } else {
            None
        },
        _ => if a == b && (a.is_primitive() || a is Path) {
            Some(a)
        } else {
            None
        },
    }
}

/// What [`TypeInfer::unify`] yields for two optional types: where one side
/// has no type the other stands.
pub open spec fn spec_unify_opt(ty: Option<SpecTy>, with: Option<SpecTy>) -> Option<SpecTy> {
    match (ty, with) {
        (Some(a), Some(b)) => spec_unify(a, b),
        (Some(a), None) => Some(a),
        (None, Some(b)) => Some(b),
        (None, None) => None,
    }
}

fn unify_tys(a: &Vec<Ty>, b: &Vec<Ty>) -> (r: Option<Vec<Ty>>)
    ensures
        (match r {
            Some(v) => Some(view_tys(v@)),
            None => None,
        }) == spec_unify_seq(view_tys(a@), view_tys(b@)),
    decreases a,
{
    if a.len() != b.len() {
        return None;
    }
    let mut out: Vec<Ty> = Vec::new();
    let mut i: usize = 0;
    while i < a.len()
        invariant
            i <= a.len(),
            a.len() == b.len(),
            out@.len() == i,
            forall|j: int|
                0 <= j < i ==> spec_unify(#[trigger] view_tys(a@)[j], view_tys(b@)[j]) == Some(
                    out@[j]@,
                ),
        decreases a.len() - i,
    {
        match unify_ty(&a[i], &b[i]) {
            Some(t) => {
                out.push(t);
            },
            None => {
                proof {
                    let va = view_tys(a@);
                    let vb = view_tys(b@);
                    assert(va.len() == vb.len());
                    assert(va[i as int] == a@[i as int]@);
                    assert(vb[i as int] == b@[i as int]@);
                    assert(spec_unify(va[i as int], vb[i as int]) is None);
                    assert(spec_unify_seq(va, vb) is None);
                }
                return None;
            },
        }
        i += 1;
    }
    proof {
        let va = view_tys(a@);
        let vb = view_tys(b@);
        assert(va.len() == vb.len());
        assert(spec_unify_seq(va, vb) is Some);
        assert(view_tys(out@) =~= spec_unify_seq(va, vb)->0);
    }
    Some(out)
}

fn unify_ty(a: &Ty, b: &Ty) -> (r: Option<Ty>)
    ensures
        view_opt(r) == spec_unify(a@, b@),
    decreases a,
{
    match (a, b) {
        (Ty::Generic { .. }, _) => Some(b.clone()),
        (_, Ty::Generic { .. }) => Some(a.clone()),
        (Ty::Array { size: s1, ty: t1 }, Ty::Array { size: s2, ty: t2 }) => if *s1 == *s2 {
            match unify_ty(t1, t2) {
                Some(t) => Some(Ty::Array { size: *s1, ty: Box::new(t) }),
                None => None,
            }
        } else {
            None
        },
        (Ty::Struct { ident: i1, gen: g1 }, Ty::Struct { ident: i2, gen: g2 }) => if *i1 == *i2 {
            match unify_tys(g1, g2) {
                Some(g) => Some(Ty::Struct { ident: *i1, gen: g }),
                None => None,
            }
        } else {
            None
        },
        (Ty::Enum { ident: i1, gen: g1 }, Ty::Enum { ident: i2, gen: g2 }) => if *i1 == *i2 {
            match unify_tys(g1, g2) {
                Some(g) => Some(Ty::Enum { ident: *i1, gen: g }),
                None => None,
            }
        } else {
            None
        },
        (Ty::Ptr(t1), Ty::Ptr(t2)) => match unify_ty(t1, t2) {
            Some(t) => Some(Ty::Ptr(Box::new(t))),
            None => None,
        },
        (Ty::Ref(t1), Ty::Ref(t2)) => match unify_ty(t1, t2) {
            Some(t) => Some(Ty::Ref(Box::new(t))),
            None => None,
        },
        (Ty::Func { ident: i1, ret: r1, params: p1 }, Ty::Func { ident: i2, ret: r2, params: p2 }) => {
            if *i1 == *i2 {
                let r = unify_ty(r1, r2);
                let p = unify_tys(p1, p2);
                match (r, p) {
                    (Some(r), Some(p)) => Some(Ty::Func { ident: *i1, ret: Box::new(r), params: p }),
                    _ => None,
                }
            } else {
                None
            }
        },
        _ => if (a.is_primitive() || matches!(a, Ty::Path(_))) && a.is_ty_eq(b) {
            Some(a.clone())
        } else {
            None
        },
    }
}

/// Inference over one type context.
pub struct TypeInfer {}

impl TypeInfer {
    /// The one type that `ty` and `with` agree on. Where only one of them is
    /// a type, that one.
    pub fn unify(ty: Option<&Ty>, with: Option<&Ty>) -> (r: Option<Ty>)
        ensures
            view_opt(r) == spec_unify_opt(
                match ty {
                    Some(t) => Some(t@),
                    None => None,
                },
                match with {
                    Some(t) => Some(t@),
                    None => None,
                },
            ),
    {
        match (ty, with) {
            (Some(a), Some(b)) => unify_ty(a, b),
            (Some(a), None) => Some(a.clone()),
            (None, Some(b)) => Some(b.clone()),
            (None, None) => None,
        }
    }
}

/// `true` when every expression of a list has a type.
pub open spec fn all_typed(tys: Seq<Option<SpecTy>>) -> bool {
    forall|i: int| 0 <= i < tys.len() ==> (#[trigger] tys[i]) is Some
}

/// `true` when every expression of a list has the type `Int`.
pub open spec fn all_int(tys: Seq<Option<SpecTy>>) -> bool {
    forall|i: int| 0 <= i < tys.len() ==> (#[trigger] tys[i]) == Some(SpecTy::Int)
}

/// The types of a list of typed expressions.
pub open spec fn unwrap_tys(tys: Seq<Option<SpecTy>>) -> Seq<SpecTy> {
    Seq::new(tys.len(), |i: int| tys[i]->0)
}

/// The type of `op e` for an operand of type `t`: `Bool` for `!` on a
/// truthy operand, `Int` for `~` on an `Int` or a pointer.
pub open spec fn unary_ty(op: UnOp, t: Option<SpecTy>) -> Option<SpecTy> {
    match t {
        Some(t) => match op {
            UnOp::Not => if t.is_truthy() {
                Some(SpecTy::Bool)
            } else {
                None
            },
            UnOp::OnesComp => if t is Int || t is Ptr {
                Some(SpecTy::Int)
            } else {
                None
            },
        },
        None => None,
    }
}

/// The type of `l op r`: for a comparison `Bool` where both sides have one
/// primitive type; for `&&` and `||` `Bool` where both sides are `Bool`; for
/// an arithmetic, shift or bitwise operator what [`spec_fold_ty`] gives.
pub open spec fn binary_ty(op: BinOp, l: Option<SpecTy>, r: Option<SpecTy>) -> Option<SpecTy> {
    match (l, r) {
        (Some(l), Some(r)) => if op.comparison() {
            if l == r && l.is_primitive() {
                Some(SpecTy::Bool)
            } else {
                None
            }
        } else if op.logical() {
            if l is Bool && r is Bool {
                Some(SpecTy::Bool)
            } else {
                None
            }
        } else if op.arith() {
            spec_fold_ty(l, r, op)
        } else {
            None
        },
        _ => None,
    }
}

/// The type that the first of the pairs `(acts[j], decls[j])`, `j >= i`,
/// gives to the type parameter `g`.
pub open spec fn infer_one(g: Ident, decls: Seq<SpecTy>, acts: Seq<SpecTy>, i: nat) -> Option<SpecTy>
    decreases decls.len() - i,
{
    if i >= decls.len() || i >= acts.len() {
        None
    } else {
        match spec_peel_out(acts[i as int], decls[i as int]) {
            Some((t, id)) => if id == g {
                Some(t)
            } else {
                infer_one(g, decls, acts, i + 1)
            },
            None => infer_one(g, decls, acts, i + 1),
        }
    }
}

/// The type arguments that the actual types `acts` give to the type
/// parameters `names` of declared types `decls`; `None` where a parameter
/// gets none.
pub open spec fn infer_targs(names: Seq<Ident>, decls: Seq<SpecTy>, acts: Seq<SpecTy>) -> Option<
    Seq<SpecTy>,
> {
    if forall|k: int| 0 <= k < names.len() ==> infer_one(#[trigger] names[k], decls, acts, 0) is Some {
        Some(Seq::new(names.len(), |k: int| infer_one(names[k], decls, acts, 0)->0))
    } else {
        None
    }
}

/// The type arguments of a call of `f`: those written at the call, where
/// there are as many as `f` has type parameters and none holds an unresolved
/// nominal reference; where none is written, those that the arguments give.
pub open spec fn call_targs(f: Func, acts: Seq<SpecTy>, targs: Seq<SpecTy>) -> Option<Seq<SpecTy>> {
    if targs.len() > 0 {
        if targs.len() == f.generics@.len() && !seq_has_path(targs) {
            Some(targs)
        } else {
            None
        }
    } else {
        infer_targs(generic_names(f.generics@), param_tys(f), acts)
    }
}

/// The type of a call of the function `path` with arguments of the types
/// `args` and the type arguments `targs`: the function's declared result
/// with its type parameters replaced by the type arguments.
pub open spec fn call_ty(env: Env, path: Seq<Ident>, args: Seq<Option<SpecTy>>, targs: Seq<SpecTy>) -> Option<SpecTy> {
    if path.len() == 0 || !env.funcs.contains_key(path.last().id) || !all_typed(args) {
        None
    } else {
        let f = *env.funcs[path.last().id];
        if args.len() != f.params@.len() {
            None
        } else {
            match call_targs(f, unwrap_tys(args), targs) {
                Some(ta) => Some(f.ret@.subst_all(generic_names(f.generics@), ta)),
                None => None,
            }
        }
    }
}

/// The type of a call of the method of trait `path`: the result of the
/// implementation for the type arguments; where the type arguments depend on
/// type parameters and no implementation answers yet, the trait's declared
/// result with the type arguments put in.
pub open spec fn trait_call_ty(env: Env, path: Seq<Ident>, args: Seq<Option<SpecTy>>, targs: Seq<SpecTy>) -> Option<SpecTy> {
    if path.len() == 0 || !env.traits.contains_key(path.last().id) || !all_typed(args)
        || seq_has_path(targs) {
        None
    } else {
        let t = env.traits[path.last().id];
        match solve_in(env.impls, path.last(), targs) {
            Solved::Impl(i) => Some(i.method.ret@),
            Solved::Dependent => Some(
                t.method.func().ret@.subst_all(generic_names(t.generics@), targs),
            ),
            Solved::NotImplemented => None,
            Solved::NoImpls => None,
        }
    }
}

/// The names of a struct's fields, in order.
pub open spec fn field_names(s: Struct) -> Seq<Ident> {
    Seq::new(s.fields@.len(), |i: int| s.fields@[i].ident)
}

/// The type of the field `f` of struct `s` with the type arguments `gen`.
pub open spec fn struct_field_ty(s: Struct, gen: Seq<SpecTy>, f: Ident) -> Option<SpecTy> {
    let pos = position_of(field_names(s), f);
    if pos < s.fields@.len() {
        Some(s.fields@[pos as int].ty@.subst_all(generic_names(s.generics@), gen))
    } else {
        None
    }
}

/// The declared types of the fields that a struct initializer names, in the
/// order of the initializer; `None` where it names a field that the struct
/// does not have.
pub open spec fn init_decls(s: Struct, names: Seq<Ident>) -> Option<Seq<SpecTy>> {
    if forall|j: int|
        0 <= j < names.len() ==> position_of(field_names(s), #[trigger] names[j]) < s.fields@.len() {
        Some(
            Seq::new(
                names.len(),
                |j: int| s.fields@[position_of(field_names(s), names[j]) as int].ty@,
            ),
        )
    } else {
        None
    }
}

/// The type of a struct initializer: the struct with the type arguments that
/// the initial values give to its type parameters.
pub open spec fn struct_init_ty(env: Env, path: Seq<Ident>, names: Seq<Ident>, inits: Seq<Option<SpecTy>>) -> Option<SpecTy> {
    if path.len() == 0 || !env.structs.contains_key(path.last().id) || !all_typed(inits) {
        None
    } else {
        let s = *env.structs[path.last().id];
        match init_decls(s, names) {
            Some(decls) => match infer_targs(generic_names(s.generics@), decls, unwrap_tys(inits)) {
                Some(ta) => Some(SpecTy::Struct { ident: s.ident, gen: ta }),
                None => None,
            },
            None => None,
        }
    }
}

/// The names of an enum's variants, in order.
pub open spec fn variant_names(e: Enum) -> Seq<Ident> {
    Seq::new(e.variants@.len(), |i: int| e.variants@[i].ident)
}

/// The type arguments of an enum initializer: for each type parameter what
/// the variant's items give it, and the parameter itself where they give it
/// nothing.
pub open spec fn enum_init_gen(gs: Seq<Generic>, decls: Seq<SpecTy>, acts: Seq<SpecTy>) -> Seq<SpecTy> {
    Seq::new(
        gs.len(),
        |k: int|
            match infer_one(gs[k].ident, decls, acts, 0) {
                Some(t) => t,
                None => SpecTy::Generic { ident: gs[k].ident, bound: view_bound(gs[k].bound) },
            },
    )
}

/// The type of an enum initializer for the variant `variant` with items of
/// the types `items`.
pub open spec fn enum_init_ty(env: Env, path: Seq<Ident>, variant: Ident, items: Seq<Option<SpecTy>>) -> Option<SpecTy> {
    if path.len() == 0 || !env.enums.contains_key(path.last().id) || !all_typed(items) {
        None
    } else {
        let e = *env.enums[path.last().id];
        let pos = position_of(variant_names(e), variant);
        if pos >= e.variants@.len() || e.variants@[pos as int].types@.len() != items.len() {
            None
        } else {
            Some(
                SpecTy::Enum {
                    ident: e.ident,
                    gen: enum_init_gen(
                        e.generics@,
                        view_tys(e.variants@[pos as int].types@),
                        unwrap_tys(items),
                    ),
                },
            )
        }
    }
}

/// The one type that the first `n` of `tys` agree on, for `n >= 1`.
pub open spec fn unify_fold(tys: Seq<SpecTy>, n: nat) -> Option<SpecTy>
    decreases n,
{
    if n == 0 || n > tys.len() {
        None
    } else if n == 1 {
        Some(tys[0])
    } else {
        match unify_fold(tys, (n - 1) as nat) {
            Some(u) => spec_unify(u, tys[n - 1]),
            None => None,
        }
    }
}

/// The type of an array initializer: an array of as many items, of the one
/// type that the items agree on; of `Void` where there is no item.
pub open spec fn array_init_ty(items: Seq<Option<SpecTy>>) -> Option<SpecTy> {
    if !all_typed(items) || items.len() > usize::MAX {
        None
    } else if items.len() == 0 {
        Some(SpecTy::Array { size: 0, ty: Box::new(SpecTy::Void) })
    } else {
        match unify_fold(unwrap_tys(items), items.len()) {
            Some(t) => Some(SpecTy::Array { size: items.len() as usize, ty: Box::new(t) }),
            None => None,
        }
    }
}

/// The types of a list of expressions.
pub open spec fn tys_of(env: Env, es: Seq<Expression>) -> Seq<Option<SpecTy>>
    decreases es,
{
    Seq::new(
        es.len(),
        |i: int|
            if 0 <= i < es.len() {
                ty_of(env, es[i])
            } else {
                None
            },
    )
}

/// The types of the initial values of a struct initializer.
pub open spec fn init_tys_of(env: Env, fs: Seq<FieldInit>) -> Seq<Option<SpecTy>>
    decreases fs,
{
    Seq::new(
        fs.len(),
        |i: int|
            if 0 <= i < fs.len() {
                ty_of(env, fs[i].init)
            } else {
                None
            },
    )
}

/// The names of the fields of a struct initializer.
pub open spec fn init_names(fs: Seq<FieldInit>) -> Seq<Ident> {
    Seq::new(fs.len(), |i: int| fs[i].ident)
}

/// The type of the field `f` of a value of type `lhs_ty`. Pointers and
/// dereference layers are taken off `lhs_ty` first; what is left must be a
/// declared struct.
pub open spec fn field_of(env: Env, lhs_ty: SpecTy, f: Ident) -> Option<SpecTy> {
    match lhs_ty.pointee() {
        SpecTy::Struct { ident, gen } => if env.structs.contains_key(ident.id) {
            struct_field_ty(*env.structs[ident.id], gen, f)
        } else {
            None
        },
        _ => None,
    }
}

/// The type of the right side `rhs` of a field access whose left side has
/// the type `lhs_ty`. The right side is a field's name, an indexed field, or
/// a field's name with a field access of its own.
pub open spec fn field_ty(env: Env, lhs_ty: SpecTy, rhs: Expression) -> Option<SpecTy>
    decreases rhs,
{
    match rhs.val {
        Expr::Ident(f) => field_of(env, lhs_ty, f),
        Expr::Array { ident: f, exprs } => if all_int(tys_of(env, exprs@)) {
            match field_of(env, lhs_ty, f) {
                Some(t) => t.index(exprs@.len()),
                None => None,
            }
        } else {
            None
        },
        Expr::FieldAccess { lhs: l2, rhs: r2 } => match l2.val {
            Expr::Ident(f2) => match field_of(env, lhs_ty, f2) {
                Some(t2) => field_ty(env, t2, *r2),
                None => None,
            },
            _ => None,
        },
        _ => None,
    }
}

/// The type of an expression, or `None` where it has none.
///
/// | expression | type |
/// |---|---|
/// | literal | the literal's own type |
/// | name | the type of the variable of the owning function, else of the global |
/// | `&e` | a pointer to the type of `e` |
/// | `*..*e` | the type of `e` less as many pointer or dereference layers |
/// | `a[i]..[j]` | the type of `a` less one array layer for each index; each index is an `Int` |
/// | `!e`, `~e` | see [`unary_ty`] |
/// | `l op r` | see [`binary_ty`] |
/// | `(e)` | the type of `e` |
/// | call | see [`call_ty`] |
/// | trait call | see [`trait_call_ty`] |
/// | `l.r` | see [`field_ty`] |
/// | struct initializer | see [`struct_init_ty`] |
/// | enum initializer | see [`enum_init_ty`] |
/// | array initializer | see [`array_init_ty`] |
pub open spec fn ty_of(env: Env, e: Expression) -> Option<SpecTy>
    decreases e,
{
    match e.val {
        Expr::Value(v) => Some(v.val.spec_type_of()),
        Expr::Ident(x) => env.type_of_ident(x, e.span),
        Expr::AddrOf(x) => match ty_of(env, *x) {
            Some(t) => Some(SpecTy::Ptr(Box::new(t))),
            None => None,
        },
        Expr::Deref { indir, expr } => match ty_of(env, *expr) {
            Some(t) => t.strip(indir as nat),
            None => None,
        },
        Expr::Array { ident, exprs } => if all_int(tys_of(env, exprs@)) {
            match env.type_of_ident(ident, e.span) {
                Some(t) => t.index(exprs@.len()),
                None => None,
            }
        } else {
            None
        },
        Expr::Urnary { op, expr } => unary_ty(op, ty_of(env, *expr)),
        Expr::Binary { op, lhs, rhs } => binary_ty(op, ty_of(env, *lhs), ty_of(env, *rhs)),
        Expr::Parens(x) => ty_of(env, *x),
        Expr::Call { path, args, type_args } => call_ty(
            env,
            path@,
            tys_of(env, args@),
            view_tys(type_args@),
        ),
        Expr::TraitMeth { trait_, args, type_args } => trait_call_ty(
            env,
            trait_@,
            tys_of(env, args@),
            view_tys(type_args@),
        ),
        Expr::FieldAccess { lhs, rhs } => match ty_of(env, *lhs) {
            Some(t) => field_ty(env, t, *rhs),
            None => None,
        },
        Expr::StructInit { path, fields } => struct_init_ty(
            env,
            path@,
            init_names(fields@),
            init_tys_of(env, fields@),
        ),
        Expr::EnumInit { path, variant, items } => enum_init_ty(
            env,
            path@,
            variant,
            tys_of(env, items@),
        ),
        Expr::ArrayInit { items } => array_init_ty(tys_of(env, items@)),
    }
}

/// The table that holds `t` at `id`, or nothing where there is no type.
pub open spec fn own_entry(id: usize, t: Option<SpecTy>) -> Map<usize, SpecTy> {
    match t {
        Some(t) => Map::empty().insert(id, t),
        None => Map::empty(),
    }
}

/// What inference writes for the first `n` expressions of a list.
pub open spec fn entries_seq(env: Env, es: Seq<Expression>, n: nat) -> Map<usize, SpecTy>
    decreases es, n,
{
    if n == 0 || n > es.len() {
        Map::empty()
    } else {
        entries_seq(env, es, (n - 1) as nat).union_prefer_right(entries(env, es[n - 1]))
    }
}

/// What inference writes for the first `n` initial values of a struct
/// initializer.
pub open spec fn init_entries_seq(env: Env, fs: Seq<FieldInit>, n: nat) -> Map<usize, SpecTy>
    decreases fs, n,
{
    if n == 0 || n > fs.len() {
        Map::empty()
    } else {
        init_entries_seq(env, fs, (n - 1) as nat).union_prefer_right(entries(env, fs[n - 1].init))
    }
}

/// What inference writes for the right side of a field access whose left
/// side has the type `lhs_ty`: the type of each index, of each field on the
/// way, and of the right side itself.
pub open spec fn field_entries(env: Env, lhs_ty: SpecTy, rhs: Expression) -> Map<usize, SpecTy>
    decreases rhs, 0nat,
{
    let kids = match rhs.val {
        Expr::Array { exprs, .. } => entries_seq(env, exprs@, exprs@.len()),
        Expr::FieldAccess { lhs: l2, rhs: r2 } => match l2.val {
            Expr::Ident(f2) => match field_of(env, lhs_ty, f2) {
                Some(t2) => Map::empty().insert(l2.id, t2).union_prefer_right(
                    field_entries(env, t2, *r2),
                ),
                None => Map::empty(),
            },
            _ => Map::empty(),
        },
        _ => Map::empty(),
    };
    kids.union_prefer_right(own_entry(rhs.id, field_ty(env, lhs_ty, rhs)))
}

/// What inference writes for the expressions in `e`, without `e` itself.
pub open spec fn kids_entries(env: Env, e: Expression) -> Map<usize, SpecTy>
    decreases e, 0nat,
{
    match e.val {
        Expr::Value(_) => Map::empty(),
        Expr::Ident(_) => Map::empty(),
        Expr::AddrOf(x) => entries(env, *x),
        Expr::Deref { expr, .. } => entries(env, *expr),
        Expr::Array { exprs, .. } => entries_seq(env, exprs@, exprs@.len()),
        Expr::Urnary { expr, .. } => entries(env, *expr),
        Expr::Binary { lhs, rhs, .. } => entries(env, *lhs).union_prefer_right(entries(env, *rhs)),
        Expr::Parens(x) => entries(env, *x),
        Expr::Call { args, .. } => entries_seq(env, args@, args@.len()),
        Expr::TraitMeth { args, .. } => entries_seq(env, args@, args@.len()),
        Expr::FieldAccess { lhs, rhs } => entries(env, *lhs).union_prefer_right(
            match ty_of(env, *lhs) {
                Some(t) => field_entries(env, t, *rhs),
                None => Map::empty(),
            },
        ),
        Expr::StructInit { fields, .. } => init_entries_seq(env, fields@, fields@.len()),
        Expr::EnumInit { items, .. } => entries_seq(env, items@, items@.len()),
        Expr::ArrayInit { items } => entries_seq(env, items@, items@.len()),
    }
}

/// What inference writes for an expression: the type of each expression in
/// it that has one, by the expression's id. Where two expressions share an
/// id the one that is walked later stands.
pub open spec fn entries(env: Env, e: Expression) -> Map<usize, SpecTy>
    decreases e, 1nat,
{
    kids_entries(env, e).union_prefer_right(own_entry(e.id, ty_of(env, e)))
}

/// The models of the type arguments that a table holds for calls.
pub open spec fn view_found(m: Map<usize, Vec<Ty>>) -> Map<usize, Seq<SpecTy>> {
    m.map_values(|v: Vec<Ty>| view_tys(v@))
}

/// The table of the type arguments of calls after the rule of `e` itself
/// is applied: a call that has a type is mapped to its type arguments,
/// those written or those that its arguments give.
pub open spec fn own_found(env: Env, m: Map<usize, Seq<SpecTy>>, e: Expression) -> Map<usize, Seq<SpecTy>> {
    match e.val {
        Expr::Call { path, args, type_args } => if call_ty(
            env,
            path@,
            tys_of(env, args@),
            view_tys(type_args@),
        ) is Some {
            m.insert(
                e.id,
                call_targs(
                    *env.funcs[path@.last().id],
                    unwrap_tys(tys_of(env, args@)),
                    view_tys(type_args@),
                )->0,
            )
        } else {
            m
        },
        _ => m,
    }
}

/// The table of the type arguments of calls after inference has walked
/// the first `n` expressions of a list.
pub open spec fn found_seq(env: Env, m: Map<usize, Seq<SpecTy>>, es: Seq<Expression>, n: nat) -> Map<
    usize,
    Seq<SpecTy>,
>
    decreases es, n,
{
    if n == 0 || n > es.len() {
        m
    } else {
        found(env, found_seq(env, m, es, (n - 1) as nat), es[n - 1])
    }
}

/// The table of the type arguments of calls after inference has walked
/// the first `n` initial values of a struct initializer.
pub open spec fn found_inits(env: Env, m: Map<usize, Seq<SpecTy>>, fs: Seq<FieldInit>, n: nat) -> Map<
    usize,
    Seq<SpecTy>,
>
    decreases fs, n,
{
    if n == 0 || n > fs.len() {
        m
    } else {
        found(env, found_inits(env, m, fs, (n - 1) as nat), fs[n - 1].init)
    }
}

/// The table of the type arguments of calls after inference has walked
/// the right side `rhs` of a field access on a value of type `lhs_ty`.
pub open spec fn found_field(env: Env, m: Map<usize, Seq<SpecTy>>, lhs_ty: SpecTy, rhs: Expression) -> Map<
    usize,
    Seq<SpecTy>,
>
    decreases rhs, 0nat,
{
    match rhs.val {
        Expr::Array { exprs, .. } => found_seq(env, m, exprs@, exprs@.len()),
        Expr::FieldAccess { lhs: l2, rhs: r2 } => match l2.val {
            Expr::Ident(f2) => match field_of(env, lhs_ty, f2) {
                Some(t2) => found_field(env, m, t2, *r2),
                None => m,
            },
            _ => m,
        },
        _ => m,
    }
}

/// The table of the type arguments of calls after inference has walked
/// the expressions in `e`.
pub open spec fn kids_found(env: Env, m: Map<usize, Seq<SpecTy>>, e: Expression) -> Map<usize, Seq<SpecTy>>
    decreases e, 0nat,
{
    match e.val {
        Expr::Value(_) => m,
        Expr::Ident(_) => m,
        Expr::AddrOf(x) => found(env, m, *x),
        Expr::Deref { expr, .. } => found(env, m, *expr),
        Expr::Array { exprs, .. } => found_seq(env, m, exprs@, exprs@.len()),
        Expr::Urnary { expr, .. } => found(env, m, *expr),
        Expr::Binary { lhs, rhs, .. } => found(env, found(env, m, *lhs), *rhs),
        Expr::Parens(x) => found(env, m, *x),
        Expr::Call { args, .. } => found_seq(env, m, args@, args@.len()),
        Expr::TraitMeth { args, .. } => found_seq(env, m, args@, args@.len()),
        Expr::FieldAccess { lhs, rhs } => match ty_of(env, *lhs) {
            Some(t) => found_field(env, found(env, m, *lhs), t, *rhs),
            None => found(env, m, *lhs),
        },
        Expr::StructInit { fields, .. } => found_inits(env, m, fields@, fields@.len()),
        Expr::EnumInit { items, .. } => found_seq(env, m, items@, items@.len()),
        Expr::ArrayInit { items } => found_seq(env, m, items@, items@.len()),
    }
}

/// The table of the type arguments of calls after inference has walked
/// the expression `e`: each call in it that has a type is mapped to its
/// type arguments.
pub open spec fn found(env: Env, m: Map<usize, Seq<SpecTy>>, e: Expression) -> Map<usize, Seq<SpecTy>>
    decreases e, 1nat,
{
    own_found(env, kids_found(env, m, e), e)
}

/// Joining tables is associative.
pub proof fn lemma_union_assoc(a: Map<usize, SpecTy>, b: Map<usize, SpecTy>, c: Map<usize, SpecTy>)
    ensures
        a.union_prefer_right(b).union_prefer_right(c) == a.union_prefer_right(
            b.union_prefer_right(c),
        ),
{
    assert(a.union_prefer_right(b).union_prefer_right(c) =~= a.union_prefer_right(
        b.union_prefer_right(c),
    ));
}

/// What inference leaves as it is: the declarations, the function that is
/// walked, the generic resolver and the counter of uses; and the
/// diagnostics found before are still there.
pub open spec fn infer_frame(new: TyCheckRes, old: TyCheckRes) -> bool {
    &&& new.env() == old.env()
    &&& new.curr_fn == old.curr_fn
    &&& new.generic_res == old.generic_res
    &&& new.uniq_generic_instance_id == old.uniq_generic_instance_id
    &&& new.trait_solve.unsolved == old.trait_solve.unsolved
    &&& new.var_func.unsed_vars == old.var_func.unsed_vars
    &&& new.var_func.func_return == old.var_func.func_return
    &&& new.consts == old.consts
    &&& new.errors.extends(old.errors)
    &&& old.wf() ==> new.wf()
}

/// The fault of a field access that has no type: the left side is no
/// struct, or the struct has no such field.
fn field_fault<'ast>(tcxt: &TyCheckRes<'ast>, lhs_ty: &Ty) -> (r: ErrorKind)
    ensures
        r == field_fault_kind(tcxt.env(), lhs_ty@),
{
    match crate::typeck::check::exec_struct_of(tcxt, lhs_ty) {
        Some(_) => ErrorKind::UnknownField,
        None => ErrorKind::InvalidFieldAccess,
    }
}

impl TypeInfer {
    /// Writes the outcome of a typing rule for the expression `id`: the type
    /// into the table of inference, or the fault into the diagnostics. After
    /// a fault the context is poisoned.
    fn record<'ast>(
        tcxt: &mut TyCheckRes<'ast>,
        id: usize,
        span: Range,
        ident: Option<Ident>,
        res: Result<Ty, Option<ErrorKind>>,
    ) -> (r: Option<Ty>)
        ensures
            infer_frame(*final(tcxt), *old(tcxt)),
            final(tcxt).call_ty_args == old(tcxt).call_ty_args,
            match res {
                Ok(t) => {
                    &&& view_opt(r) == Some(t@)
                    &&& final(tcxt).types() == old(tcxt).types().union_prefer_right(
                        own_entry(id, Some(t@)),
                    )
                    &&& final(tcxt).errors.poisoned == old(tcxt).errors.poisoned
                },
                Err(_) => {
                    &&& r is None
                    &&& final(tcxt).types() == old(tcxt).types()
                    &&& final(tcxt).errors.poisoned
                },
            },
            final(tcxt).errors.errors@ == old(tcxt).errors.errors@ + fault_seq(
                span,
                res is Ok,
                match res {
                    Ok(_) => None,
                    Err(k) => k,
                },
                ident,
            ),
    {
        match res {
            Ok(t) => {
                tcxt.expr_ty.insert(id, t.clone());
                assert(tcxt.types() =~= old(tcxt).types().union_prefer_right(
                    own_entry(id, Some(t@)),
                ));
                assert(tcxt.errors.errors@.subrange(0, tcxt.errors.errors@.len() as int)
                    =~= tcxt.errors.errors@);
                proof {
                    lemma_add_empty(old(tcxt).errors.errors@);
                }
                Some(t)
            },
            Err(Some(kind)) => {
                let err = match ident {
                    Some(x) => Error::error_with_ident(span, kind, x),
                    None => Error::error_with_span(span, kind),
                };
                tcxt.errors.fatal(err);
                assert(tcxt.errors.errors@ =~= old(tcxt).errors.errors@ + seq![
                    named_fault(span, kind, ident),
                ]);
                None
            },
            Err(None) => {
                tcxt.errors.poisoned(true);
                assert(tcxt.errors.errors@.subrange(0, tcxt.errors.errors@.len() as int)
                    =~= tcxt.errors.errors@);
                proof {
                    lemma_add_empty(old(tcxt).errors.errors@);
                }
                None
            },
        }
    }

    /// Infers the type of each expression of a list, in order.
    pub fn visit_exprs<'ast>(tcxt: &mut TyCheckRes<'ast>, es: &Vec<Expression>) -> (r: Vec<
        Option<Ty>,
    >)
        ensures
            infer_frame(*final(tcxt), *old(tcxt)),
            view_opts(r@) == tys_of(old(tcxt).env(), es@),
            final(tcxt).types() == old(tcxt).types().union_prefer_right(
                entries_seq(old(tcxt).env(), es@, es@.len()),
            ),
            final(tcxt).errors.poisoned == (old(tcxt).errors.poisoned || !all_typed(
                tys_of(old(tcxt).env(), es@),
            )),
            final(tcxt).errors.errors@ == old(tcxt).errors.errors@ + faults_seq(
                old(tcxt).env(),
                es@,
                es@.len(),
            ),
            view_found(final(tcxt).call_ty_args@) == found_seq(
                old(tcxt).env(),
                view_found(old(tcxt).call_ty_args@),
                es@,
                es@.len(),
            ),
        decreases es,
    {
        let ghost env = tcxt.env();
        let mut out: Vec<Option<Ty>> = Vec::new();
        let mut i: usize = 0;
        assert(tcxt.types() =~= old(tcxt).types().union_prefer_right(entries_seq(env, es@, 0)));
        proof {
            crate::error::lemma_extends_refl(tcxt.errors);
            lemma_add_empty(tcxt.errors.errors@);
        }
        while i < es.len()
            invariant
                i <= es.len(),
                env == old(tcxt).env(),
                infer_frame(*tcxt, *old(tcxt)),
                out@.len() == i,
                forall|j: int| 0 <= j < i ==> view_opt(#[trigger] out@[j]) == ty_of(env, es@[j]),
                tcxt.types() == old(tcxt).types().union_prefer_right(
                    entries_seq(env, es@, i as nat),
                ),
                tcxt.errors.poisoned == (old(tcxt).errors.poisoned || exists|j: int|
                    0 <= j < i && (#[trigger] tys_of(env, es@)[j]) is None),
                tcxt.errors.errors@ == old(tcxt).errors.errors@ + faults_seq(env, es@, i as nat),
                view_found(tcxt.call_ty_args@) == found_seq(
                    env,
                    view_found(old(tcxt).call_ty_args@),
                    es@,
                    i as nat,
                ),
            decreases es.len() - i,
        {
            let ghost before = *tcxt;
            let t = Self::visit_expr(tcxt, &es[i]);
            proof {
                lemma_add_assoc(
                    old(tcxt).errors.errors@,
                    faults_seq(env, es@, i as nat),
                    faults(env, es@[i as int]),
                );
                lemma_union_assoc(
                    old(tcxt).types(),
                    entries_seq(env, es@, i as nat),
                    entries(env, es@[i as int]),
                );
                crate::error::lemma_extends_trans(old(tcxt).errors, before.errors, tcxt.errors);
                assert(tys_of(env, es@)[i as int] == ty_of(env, es@[i as int]));
            }
            out.push(t);
            i += 1;
        }
        assert(view_opts(out@) =~= tys_of(env, es@));
        out
    }

    /// Infers the type of each initial value of a struct initializer, in
    /// order.
    pub fn visit_inits<'ast>(tcxt: &mut TyCheckRes<'ast>, fs: &Vec<FieldInit>) -> (r: Vec<
        Option<Ty>,
    >)
        ensures
            infer_frame(*final(tcxt), *old(tcxt)),
            view_opts(r@) == init_tys_of(old(tcxt).env(), fs@),
            final(tcxt).types() == old(tcxt).types().union_prefer_right(
                init_entries_seq(old(tcxt).env(), fs@, fs@.len()),
            ),
            final(tcxt).errors.poisoned == (old(tcxt).errors.poisoned || !all_typed(
                init_tys_of(old(tcxt).env(), fs@),
            )),
            final(tcxt).errors.errors@ == old(tcxt).errors.errors@ + init_faults_seq(
                old(tcxt).env(),
                fs@,
                fs@.len(),
            ),
            view_found(final(tcxt).call_ty_args@) == found_inits(
                old(tcxt).env(),
                view_found(old(tcxt).call_ty_args@),
                fs@,
                fs@.len(),
            ),
        decreases fs,
    {
        let ghost env = tcxt.env();
        let mut out: Vec<Option<Ty>> = Vec::new();
        let mut i: usize = 0;
        assert(tcxt.types() =~= old(tcxt).types().union_prefer_right(
            init_entries_seq(env, fs@, 0),
        ));
        proof {
            crate::error::lemma_extends_refl(tcxt.errors);
            lemma_add_empty(tcxt.errors.errors@);
        }
        while i < fs.len()
            invariant
                i <= fs.len(),
                env == old(tcxt).env(),
                infer_frame(*tcxt, *old(tcxt)),
                out@.len() == i,
                forall|j: int|
                    0 <= j < i ==> view_opt(#[trigger] out@[j]) == ty_of(env, fs@[j].init),
                tcxt.types() == old(tcxt).types().union_prefer_right(
                    init_entries_seq(env, fs@, i as nat),
                ),
                tcxt.errors.poisoned == (old(tcxt).errors.poisoned || exists|j: int|
                    0 <= j < i && (#[trigger] init_tys_of(env, fs@)[j]) is None),
                tcxt.errors.errors@ == old(tcxt).errors.errors@ + init_faults_seq(
                    env,
                    fs@,
                    i as nat,
                ),
                view_found(tcxt.call_ty_args@) == found_inits(
                    env,
                    view_found(old(tcxt).call_ty_args@),
                    fs@,
                    i as nat,
                ),
            decreases fs.len() - i,
        {
            let ghost before = *tcxt;
            let t = Self::visit_expr(tcxt, &fs[i].init);
            proof {
                lemma_add_assoc(
                    old(tcxt).errors.errors@,
                    init_faults_seq(env, fs@, i as nat),
                    faults(env, fs@[i as int].init),
                );
                lemma_union_assoc(
                    old(tcxt).types(),
                    init_entries_seq(env, fs@, i as nat),
                    entries(env, fs@[i as int].init),
                );
                crate::error::lemma_extends_trans(old(tcxt).errors, before.errors, tcxt.errors);
                assert(init_tys_of(env, fs@)[i as int] == ty_of(env, fs@[i as int].init));
            }
            out.push(t);
            i += 1;
        }
        assert(view_opts(out@) =~= init_tys_of(env, fs@));
        out
    }

    /// Infers the type of the right side of a field access whose left side
    /// has the type `lhs_ty`, and writes the types found on the way.
    pub fn infer_rhs_field<'ast>(tcxt: &mut TyCheckRes<'ast>, lhs_ty: &Ty, rhs: &Expression) -> (r:
        Option<Ty>)
        ensures
            infer_frame(*final(tcxt), *old(tcxt)),
            view_opt(r) == field_ty(old(tcxt).env(), lhs_ty@, *rhs),
            final(tcxt).types() == old(tcxt).types().union_prefer_right(
                field_entries(old(tcxt).env(), lhs_ty@, *rhs),
            ),
            final(tcxt).errors.poisoned == (old(tcxt).errors.poisoned || field_ty(
                old(tcxt).env(),
                lhs_ty@,
                *rhs,
            ) is None),
            final(tcxt).errors.errors@ == old(tcxt).errors.errors@ + field_faults(
                old(tcxt).env(),
                lhs_ty@,
                *rhs,
            ),
            view_found(final(tcxt).call_ty_args@) == found_field(
                old(tcxt).env(),
                view_found(old(tcxt).call_ty_args@),
                lhs_ty@,
                *rhs,
            ),
        decreases rhs,
    {
        let ghost env = tcxt.env();
        let ghost kids: Map<usize, SpecTy>;
        let ghost kf: Seq<Error>;
        let res: Result<Ty, Option<ErrorKind>> = match &rhs.val {
            Expr::Ident(f) => {
                proof {
                    kids = Map::empty();
                    kf = Seq::empty();
                    lemma_add_empty(tcxt.errors.errors@);
                    assert(tcxt.types() =~= old(tcxt).types().union_prefer_right(kids));
                    crate::error::lemma_extends_refl(tcxt.errors);
                }
                match exec_field_of(tcxt, lhs_ty, *f) {
                    Some(t) => Ok(t),
                    None => Err(Some(field_fault(tcxt, lhs_ty))),
                }
            },
            Expr::Array { ident: f, exprs } => {
                proof {
                    kids = entries_seq(env, exprs@, exprs@.len());
                    kf = faults_seq(env, exprs@, exprs@.len());
                }
                let tys = Self::visit_exprs(tcxt, exprs);
                if unwrap_all(&tys).is_none() {
                    assert(!all_int(tys_of(env, exprs@))) by {
                        let j = choose|j: int|
                            0 <= j < tys_of(env, exprs@).len() && !((
                            #[trigger] tys_of(env, exprs@)[j]) is Some);
                        assert(tys_of(env, exprs@)[j] != Some(SpecTy::Int));
                    }
                    Err(None)
                } else if all_are_int(&tys) {
                    match exec_field_of(tcxt, lhs_ty, *f) {
                        Some(t) => match t.index_dim(exprs.len()) {
                            Some(t) => Ok(t),
                            None => Err(Some(ErrorKind::IndexNonArray)),
                        },
                        None => Err(Some(field_fault(tcxt, lhs_ty))),
                    }
                } else {
                    Err(Some(ErrorKind::IndexNonInt))
                }
            },
            Expr::FieldAccess { lhs: l2, rhs: r2 } => {
                match &l2.val {
                    Expr::Ident(f2) => {
                        match exec_field_of(tcxt, lhs_ty, *f2) {
                            Some(t2) => {
                                proof {
                                    kids = Map::empty().insert(l2.id, t2@).union_prefer_right(
                                        field_entries(env, t2@, **r2),
                                    );
                                    kf = field_faults(env, t2@, **r2);
                                }
                                tcxt.expr_ty.insert(l2.id, t2.clone());
                                let ghost first = *tcxt;
                                assert(first.types() =~= old(tcxt).types().union_prefer_right(
                                    Map::empty().insert(l2.id, t2@),
                                ));
                                let inner = Self::infer_rhs_field(tcxt, &t2, r2);
                                proof {
                                    lemma_union_assoc(
                                        old(tcxt).types(),
                                        Map::empty().insert(l2.id, t2@),
                                        field_entries(env, t2@, **r2),
                                    );
                                    assert(first.errors.extends(old(tcxt).errors)) by {
                                        assert(first.errors.errors@.subrange(
                                            0,
                                            first.errors.errors@.len() as int,
                                        ) =~= first.errors.errors@);
                                    }
                                    crate::error::lemma_extends_trans(
                                        old(tcxt).errors,
                                        first.errors,
                                        tcxt.errors,
                                    );
                                }
                                match inner {
                                    Some(t) => Ok(t),
                                    None => Err(None),
                                }
                            },
                            None => {
                                proof {
                                    kids = Map::empty();
                                    kf = Seq::empty();
                                    lemma_add_empty(tcxt.errors.errors@);
                                    assert(tcxt.types() =~= old(tcxt).types().union_prefer_right(
                                        kids,
                                    ));
                                    crate::error::lemma_extends_refl(tcxt.errors);
                                }
                                Err(Some(ErrorKind::UnknownField))
                            },
                        }
                    },
                    _ => {
                        proof {
                            kids = Map::empty();
                            kf = Seq::empty();
                            lemma_add_empty(tcxt.errors.errors@);
                            assert(tcxt.types() =~= old(tcxt).types().union_prefer_right(kids));
                            crate::error::lemma_extends_refl(tcxt.errors);
                        }
                        Err(Some(ErrorKind::InvalidFieldAccess))
                    },
                }
            },
            _ => {
                proof {
                    kids = Map::empty();
                    kf = Seq::empty();
                    lemma_add_empty(tcxt.errors.errors@);
                    assert(tcxt.types() =~= old(tcxt).types().union_prefer_right(kids));
                    crate::error::lemma_extends_refl(tcxt.errors);
                }
                Err(Some(ErrorKind::InvalidFieldAccess))
            },
        };
        let ghost mid = *tcxt;
        assert(mid.types() == old(tcxt).types().union_prefer_right(kids));
        assert(mid.errors.errors@ == old(tcxt).errors.errors@ + kf);
        assert(match res {
            Ok(_) => true,
            Err(k) => k == field_kind(env, lhs_ty@, *rhs),
        });
        let r = Self::record(tcxt, rhs.id, rhs.span, subject_of(rhs), res);
        proof {
            lemma_add_assoc(
                old(tcxt).errors.errors@,
                kf,
                fault_seq(
                    rhs.span,
                    field_ty(env, lhs_ty@, *rhs) is Some,
                    field_kind(env, lhs_ty@, *rhs),
                    subject(*rhs),
                ),
            );
            lemma_union_assoc(
                old(tcxt).types(),
                kids,
                own_entry(rhs.id, field_ty(env, lhs_ty@, *rhs)),
            );
            crate::error::lemma_extends_trans(old(tcxt).errors, mid.errors, tcxt.errors);
        }
        r
    }

    /// Infers the type of an expression and of each expression in it, and
    /// writes them into the table of inference.
    ///
    /// The result is the expression's type. Where the expression has none a
    /// diagnostic is reported and the context is poisoned.
    pub fn visit_expr<'ast>(tcxt: &mut TyCheckRes<'ast>, e: &Expression) -> (r: Option<Ty>)
        ensures
            infer_frame(*final(tcxt), *old(tcxt)),
            view_opt(r) == ty_of(old(tcxt).env(), *e),
            final(tcxt).types() == old(tcxt).types().union_prefer_right(
                entries(old(tcxt).env(), *e),
            ),
            final(tcxt).errors.poisoned == (old(tcxt).errors.poisoned || ty_of(
                old(tcxt).env(),
                *e,
            ) is None),
            !final(tcxt).errors.poisoned ==> covered(final(tcxt).types(), *e),
            old(tcxt).wf() && map_path_free(old(tcxt).types()) ==> map_path_free(
                final(tcxt).types(),
            ),
            final(tcxt).errors.errors@ == old(tcxt).errors.errors@ + faults(old(tcxt).env(), *e),
            view_found(final(tcxt).call_ty_args@) == found(
                old(tcxt).env(),
                view_found(old(tcxt).call_ty_args@),
                *e,
            ),
        decreases e, 2nat,
    {
        let ghost env = tcxt.env();
        let res = Self::infer_kids(tcxt, e);
        let ghost mid = *tcxt;
        let r = Self::record(tcxt, e.id, e.span, subject_of(e), res);
        proof {
            lemma_add_assoc(
                old(tcxt).errors.errors@,
                kids_faults(env, *e),
                fault_seq(e.span, ty_of(env, *e) is Some, own_kind(env, *e), subject(*e)),
            );
            lemma_union_assoc(
                old(tcxt).types(),
                kids_entries(env, *e),
                own_entry(e.id, ty_of(env, *e)),
            );
            crate::error::lemma_extends_trans(old(tcxt).errors, mid.errors, tcxt.errors);
            if !tcxt.errors.poisoned {
                lemma_entries_cover(env, *e);
                lemma_covered_mono(entries(env, *e), tcxt.types(), *e);
            }
            if old(tcxt).wf() && map_path_free(old(tcxt).types()) {
                lemma_entries_path_free(env, *e);
                lemma_union_path_free(old(tcxt).types(), entries(env, *e));
            }
        }
        r
    }

    /// Walks the expressions in `e` and applies the typing rule of `e`.
    fn infer_kids<'ast>(tcxt: &mut TyCheckRes<'ast>, e: &Expression) -> (res: Result<
        Ty,
        Option<ErrorKind>,
    >)
        ensures
            kids_done(*final(tcxt), *old(tcxt), *e, res),
        decreases e, 1nat,
    {
        match &e.val {
            Expr::Value(_) => Self::infer_leaf(tcxt, e),
            Expr::Ident(_) => Self::infer_leaf(tcxt, e),
            Expr::AddrOf(_) => Self::infer_wrapped(tcxt, e),
            Expr::Deref { .. } => Self::infer_wrapped(tcxt, e),
            Expr::Parens(_) => Self::infer_wrapped(tcxt, e),
            Expr::Urnary { .. } => Self::infer_wrapped(tcxt, e),
            Expr::Binary { .. } => Self::infer_binary(tcxt, e),
            Expr::Array { .. } => Self::infer_index(tcxt, e),
            Expr::Call { .. } => Self::infer_call(tcxt, e),
            Expr::TraitMeth { .. } => Self::infer_call(tcxt, e),
            Expr::FieldAccess { .. } => Self::infer_field_access(tcxt, e),
            Expr::StructInit { .. } => Self::infer_init(tcxt, e),
            Expr::EnumInit { .. } => Self::infer_init(tcxt, e),
            Expr::ArrayInit { .. } => Self::infer_init(tcxt, e),
        }
    }

    fn infer_leaf<'ast>(tcxt: &mut TyCheckRes<'ast>, e: &Expression) -> (res: Result<
        Ty,
        Option<ErrorKind>,
    >)
        requires
            e.val is Value || e.val is Ident,
        ensures
            kids_done(*final(tcxt), *old(tcxt), *e, res),
    {
        proof {
            crate::error::lemma_extends_refl(tcxt.errors);
            lemma_add_empty(tcxt.errors.errors@);
            assert(tcxt.types() =~= old(tcxt).types().union_prefer_right(Map::empty()));
        }
        match &e.val {
            Expr::Value(v) => Ok(v.val.to_type()),
            Expr::Ident(x) => match tcxt.type_of_ident(*x, e.span) {
                Some(t) => Ok(t),
                None => Err(Some(ErrorKind::UndeclaredVariable)),
            },
            _ => Err(None),
        }
    }

    fn infer_wrapped<'ast>(tcxt: &mut TyCheckRes<'ast>, e: &Expression) -> (res: Result<
        Ty,
        Option<ErrorKind>,
    >)
        requires
            e.val is AddrOf || e.val is Deref || e.val is Parens || e.val is Urnary,
        ensures
            kids_done(*final(tcxt), *old(tcxt), *e, res),
        decreases e, 0nat,
    {
        match &e.val {
            Expr::AddrOf(x) => match Self::visit_expr(tcxt, x) {
                Some(t) => Ok(Ty::Ptr(Box::new(t))),
                None => Err(None),
            },
            Expr::Deref { indir, expr } => match Self::visit_expr(tcxt, expr) {
                Some(t) => match t.dereference(*indir) {
                    Some(t) => Ok(t),
                    None => Err(Some(ErrorKind::DerefNonPointer)),
                },
                None => Err(None),
            },
            Expr::Parens(x) => match Self::visit_expr(tcxt, x) {
                Some(t) => Ok(t),
                None => Err(None),
            },
            Expr::Urnary { op, expr } => match Self::visit_expr(tcxt, expr) {
                Some(t) => match exec_unary_ty(*op, Some(&t)) {
                    Some(t) => Ok(t),
                    None => Err(Some(ErrorKind::InvalidOperands)),
                },
                None => Err(None),
            },
            _ => {
                proof {
                    crate::error::lemma_extends_refl(tcxt.errors);
                    lemma_add_empty(tcxt.errors.errors@);
                }
                Err(None)
            },
        }
    }

    fn infer_binary<'ast>(tcxt: &mut TyCheckRes<'ast>, e: &Expression) -> (res: Result<
        Ty,
        Option<ErrorKind>,
    >)
        requires
            e.val is Binary,
        ensures
            kids_done(*final(tcxt), *old(tcxt), *e, res),
        decreases e, 0nat,
    {
        let ghost env = tcxt.env();
        match &e.val {
            Expr::Binary { op, lhs, rhs } => {
                let l = Self::visit_expr(tcxt, lhs);
                let ghost first = *tcxt;
                let r = Self::visit_expr(tcxt, rhs);
                proof {
                    lemma_union_assoc(old(tcxt).types(), entries(env, **lhs), entries(env, **rhs));
                    lemma_add_assoc(
                        old(tcxt).errors.errors@,
                        faults(env, **lhs),
                        faults(env, **rhs),
                    );
                    crate::error::lemma_extends_trans(old(tcxt).errors, first.errors, tcxt.errors);
                }
                match (&l, &r) {
                    (Some(lt), Some(rt)) => match exec_binary_ty(*op, Some(lt), Some(rt)) {
                        Some(t) => Ok(t),
                        None => Err(Some(ErrorKind::InvalidOperands)),
                    },
                    _ => Err(None),
                }
            },
            _ => {
                proof {
                    crate::error::lemma_extends_refl(tcxt.errors);
                    lemma_add_empty(tcxt.errors.errors@);
                }
                Err(None)
            },
        }
    }

    fn infer_index<'ast>(tcxt: &mut TyCheckRes<'ast>, e: &Expression) -> (res: Result<
        Ty,
        Option<ErrorKind>,
    >)
        requires
            e.val is Array,
        ensures
            kids_done(*final(tcxt), *old(tcxt), *e, res),
        decreases e, 0nat,
    {
        match &e.val {
            Expr::Array { ident, exprs } => {
                let tys = Self::visit_exprs(tcxt, exprs);
                if unwrap_all(&tys).is_none() {
                    assert(!all_int(tys_of(old(tcxt).env(), exprs@))) by {
                        let tt = tys_of(old(tcxt).env(), exprs@);
                        let j = choose|j: int| 0 <= j < tt.len() && !((#[trigger] tt[j]) is Some);
                        assert(tt[j] != Some(SpecTy::Int));
                    }
                    Err(None)
                } else if all_are_int(&tys) {
                    match tcxt.type_of_ident(*ident, e.span) {
                        Some(t) => match t.index_dim(exprs.len()) {
                            Some(t) => Ok(t),
                            None => Err(Some(ErrorKind::IndexNonArray)),
                        },
                        None => Err(Some(ErrorKind::UndeclaredVariable)),
                    }
                } else {
                    Err(Some(ErrorKind::IndexNonInt))
                }
            },
            _ => {
                proof {
                    crate::error::lemma_extends_refl(tcxt.errors);
                    lemma_add_empty(tcxt.errors.errors@);
                }
                Err(None)
            },
        }
    }

    fn infer_call<'ast>(tcxt: &mut TyCheckRes<'ast>, e: &Expression) -> (res: Result<
        Ty,
        Option<ErrorKind>,
    >)
        requires
            e.val is Call || e.val is TraitMeth,
        ensures
            kids_done(*final(tcxt), *old(tcxt), *e, res),
        decreases e, 0nat,
    {
        match &e.val {
            Expr::Call { path, args, type_args } => {
                let tys = Self::visit_exprs(tcxt, args);
                match exec_call_ty(tcxt, path, &tys, type_args) {
                    Ok((t, ta)) => {
                        let ghost before = *tcxt;
                        let ghost tv = view_tys(ta@);
                        tcxt.call_ty_args.insert(e.id, ta);
                        assert(view_found(tcxt.call_ty_args@) =~= view_found(
                            before.call_ty_args@,
                        ).insert(e.id, tv));
                        Ok(t)
                    },
                    Err(k) => Err(k),
                }
            },
            Expr::TraitMeth { trait_, args, type_args } => {
                let tys = Self::visit_exprs(tcxt, args);
                exec_trait_call_ty(tcxt, trait_, &tys, type_args)
            },
            _ => {
                proof {
                    crate::error::lemma_extends_refl(tcxt.errors);
                    lemma_add_empty(tcxt.errors.errors@);
                }
                Err(None)
            },
        }
    }

    fn infer_field_access<'ast>(tcxt: &mut TyCheckRes<'ast>, e: &Expression) -> (res: Result<
        Ty,
        Option<ErrorKind>,
    >)
        requires
            e.val is FieldAccess,
        ensures
            kids_done(*final(tcxt), *old(tcxt), *e, res),
        decreases e, 0nat,
    {
        let ghost env = tcxt.env();
        match &e.val {
            Expr::FieldAccess { lhs, rhs } => {
                let l = Self::visit_expr(tcxt, lhs);
                let ghost first = *tcxt;
                match l {
                    Some(t) => {
                        let r = Self::infer_rhs_field(tcxt, &t, rhs);
                        proof {
                            lemma_add_assoc(
                                old(tcxt).errors.errors@,
                                faults(env, **lhs),
                                field_faults(env, t@, **rhs),
                            );
                            lemma_union_assoc(
                                old(tcxt).types(),
                                entries(env, **lhs),
                                field_entries(env, t@, **rhs),
                            );
                            crate::error::lemma_extends_trans(
                                old(tcxt).errors,
                                first.errors,
                                tcxt.errors,
                            );
                        }
                        match r {
                            Some(t) => Ok(t),
                            None => Err(None),
                        }
                    },
                    None => {
                        proof {
                            lemma_add_empty(faults(env, **lhs));
                            assert(entries(env, **lhs).union_prefer_right(Map::empty()) =~= entries(
                                env,
                                **lhs,
                            ));
                        }
                        Err(None)
                    },
                }
            },
            _ => {
                proof {
                    crate::error::lemma_extends_refl(tcxt.errors);
                    lemma_add_empty(tcxt.errors.errors@);
                }
                Err(None)
            },
        }
    }

    fn infer_init<'ast>(tcxt: &mut TyCheckRes<'ast>, e: &Expression) -> (res: Result<
        Ty,
        Option<ErrorKind>,
    >)
        requires
            e.val is StructInit || e.val is EnumInit || e.val is ArrayInit,
        ensures
            kids_done(*final(tcxt), *old(tcxt), *e, res),
        decreases e, 0nat,
    {
        match &e.val {
            Expr::StructInit { path, fields } => {
                let tys = Self::visit_inits(tcxt, fields);
                exec_struct_init_ty(tcxt, path, fields, &tys)
            },
            Expr::EnumInit { path, variant, items } => {
                let tys = Self::visit_exprs(tcxt, items);
                exec_enum_init_ty(tcxt, path, *variant, &tys)
            },
            Expr::ArrayInit { items } => {
                let tys = Self::visit_exprs(tcxt, items);
                match exec_array_init_ty(&tys) {
                    Some(t) => Ok(t),
                    None => if unwrap_all(&tys).is_none() {
                        Err(None)
                    } else {
                        Err(Some(ErrorKind::TypeMismatch))
                    },
                }
            },
            _ => {
                proof {
                    crate::error::lemma_extends_refl(tcxt.errors);
                    lemma_add_empty(tcxt.errors.errors@);
                }
                Err(None)
            },
        }
    }
}

/// What holds when the expressions in `e` are walked and the rule of `e` is
/// applied, before the outcome is written.
pub open spec fn kids_done(new: TyCheckRes, old: TyCheckRes, e: Expression, res: Result<Ty, Option<ErrorKind>>) -> bool {
    &&& infer_frame(new, old)
    &&& new.types() == old.types().union_prefer_right(kids_entries(old.env(), e))
    &&& new.errors.errors@ == old.errors.errors@ + kids_faults(old.env(), e)
    &&& view_found(new.call_ty_args@) == found(old.env(), view_found(old.call_ty_args@), e)
    &&& match res {
        Ok(t) => ty_of(old.env(), e) == Some(t@) && new.errors.poisoned == old.errors.poisoned,
        Err(k) => ty_of(old.env(), e) is None && k == own_kind(old.env(), e),
    }
    &&& new.errors.poisoned ==> old.errors.poisoned || ty_of(old.env(), e) is None
}

} // verus!
