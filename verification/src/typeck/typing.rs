//! The typing rules in executable form: each computes what the rule of the
//! same name in [`crate::typeck::infer`] states.

use crate::ast::types::{
    any_has_path, clone_tys, names_of, position, position_of, view_opt, view_tys, BinOp, Enum,
    FieldInit, Func, Generic, Ident, Path, SpecTy, Struct, Ty, UnOp,
};
use crate::error::ErrorKind;
use crate::typeck::check::fold_ty;
use crate::typeck::infer::{
    all_int, all_typed, array_init_ty, binary_ty, call_targs, call_ty, enum_init_gen, enum_init_ty,
    field_names, field_of, infer_one, infer_targs, init_decls, init_names, peel_out_ty,
    struct_field_ty, struct_init_ty, trait_call_ty, unary_ty, unify_fold, unwrap_tys,
    variant_names, TypeInfer,
};
use crate::typeck::trait_solver::Solved;
use crate::typeck::{param_tys, TyCheckRes};
use crate::typeck::faults::{call_kind, enum_init_kind, struct_init_kind, trait_call_kind};
use vstd::prelude::*;

verus! {

/// The models of a list of optional types.
pub open spec fn view_opts(v: Seq<Option<Ty>>) -> Seq<Option<SpecTy>> {
    Seq::new(v.len(), |i: int| view_opt(v[i]))
}

/// The types of a list, where each item has one.
pub fn unwrap_all(v: &Vec<Option<Ty>>) -> (r: Option<Vec<Ty>>)
    ensures
        r is Some == all_typed(view_opts(v@)),
        r matches Some(u) ==> view_tys(u@) == unwrap_tys(view_opts(v@)),
{
    let mut out: Vec<Ty> = Vec::new();
    let mut i: usize = 0;
    while i < v.len()
        invariant
            i <= v.len(),
            out@.len() == i,
            forall|j: int| 0 <= j < i ==> (#[trigger] view_opts(v@)[j]) == Some(out@[j]@),
        decreases v.len() - i,
    {
        match &v[i] {
            Some(t) => {
                out.push(t.clone());
            },
            None => {
                assert(view_opts(v@)[i as int] is None);
                return None;
            },
        }
        i += 1;
    }
    assert(view_tys(out@) =~= unwrap_tys(view_opts(v@)));
    Some(out)
}

/// `true` when each item of the list is the type `Int`.
pub fn all_are_int(v: &Vec<Option<Ty>>) -> (r: bool)
    ensures
        r == all_int(view_opts(v@)),
{
    let mut i: usize = 0;
    while i < v.len()
        invariant
            i <= v.len(),
            forall|j: int| 0 <= j < i ==> (#[trigger] view_opts(v@)[j]) == Some(SpecTy::Int),
        decreases v.len() - i,
    {
        let is_int = match &v[i] {
            Some(Ty::Int) => true,
            _ => false,
        };
        if !is_int {
            assert(view_opts(v@)[i as int] != Some(SpecTy::Int));
            return false;
        }
        i += 1;
    }
    true
}

/// The type of a unary operation on an operand of type `t`; see [`unary_ty`].
pub fn exec_unary_ty(op: UnOp, t: Option<&Ty>) -> (r: Option<Ty>)
    ensures
        view_opt(r) == unary_ty(
            op,
            match t {
                Some(t) => Some(t@),
                None => None,
            },
        ),
{
    match t {
        Some(t) => match op {
            UnOp::Not => if crate::typeck::check::is_truthy(Some(t)) {
                Some(Ty::Bool)
            } else {
                None
            },
            UnOp::OnesComp => match t {
                Ty::Int => Some(Ty::Int),
                Ty::Ptr(_) => Some(Ty::Int),
                _ => None,
            },
        },
        None => None,
    }
}

/// The type of a binary operation on operands of types `l` and `r`; see [`binary_ty`].
pub fn exec_binary_ty(op: BinOp, l: Option<&Ty>, r: Option<&Ty>) -> (res: Option<Ty>)
    ensures
        view_opt(res) == binary_ty(
            op,
            match l {
                Some(t) => Some(t@),
                None => None,
            },
            match r {
                Some(t) => Some(t@),
                None => None,
            },
        ),
{
    match (l, r) {
        (Some(lt), Some(rt)) => {
            if op.is_cmp() {
                if lt.is_primitive() && lt.is_ty_eq(rt) {
                    Some(Ty::Bool)
                } else {
                    None
                }
            } else if op.is_logical() {
                match (lt, rt) {
                    (Ty::Bool, Ty::Bool) => Some(Ty::Bool),
                    _ => None,
                }
            } else if op.is_arith() {
                fold_ty(l, r, &op)
            } else {
                None
            }
        },
        _ => None,
    }
}

/// The type argument for the type parameter `g`, found from the arguments of a call; see [`infer_one`].
pub fn exec_infer_one(g: Ident, decls: &Vec<Ty>, acts: &Vec<Ty>) -> (r: Option<Ty>)
    ensures
        view_opt(r) == infer_one(g, view_tys(decls@), view_tys(acts@), 0),
{
    let mut i: usize = 0;
    while i < decls.len() && i < acts.len()
        invariant
            infer_one(g, view_tys(decls@), view_tys(acts@), 0) == infer_one(
                g,
                view_tys(decls@),
                view_tys(acts@),
                i as nat,
            ),
        decreases decls.len() - i,
    {
        match peel_out_ty(Some(&acts[i]), &decls[i]) {
            Some((t, id)) => {
                if id == g {
                    return Some(t);
                }
            },
            None => {},
        }
        i += 1;
    }
    None
}

/// The type arguments of a call, found from its arguments; see [`infer_targs`].
pub fn exec_infer_targs(names: &Vec<Ident>, decls: &Vec<Ty>, acts: &Vec<Ty>) -> (r: Option<Vec<Ty>>)
    ensures
        (match r {
            Some(v) => Some(view_tys(v@)),
            None => None,
        }) == infer_targs(names@, view_tys(decls@), view_tys(acts@)),
{
    let mut out: Vec<Ty> = Vec::new();
    let mut k: usize = 0;
    while k < names.len()
        invariant
            k <= names.len(),
            out@.len() == k,
            forall|j: int|
                0 <= j < k ==> infer_one(
                    #[trigger] names@[j],
                    view_tys(decls@),
                    view_tys(acts@),
                    0,
                ) == Some(out@[j]@),
        decreases names.len() - k,
    {
        match exec_infer_one(names[k], decls, acts) {
            Some(t) => {
                out.push(t);
            },
            None => {
                assert(infer_one(names@[k as int], view_tys(decls@), view_tys(acts@), 0) is None);
                return None;
            },
        }
        k += 1;
    }
    assert(view_tys(out@) =~= infer_targs(names@, view_tys(decls@), view_tys(acts@))->0);
    Some(out)
}

/// The types of a function's parameters, in order.
pub fn param_types(f: &Func) -> (r: Vec<Ty>)
    ensures
        view_tys(r@) == param_tys(*f),
{
    let mut out: Vec<Ty> = Vec::new();
    let mut i: usize = 0;
    while i < f.params.len()
        invariant
            i <= f.params.len(),
            out@.len() == i,
            forall|j: int| 0 <= j < i ==> (#[trigger] out@[j])@ == f.params@[j].ty@,
        decreases f.params.len() - i,
    {
        out.push(f.params[i].ty.clone());
        i += 1;
    }
    assert(view_tys(out@) =~= param_tys(*f));
    out
}

/// The type arguments of a call: those written, else those found from its arguments; see [`call_targs`].
pub fn exec_call_targs(f: &Func, acts: &Vec<Ty>, targs: &Vec<Ty>) -> (r: Option<Vec<Ty>>)
    ensures
        (match r {
            Some(v) => Some(view_tys(v@)),
            None => None,
        }) == call_targs(*f, view_tys(acts@), view_tys(targs@)),
{
    if targs.len() > 0 {
        if targs.len() == f.generics.len() && !any_has_path(targs) {
            Some(clone_tys(targs))
        } else {
            None
        }
    } else {
        let names = names_of(&f.generics);
        let decls = param_types(f);
        exec_infer_targs(&names, &decls, acts)
    }
}

/// The type of a call and the call's type arguments, or the fault.
pub fn exec_call_ty<'ast>(
    tcxt: &TyCheckRes<'ast>,
    path: &Path,
    args: &Vec<Option<Ty>>,
    targs: &Vec<Ty>,
) -> (r: Result<(Ty, Vec<Ty>), Option<ErrorKind>>)
    ensures
        match r {
            Ok((t, ta)) => {
                &&& call_ty(tcxt.env(), path@, view_opts(args@), view_tys(targs@)) == Some(t@)
                &&& Some(view_tys(ta@)) == call_targs(
                    *tcxt.env().funcs[path@.last().id],
                    unwrap_tys(view_opts(args@)),
                    view_tys(targs@),
                )
            },
            Err(k) => call_ty(tcxt.env(), path@, view_opts(args@), view_tys(targs@)) is None && k
                == call_kind(tcxt.env(), path@, view_opts(args@)),
        },
{
    let name = match path.local_ident() {
        Some(n) => n,
        None => {
            return Err(Some(ErrorKind::UnknownFunction));
        },
    };
    let f: &Func = match tcxt.var_func.name_func.get(&name.id) {
        Some(f) => *f,
        None => {
            return Err(Some(ErrorKind::UnknownFunction));
        },
    };
    let acts = match unwrap_all(args) {
        Some(a) => a,
        None => {
            return Err(None);
        },
    };
    if args.len() != f.params.len() {
        return Err(Some(ErrorKind::WrongArity));
    }
    match exec_call_targs(f, &acts, targs) {
        Some(ta) => {
            let names = names_of(&f.generics);
            Ok((f.ret.subst_all(&names, &ta), ta))
        },
        None => Err(Some(ErrorKind::UnusedGeneric)),
    }
}

/// The type of a call of a trait's method, or the fault.
pub fn exec_trait_call_ty<'ast>(
    tcxt: &TyCheckRes<'ast>,
    path: &Path,
    args: &Vec<Option<Ty>>,
    targs: &Vec<Ty>,
) -> (r: Result<Ty, Option<ErrorKind>>)
    ensures
        match r {
            Ok(t) => trait_call_ty(tcxt.env(), path@, view_opts(args@), view_tys(targs@)) == Some(
                t@,
            ),
            Err(k) => trait_call_ty(tcxt.env(), path@, view_opts(args@), view_tys(targs@)) is None
                && k == trait_call_kind(tcxt.env(), path@, view_opts(args@), view_tys(targs@)),
        },
{
    let name = match path.local_ident() {
        Some(n) => n,
        None => {
            return Err(Some(ErrorKind::UnknownTrait));
        },
    };
    let t = match tcxt.trait_solve.traits.get(&name.id) {
        Some(t) => *t,
        None => {
            return Err(Some(ErrorKind::UnknownTrait));
        },
    };
    if unwrap_all(args).is_none() {
        return Err(None);
    }
    if any_has_path(targs) {
        return Err(Some(ErrorKind::UnresolvedPath));
    }
    match tcxt.trait_solve.solve(name, targs) {
        Solved::Impl(i) => Ok(i.method.ret.clone()),
        Solved::Dependent => {
            let names = names_of(&t.generics);
            Ok(t.method.function().ret.subst_all(&names, targs))
        },
        Solved::NotImplemented => Err(Some(ErrorKind::NotImplemented)),
        Solved::NoImpls => Err(Some(ErrorKind::NotImplemented)),
    }
}

/// The position of the field `f` among the fields of `s`.
pub fn field_position(s: &Struct, f: Ident) -> (r: usize)
    ensures
        r == position_of(field_names(*s), f),
{
    let mut names: Vec<Ident> = Vec::new();
    let mut i: usize = 0;
    while i < s.fields.len()
        invariant
            i <= s.fields.len(),
            names@.len() == i,
            forall|j: int| 0 <= j < i ==> names@[j] == s.fields@[j].ident,
        decreases s.fields.len() - i,
    {
        names.push(s.fields[i].ident);
        i += 1;
    }
    assert(names@ =~= field_names(*s));
    position(&names, f)
}

/// The type of the field `f` of the struct `s` with the type arguments `gen`; see [`struct_field_ty`].
pub fn exec_struct_field_ty(s: &Struct, gen: &Vec<Ty>, f: Ident) -> (r: Option<Ty>)
    ensures
        view_opt(r) == struct_field_ty(*s, view_tys(gen@), f),
{
    let pos = field_position(s, f);
    if pos < s.fields.len() {
        let names = names_of(&s.generics);
        Some(s.fields[pos].ty.subst_all(&names, gen))
    } else {
        None
    }
}

/// The type of the field `f` of a value of type `lhs_ty`; see [`field_of`].
pub fn exec_field_of<'ast>(tcxt: &TyCheckRes<'ast>, lhs_ty: &Ty, f: Ident) -> (r: Option<Ty>)
    ensures
        view_opt(r) == field_of(tcxt.env(), lhs_ty@, f),
{
    match lhs_ty.pointee() {
        Ty::Struct { ident, gen } => {
            match tcxt.name_struct.get(&ident.id) {
                Some(s) => exec_struct_field_ty(s, gen, f),
                None => None,
            }
        },
        _ => None,
    }
}

/// The declared types of the fields that `fields` names, in that order.
pub fn exec_init_decls(s: &Struct, fields: &Vec<FieldInit>) -> (r: Option<Vec<Ty>>)
    ensures
        (match r {
            Some(v) => Some(view_tys(v@)),
            None => None,
        }) == init_decls(*s, init_names(fields@)),
{
    let ghost names = init_names(fields@);
    let mut out: Vec<Ty> = Vec::new();
    let mut j: usize = 0;
    while j < fields.len()
        invariant
            j <= fields.len(),
            out@.len() == j,
            names == init_names(fields@),
            forall|k: int|
                0 <= k < j ==> position_of(field_names(*s), #[trigger] names[k]) < s.fields@.len()
                    && out@[k]@ == s.fields@[position_of(field_names(*s), names[k]) as int].ty@,
        decreases fields.len() - j,
    {
        let pos = field_position(s, fields[j].ident);
        assert(names[j as int] == fields@[j as int].ident);
        if pos < s.fields.len() {
            out.push(s.fields[pos].ty.clone());
        } else {
            return None;
        }
        j += 1;
    }
    assert(view_tys(out@) =~= init_decls(*s, names)->0);
    Some(out)
}

/// The type of a struct initializer, or the fault.
pub fn exec_struct_init_ty<'ast>(
    tcxt: &TyCheckRes<'ast>,
    path: &Path,
    fields: &Vec<FieldInit>,
    inits: &Vec<Option<Ty>>,
) -> (r: Result<Ty, Option<ErrorKind>>)
    ensures
        match r {
            Ok(t) => struct_init_ty(tcxt.env(), path@, init_names(fields@), view_opts(inits@))
                == Some(t@),
            Err(k) => struct_init_ty(tcxt.env(), path@, init_names(fields@), view_opts(inits@))
                is None && k == struct_init_kind(
                tcxt.env(),
                path@,
                init_names(fields@),
                view_opts(inits@),
            ),
        },
{
    let name = match path.local_ident() {
        Some(n) => n,
        None => {
            return Err(Some(ErrorKind::UnknownStruct));
        },
    };
    let s: &Struct = match tcxt.name_struct.get(&name.id) {
        Some(s) => *s,
        None => {
            return Err(Some(ErrorKind::UnknownStruct));
        },
    };
    let acts = match unwrap_all(inits) {
        Some(a) => a,
        None => {
            return Err(None);
        },
    };
    let decls = match exec_init_decls(s, fields) {
        Some(d) => d,
        None => {
            return Err(Some(ErrorKind::UnknownField));
        },
    };
    let names = names_of(&s.generics);
    match exec_infer_targs(&names, &decls, &acts) {
        Some(ta) => Ok(Ty::Struct { ident: s.ident, gen: ta }),
        None => Err(Some(ErrorKind::UnusedGeneric)),
    }
}

/// The position of the variant `v` among the variants of `e`.
pub fn variant_position(e: &Enum, v: Ident) -> (r: usize)
    ensures
        r == position_of(variant_names(*e), v),
{
    let mut names: Vec<Ident> = Vec::new();
    let mut i: usize = 0;
    while i < e.variants.len()
        invariant
            i <= e.variants.len(),
            names@.len() == i,
            forall|j: int| 0 <= j < i ==> names@[j] == e.variants@[j].ident,
        decreases e.variants.len() - i,
    {
        names.push(e.variants[i].ident);
        i += 1;
    }
    assert(names@ =~= variant_names(*e));
    position(&names, v)
}

/// The type arguments of an enum initializer, found from its items; see [`enum_init_gen`].
pub fn exec_enum_init_gen(gs: &Vec<Generic>, decls: &Vec<Ty>, acts: &Vec<Ty>) -> (r: Vec<Ty>)
    ensures
        view_tys(r@) == enum_init_gen(gs@, view_tys(decls@), view_tys(acts@)),
{
    let mut out: Vec<Ty> = Vec::new();
    let mut k: usize = 0;
    while k < gs.len()
        invariant
            k <= gs.len(),
            out@.len() == k,
            forall|j: int|
                0 <= j < k ==> (#[trigger] out@[j])@ == enum_init_gen(
                    gs@,
                    view_tys(decls@),
                    view_tys(acts@),
                )[j],
        decreases gs.len() - k,
    {
        let t = match exec_infer_one(gs[k].ident, decls, acts) {
            Some(t) => t,
            None => gs[k].to_type(),
        };
        out.push(t);
        k += 1;
    }
    assert(view_tys(out@) =~= enum_init_gen(gs@, view_tys(decls@), view_tys(acts@)));
    out
}

/// The type of an enum initializer, or the fault.
pub fn exec_enum_init_ty<'ast>(
    tcxt: &TyCheckRes<'ast>,
    path: &Path,
    variant: Ident,
    items: &Vec<Option<Ty>>,
) -> (r: Result<Ty, Option<ErrorKind>>)
    ensures
        match r {
            Ok(t) => enum_init_ty(tcxt.env(), path@, variant, view_opts(items@)) == Some(t@),
            Err(k) => enum_init_ty(tcxt.env(), path@, variant, view_opts(items@)) is None && k
                == enum_init_kind(tcxt.env(), path@, variant, view_opts(items@)),
        },
{
    let name = match path.local_ident() {
        Some(n) => n,
        None => {
            return Err(Some(ErrorKind::UnknownEnum));
        },
    };
    let e: &Enum = match tcxt.name_enum.get(&name.id) {
        Some(e) => *e,
        None => {
            return Err(Some(ErrorKind::UnknownEnum));
        },
    };
    let acts = match unwrap_all(items) {
        Some(a) => a,
        None => {
            return Err(None);
        },
    };
    let pos = variant_position(e, variant);
    if pos >= e.variants.len() {
        return Err(Some(ErrorKind::UnknownVariant));
    }
    if e.variants[pos].types.len() != items.len() {
        return Err(Some(ErrorKind::WrongArity));
    }
    Ok(Ty::Enum { ident: e.ident, gen: exec_enum_init_gen(&e.generics, &e.variants[pos].types, &acts) })
}

/// The type of an array initializer, or `None` where the items do not agree.
pub fn exec_array_init_ty(items: &Vec<Option<Ty>>) -> (r: Option<Ty>)
    ensures
        view_opt(r) == array_init_ty(view_opts(items@)),
{
    let acts = match unwrap_all(items) {
        Some(a) => a,
        None => {
            return None;
        },
    };
    assert(view_tys(acts@).len() == view_opts(items@).len());
    assert(acts@.len() == items@.len());
    if acts.len() == 0 {
        assert(Ty::Void@ == SpecTy::Void);
        return Some(Ty::Array { size: 0, ty: Box::new(Ty::Void) });
    }
    let mut ty: Ty = acts[0].clone();
    let mut i: usize = 1;
    assert(unify_fold(view_tys(acts@), 1) == Some(ty@));
    while i < acts.len()
        invariant
            1 <= i <= acts.len(),
            acts@.len() == items@.len(),
            view_tys(acts@) == unwrap_tys(view_opts(items@)),
            all_typed(view_opts(items@)),
            unify_fold(view_tys(acts@), i as nat) == Some(ty@),
        decreases acts.len() - i,
    {
        match TypeInfer::unify(Some(&ty), Some(&acts[i])) {
            Some(t) => {
                ty = t;
            },
            None => {
                proof {
                    assert(unify_fold(view_tys(acts@), (i + 1) as nat) is None);
                    lemma_unify_fold_none(view_tys(acts@), (i + 1) as nat, acts@.len() as nat);
                }
                return None;
            },
        }
        i += 1;
    }
    Some(Ty::Array { size: items.len(), ty: Box::new(ty) })
}

/// Once the first `n` types do not agree, no more of them do.
pub proof fn lemma_unify_fold_none(tys: Seq<SpecTy>, n: nat, m: nat)
    requires
        1 <= n <= m <= tys.len(),
        unify_fold(tys, n) is None,
    ensures
        unify_fold(tys, m) is None,
    decreases m - n,
{
    if n < m {
        lemma_unify_fold_none(tys, n + 1, m);
    }
}

} // verus!
