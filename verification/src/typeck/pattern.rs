//! The pattern checker: whether a pattern fits the type it is matched
//! against, and what it binds.

use crate::ast::types::{
    generic_names, names_of, position_of, view_tys, Binding, Ident, Pat, Pattern, SpecTy, Ty,
};
use crate::typeck::infer::variant_names;
use crate::typeck::typing::variant_position;
use crate::typeck::{Env, TyCheckRes};
use vstd::prelude::*;

verus! {

/// A name that a pattern binds, with the type of what it stands for.
pub struct Bound {
    pub ident: Ident,
    pub ty: Ty,
}

/// The model of a [`Bound`].
pub struct SpecBound {
    pub ident: Ident,
    pub ty: SpecTy,
}

impl View for Bound {
    type V = SpecBound;

    open spec fn view(&self) -> SpecBound {
        SpecBound { ident: self.ident, ty: self.ty@ }
    }
}

/// The models of a list of bindings.
pub open spec fn view_bounds(bs: Seq<Bound>) -> Seq<SpecBound> {
    Seq::new(bs.len(), |i: int| bs[i]@)
}

/// The types against which the items of an enum pattern are matched: the
/// types of the variant's payload with the enum's type arguments put in
/// place of its type parameters.
pub open spec fn payload_tys(names: Seq<Ident>, types: Seq<SpecTy>, gen: Seq<SpecTy>) -> Seq<SpecTy> {
    Seq::new(types.len(), |i: int| types[i].subst_all(names, gen))
}

/// What the first `n` of the patterns `pats` bind when the pattern at `i` is
/// matched against `tys[i]`; `None` where one of them does not fit or has no
/// type to be matched against.
pub open spec fn pats_bind(env: Env, pats: Seq<Pattern>, tys: Seq<SpecTy>, n: nat) -> Option<
    Seq<SpecBound>,
>
    decreases pats, n,
{
    if n == 0 {
        Some(Seq::empty())
    } else if n > pats.len() || n > tys.len() {
        None
    } else {
        match (pats_bind(env, pats, tys, (n - 1) as nat), pat_binds(env, pats[n - 1].val, tys[n - 1])) {
            (Some(a), Some(b)) => Some(a + b),
            _ => None,
        }
    }
}

/// What a name or a literal binds when it is matched against a value of
/// type `ty`: a name binds itself to the type; a literal fits its own type
/// and binds nothing.
pub open spec fn pat_binds_leaf(b: Binding, ty: SpecTy) -> Option<Seq<SpecBound>> {
    match b {
        Binding::Wild(x) => Some(seq![SpecBound { ident: x, ty }]),
        Binding::Value(v) => if v.val.spec_type_of() == ty {
            Some(Seq::empty())
        } else {
            None
        },
    }
}

/// What a pattern binds when it is matched against a value of type `ty`;
/// `None` where the pattern does not fit the type.
///
/// - A name fits any type and binds the name to it.
/// - A literal fits its own type and binds nothing.
/// - An enum pattern fits an enum of its name that has the variant; each of
///   its items is matched against the type of the variant's payload at its
///   place, with the enum's type arguments put in.
/// - An array pattern fits an array of its size; each of its items is
///   matched against the type of the array's items.
pub open spec fn pat_binds(env: Env, pat: Pat, ty: SpecTy) -> Option<Seq<SpecBound>>
    decreases pat, 0nat,
{
    match pat {
        Pat::Bind(b) => pat_binds_leaf(b, ty),
        Pat::Enum { path, variant, items } => match ty {
            SpecTy::Enum { ident, gen } => if path@.len() > 0 && path@.last() == ident
                && env.enums.contains_key(ident.id) {
                let e = *env.enums[ident.id];
                let pos = position_of(variant_names(e), variant);
                if pos < e.variants@.len() {
                    pats_bind(
                        env,
                        items@,
                        payload_tys(
                            generic_names(e.generics@),
                            view_tys(e.variants@[pos as int].types@),
                            gen,
                        ),
                        items@.len(),
                    )
                } else {
                    None
                }
            } else {
                None
            },
            _ => None,
        },
        Pat::Array { size, items } => match ty {
            SpecTy::Array { size: n, ty: t } => if size == n {
                pats_bind(env, items@, Seq::new(items@.len(), |i: int| *t), items@.len())
            } else {
                None
            },
            _ => None,
        },
    }
}

/// The names that the first `n` of the patterns `pats` hold, in order.
pub open spec fn wild_names_seq(pats: Seq<Pattern>, n: nat) -> Seq<Ident>
    decreases pats, n,
{
    if n == 0 || n > pats.len() {
        Seq::empty()
    } else {
        wild_names_seq(pats, (n - 1) as nat) + wild_names(pats[n - 1].val)
    }
}

/// The names that stand in a pattern, in the order in which they are
/// written.
pub open spec fn wild_names(pat: Pat) -> Seq<Ident>
    decreases pat, 0nat,
{
    match pat {
        Pat::Bind(Binding::Wild(x)) => seq![x],
        Pat::Bind(Binding::Value(_)) => Seq::empty(),
        Pat::Enum { items, .. } => wild_names_seq(items@, items@.len()),
        Pat::Array { items, .. } => wild_names_seq(items@, items@.len()),
    }
}

/// The names of a list of bindings.
pub open spec fn bound_names(bs: Seq<SpecBound>) -> Seq<Ident> {
    Seq::new(bs.len(), |i: int| bs[i].ident)
}

/// A pattern that fits binds exactly the names that stand in it, in the
/// order in which they are written.
pub proof fn lemma_pat_binds_names(env: Env, pat: Pat, ty: SpecTy)
    ensures
        pat_binds(env, pat, ty) matches Some(bs) ==> bound_names(bs) == wild_names(pat),
    decreases pat, 0nat,
{
    match pat {
        Pat::Bind(Binding::Wild(x)) => {
            assert(bound_names(seq![SpecBound { ident: x, ty }]) =~= seq![x]);
        },
        Pat::Bind(Binding::Value(v)) => {
            assert(bound_names(Seq::<SpecBound>::empty()) =~= Seq::<Ident>::empty());
        },
        Pat::Enum { path, variant, items } => match ty {
            SpecTy::Enum { ident, gen } => {
                if path@.len() > 0 && path@.last() == ident && env.enums.contains_key(ident.id) {
                    let e = *env.enums[ident.id];
                    let pos = position_of(variant_names(e), variant);
                    if pos < e.variants@.len() {
                        lemma_pats_bind_names(
                            env,
                            items@,
                            payload_tys(
                                generic_names(e.generics@),
                                view_tys(e.variants@[pos as int].types@),
                                gen,
                            ),
                            items@.len(),
                        );
                    }
                }
            },
            _ => {},
        },
        Pat::Array { size, items } => match ty {
            SpecTy::Array { size: n, ty: t } => {
                lemma_pats_bind_names(
                    env,
                    items@,
                    Seq::new(items@.len(), |i: int| *t),
                    items@.len(),
                );
            },
            _ => {},
        },
    }
}

/// The names that a list of patterns binds are the names that stand in the patterns, in order.
pub proof fn lemma_pats_bind_names(env: Env, pats: Seq<Pattern>, tys: Seq<SpecTy>, n: nat)
    ensures
        pats_bind(env, pats, tys, n) matches Some(bs) ==> n <= pats.len() && bound_names(bs)
            == wild_names_seq(pats, n),
    decreases pats, n,
{
    if n == 0 {
        assert(bound_names(Seq::<SpecBound>::empty()) =~= Seq::<Ident>::empty());
    } else if n > pats.len() || n > tys.len() {
    } else {
        lemma_pats_bind_names(env, pats, tys, (n - 1) as nat);
        lemma_pat_binds_names(env, pats[n - 1].val, tys[n - 1]);
        match (pats_bind(env, pats, tys, (n - 1) as nat), pat_binds(env, pats[n - 1].val, tys[n - 1])) {
            (Some(a), Some(b)) => {
                assert(bound_names(a + b) =~= bound_names(a) + bound_names(b));
            },
            _ => {},
        }
    }
}

/// As many copies of `ty` as `n`.
fn repeat_ty(ty: &Ty, n: usize) -> (r: Vec<Ty>)
    ensures
        view_tys(r@) == Seq::new(n as nat, |i: int| ty@),
{
    let mut out: Vec<Ty> = Vec::new();
    let mut i: usize = 0;
    while i < n
        invariant
            i <= n,
            out@.len() == i,
            forall|j: int| 0 <= j < i ==> (#[trigger] out@[j])@ == ty@,
        decreases n - i,
    {
        out.push(ty.clone());
        i += 1;
    }
    assert(view_tys(out@) =~= Seq::new(n as nat, |i: int| ty@));
    out
}

/// The types of a variant's payload with the enum's type arguments put in.
fn payload_types(names: &Vec<Ident>, types: &Vec<Ty>, gen: &Vec<Ty>) -> (r: Vec<Ty>)
    ensures
        view_tys(r@) == payload_tys(names@, view_tys(types@), view_tys(gen@)),
{
    let mut out: Vec<Ty> = Vec::new();
    let mut i: usize = 0;
    while i < types.len()
        invariant
            i <= types.len(),
            out@.len() == i,
            forall|j: int|
                0 <= j < i ==> (#[trigger] out@[j])@ == types@[j]@.subst_all(
                    names@,
                    view_tys(gen@),
                ),
        decreases types.len() - i,
    {
        out.push(types[i].subst_all(names, gen));
        i += 1;
    }
    assert(view_tys(out@) =~= payload_tys(names@, view_tys(types@), view_tys(gen@)));
    out
}

/// Checks a name or a literal against the type `ty`: a name is bound to the
/// type; a literal must have the type.
pub fn check_val_pat(bind: &Binding, ty: &Ty, bound_vars: &mut Vec<Bound>) -> (r: bool)
    ensures
        r == pat_binds_leaf(*bind, ty@) is Some,
        r ==> view_bounds(final(bound_vars)@) == view_bounds(old(bound_vars)@) + pat_binds_leaf(
            *bind,
            ty@,
        )->0,
        keeps(final(bound_vars)@, old(bound_vars)@),
{
    match bind {
        Binding::Wild(x) => {
            bound_vars.push(Bound { ident: *x, ty: ty.clone() });
            assert(bound_vars@.subrange(0, old(bound_vars)@.len() as int) =~= old(bound_vars)@);
            assert(view_bounds(bound_vars@) =~= view_bounds(old(bound_vars)@) + seq![
                SpecBound { ident: *x, ty: ty@ },
            ]);
            true
        },
        Binding::Value(v) => {
            let ok = v.val.to_type().is_ty_eq(ty);
            assert(bound_vars@.subrange(0, old(bound_vars)@.len() as int) =~= old(bound_vars)@);
            assert(view_bounds(bound_vars@) =~= view_bounds(old(bound_vars)@) + Seq::<
                SpecBound,
            >::empty());
            ok
        },
    }
}

fn pats_bindings<'ast>(
    tcxt: &TyCheckRes<'ast>,
    pats: &Vec<Pattern>,
    tys: &Vec<Ty>,
    bound_vars: &mut Vec<Bound>,
) -> (r: bool)
    ensures
        r == pats_bind(tcxt.env(), pats@, view_tys(tys@), pats@.len()) is Some,
        r ==> view_bounds(final(bound_vars)@) == view_bounds(old(bound_vars)@) + pats_bind(
            tcxt.env(),
            pats@,
            view_tys(tys@),
            pats@.len(),
        )->0,
        keeps(final(bound_vars)@, old(bound_vars)@),
    decreases pats,
{
    let ghost env = tcxt.env();
    let mut i: usize = 0;
    assert(view_bounds(bound_vars@) =~= view_bounds(old(bound_vars)@) + Seq::<SpecBound>::empty());
    assert(bound_vars@.subrange(0, old(bound_vars)@.len() as int) =~= old(bound_vars)@);
    while i < pats.len()
        invariant
            i <= pats.len(),
            env == tcxt.env(),
            pats_bind(env, pats@, view_tys(tys@), i as nat) is Some,
            keeps(bound_vars@, old(bound_vars)@),
            view_bounds(bound_vars@) == view_bounds(old(bound_vars)@) + pats_bind(
                env,
                pats@,
                view_tys(tys@),
                i as nat,
            )->0,
        decreases pats.len() - i,
    {
        if i >= tys.len() {
            proof {
                lemma_pats_bind_none(env, pats@, view_tys(tys@), (i + 1) as nat, pats@.len() as nat);
            }
            return false;
        }
        let ghost before = bound_vars@;
        let fits = pat_bindings(tcxt, &pats[i].val, &tys[i], bound_vars);
        proof {
            lemma_keeps_trans(bound_vars@, before, old(bound_vars)@);
        }
        if !fits {
            proof {
                lemma_pats_bind_none(env, pats@, view_tys(tys@), (i + 1) as nat, pats@.len() as nat);
            }
            return false;
        }
        proof {
            let a = pats_bind(env, pats@, view_tys(tys@), i as nat)->0;
            let b = pat_binds(env, pats@[i as int].val, view_tys(tys@)[i as int])->0;
            assert(view_bounds(old(bound_vars)@) + a + b =~= view_bounds(old(bound_vars)@) + (a
                + b));
        }
        i += 1;
    }
    true
}

fn pat_bindings<'ast>(tcxt: &TyCheckRes<'ast>, pat: &Pat, ty: &Ty, bound_vars: &mut Vec<Bound>) -> (r:
    bool)
    ensures
        r == pat_binds(tcxt.env(), *pat, ty@) is Some,
        r ==> view_bounds(final(bound_vars)@) == view_bounds(old(bound_vars)@) + pat_binds(
            tcxt.env(),
            *pat,
            ty@,
        )->0,
        keeps(final(bound_vars)@, old(bound_vars)@),
    decreases pat,
{
    assert(bound_vars@.subrange(0, old(bound_vars)@.len() as int) =~= old(bound_vars)@);
    match pat {
        Pat::Bind(b) => check_val_pat(b, ty, bound_vars),
        Pat::Enum { path, variant, items } => match ty {
            Ty::Enum { ident, gen } => {
                let named = match path.local_ident() {
                    Some(n) => n == *ident,
                    None => false,
                };
                if !named {
                    return false;
                }
                match tcxt.name_enum.get(&ident.id) {
                    Some(e) => {
                        let pos = variant_position(e, *variant);
                        if pos < e.variants.len() {
                            let names = names_of(&e.generics);
                            let tys = payload_types(&names, &e.variants[pos].types, gen);
                            pats_bindings(tcxt, items, &tys, bound_vars)
                        } else {
                            false
                        }
                    },
                    None => false,
                }
            },
            _ => false,
        },
        Pat::Array { size, items } => match ty {
            Ty::Array { size: n, ty: t } => {
                if *size == *n {
                    let tys = repeat_ty(t, items.len());
                    pats_bindings(tcxt, items, &tys, bound_vars)
                } else {
                    false
                }
            },
            _ => false,
        },
    }
}

/// Once the first `n` patterns do not all fit, no more of them do.
pub proof fn lemma_pats_bind_none(env: Env, pats: Seq<Pattern>, tys: Seq<SpecTy>, n: nat, m: nat)
    requires
        1 <= n <= m,
        pats_bind(env, pats, tys, n) is None,
    ensures
        pats_bind(env, pats, tys, m) is None,
    decreases m - n,
{
    if n < m {
        lemma_pats_bind_none(env, pats, tys, n, (m - 1) as nat);
    }
}

/// Checks the pattern `pat` against the type `ty` of what it is matched
/// against, and adds what it binds to `bound_vars`.
///
/// The result is `true` where the pattern fits. Where it does not, or where
/// there is no type to match against, `bound_vars` holds what it held.
pub fn check_pattern_type<'ast>(
    tcxt: &TyCheckRes<'ast>,
    pat: &Pat,
    ty: Option<&Ty>,
    bound_vars: &mut Vec<Bound>,
) -> (r: bool)
    ensures
        r == (ty matches Some(t) && pat_binds(tcxt.env(), *pat, t@) is Some),
        r ==> view_bounds(final(bound_vars)@) == view_bounds(old(bound_vars)@) + pat_binds(
            tcxt.env(),
            *pat,
            ty->0@,
        )->0,
        !r ==> view_bounds(final(bound_vars)@) == view_bounds(old(bound_vars)@),
{
    let len = bound_vars.len();
    let ok = match ty {
        Some(t) => pat_bindings(tcxt, pat, t, bound_vars),
        None => false,
    };
    if !ok {
        bound_vars.truncate(len);
        assert(bound_vars@ =~= old(bound_vars)@);
    }
    ok
}

/// `true` when `now` holds the items of `before` at its front.
pub open spec fn keeps(now: Seq<Bound>, before: Seq<Bound>) -> bool {
    before.len() <= now.len() && now.subrange(0, before.len() as int) == before
}

/// What keeps what was kept keeps the first.
pub proof fn lemma_keeps_trans(c: Seq<Bound>, b: Seq<Bound>, a: Seq<Bound>)
    requires
        keeps(c, b),
        keeps(b, a),
    ensures
        keeps(c, a),
{
    assert(c.subrange(0, a.len() as int) =~= b.subrange(0, a.len() as int));
}

} // verus!
