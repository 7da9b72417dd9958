//! Inference leaves no expression out: where an expression has a type, the
//! table of inference holds an entry for every expression in it.

use crate::ast::types::{Expr, Expression, FieldInit, SpecTy};
use crate::typeck::infer::{
    all_typed, entries, entries_seq, field_entries, field_of, field_ty, init_entries_seq,
    init_tys_of, kids_entries, ty_of, tys_of,
};
use crate::typeck::Env;
use vstd::prelude::*;

verus! {

/// `true` when the table holds an entry for each expression of the list.
pub open spec fn covered_seq(m: Map<usize, SpecTy>, es: Seq<Expression>) -> bool
    decreases es,
{
    forall|i: int| 0 <= i < es.len() ==> covered(m, #[trigger] es[i])
}

/// `true` when the table holds an entry for each initial value of the list.
pub open spec fn covered_inits(m: Map<usize, SpecTy>, fs: Seq<FieldInit>) -> bool
    decreases fs,
{
    forall|i: int| 0 <= i < fs.len() ==> covered(m, (#[trigger] fs[i]).init)
}

/// `true` when the table holds an entry for `e` and for every expression in
/// `e`.
pub open spec fn covered(m: Map<usize, SpecTy>, e: Expression) -> bool
    decreases e,
{
    &&& m.contains_key(e.id)
    &&& match e.val {
        Expr::Value(_) => true,
        Expr::Ident(_) => true,
        Expr::AddrOf(x) => covered(m, *x),
        Expr::Deref { expr, .. } => covered(m, *expr),
        Expr::Array { exprs, .. } => covered_seq(m, exprs@),
        Expr::Urnary { expr, .. } => covered(m, *expr),
        Expr::Binary { lhs, rhs, .. } => covered(m, *lhs) && covered(m, *rhs),
        Expr::Parens(x) => covered(m, *x),
        Expr::Call { args, .. } => covered_seq(m, args@),
        Expr::TraitMeth { args, .. } => covered_seq(m, args@),
        Expr::FieldAccess { lhs, rhs } => covered(m, *lhs) && covered(m, *rhs),
        Expr::StructInit { fields, .. } => covered_inits(m, fields@),
        Expr::EnumInit { items, .. } => covered_seq(m, items@),
        Expr::ArrayInit { items } => covered_seq(m, items@),
    }
}

/// A table that covers an expression still covers it when it holds more.
pub proof fn lemma_covered_mono(m: Map<usize, SpecTy>, bigger: Map<usize, SpecTy>, e: Expression)
    requires
        covered(m, e),
        forall|k: usize| #[trigger] m.contains_key(k) ==> bigger.contains_key(k),
    ensures
        covered(bigger, e),
    decreases e,
{
    match e.val {
        Expr::Value(_) => {},
        Expr::Ident(_) => {},
        Expr::AddrOf(x) => lemma_covered_mono(m, bigger, *x),
        Expr::Deref { expr, .. } => lemma_covered_mono(m, bigger, *expr),
        Expr::Array { exprs, .. } => lemma_covered_seq_mono(m, bigger, exprs@),
        Expr::Urnary { expr, .. } => lemma_covered_mono(m, bigger, *expr),
        Expr::Binary { lhs, rhs, .. } => {
            lemma_covered_mono(m, bigger, *lhs);
            lemma_covered_mono(m, bigger, *rhs);
        },
        Expr::Parens(x) => lemma_covered_mono(m, bigger, *x),
        Expr::Call { args, .. } => lemma_covered_seq_mono(m, bigger, args@),
        Expr::TraitMeth { args, .. } => lemma_covered_seq_mono(m, bigger, args@),
        Expr::FieldAccess { lhs, rhs } => {
            lemma_covered_mono(m, bigger, *lhs);
            lemma_covered_mono(m, bigger, *rhs);
        },
        Expr::StructInit { fields, .. } => {
            assert(covered_inits(m, fields@));
            assert forall|i: int| 0 <= i < fields@.len() implies covered(
                bigger,
                (#[trigger] fields@[i]).init,
            ) by {
                assert(covered(m, fields@[i].init));
                lemma_covered_mono(m, bigger, fields@[i].init);
            }
            assert(covered_inits(bigger, fields@));
        },
        Expr::EnumInit { items, .. } => lemma_covered_seq_mono(m, bigger, items@),
        Expr::ArrayInit { items } => lemma_covered_seq_mono(m, bigger, items@),
    }
    assert(bigger.contains_key(e.id));
}

/// Expressions that have their types in a table have them in a larger one.
pub proof fn lemma_covered_seq_mono(m: Map<usize, SpecTy>, bigger: Map<usize, SpecTy>, es: Seq<Expression>)
    requires
        covered_seq(m, es),
        forall|k: usize| #[trigger] m.contains_key(k) ==> bigger.contains_key(k),
    ensures
        covered_seq(bigger, es),
    decreases es,
{
    assert forall|i: int| 0 <= i < es.len() implies covered(bigger, #[trigger] es[i]) by {
        assert(covered(m, es[i]));
        lemma_covered_mono(m, bigger, es[i]);
    }
}

/// The entries written for the first `n` expressions of a list cover each of
/// them that has a type.
pub proof fn lemma_entries_seq_cover(env: Env, es: Seq<Expression>, n: nat)
    requires
        n <= es.len(),
    ensures
        forall|i: int|
            0 <= i < n && (#[trigger] tys_of(env, es)[i]) is Some ==> covered(
                entries_seq(env, es, n),
                es[i],
            ),
    decreases es, n,
{
    if n > 0 {
        lemma_entries_seq_cover(env, es, (n - 1) as nat);
        lemma_entries_cover(env, es[n - 1]);
        let prev = entries_seq(env, es, (n - 1) as nat);
        let last = entries(env, es[n - 1]);
        let all = entries_seq(env, es, n);
        assert forall|i: int| 0 <= i < n && (#[trigger] tys_of(env, es)[i]) is Some implies covered(
            all,
            es[i],
        ) by {
            if i < n - 1 {
                lemma_covered_mono(prev, all, es[i]);
            } else {
                assert(tys_of(env, es)[i] == ty_of(env, es[i]));
                lemma_covered_mono(last, all, es[i]);
            }
        }
    }
}

/// What inference writes for the initial values of a struct initializer holds a type for each expression in them.
pub proof fn lemma_init_entries_seq_cover(env: Env, fs: Seq<FieldInit>, n: nat)
    requires
        n <= fs.len(),
    ensures
        forall|i: int|
            0 <= i < n && (#[trigger] init_tys_of(env, fs)[i]) is Some ==> covered(
                init_entries_seq(env, fs, n),
                fs[i].init,
            ),
    decreases fs, n,
{
    if n > 0 {
        lemma_init_entries_seq_cover(env, fs, (n - 1) as nat);
        lemma_entries_cover(env, fs[n - 1].init);
        let prev = init_entries_seq(env, fs, (n - 1) as nat);
        let last = entries(env, fs[n - 1].init);
        let all = init_entries_seq(env, fs, n);
        assert forall|i: int|
            0 <= i < n && (#[trigger] init_tys_of(env, fs)[i]) is Some implies covered(
            all,
            fs[i].init,
        ) by {
            if i < n - 1 {
                lemma_covered_mono(prev, all, fs[i].init);
            } else {
                assert(init_tys_of(env, fs)[i] == ty_of(env, fs[i].init));
                lemma_covered_mono(last, all, fs[i].init);
            }
        }
    }
}

/// Where every expression of a list has a type, the entries written for the
/// list cover the list.
pub proof fn lemma_typed_seq_cover(env: Env, es: Seq<Expression>)
    requires
        all_typed(tys_of(env, es)),
    ensures
        covered_seq(entries_seq(env, es, es.len()), es),
    decreases es, es.len() + 1,
{
    lemma_entries_seq_cover(env, es, es.len());
    assert forall|i: int| 0 <= i < es.len() implies covered(
        entries_seq(env, es, es.len()),
        #[trigger] es[i],
    ) by {
        assert(tys_of(env, es)[i] is Some);
    }
}

/// Where the right side of a field access has a type, the entries written
/// for it cover it.
pub proof fn lemma_field_entries_cover(env: Env, lhs_ty: SpecTy, rhs: Expression)
    ensures
        field_ty(env, lhs_ty, rhs) is Some ==> covered(field_entries(env, lhs_ty, rhs), rhs),
    decreases rhs, 0nat,
{
    if field_ty(env, lhs_ty, rhs) is Some {
        let all = field_entries(env, lhs_ty, rhs);
        assert(all.contains_key(rhs.id));
        match rhs.val {
            Expr::Ident(_) => {},
            Expr::Array { exprs, .. } => {
                assert(all_typed(tys_of(env, exprs@))) by {
                    assert forall|i: int| 0 <= i < exprs@.len() implies (#[trigger] tys_of(
                        env,
                        exprs@,
                    )[i]) is Some by {}
                }
                lemma_typed_seq_cover(env, exprs@);
                lemma_covered_seq_mono(entries_seq(env, exprs@, exprs@.len()), all, exprs@);
            },
            Expr::FieldAccess { lhs: l2, rhs: r2 } => match l2.val {
                Expr::Ident(f2) => {
                    let t2 = field_of(env, lhs_ty, f2)->0;
                    lemma_field_entries_cover(env, t2, *r2);
                    lemma_covered_mono(field_entries(env, t2, *r2), all, *r2);
                    assert(all.contains_key(l2.id));
                    assert(covered(all, *l2));
                    assert(covered(all, *r2));
                },
                _ => {},
            },
            _ => {},
        }
        assert(covered(all, rhs));
    }
}

/// Where an expression has a type, the entries that inference writes for it
/// hold one for the expression and for every expression in it.
#[verifier::rlimit(60)]
pub proof fn lemma_entries_cover(env: Env, e: Expression)
    ensures
        ty_of(env, e) is Some ==> covered(entries(env, e), e),
    decreases e, 1nat,
{
    if ty_of(env, e) is Some {
        let all = entries(env, e);
        let kids = kids_entries(env, e);
        assert(all.contains_key(e.id));
        match e.val {
            Expr::Value(_) => {
                assert(covered(all, e));
            },
            Expr::Ident(_) => {
                assert(covered(all, e));
            },
            Expr::AddrOf(x) => {
                lemma_entries_cover(env, *x);
                lemma_covered_mono(entries(env, *x), all, *x);
                assert(covered(all, e));
            },
            Expr::Deref { expr, .. } => {
                lemma_entries_cover(env, *expr);
                lemma_covered_mono(entries(env, *expr), all, *expr);
                assert(covered(all, e));
            },
            Expr::Array { exprs, .. } => {
                assert(all_typed(tys_of(env, exprs@))) by {
                    assert forall|i: int| 0 <= i < exprs@.len() implies (#[trigger] tys_of(
                        env,
                        exprs@,
                    )[i]) is Some by {}
                }
                lemma_typed_seq_cover(env, exprs@);
                lemma_covered_seq_mono(kids, all, exprs@);
                assert(covered(all, e));
            },
            Expr::Urnary { expr, .. } => {
                lemma_entries_cover(env, *expr);
                lemma_covered_mono(entries(env, *expr), all, *expr);
                assert(covered(all, e));
            },
            Expr::Binary { lhs, rhs, .. } => {
                lemma_entries_cover(env, *lhs);
                lemma_entries_cover(env, *rhs);
                lemma_covered_mono(entries(env, *lhs), all, *lhs);
                lemma_covered_mono(entries(env, *rhs), all, *rhs);
                assert(covered(all, e));
            },
            Expr::Parens(x) => {
                lemma_entries_cover(env, *x);
                lemma_covered_mono(entries(env, *x), all, *x);
                assert(covered(all, e));
            },
            Expr::Call { args, .. } => {
                lemma_typed_seq_cover(env, args@);
                lemma_covered_seq_mono(kids, all, args@);
                assert(covered(all, e));
            },
            Expr::TraitMeth { args, .. } => {
                lemma_typed_seq_cover(env, args@);
                lemma_covered_seq_mono(kids, all, args@);
                assert(covered(all, e));
            },
            Expr::FieldAccess { lhs, rhs } => {
                lemma_entries_cover(env, *lhs);
                lemma_covered_mono(entries(env, *lhs), all, *lhs);
                let t = ty_of(env, *lhs)->0;
                lemma_field_entries_cover(env, t, *rhs);
                lemma_covered_mono(field_entries(env, t, *rhs), all, *rhs);
                assert(covered(all, e));
            },
            Expr::StructInit { fields, .. } => {
                lemma_init_entries_seq_cover(env, fields@, fields@.len());
                assert forall|i: int| 0 <= i < fields@.len() implies covered(
                    all,
                    (#[trigger] fields@[i]).init,
                ) by {
                    assert(init_tys_of(env, fields@)[i] is Some);
                    lemma_covered_mono(kids, all, fields@[i].init);
                }
                assert(covered_inits(all, fields@));
                assert(covered(all, e));
            },
            Expr::EnumInit { items, .. } => {
                lemma_typed_seq_cover(env, items@);
                lemma_covered_seq_mono(kids, all, items@);
                assert(covered(all, e));
            },
            Expr::ArrayInit { items } => {
                lemma_typed_seq_cover(env, items@);
                lemma_covered_seq_mono(kids, all, items@);
                assert(covered(all, e));
            },
        }
    }
}

} // verus!
