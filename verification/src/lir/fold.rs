//! Constant folding of the lowered program: an operator whose operands are
//! literals is replaced by the literal it yields, and a name that stands
//! for one literal in the whole of its function by that literal.

use crate::lir::lower::{
    BinOp, Block, CallExpr, Const, Expr, FieldInit, Func, Item, MatchArm, Stmt, TraitMethExpr, UnOp,
    Val,
};
use crate::ast::types as ast;
use crate::ast::types::Ident;
use crate::lir::known::{known, known_value, set_once, sets};
use crate::lir::lower::{LValue, Param};
use std::collections::HashMap;
use vstd::prelude::*;

verus! {

/// The literal that a binary operator yields on two literals, if it is
/// folded.
///
/// - Two `Int`s: `+`, `-` and `*` where the result is an `Int`; `/` and
///   `%` where the left side is not negative and the right side is
///   positive; a comparison always.
/// - Two `Bool`s: `&&` and `||`.
/// - Two `Char`s: `==` and `!=`.
///
/// Nothing else is folded.
pub open spec fn fold_binary(op: BinOp, a: Val, b: Val) -> Option<Val> {
    match (a, b) {
        (Val::Int(x), Val::Int(y)) => match op {
            BinOp::Add => if isize::MIN <= x + y <= isize::MAX {
                Some(Val::Int((x + y) as isize))
            } else {
                None
            },
            BinOp::Sub => if isize::MIN <= x - y <= isize::MAX {
                Some(Val::Int((x - y) as isize))
            } else {
                None
            },
            BinOp::Mul => if isize::MIN <= x * y <= isize::MAX {
                Some(Val::Int((x * y) as isize))
            } else {
                None
            },
            BinOp::Div => if x >= 0 && y > 0 {
                Some(Val::Int((x / y) as isize))
            } else {
                None
            },
            BinOp::Rem => if x >= 0 && y > 0 {
                Some(Val::Int((x % y) as isize))
            } else {
                None
            },
            BinOp::Lt => Some(Val::Bool(x < y)),
            BinOp::Le => Some(Val::Bool(x <= y)),
            BinOp::Ge => Some(Val::Bool(x >= y)),
            BinOp::Gt => Some(Val::Bool(x > y)),
            BinOp::Eq => Some(Val::Bool(x == y)),
            BinOp::Ne => Some(Val::Bool(x != y)),
            _ => None,
        },
        (Val::Bool(x), Val::Bool(y)) => match op {
            BinOp::And => Some(Val::Bool(x && y)),
            BinOp::Or => Some(Val::Bool(x || y)),
            _ => None,
        },
        (Val::Char(x), Val::Char(y)) => match op {
            BinOp::Eq => Some(Val::Bool(x == y)),
            BinOp::Ne => Some(Val::Bool(x != y)),
            _ => None,
        },
        _ => None,
    }
}

/// The literal that a unary operator yields on a literal, if it is folded:
/// `!` on a `Bool` negates it and on an `Int` says whether it is zero; `~`
/// on an `Int` `x` is `-1 - x`.
pub open spec fn fold_unary(op: UnOp, a: Val) -> Option<Val> {
    match (op, a) {
        (UnOp::Not, Val::Bool(b)) => Some(Val::Bool(!b)),
        (UnOp::Not, Val::Int(x)) => Some(Val::Bool(x == 0)),
        (UnOp::OnesComp, Val::Int(x)) => Some(Val::Int((-1 - x) as isize)),
        _ => None,
    }
}

/// The literal that the first of the first `n` entries of the table `t`
/// gives for the name `x`, if one of them is about `x`.
pub open spec fn lookup(t: Seq<(Ident, Val)>, x: Ident, n: nat) -> Option<Val>
    decreases n,
{
    if n == 0 || n > t.len() {
        None
    } else {
        match lookup(t, x, (n - 1) as nat) {
            Some(v) => Some(v),
            None => if t[n - 1].0 == x {
                Some(t[n - 1].1)
            } else {
                None
            },
        }
    }
}

/// What the first entries give for a name, more entries give too.
pub proof fn lemma_lookup_later(t: Seq<(Ident, Val)>, x: Ident, n: nat, m: nat)
    requires
        n <= m <= t.len(),
        lookup(t, x, n) is Some,
    ensures
        lookup(t, x, m) == lookup(t, x, n),
    decreases m - n,
{
    if n < m {
        lemma_lookup_later(t, x, n, (m - 1) as nat);
    }
}

/// A table with one more entry gives what the table gave for its first
/// entries.
pub proof fn lemma_lookup_push(t: Seq<(Ident, Val)>, e: (Ident, Val), x: Ident, n: nat)
    requires
        n <= t.len(),
    ensures
        lookup(t.push(e), x, n) == lookup(t, x, n),
    decreases n,
{
    if n > 0 {
        lemma_lookup_push(t, e, x, (n - 1) as nat);
        assert(t.push(e)[n - 1] == t[n - 1]);
    }
}

/// The literal that the table gives for the name `x`.
pub fn find(t: &Vec<(Ident, Val)>, x: Ident) -> (r: Option<Val>)
    ensures
        r == lookup(t@, x, t@.len()),
{
    let mut i: usize = 0;
    while i < t.len()
        invariant
            i <= t.len(),
            lookup(t@, x, i as nat) is None,
        decreases t.len() - i,
    {
        if t[i].0 == x {
            proof {
                lemma_lookup_later(t@, x, (i + 1) as nat, t@.len());
            }
            return Some(t[i].1);
        }
        i += 1;
    }
    None
}

/// `true` when the table `t` holds the names of a function that stand for
/// one literal, each with its literal: every entry is such a name (see
/// [`known`]), and every such name has an entry.
pub open spec fn table_for(consts: Map<usize, ast::Val>, params: Seq<Param>, body: Seq<Stmt>, t: Seq<(Ident, Val)>) -> bool {
    &&& forall|i: int| 0 <= i < t.len() ==> known(consts, params, body, (#[trigger] t[i]).0, t[i].1)
    &&& forall|x: Ident, v: Val| #[trigger]
        known(consts, params, body, x, v) ==> lookup(t, x, t.len()) is Some
}

/// The names of a function that stand for one literal, each with its
/// literal.
pub fn known_table(consts: &HashMap<usize, ast::Val>, params: &Vec<Param>, body: &Vec<Stmt>) -> (t: Vec<
    (Ident, Val),
>)
    ensures
        table_for(consts@, params@, body@, t@),
{
    let mut t: Vec<(Ident, Val)> = Vec::new();
    let mut k: usize = 0;
    while k < body.len()
        invariant
            k <= body.len(),
            forall|i: int|
                0 <= i < t@.len() ==> known(consts@, params@, body@, (#[trigger] t@[i]).0, t@[i].1),
            forall|x: Ident, v: Val, j: int|
                0 <= j < k && consts@.contains_key(x.id) && Val::spec_lower(consts@[x.id]) == v
                    && #[trigger] set_once(params@, body@, j, x, v) ==> lookup(t@, x, t@.len())
                    is Some,
        decreases body.len() - k,
    {
        let ghost before = t@;
        let named: Option<Ident> = match &body[k] {
            Stmt::Assign { lval: LValue::Ident { ident, .. }, rval: Expr::Value(_) } => Some(
                *ident,
            ),
            _ => None,
        };
        match named {
            Some(x) => match known_value(consts, params, body, x) {
                Some(v) => {
                    t.push((x, v));
                    proof {
                        assert forall|y: Ident| lookup(before, y, before.len()) is Some implies lookup(
                            t@,
                            y,
                            t@.len(),
                        ) is Some by {
                            lemma_lookup_push(before, (x, v), y, before.len());
                        }
                        lemma_lookup_push(before, (x, v), x, before.len());
                        assert(lookup(t@, x, t@.len()) is Some);
                    }
                },
                None => {},
            },
            None => {},
        }
        proof {
            assert forall|y: Ident, w: Val, j: int|
                0 <= j < k + 1 && consts@.contains_key(y.id) && Val::spec_lower(consts@[y.id]) == w
                    && #[trigger] set_once(params@, body@, j, y, w) implies lookup(
                t@,
                y,
                t@.len(),
            ) is Some by {
                if j < k {
                    assert(lookup(before, y, before.len()) is Some);
                } else {
                    assert(sets(body@[k as int], y, w));
                    assert(named == Some(y));
                    assert(known(consts@, params@, body@, y, w));
                }
            }
        }
        k += 1;
    }
    proof {
        assert forall|x: Ident, v: Val| #[trigger]
            known(consts@, params@, body@, x, v) implies lookup(t@, x, t@.len()) is Some by {
            let j = choose|j: int| set_once(params@, body@, j, x, v);
            assert(set_once(params@, body@, j, x, v));
        }
    }
    t
}

/// The literal that an expression folds to, if it folds to one: a literal
/// itself, a name that the table `t` gives a literal for, an expression in
/// parentheses that folds to one, and an operator that is folded on what
/// its operands fold to.
pub open spec fn value_of(e: Expr, t: Seq<(Ident, Val)>) -> Option<Val>
    decreases e,
{
    match e {
        Expr::Value(v) => Some(v),
        Expr::Ident { ident, .. } => lookup(t, ident, t.len()),
        Expr::Parens(x) => value_of(*x, t),
        Expr::Urnary { op, expr, .. } => match value_of(*expr, t) {
            Some(v) => fold_unary(op, v),
            None => None,
        },
        Expr::Binary { op, lhs, rhs, .. } => match (value_of(*lhs, t), value_of(*rhs, t)) {
            (Some(a), Some(b)) => fold_binary(op, a, b),
            _ => None,
        },
        _ => None,
    }
}

/// `true` when the expressions `rs` are the expressions `es`, folded.
pub open spec fn exprs_folded(es: Seq<Expr>, rs: Seq<Expr>, t: Seq<(Ident, Val)>) -> bool
    decreases es,
{
    es.len() == rs.len() && forall|i: int| 0 <= i < es.len() ==> expr_folded(#[trigger] es[i], rs[i], t)
}

/// `true` when the initial values `rs` are the initial values `fs`, folded.
pub open spec fn inits_folded(fs: Seq<FieldInit>, rs: Seq<FieldInit>, t: Seq<(Ident, Val)>) -> bool
    decreases fs,
{
    fs.len() == rs.len() && forall|i: int|
        0 <= i < fs.len() ==> rs[i].ident == (#[trigger] fs[i]).ident && rs[i].ty == fs[i].ty
            && expr_folded(fs[i].init, rs[i].init, t)
}

/// `true` when `r` is the expression `e`, folded.
///
/// An expression that folds to a literal (see [`value_of`]) is that
/// literal. Any other expression keeps its form, with the operands of its
/// operators, the arguments of its calls, its indices and the items of its
/// initializers folded. A place (what stands under `&` or `*`, and both
/// sides of a field access) stays as it is.
pub open spec fn expr_folded(e: Expr, r: Expr, t: Seq<(Ident, Val)>) -> bool
    decreases e,
{
    match value_of(e, t) {
        Some(v) => r == Expr::Value(v),
        None => match e {
            Expr::Parens(x) => r matches Expr::Parens(y) && expr_folded(*x, *y, t),
            Expr::Urnary { op, expr, ty } => {
                &&& r matches Expr::Urnary { op: o2, expr: e2, ty: t2 }
                &&& o2 == op
                &&& t2 == ty
                &&& expr_folded(*expr, *e2, t)
            },
            Expr::Binary { op, lhs, rhs, ty } => {
                &&& r matches Expr::Binary { op: o2, lhs: l2, rhs: r2, ty: t2 }
                &&& o2 == op
                &&& t2 == ty
                &&& expr_folded(*lhs, *l2, t)
                &&& expr_folded(*rhs, *r2, t)
            },
            Expr::Array { ident, exprs, ty } => {
                &&& r matches Expr::Array { ident: i2, exprs: x2, ty: t2 }
                &&& i2 == ident
                &&& t2 == ty
                &&& exprs_folded(exprs@, x2@, t)
            },
            Expr::Call { path, args, type_args, def } => {
                &&& r matches Expr::Call { path: p2, args: a2, type_args: t2, def: d2 }
                &&& p2 == path
                &&& t2 == type_args
                &&& d2 == def
                &&& exprs_folded(args@, a2@, t)
            },
            Expr::TraitMeth { trait_, args, type_args, def } => {
                &&& r matches Expr::TraitMeth { trait_: p2, args: a2, type_args: t2, def: d2 }
                &&& p2 == trait_
                &&& t2 == type_args
                &&& d2 == def
                &&& exprs_folded(args@, a2@, t)
            },
            Expr::StructInit { path, fields, def } => {
                &&& r matches Expr::StructInit { path: p2, fields: f2, def: d2 }
                &&& p2 == path
                &&& d2 == def
                &&& inits_folded(fields@, f2@, t)
            },
            Expr::EnumInit { path, variant, items, def } => {
                &&& r matches Expr::EnumInit { path: p2, variant: v2, items: i2, def: d2 }
                &&& p2 == path
                &&& v2 == variant
                &&& d2 == def
                &&& exprs_folded(items@, i2@, t)
            },
            Expr::ArrayInit { items, ty } => {
                &&& r matches Expr::ArrayInit { items: i2, ty: t2 }
                &&& t2 == ty
                &&& exprs_folded(items@, i2@, t)
            },
            _ => r == e,
        },
    }
}

/// What is folded is a literal exactly if the expression folds to one.
pub proof fn lemma_folded_value(e: Expr, r: Expr, t: Seq<(Ident, Val)>)
    requires
        expr_folded(e, r, t),
    ensures
        match r {
            Expr::Value(v) => value_of(e, t) == Some(v),
            _ => value_of(e, t) is None,
        },
{
}

/// The literal that a binary operator yields on two literals, if it is
/// folded.
pub fn binary_value(op: BinOp, a: Val, b: Val) -> (r: Option<Val>)
    ensures
        r == fold_binary(op, a, b),
{
    match (a, b) {
        (Val::Int(x), Val::Int(y)) => match op {
            BinOp::Add => match x.checked_add(y) {
                Some(v) => Some(Val::Int(v)),
                None => None,
            },
            BinOp::Sub => match x.checked_sub(y) {
                Some(v) => Some(Val::Int(v)),
                None => None,
            },
            BinOp::Mul => match x.checked_mul(y) {
                Some(v) => Some(Val::Int(v)),
                None => None,
            },
            BinOp::Div => if x >= 0 && y > 0 {
                Some(Val::Int(x / y))
            } else {
                None
            },
            BinOp::Rem => if x >= 0 && y > 0 {
                Some(Val::Int(x % y))
            } else {
                None
            },
            BinOp::Lt => Some(Val::Bool(x < y)),
            BinOp::Le => Some(Val::Bool(x <= y)),
            BinOp::Ge => Some(Val::Bool(x >= y)),
            BinOp::Gt => Some(Val::Bool(x > y)),
            BinOp::Eq => Some(Val::Bool(x == y)),
            BinOp::Ne => Some(Val::Bool(x != y)),
            _ => None,
        },
        (Val::Bool(x), Val::Bool(y)) => match op {
            BinOp::And => Some(Val::Bool(x && y)),
            BinOp::Or => Some(Val::Bool(x || y)),
            _ => None,
        },
        (Val::Char(x), Val::Char(y)) => match op {
            BinOp::Eq => Some(Val::Bool(x == y)),
            BinOp::Ne => Some(Val::Bool(x != y)),
            _ => None,
        },
        _ => None,
    }
}

/// The literal that a unary operator yields on a literal, if it is folded.
pub fn unary_value(op: UnOp, a: Val) -> (r: Option<Val>)
    ensures
        r == fold_unary(op, a),
{
    match (op, a) {
        (UnOp::Not, Val::Bool(b)) => Some(Val::Bool(!b)),
        (UnOp::Not, Val::Int(x)) => Some(Val::Bool(x == 0)),
        (UnOp::OnesComp, Val::Int(x)) => Some(Val::Int(-1 - x)),
        _ => None,
    }
}

/// The expressions of a list, folded.
pub fn fold_exprs(es: Vec<Expr>, t: &Vec<(Ident, Val)>) -> (r: Vec<Expr>)
    ensures
        exprs_folded(es@, r@, t@),
    decreases es,
{
    let mut v = es;
    let mut i: usize = 0;
    while i < v.len()
        invariant
            i <= v.len(),
            v@.len() == es@.len(),
            forall|j: int| 0 <= j < i ==> expr_folded(#[trigger] es@[j], v@[j], t@),
            forall|j: int| i <= j < v@.len() ==> v@[j] == es@[j],
        decreases v.len() - i,
    {
        let ghost before = v@;
        let x = v.remove(i);
        let y = fold_expr(x, t);
        v.insert(i, y);
        assert forall|j: int| 0 <= j < i + 1 implies expr_folded(#[trigger] es@[j], v@[j], t@) by {
            if j < i {
                assert(v@[j] == before[j]);
            }
        }
        assert forall|j: int| i + 1 <= j < v@.len() implies v@[j] == es@[j] by {
            assert(v@[j] == before[j]);
        }
        i += 1;
    }
    v
}

/// The initial values of a struct initializer, folded.
pub fn fold_inits(fs: Vec<FieldInit>, t: &Vec<(Ident, Val)>) -> (r: Vec<FieldInit>)
    ensures
        inits_folded(fs@, r@, t@),
    decreases fs,
{
    let mut v = fs;
    let mut i: usize = 0;
    while i < v.len()
        invariant
            i <= v.len(),
            v@.len() == fs@.len(),
            forall|j: int|
                0 <= j < i ==> v@[j].ident == (#[trigger] fs@[j]).ident && v@[j].ty == fs@[j].ty
                    && expr_folded(fs@[j].init, v@[j].init, t@),
            forall|j: int| i <= j < v@.len() ==> v@[j] == fs@[j],
        decreases v.len() - i,
    {
        let ghost before = v@;
        let x = v.remove(i);
        let init = fold_expr(x.init, t);
        v.insert(i, FieldInit { ident: x.ident, init, ty: x.ty });
        assert forall|j: int| 0 <= j < i + 1 implies v@[j].ident == (#[trigger] fs@[j]).ident
            && v@[j].ty == fs@[j].ty && expr_folded(fs@[j].init, v@[j].init, t@) by {
            if j < i {
                assert(v@[j] == before[j]);
            }
        }
        assert forall|j: int| i + 1 <= j < v@.len() implies v@[j] == fs@[j] by {
            assert(v@[j] == before[j]);
        }
        i += 1;
    }
    v
}

/// The expression `e`, folded; see [`expr_folded`].
pub fn fold_expr(e: Expr, t: &Vec<(Ident, Val)>) -> (r: Expr)
    ensures
        expr_folded(e, r, t@),
    decreases e,
{
    match e {
        Expr::Ident { ident, ty } => match find(t, ident) {
            Some(v) => Expr::Value(v),
            None => Expr::Ident { ident, ty },
        },
        Expr::Parens(x) => {
            let inner = fold_expr(*x, t);
            proof {
                lemma_folded_value(*x, inner, t@);
            }
            match inner {
                Expr::Value(v) => Expr::Value(v),
                other => Expr::Parens(Box::new(other)),
            }
        },
        Expr::Urnary { op, expr, ty } => {
            let inner = fold_expr(*expr, t);
            proof {
                lemma_folded_value(*expr, inner, t@);
            }
            match inner {
                Expr::Value(v) => match unary_value(op, v) {
                    Some(x) => Expr::Value(x),
                    None => Expr::Urnary { op, expr: Box::new(Expr::Value(v)), ty },
                },
                other => Expr::Urnary { op, expr: Box::new(other), ty },
            }
        },
        Expr::Binary { op, lhs, rhs, ty } => {
            let l = fold_expr(*lhs, t);
            let r = fold_expr(*rhs, t);
            proof {
                lemma_folded_value(*lhs, l, t@);
                lemma_folded_value(*rhs, r, t@);
            }
            match (l, r) {
                (Expr::Value(a), Expr::Value(b)) => match binary_value(op, a, b) {
                    Some(x) => Expr::Value(x),
                    None => Expr::Binary {
                        op,
                        lhs: Box::new(Expr::Value(a)),
                        rhs: Box::new(Expr::Value(b)),
                        ty,
                    },
                },
                (l, r) => Expr::Binary { op, lhs: Box::new(l), rhs: Box::new(r), ty },
            }
        },
        Expr::Array { ident, exprs, ty } => Expr::Array { ident, exprs: fold_exprs(exprs, t), ty },
        Expr::Call { path, args, type_args, def } => Expr::Call {
            path,
            args: fold_exprs(args, t),
            type_args,
            def,
        },
        Expr::TraitMeth { trait_, args, type_args, def } => Expr::TraitMeth {
            trait_,
            args: fold_exprs(args, t),
            type_args,
            def,
        },
        Expr::StructInit { path, fields, def } => Expr::StructInit {
            path,
            fields: fold_inits(fields, t),
            def,
        },
        Expr::EnumInit { path, variant, items, def } => Expr::EnumInit {
            path,
            variant,
            items: fold_exprs(items, t),
            def,
        },
        Expr::ArrayInit { items, ty } => Expr::ArrayInit { items: fold_exprs(items, t), ty },
        other => other,
    }
}


/// `true` when the statements `rs` are the statements `ss`, folded.
pub open spec fn stmts_folded(ss: Seq<Stmt>, rs: Seq<Stmt>, t: Seq<(Ident, Val)>) -> bool
    decreases ss,
{
    ss.len() == rs.len() && forall|i: int| 0 <= i < ss.len() ==> stmt_folded(#[trigger] ss[i], rs[i], t)
}

/// `true` when the arms `rs` are the arms `arms`, with their bodies folded.
pub open spec fn arms_folded(arms: Seq<MatchArm>, rs: Seq<MatchArm>, t: Seq<(Ident, Val)>) -> bool
    decreases arms,
{
    arms.len() == rs.len() && forall|i: int|
        0 <= i < arms.len() ==> rs[i].pat == (#[trigger] arms[i]).pat && stmts_folded(
            arms[i].blk.stmts@,
            rs[i].blk.stmts@,
t,
)
}

/// `true` when `r` is the statement `s`, folded: the statement keeps its
/// form, with each expression that is read in it folded, and each statement
/// in it folded. The place that is assigned to or read into stays as it is.
pub open spec fn stmt_folded(s: Stmt, r: Stmt, t: Seq<(Ident, Val)>) -> bool
    decreases s,
{
    match s {
        Stmt::Const(c) => {
            &&& r matches Stmt::Const(k)
            &&& k.ty == c.ty
            &&& k.ident == c.ident
            &&& k.is_global == c.is_global
            &&& expr_folded(c.init, k.init, t)
        },
        Stmt::Assign { lval, rval } => {
            &&& r matches Stmt::Assign { lval: l2, rval: r2 }
            &&& l2 == lval
            &&& expr_folded(rval, r2, t)
        },
        Stmt::Call { expr, def } => {
            &&& r matches Stmt::Call { expr: e2, def: d2 }
            &&& d2 == def
            &&& e2.path == expr.path
            &&& e2.type_args == expr.type_args
            &&& exprs_folded(expr.args@, e2.args@, t)
        },
        Stmt::TraitMeth { expr, def } => {
            &&& r matches Stmt::TraitMeth { expr: e2, def: d2 }
            &&& d2 == def
            &&& e2.trait_ == expr.trait_
            &&& e2.type_args == expr.type_args
            &&& exprs_folded(expr.args@, e2.args@, t)
        },
        Stmt::If { cond, blk, els } => {
            &&& r matches Stmt::If { cond: c2, blk: b2, els: e2 }
            &&& expr_folded(cond, c2, t)
            &&& stmts_folded(blk.stmts@, b2.stmts@, t)
            &&& match els {
                Some(b) => e2 matches Some(x) && stmts_folded(b.stmts@, x.stmts@, t),
                None => e2 is None,
            }
        },
        Stmt::While { cond, stmts } => {
            &&& r matches Stmt::While { cond: c2, stmts: b2 }
            &&& expr_folded(cond, c2, t)
            &&& stmts_folded(stmts.stmts@, b2.stmts@, t)
        },
        Stmt::Match { expr, arms, ty } => {
            &&& r matches Stmt::Match { expr: e2, arms: a2, ty: t2 }
            &&& t2 == ty
            &&& expr_folded(expr, e2, t)
            &&& arms_folded(arms@, a2@, t)
        },
        Stmt::Write { expr } => r matches Stmt::Write { expr: e2 } && expr_folded(expr, e2, t),
        Stmt::Ret(e, ty) => r matches Stmt::Ret(e2, t2) && t2 == ty && expr_folded(e, e2, t),
        Stmt::Block(b) => r matches Stmt::Block(b2) && stmts_folded(b.stmts@, b2.stmts@, t),
        _ => r == s,
    }
}

/// `true` when `r` is the function `f` with its body folded.
pub open spec fn func_folded(f: Func, r: Func, t: Seq<(Ident, Val)>) -> bool {
    &&& r.ret == f.ret
    &&& r.ident == f.ident
    &&& r.generics == f.generics
    &&& r.params == f.params
    &&& stmts_folded(f.stmts@, r.stmts@, t)
}

/// `true` when `r` is the function `f` with its body folded, each name
/// of the function that stands for one literal replaced by the literal
/// where it is read.
pub open spec fn func_propagated(f: Func, r: Func, consts: Map<usize, ast::Val>) -> bool {
    exists|t: Seq<(Ident, Val)>| #[trigger]
        table_for(consts, f.params@, f.stmts@, t) && func_folded(f, r, t)
}

/// `true` when `r` is the item `it`, folded: a function with its body
/// folded and its known names replaced, a constant with its initial value
/// folded, any other item as it is.
pub open spec fn item_folded(it: Item, r: Item, consts: Map<usize, ast::Val>) -> bool {
    match it {
        Item::Func(f) => r matches Item::Func(g) && func_propagated(f, g, consts),
        Item::Const(c) => {
            &&& r matches Item::Const(k)
            &&& k.ty == c.ty
            &&& k.ident == c.ident
            &&& k.is_global == c.is_global
            &&& expr_folded(c.init, k.init, Seq::empty())
        },
        _ => r == it,
    }
}

/// `true` when the items `rs` are the items `items`, folded.
pub open spec fn items_folded(items: Seq<Item>, rs: Seq<Item>, consts: Map<usize, ast::Val>) -> bool {
    items.len() == rs.len() && forall|i: int|
        0 <= i < items.len() ==> item_folded(#[trigger] items[i], rs[i], consts)
}

/// The statements of a list, folded.
pub fn fold_stmts(ss: Vec<Stmt>, t: &Vec<(Ident, Val)>) -> (r: Vec<Stmt>)
    ensures
        stmts_folded(ss@, r@, t@),
    decreases ss,
{
    let mut v = ss;
    let mut i: usize = 0;
    while i < v.len()
        invariant
            i <= v.len(),
            v@.len() == ss@.len(),
            forall|j: int| 0 <= j < i ==> stmt_folded(#[trigger] ss@[j], v@[j], t@),
            forall|j: int| i <= j < v@.len() ==> v@[j] == ss@[j],
        decreases v.len() - i,
    {
        let ghost before = v@;
        let x = v.remove(i);
        let y = fold_stmt(x, t);
        v.insert(i, y);
        assert forall|j: int| 0 <= j < i + 1 implies stmt_folded(#[trigger] ss@[j], v@[j], t@) by {
            if j < i {
                assert(v@[j] == before[j]);
            }
        }
        assert forall|j: int| i + 1 <= j < v@.len() implies v@[j] == ss@[j] by {
            assert(v@[j] == before[j]);
        }
        i += 1;
    }
    v
}

/// The arms of a match, with their bodies folded.
pub fn fold_arms(arms: Vec<MatchArm>, t: &Vec<(Ident, Val)>) -> (r: Vec<MatchArm>)
    ensures
        arms_folded(arms@, r@, t@),
    decreases arms,
{
    let mut v = arms;
    let mut i: usize = 0;
    while i < v.len()
        invariant
            i <= v.len(),
            v@.len() == arms@.len(),
            forall|j: int|
                0 <= j < i ==> v@[j].pat == (#[trigger] arms@[j]).pat && stmts_folded(
                    arms@[j].blk.stmts@,
                    v@[j].blk.stmts@,
t@,
),
            forall|j: int| i <= j < v@.len() ==> v@[j] == arms@[j],
        decreases v.len() - i,
    {
        let ghost before = v@;
        let x = v.remove(i);
        let stmts = fold_stmts(x.blk.stmts, t);
        v.insert(i, MatchArm { pat: x.pat, blk: Block { stmts } });
        assert forall|j: int| 0 <= j < i + 1 implies v@[j].pat == (#[trigger] arms@[j]).pat
            && stmts_folded(arms@[j].blk.stmts@, v@[j].blk.stmts@, t@) by {
            if j < i {
                assert(v@[j] == before[j]);
            }
        }
        assert forall|j: int| i + 1 <= j < v@.len() implies v@[j] == arms@[j] by {
            assert(v@[j] == before[j]);
        }
        i += 1;
    }
    v
}

/// The statement `s`, folded; see [`stmt_folded`].
pub fn fold_stmt(s: Stmt, t: &Vec<(Ident, Val)>) -> (r: Stmt)
    ensures
        stmt_folded(s, r, t@),
    decreases s,
{
    match s {
        Stmt::Const(c) => Stmt::Const(
            Const { ty: c.ty, ident: c.ident, init: fold_expr(c.init, t), is_global: c.is_global },
        ),
        Stmt::Assign { lval, rval } => Stmt::Assign { lval, rval: fold_expr(rval, t) },
        Stmt::Call { expr, def } => Stmt::Call {
            expr: CallExpr { path: expr.path, args: fold_exprs(expr.args, t), type_args: expr.type_args },
            def,
        },
        Stmt::TraitMeth { expr, def } => Stmt::TraitMeth {
            expr: TraitMethExpr {
                trait_: expr.trait_,
                args: fold_exprs(expr.args, t),
                type_args: expr.type_args,
            },
            def,
        },
        Stmt::If { cond, blk, els } => {
            let cond = fold_expr(cond, t);
            let blk = Block { stmts: fold_stmts(blk.stmts, t) };
            let els = match els {
                Some(b) => Some(Block { stmts: fold_stmts(b.stmts, t) }),
                None => None,
            };
            Stmt::If { cond, blk, els }
        },
        Stmt::While { cond, stmts } => Stmt::While {
            cond: fold_expr(cond, t),
            stmts: Block { stmts: fold_stmts(stmts.stmts, t) },
        },
        Stmt::Match { expr, arms, ty } => Stmt::Match {
            expr: fold_expr(expr, t),
            arms: fold_arms(arms, t),
            ty,
        },
        Stmt::Write { expr } => Stmt::Write { expr: fold_expr(expr, t) },
        Stmt::Ret(e, ty) => Stmt::Ret(fold_expr(e, t), ty),
        Stmt::Block(b) => Stmt::Block(Block { stmts: fold_stmts(b.stmts, t) }),
        other => other,
    }
}

/// The function `f` with its body folded.
pub fn fold_func(f: Func, t: &Vec<(Ident, Val)>) -> (r: Func)
    ensures
        func_folded(f, r, t@),
{
    Func {
        ret: f.ret,
        ident: f.ident,
        generics: f.generics,
        params: f.params,
        stmts: fold_stmts(f.stmts, t),
    }
}

/// The function `f` with its body folded and each of its names that
/// stands for one literal replaced by the literal where it is read;
/// `consts` holds the literals that the check pass noted.
pub fn propagate_func(f: Func, consts: &HashMap<usize, ast::Val>) -> (r: Func)
    ensures
        func_propagated(f, r, consts@),
{
    let t = known_table(consts, &f.params, &f.stmts);
    let r = fold_func(f, &t);
    assert(table_for(consts@, f.params@, f.stmts@, t@) && func_folded(f, r, t@));
    r
}

/// The items of a lowered program, folded: each operator whose operands
/// fold to literals is replaced by the literal it yields, and in each
/// function each name that stands for one literal by that literal.
pub fn fold_items(items: Vec<Item>, consts: &HashMap<usize, ast::Val>) -> (r: Vec<Item>)
    ensures
        items_folded(items@, r@, consts@),
{
    let mut v = items;
    let mut i: usize = 0;
    while i < v.len()
        invariant
            i <= v.len(),
            v@.len() == items@.len(),
            forall|j: int| 0 <= j < i ==> item_folded(#[trigger] items@[j], v@[j], consts@),
            forall|j: int| i <= j < v@.len() ==> v@[j] == items@[j],
        decreases v.len() - i,
    {
        let ghost before = v@;
        let x = v.remove(i);
        let y = match x {
            Item::Func(f) => Item::Func(propagate_func(f, consts)),
            Item::Const(c) => {
                let none: Vec<(Ident, Val)> = Vec::new();
                assert(none@ =~= Seq::<(Ident, Val)>::empty());
                Item::Const(
                    Const {
                        ty: c.ty,
                        ident: c.ident,
                        init: fold_expr(c.init, &none),
                        is_global: c.is_global,
                    },
                )
            },
            other => other,
        };
        v.insert(i, y);
        assert forall|j: int| 0 <= j < i + 1 implies item_folded(
            #[trigger] items@[j],
            v@[j],
            consts@,
        ) by {
            if j < i {
                assert(v@[j] == before[j]);
            }
        }
        assert forall|j: int| i + 1 <= j < v@.len() implies v@[j] == items@[j] by {
            assert(v@[j] == before[j]);
        }
        i += 1;
    }
    v
}

} // verus!
