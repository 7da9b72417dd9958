//! Which names of a lowered function stand for one literal: a name that the
//! function assigns once, by a literal, at the top of its body, and that
//! nothing else in the function can change.

use crate::ast::types as ast;
use crate::ast::types::Ident;
use crate::lir::lower::{Binding, Expr, FieldInit, LValue, MatchArm, Param, Pat, Stmt, Val};
use std::collections::HashMap;
use vstd::prelude::*;

verus! {

/// `true` when one of the first `n` expressions takes an address.
pub open spec fn addr_seq(es: Seq<Expr>, n: nat) -> bool
    decreases es, n,
{
    if n == 0 || n > es.len() {
        false
    } else {
        addr_seq(es, (n - 1) as nat) || takes_addr(es[n - 1])
    }
}

/// `true` when one of the first `n` initial values takes an address.
pub open spec fn addr_inits(fs: Seq<FieldInit>, n: nat) -> bool
    decreases fs, n,
{
    if n == 0 || n > fs.len() {
        false
    } else {
        addr_inits(fs, (n - 1) as nat) || takes_addr(fs[n - 1].init)
    }
}

/// `true` when an `&` stands in the expression: what it is applied to can
/// be changed through the pointer.
pub open spec fn takes_addr(e: Expr) -> bool
    decreases e,
{
    match e {
        Expr::AddrOf(_) => true,
        Expr::Deref { expr, .. } => takes_addr(*expr),
        Expr::Array { exprs, .. } => addr_seq(exprs@, exprs@.len()),
        Expr::Urnary { expr, .. } => takes_addr(*expr),
        Expr::Binary { lhs, rhs, .. } => takes_addr(*lhs) || takes_addr(*rhs),
        Expr::Parens(x) => takes_addr(*x),
        Expr::Call { args, .. } => addr_seq(args@, args@.len()),
        Expr::TraitMeth { args, .. } => addr_seq(args@, args@.len()),
        Expr::FieldAccess { lhs, rhs, .. } => takes_addr(*lhs) || takes_addr(*rhs),
        Expr::StructInit { fields, .. } => addr_inits(fields@, fields@.len()),
        Expr::EnumInit { items, .. } => addr_seq(items@, items@.len()),
        Expr::ArrayInit { items, .. } => addr_seq(items@, items@.len()),
        _ => false,
    }
}

/// An address that is taken among the first expressions is taken among
/// more of them.
pub proof fn lemma_addr_seq_later(es: Seq<Expr>, n: nat, m: nat)
    requires
        n <= m <= es.len(),
        addr_seq(es, n),
    ensures
        addr_seq(es, m),
    decreases m - n,
{
    if n < m {
        lemma_addr_seq_later(es, n, (m - 1) as nat);
    }
}

/// An address that is taken among the first initial values is taken among
/// more of them.
pub proof fn lemma_addr_inits_later(fs: Seq<FieldInit>, n: nat, m: nat)
    requires
        n <= m <= fs.len(),
        addr_inits(fs, n),
    ensures
        addr_inits(fs, m),
    decreases m - n,
{
    if n < m {
        lemma_addr_inits_later(fs, n, (m - 1) as nat);
    }
}

/// `true` when one of the expressions takes an address.
pub fn exprs_take_addr(es: &Vec<Expr>) -> (r: bool)
    ensures
        r == addr_seq(es@, es@.len()),
    decreases es,
{
    let mut i: usize = 0;
    while i < es.len()
        invariant
            i <= es.len(),
            !addr_seq(es@, i as nat),
        decreases es.len() - i,
    {
        if expr_takes_addr(&es[i]) {
            proof {
                lemma_addr_seq_later(es@, (i + 1) as nat, es@.len());
            }
            return true;
        }
        i += 1;
    }
    false
}

/// `true` when one of the initial values takes an address.
pub fn inits_take_addr(fs: &Vec<FieldInit>) -> (r: bool)
    ensures
        r == addr_inits(fs@, fs@.len()),
    decreases fs,
{
    let mut i: usize = 0;
    while i < fs.len()
        invariant
            i <= fs.len(),
            !addr_inits(fs@, i as nat),
        decreases fs.len() - i,
    {
        if expr_takes_addr(&fs[i].init) {
            proof {
                lemma_addr_inits_later(fs@, (i + 1) as nat, fs@.len());
            }
            return true;
        }
        i += 1;
    }
    false
}

/// `true` when an `&` stands in the expression; see [`takes_addr`].
pub fn expr_takes_addr(e: &Expr) -> (r: bool)
    ensures
        r == takes_addr(*e),
    decreases e,
{
    match e {
        Expr::AddrOf(_) => true,
        Expr::Deref { expr, .. } => expr_takes_addr(expr),
        Expr::Array { exprs, .. } => exprs_take_addr(exprs),
        Expr::Urnary { expr, .. } => expr_takes_addr(expr),
        Expr::Binary { lhs, rhs, .. } => expr_takes_addr(lhs) || expr_takes_addr(rhs),
        Expr::Parens(x) => expr_takes_addr(x),
        Expr::Call { args, .. } => exprs_take_addr(args),
        Expr::TraitMeth { args, .. } => exprs_take_addr(args),
        Expr::FieldAccess { lhs, rhs, .. } => expr_takes_addr(lhs) || expr_takes_addr(rhs),
        Expr::StructInit { fields, .. } => inits_take_addr(fields),
        Expr::EnumInit { items, .. } => exprs_take_addr(items),
        Expr::ArrayInit { items, .. } => exprs_take_addr(items),
        _ => false,
    }
}

/// The variable at the base of a place.
pub open spec fn lv_base(l: LValue) -> Ident
    decreases l,
{
    match l {
        LValue::Ident { ident, .. } => ident,
        LValue::Deref { expr, .. } => lv_base(*expr),
        LValue::Array { ident, .. } => ident,
        LValue::FieldAccess { lhs, .. } => lv_base(*lhs),
    }
}

/// The variable at the base of a place.
pub fn base_of(l: &LValue) -> (r: Ident)
    ensures
        r == lv_base(*l),
    decreases l,
{
    match l {
        LValue::Ident { ident, .. } => *ident,
        LValue::Deref { expr, .. } => base_of(expr),
        LValue::Array { ident, .. } => *ident,
        LValue::FieldAccess { lhs, .. } => base_of(lhs),
    }
}

/// `true` when an index of the place takes an address.
pub open spec fn lv_addr(l: LValue) -> bool
    decreases l,
{
    match l {
        LValue::Ident { .. } => false,
        LValue::Deref { expr, .. } => lv_addr(*expr),
        LValue::Array { exprs, .. } => addr_seq(exprs@, exprs@.len()),
        LValue::FieldAccess { lhs, rhs, .. } => lv_addr(*lhs) || lv_addr(*rhs),
    }
}

/// `true` when an index of the place takes an address.
pub fn place_takes_addr(l: &LValue) -> (r: bool)
    ensures
        r == lv_addr(*l),
    decreases l,
{
    match l {
        LValue::Ident { .. } => false,
        LValue::Deref { expr, .. } => place_takes_addr(expr),
        LValue::Array { exprs, .. } => exprs_take_addr(exprs),
        LValue::FieldAccess { lhs, rhs, .. } => place_takes_addr(lhs) || place_takes_addr(rhs),
    }
}

/// `true` when one of the first `n` patterns binds the name `x`.
pub open spec fn binds_seq(ps: Seq<Pat>, x: Ident, n: nat) -> bool
    decreases ps, n,
{
    if n == 0 || n > ps.len() {
        false
    } else {
        binds_seq(ps, x, (n - 1) as nat) || binds(ps[n - 1], x)
    }
}

/// `true` when the pattern binds the name `x`.
pub open spec fn binds(p: Pat, x: Ident) -> bool
    decreases p,
{
    match p {
        Pat::Bind(Binding::Wild(y)) => y == x,
        Pat::Bind(Binding::Value(_)) => false,
        Pat::Enum { items, .. } => binds_seq(items@, x, items@.len()),
        Pat::Array { items, .. } => binds_seq(items@, x, items@.len()),
    }
}

/// A name that is bound among the first patterns is bound among more.
pub proof fn lemma_binds_seq_later(ps: Seq<Pat>, x: Ident, n: nat, m: nat)
    requires
        n <= m <= ps.len(),
        binds_seq(ps, x, n),
    ensures
        binds_seq(ps, x, m),
    decreases m - n,
{
    if n < m {
        lemma_binds_seq_later(ps, x, n, (m - 1) as nat);
    }
}

/// `true` when one of the patterns binds the name `x`.
pub fn pats_bind(ps: &Vec<Pat>, x: Ident) -> (r: bool)
    ensures
        r == binds_seq(ps@, x, ps@.len()),
    decreases ps,
{
    let mut i: usize = 0;
    while i < ps.len()
        invariant
            i <= ps.len(),
            !binds_seq(ps@, x, i as nat),
        decreases ps.len() - i,
    {
        if pat_binds(&ps[i], x) {
            proof {
                lemma_binds_seq_later(ps@, x, (i + 1) as nat, ps@.len());
            }
            return true;
        }
        i += 1;
    }
    false
}

/// `true` when the pattern binds the name `x`.
pub fn pat_binds(p: &Pat, x: Ident) -> (r: bool)
    ensures
        r == binds(*p, x),
    decreases p,
{
    match p {
        Pat::Bind(Binding::Wild(y)) => *y == x,
        Pat::Bind(Binding::Value(_)) => false,
        Pat::Enum { items, .. } => pats_bind(items, x),
        Pat::Array { items, .. } => pats_bind(items, x),
    }
}

/// `true` when something among the first `n` statements may change `x`.
pub open spec fn block_changes(ss: Seq<Stmt>, x: Ident, n: nat) -> bool
    decreases ss, n,
{
    if n == 0 || n > ss.len() {
        false
    } else {
        block_changes(ss, x, (n - 1) as nat) || changes(ss[n - 1], x)
    }
}

/// `true` when something in the first `n` arms may change `x`: a pattern
/// that binds it, or a statement of a body.
pub open spec fn arms_change(arms: Seq<MatchArm>, x: Ident, n: nat) -> bool
    decreases arms, n,
{
    if n == 0 || n > arms.len() {
        false
    } else {
        arms_change(arms, x, (n - 1) as nat) || binds(arms[n - 1].pat, x) || block_changes(
            arms[n - 1].blk.stmts@,
            x,
            arms[n - 1].blk.stmts@.len(),
        )
    }
}

/// `true` when the statement may change the variable `x`: it assigns to a
/// place in `x`, declares `x`, reads into a place, binds `x` in a pattern,
/// takes an address in one of its expressions, or holds a statement that
/// does.
pub open spec fn changes(s: Stmt, x: Ident) -> bool
    decreases s,
{
    match s {
        Stmt::Const(c) => c.ident == x || takes_addr(c.init),
        Stmt::Assign { lval, rval } => lv_base(lval) == x || lv_addr(lval) || takes_addr(rval),
        Stmt::Call { expr, .. } => addr_seq(expr.args@, expr.args@.len()),
        Stmt::TraitMeth { expr, .. } => addr_seq(expr.args@, expr.args@.len()),
        Stmt::If { cond, blk, els } => takes_addr(cond) || block_changes(
            blk.stmts@,
            x,
            blk.stmts@.len(),
        ) || (match els {
            Some(b) => block_changes(b.stmts@, x, b.stmts@.len()),
            None => false,
        }),
        Stmt::While { cond, stmts } => takes_addr(cond) || block_changes(
            stmts.stmts@,
            x,
            stmts.stmts@.len(),
        ),
        Stmt::Match { expr, arms, .. } => takes_addr(expr) || arms_change(arms@, x, arms@.len()),
        Stmt::Read(_) => true,
        Stmt::Write { expr } => takes_addr(expr),
        Stmt::Ret(e, _) => takes_addr(e),
        Stmt::Exit => false,
        Stmt::Block(b) => block_changes(b.stmts@, x, b.stmts@.len()),
    }
}

/// What may change `x` among the first statements may change it among
/// more of them.
pub proof fn lemma_block_changes_later(ss: Seq<Stmt>, x: Ident, n: nat, m: nat)
    requires
        n <= m <= ss.len(),
        block_changes(ss, x, n),
    ensures
        block_changes(ss, x, m),
    decreases m - n,
{
    if n < m {
        lemma_block_changes_later(ss, x, n, (m - 1) as nat);
    }
}

/// What may change `x` in the first arms may change it in more of them.
pub proof fn lemma_arms_change_later(arms: Seq<MatchArm>, x: Ident, n: nat, m: nat)
    requires
        n <= m <= arms.len(),
        arms_change(arms, x, n),
    ensures
        arms_change(arms, x, m),
    decreases m - n,
{
    if n < m {
        lemma_arms_change_later(arms, x, n, (m - 1) as nat);
    }
}

/// `true` when a statement of the list may change `x`.
pub fn stmts_change(ss: &Vec<Stmt>, x: Ident) -> (r: bool)
    ensures
        r == block_changes(ss@, x, ss@.len()),
    decreases ss,
{
    let mut i: usize = 0;
    while i < ss.len()
        invariant
            i <= ss.len(),
            !block_changes(ss@, x, i as nat),
        decreases ss.len() - i,
    {
        if stmt_changes(&ss[i], x) {
            proof {
                lemma_block_changes_later(ss@, x, (i + 1) as nat, ss@.len());
            }
            return true;
        }
        i += 1;
    }
    false
}

/// `true` when something in the arms may change `x`.
pub fn arms_do_change(arms: &Vec<MatchArm>, x: Ident) -> (r: bool)
    ensures
        r == arms_change(arms@, x, arms@.len()),
    decreases arms,
{
    let mut i: usize = 0;
    while i < arms.len()
        invariant
            i <= arms.len(),
            !arms_change(arms@, x, i as nat),
        decreases arms.len() - i,
    {
        if pat_binds(&arms[i].pat, x) || stmts_change(&arms[i].blk.stmts, x) {
            proof {
                lemma_arms_change_later(arms@, x, (i + 1) as nat, arms@.len());
            }
            return true;
        }
        i += 1;
    }
    false
}

/// `true` when the statement may change the variable `x`; see
/// [`changes`].
pub fn stmt_changes(s: &Stmt, x: Ident) -> (r: bool)
    ensures
        r == changes(*s, x),
    decreases s,
{
    match s {
        Stmt::Const(c) => c.ident == x || expr_takes_addr(&c.init),
        Stmt::Assign { lval, rval } => base_of(lval) == x || place_takes_addr(lval)
            || expr_takes_addr(rval),
        Stmt::Call { expr, .. } => exprs_take_addr(&expr.args),
        Stmt::TraitMeth { expr, .. } => exprs_take_addr(&expr.args),
        Stmt::If { cond, blk, els } => {
            if expr_takes_addr(cond) || stmts_change(&blk.stmts, x) {
                true
            } else {
                match els {
                    Some(b) => stmts_change(&b.stmts, x),
                    None => false,
                }
            }
        },
        Stmt::While { cond, stmts } => expr_takes_addr(cond) || stmts_change(&stmts.stmts, x),
        Stmt::Match { expr, arms, .. } => expr_takes_addr(expr) || arms_do_change(arms, x),
        Stmt::Read(_) => true,
        Stmt::Write { expr } => expr_takes_addr(expr),
        Stmt::Ret(e, _) => expr_takes_addr(e),
        Stmt::Exit => false,
        Stmt::Block(b) => stmts_change(&b.stmts, x),
    }
}

/// `true` when the statement is the assignment of the literal `v` to the
/// variable `x`.
pub open spec fn sets(s: Stmt, x: Ident, v: Val) -> bool {
    s matches Stmt::Assign { lval: LValue::Ident { ident, .. }, rval: Expr::Value(w) } && ident == x
        && w == v
}

/// `true` when one of the first `n` parameters has the name `x`.
pub open spec fn param_named(ps: Seq<Param>, x: Ident, n: nat) -> bool
    decreases n,
{
    if n == 0 || n > ps.len() {
        false
    } else {
        param_named(ps, x, (n - 1) as nat) || ps[n - 1].ident == x
    }
}

/// A parameter named among the first is named among more.
pub proof fn lemma_param_named_later(ps: Seq<Param>, x: Ident, n: nat, m: nat)
    requires
        n <= m <= ps.len(),
        param_named(ps, x, n),
    ensures
        param_named(ps, x, m),
    decreases m - n,
{
    if n < m {
        lemma_param_named_later(ps, x, n, (m - 1) as nat);
    }
}

/// `true` when a parameter has the name `x`.
pub fn is_param(ps: &Vec<Param>, x: Ident) -> (r: bool)
    ensures
        r == param_named(ps@, x, ps@.len()),
{
    let mut i: usize = 0;
    while i < ps.len()
        invariant
            i <= ps.len(),
            !param_named(ps@, x, i as nat),
        decreases ps.len() - i,
    {
        if ps[i].ident == x {
            proof {
                lemma_param_named_later(ps@, x, (i + 1) as nat, ps@.len());
            }
            return true;
        }
        i += 1;
    }
    false
}

/// `true` when the statement at place `k` of the body of a function is the
/// one thing in the function that can change `x`, and it sets `x` to the
/// literal `v`: `x` is no parameter, the statement is `x = v`, and no
/// other statement of the body may change `x`.
pub open spec fn set_once(params: Seq<Param>, body: Seq<Stmt>, k: int, x: Ident, v: Val) -> bool {
    &&& 0 <= k < body.len()
    &&& sets(body[k], x, v)
    &&& !param_named(params, x, params.len())
    &&& forall|j: int| 0 <= j < body.len() && j != k ==> !changes(#[trigger] body[j], x)
}

/// `true` when the variable `x` stands for the literal `v` in the whole
/// function: the check pass noted `v` as the literal assigned to `x`, and a
/// statement at the top of the body sets `x` to `v` and is the one thing
/// in the function that can change `x`.
pub open spec fn known(consts: Map<usize, ast::Val>, params: Seq<Param>, body: Seq<Stmt>, x: Ident, v: Val) -> bool {
    &&& consts.contains_key(x.id)
    &&& Val::spec_lower(consts[x.id]) == v
    &&& exists|k: int| set_once(params, body, k, x, v)
}

/// The literal that the variable `x` stands for in the function, if it
/// stands for one; see [`known`].
pub fn known_value(consts: &HashMap<usize, ast::Val>, params: &Vec<Param>, body: &Vec<Stmt>, x: Ident) -> (r:
    Option<Val>)
    ensures
        match r {
            Some(v) => known(consts@, params@, body@, x, v),
            None => forall|v: Val| !known(consts@, params@, body@, x, v),
        },
{
    let v = match consts.get(&x.id) {
        Some(w) => Val::lower(*w),
        None => {
            return None;
        },
    };
    if is_param(params, x) {
        return None;
    }
    // The place of the first statement that may change `x`.
    let mut k: usize = 0;
    while k < body.len() && !stmt_changes(&body[k], x)
        invariant
            k <= body.len(),
            forall|j: int| 0 <= j < k ==> !changes(#[trigger] body@[j], x),
        decreases body.len() - k,
    {
        k += 1;
    }
    if k >= body.len() {
        assert forall|w: Val| !known(consts@, params@, body@, x, w) by {
            assert forall|j: int| !set_once(params@, body@, j, x, w) by {
                if 0 <= j < body@.len() && sets(body@[j], x, w) {
                    assert(changes(body@[j], x));
                }
            }
        }
        return None;
    }
    let first = k;
    let is_set = match &body[first] {
        Stmt::Assign { lval: LValue::Ident { ident, .. }, rval: Expr::Value(w) } => *ident == x
            && *w == v,
        _ => false,
    };
    let mut rest: usize = first + 1;
    while rest < body.len() && !stmt_changes(&body[rest], x)
        invariant
            first < rest <= body.len(),
            forall|j: int| first < j < rest ==> !changes(#[trigger] body@[j], x),
        decreases body.len() - rest,
    {
        rest += 1;
    }
    if is_set && rest >= body.len() {
        assert(set_once(params@, body@, first as int, x, v));
        Some(v)
    } else {
        assert forall|w: Val| !known(consts@, params@, body@, x, w) by {
            if w == v {
                assert forall|j: int| !set_once(params@, body@, j, x, w) by {
                    if set_once(params@, body@, j, x, w) {
                        assert(changes(body@[j], x));
                        assert(changes(body@[first as int], x));
                        if j != first {
                            assert(!changes(body@[first as int], x));
                        }
                        if rest < body@.len() {
                            assert(changes(body@[rest as int], x));
                            assert(!changes(body@[rest as int], x));
                        }
                    }
                }
            }
        }
        None
    }
}

} // verus!
