//! Which variables a function body reads, and whether it returns a value.

use crate::ast::types::{Expr, Expression, FieldInit, Ident, MatchArm, Statement, Stmt};
use vstd::prelude::*;

verus! {

/// `true` when one of the first `n` expressions of `es` reads `x`.
pub open spec fn reads_seq(es: Seq<Expression>, x: Ident, n: nat) -> bool
    decreases es, n,
{
    if n == 0 || n > es.len() {
        false
    } else {
        reads_seq(es, x, (n - 1) as nat) || reads(es[n - 1], x, false)
    }
}

/// `true` when one of the first `n` initial values of `fs` reads `x`.
pub open spec fn reads_inits(fs: Seq<FieldInit>, x: Ident, n: nat) -> bool
    decreases fs, n,
{
    if n == 0 || n > fs.len() {
        false
    } else {
        reads_inits(fs, x, (n - 1) as nat) || reads(fs[n - 1].init, x, false)
    }
}

/// `true` when the expression `e` reads the variable `x`: `x` is named in
/// it. With `field`, `e` is the right side of a field access, where a name
/// at the head is the name of a field and reads nothing; the indices behind
/// it are read as anywhere else.
pub open spec fn reads(e: Expression, x: Ident, field: bool) -> bool
    decreases e, 0nat,
{
    match e.val {
        Expr::Value(_) => false,
        Expr::Ident(y) => !field && y == x,
        Expr::AddrOf(inner) => reads(*inner, x, false),
        Expr::Deref { expr, .. } => reads(*expr, x, false),
        Expr::Array { ident, exprs } => (!field && ident == x) || reads_seq(exprs@, x, exprs@.len()),
        Expr::Urnary { expr, .. } => reads(*expr, x, false),
        Expr::Binary { lhs, rhs, .. } => reads(*lhs, x, false) || reads(*rhs, x, false),
        Expr::Parens(inner) => reads(*inner, x, false),
        Expr::Call { args, .. } => reads_seq(args@, x, args@.len()),
        Expr::TraitMeth { args, .. } => reads_seq(args@, x, args@.len()),
        Expr::FieldAccess { lhs, rhs } => reads(*lhs, x, field) || reads(*rhs, x, true),
        Expr::StructInit { fields, .. } => reads_inits(fields@, x, fields@.len()),
        Expr::EnumInit { items, .. } => reads_seq(items@, x, items@.len()),
        Expr::ArrayInit { items } => reads_seq(items@, x, items@.len()),
    }
}

/// `true` when one of the first `n` statements of a block reads `x`.
pub open spec fn block_reads(stmts: Seq<Statement>, x: Ident, n: nat) -> bool
    decreases stmts, n,
{
    if n == 0 || n > stmts.len() {
        false
    } else {
        block_reads(stmts, x, (n - 1) as nat) || stmt_reads(stmts[n - 1], x)
    }
}

/// `true` when the body of one of the first `n` arms reads `x`.
pub open spec fn arms_read(arms: Seq<MatchArm>, x: Ident, n: nat) -> bool
    decreases arms, n,
{
    if n == 0 || n > arms.len() {
        false
    } else {
        arms_read(arms, x, (n - 1) as nat) || block_reads(
            arms[n - 1].blk.stmts@,
            x,
            arms[n - 1].blk.stmts@.len(),
        )
    }
}

/// `true` when the statement `s` reads the variable `x`. The left side of
/// a `let` declares its variable and does not read it; the left side of
/// any other assignment counts as read.
pub open spec fn stmt_reads(s: Statement, x: Ident) -> bool
    decreases s,
{
    match s.val {
        Stmt::Const(c) => reads(c.init, x, false),
        Stmt::Assign { lval, rval, is_let, .. } => reads(rval, x, false) || (!is_let && reads(
            lval,
            x,
            false,
        )),
        Stmt::AssignOp { lval, rval, .. } => reads(rval, x, false) || reads(lval, x, false),
        Stmt::Call(e) => reads(e, x, false),
        Stmt::TraitMeth(e) => reads(e, x, false),
        Stmt::If { cond, blk, els } => reads(cond, x, false) || block_reads(
            blk.stmts@,
            x,
            blk.stmts@.len(),
        ) || match els {
            Some(b) => block_reads(b.stmts@, x, b.stmts@.len()),
            None => false,
        },
        Stmt::While { cond, blk } => reads(cond, x, false) || block_reads(
            blk.stmts@,
            x,
            blk.stmts@.len(),
        ),
        Stmt::Match { expr, arms } => reads(expr, x, false) || arms_read(arms@, x, arms@.len()),
        Stmt::Read(e) => reads(e, x, false),
        Stmt::Write { expr } => reads(expr, x, false),
        Stmt::Ret(e) => reads(e, x, false),
        Stmt::Exit => false,
        Stmt::Block(b) => block_reads(b.stmts@, x, b.stmts@.len()),
    }
}

/// `true` when one of the first `n` statements of a block returns a value.
pub open spec fn block_returns(stmts: Seq<Statement>, n: nat) -> bool
    decreases stmts, n,
{
    if n == 0 || n > stmts.len() {
        false
    } else {
        block_returns(stmts, (n - 1) as nat) || stmt_returns(stmts[n - 1])
    }
}

/// `true` when the body of one of the first `n` arms returns a value.
pub open spec fn arms_return(arms: Seq<MatchArm>, n: nat) -> bool
    decreases arms, n,
{
    if n == 0 || n > arms.len() {
        false
    } else {
        arms_return(arms, (n - 1) as nat) || block_returns(
            arms[n - 1].blk.stmts@,
            arms[n - 1].blk.stmts@.len(),
        )
    }
}

/// `true` when the statement `s` is a `return` with a value or holds one.
pub open spec fn stmt_returns(s: Statement) -> bool
    decreases s,
{
    match s.val {
        Stmt::Ret(_) => true,
        Stmt::If { blk, els, .. } => block_returns(blk.stmts@, blk.stmts@.len()) || match els {
            Some(b) => block_returns(b.stmts@, b.stmts@.len()),
            None => false,
        },
        Stmt::While { blk, .. } => block_returns(blk.stmts@, blk.stmts@.len()),
        Stmt::Match { arms, .. } => arms_return(arms@, arms@.len()),
        Stmt::Block(b) => block_returns(b.stmts@, b.stmts@.len()),
        _ => false,
    }
}

/// `true` when one of the expressions of `es` reads `x`.
pub fn exprs_read(es: &Vec<Expression>, x: Ident) -> (r: bool)
    ensures
        r == reads_seq(es@, x, es@.len()),
    decreases es,
{
    let mut i: usize = 0;
    while i < es.len()
        invariant
            i <= es.len(),
            !reads_seq(es@, x, i as nat),
        decreases es.len() - i,
    {
        if expr_reads(&es[i], x, false) {
            proof {
                lemma_reads_seq_later(es@, x, (i + 1) as nat, es@.len());
            }
            return true;
        }
        i += 1;
    }
    false
}

/// What is read among the first expressions is read among more of them.
pub proof fn lemma_reads_seq_later(es: Seq<Expression>, x: Ident, n: nat, m: nat)
    requires
        n <= m <= es.len(),
        reads_seq(es, x, n),
    ensures
        reads_seq(es, x, m),
    decreases m - n,
{
    if n < m {
        lemma_reads_seq_later(es, x, n, (m - 1) as nat);
    }
}

/// What is read among the first initial values is read among more of them.
pub proof fn lemma_reads_inits_later(fs: Seq<FieldInit>, x: Ident, n: nat, m: nat)
    requires
        n <= m <= fs.len(),
        reads_inits(fs, x, n),
    ensures
        reads_inits(fs, x, m),
    decreases m - n,
{
    if n < m {
        lemma_reads_inits_later(fs, x, n, (m - 1) as nat);
    }
}

/// `true` when one of the initial values of `fs` reads `x`.
pub fn inits_read(fs: &Vec<FieldInit>, x: Ident) -> (r: bool)
    ensures
        r == reads_inits(fs@, x, fs@.len()),
    decreases fs,
{
    let mut i: usize = 0;
    while i < fs.len()
        invariant
            i <= fs.len(),
            !reads_inits(fs@, x, i as nat),
        decreases fs.len() - i,
    {
        if expr_reads(&fs[i].init, x, false) {
            proof {
                lemma_reads_inits_later(fs@, x, (i + 1) as nat, fs@.len());
            }
            return true;
        }
        i += 1;
    }
    false
}

/// `true` when the expression `e` reads the variable `x`; see [`reads`].
pub fn expr_reads(e: &Expression, x: Ident, field: bool) -> (r: bool)
    ensures
        r == reads(*e, x, field),
    decreases e,
{
    match &e.val {
        Expr::Value(_) => false,
        Expr::Ident(y) => !field && *y == x,
        Expr::AddrOf(inner) => expr_reads(inner, x, false),
        Expr::Deref { expr, .. } => expr_reads(expr, x, false),
        Expr::Array { ident, exprs } => (!field && *ident == x) || exprs_read(exprs, x),
        Expr::Urnary { expr, .. } => expr_reads(expr, x, false),
        Expr::Binary { lhs, rhs, .. } => expr_reads(lhs, x, false) || expr_reads(rhs, x, false),
        Expr::Parens(inner) => expr_reads(inner, x, false),
        Expr::Call { args, .. } => exprs_read(args, x),
        Expr::TraitMeth { args, .. } => exprs_read(args, x),
        Expr::FieldAccess { lhs, rhs } => expr_reads(lhs, x, field) || expr_reads(rhs, x, true),
        Expr::StructInit { fields, .. } => inits_read(fields, x),
        Expr::EnumInit { items, .. } => exprs_read(items, x),
        Expr::ArrayInit { items } => exprs_read(items, x),
    }
}

/// What is read among the first statements is read among more of them.
pub proof fn lemma_block_reads_later(stmts: Seq<Statement>, x: Ident, n: nat, m: nat)
    requires
        n <= m <= stmts.len(),
        block_reads(stmts, x, n),
    ensures
        block_reads(stmts, x, m),
    decreases m - n,
{
    if n < m {
        lemma_block_reads_later(stmts, x, n, (m - 1) as nat);
    }
}

/// What is read in the first arms is read in more of them.
pub proof fn lemma_arms_read_later(arms: Seq<MatchArm>, x: Ident, n: nat, m: nat)
    requires
        n <= m <= arms.len(),
        arms_read(arms, x, n),
    ensures
        arms_read(arms, x, m),
    decreases m - n,
{
    if n < m {
        lemma_arms_read_later(arms, x, n, (m - 1) as nat);
    }
}

/// `true` when a statement of the block reads `x`.
pub fn stmts_read(stmts: &Vec<Statement>, x: Ident) -> (r: bool)
    ensures
        r == block_reads(stmts@, x, stmts@.len()),
    decreases stmts,
{
    let mut i: usize = 0;
    while i < stmts.len()
        invariant
            i <= stmts.len(),
            !block_reads(stmts@, x, i as nat),
        decreases stmts.len() - i,
    {
        if stmt_is_read(&stmts[i], x) {
            proof {
                lemma_block_reads_later(stmts@, x, (i + 1) as nat, stmts@.len());
            }
            return true;
        }
        i += 1;
    }
    false
}

/// `true` when the body of an arm reads `x`.
pub fn arms_are_read(arms: &Vec<MatchArm>, x: Ident) -> (r: bool)
    ensures
        r == arms_read(arms@, x, arms@.len()),
    decreases arms,
{
    let mut i: usize = 0;
    while i < arms.len()
        invariant
            i <= arms.len(),
            !arms_read(arms@, x, i as nat),
        decreases arms.len() - i,
    {
        if stmts_read(&arms[i].blk.stmts, x) {
            proof {
                lemma_arms_read_later(arms@, x, (i + 1) as nat, arms@.len());
            }
            return true;
        }
        i += 1;
    }
    false
}

/// `true` when the statement `s` reads the variable `x`; see
/// [`stmt_reads`].
pub fn stmt_is_read(s: &Statement, x: Ident) -> (r: bool)
    ensures
        r == stmt_reads(*s, x),
    decreases s,
{
    match &s.val {
        Stmt::Const(c) => expr_reads(&c.init, x, false),
        Stmt::Assign { lval, rval, is_let, .. } => expr_reads(rval, x, false) || (!*is_let
            && expr_reads(lval, x, false)),
        Stmt::AssignOp { lval, rval, .. } => expr_reads(rval, x, false) || expr_reads(
            lval,
            x,
            false,
        ),
        Stmt::Call(e) => expr_reads(e, x, false),
        Stmt::TraitMeth(e) => expr_reads(e, x, false),
        Stmt::If { cond, blk, els } => {
            if expr_reads(cond, x, false) || stmts_read(&blk.stmts, x) {
                true
            } else {
                match els {
                    Some(b) => stmts_read(&b.stmts, x),
                    None => false,
                }
            }
        },
        Stmt::While { cond, blk } => expr_reads(cond, x, false) || stmts_read(&blk.stmts, x),
        Stmt::Match { expr, arms } => expr_reads(expr, x, false) || arms_are_read(arms, x),
        Stmt::Read(e) => expr_reads(e, x, false),
        Stmt::Write { expr } => expr_reads(expr, x, false),
        Stmt::Ret(e) => expr_reads(e, x, false),
        Stmt::Exit => false,
        Stmt::Block(b) => stmts_read(&b.stmts, x),
    }
}

/// What returns among the first statements returns among more of them.
pub proof fn lemma_block_returns_later(stmts: Seq<Statement>, n: nat, m: nat)
    requires
        n <= m <= stmts.len(),
        block_returns(stmts, n),
    ensures
        block_returns(stmts, m),
    decreases m - n,
{
    if n < m {
        lemma_block_returns_later(stmts, n, (m - 1) as nat);
    }
}

/// What returns in the first arms returns in more of them.
pub proof fn lemma_arms_return_later(arms: Seq<MatchArm>, n: nat, m: nat)
    requires
        n <= m <= arms.len(),
        arms_return(arms, n),
    ensures
        arms_return(arms, m),
    decreases m - n,
{
    if n < m {
        lemma_arms_return_later(arms, n, (m - 1) as nat);
    }
}

/// `true` when a statement of the block returns a value.
pub fn stmts_return(stmts: &Vec<Statement>) -> (r: bool)
    ensures
        r == block_returns(stmts@, stmts@.len()),
    decreases stmts,
{
    let mut i: usize = 0;
    while i < stmts.len()
        invariant
            i <= stmts.len(),
            !block_returns(stmts@, i as nat),
        decreases stmts.len() - i,
    {
        if stmt_has_return(&stmts[i]) {
            proof {
                lemma_block_returns_later(stmts@, (i + 1) as nat, stmts@.len());
            }
            return true;
        }
        i += 1;
    }
    false
}

/// `true` when the body of an arm returns a value.
pub fn arms_have_return(arms: &Vec<MatchArm>) -> (r: bool)
    ensures
        r == arms_return(arms@, arms@.len()),
    decreases arms,
{
    let mut i: usize = 0;
    while i < arms.len()
        invariant
            i <= arms.len(),
            !arms_return(arms@, i as nat),
        decreases arms.len() - i,
    {
        if stmts_return(&arms[i].blk.stmts) {
            proof {
                lemma_arms_return_later(arms@, (i + 1) as nat, arms@.len());
            }
            return true;
        }
        i += 1;
    }
    false
}

/// `true` when the statement `s` is a `return` with a value or holds one.
pub fn stmt_has_return(s: &Statement) -> (r: bool)
    ensures
        r == stmt_returns(*s),
    decreases s,
{
    match &s.val {
        Stmt::Ret(_) => true,
        Stmt::If { blk, els, .. } => {
            if stmts_return(&blk.stmts) {
                true
            } else {
                match els {
                    Some(b) => stmts_return(&b.stmts),
                    None => false,
                }
            }
        },
        Stmt::While { blk, .. } => stmts_return(&blk.stmts),
        Stmt::Match { arms, .. } => arms_have_return(arms),
        Stmt::Block(b) => stmts_return(&b.stmts),
        _ => false,
    }
}

} // verus!
