//! The check pass over statements: whether assignments, conditions,
//! returns and match arms have the types that are asked for.

use crate::ast::types::{
    view_opt, BinOp, Block, Expr, Expression, Ident, MatchArm, Range, SpecTy, Statement, Stmt, Ty,
};
use crate::error::{lemma_extends_refl, lemma_extends_trans, Error, ErrorKind};
use crate::typeck::check::{
    check_used_enum_generics, coercion, fold_ty, is_truthy, lvalue_type, resolve_ty, spec_coercion,
    spec_fill_enum, spec_fold_ty, spec_lvalue_ty, spec_resolve_ty, table_ty, table_type,
};
use crate::ast::types::Val;
use crate::typeck::checker::{
    expr_checks, expr_marks, expr_uses, recorded, used, Marks, UseCx, Uses,
};
use crate::typeck::generic::{Node, ResolverModel};
use crate::typeck::faults::fault;
use crate::typeck::scope::UnusedVar;
use crate::typeck::stmt::{block_faults, block_vars};
use crate::typeck::infer::TypeInfer;
use crate::typeck::pattern::{
    check_pattern_type, pat_binds, view_bounds, Bound, SpecBound,
};
use crate::typeck::scope::spec_owner;
use crate::typeck::stmt::{block_entries, block_env, block_ok};
use crate::typeck::{Env, TyCheckRes};
use vstd::prelude::*;

verus! {

/// What the check pass works on: the declarations and the table of
/// inference.
pub struct CheckState<'ast> {
    pub env: Env<'ast>,
    pub types: Map<usize, SpecTy>,
}

/// `true` when a value of type `r` may be assigned to a place of type `l`:
/// both have a type, and `r` is `l` or converts to it.
pub open spec fn assignable(l: Option<SpecTy>, r: Option<SpecTy>) -> bool {
    l matches Some(lt) && r matches Some(rt) && spec_coercion(lt, rt) == lt
}

/// The operator that a compound assignment applies.
pub open spec fn base_op(op: BinOp) -> BinOp {
    match op {
        BinOp::AddAssign => BinOp::Add,
        BinOp::SubAssign => BinOp::Sub,
        _ => op,
    }
}

/// `true` when a value of this type can be matched on: an enum, an array
/// or a primitive with literals.
pub open spec fn valid_match_ty(t: Option<SpecTy>) -> bool {
    t matches Some(t) && (t is Enum || t is Array || t is Int || t is Char || t is Float
        || t is Bool || t is String)
}

/// The declared result of the function that owns `span`.
pub open spec fn owner_ret(env: Env, span: Range) -> Option<SpecTy> {
    match spec_owner(env.spans, span) {
        Some(f) => if env.funcs.contains_key(f.id) {
            Some(env.funcs[f.id].ret@)
        } else {
            None
        },
        None => None,
    }
}

/// The table of inference after the type of an enum initializer `e` was
/// filled from the place it goes to.
pub open spec fn filled_types(types: Map<usize, SpecTy>, e: Expression, fill: Result<Option<SpecTy>, ()>) -> Map<
    usize,
    SpecTy,
> {
    match (e.val, fill) {
        (Expr::EnumInit { .. }, Ok(Some(t))) => types.insert(e.id, t),
        _ => types,
    }
}

/// The declarations after the first `n` of the bindings `bs` are bound as
/// variables of function `f`. A binding whose type holds an unresolved
/// nominal reference is left out.
pub open spec fn bind_all<'ast>(env: Env<'ast>, f: Option<Ident>, bs: Seq<SpecBound>, n: nat) -> Env<'ast>
    decreases n,
{
    if n == 0 || n > bs.len() || f is None {
        env
    } else {
        let before = bind_all(env, f, bs, (n - 1) as nat);
        if bs[n - 1].ty.has_path() {
            before
        } else {
            before.bind(f->0, bs[n - 1].ident, bs[n - 1].ty)
        }
    }
}

/// The declarations after the names of the first `n` of the bindings `bs`
/// are put back to what they are in `saved`.
pub open spec fn restore_all<'ast>(env: Env<'ast>, saved: Env<'ast>, f: Option<Ident>, bs: Seq<SpecBound>, n: nat) -> Env<'ast>
    decreases n,
{
    if n == 0 || n > bs.len() || f is None {
        env
    } else {
        restore_all(env, saved, f, bs, (n - 1) as nat).restore(saved, f->0, bs[n - 1].ident)
    }
}

/// The state after the check pass has walked the first `n` statements of a
/// block.
pub open spec fn block_check_state<'ast>(st: CheckState<'ast>, f: Option<Ident>, stmts: Seq<Statement>, n: nat) -> CheckState<'ast>
    decreases stmts, n,
{
    if n == 0 || n > stmts.len() {
        st
    } else {
        check_state(block_check_state(st, f, stmts, (n - 1) as nat), f, stmts[n - 1])
    }
}

/// The state in which the body of a match arm is checked: the arm's
/// bindings are variables of the function, and the body has been walked by
/// inference.
pub open spec fn arm_entry<'ast>(st: CheckState<'ast>, f: Option<Ident>, bs: Seq<SpecBound>, arm: MatchArm) -> CheckState<'ast> {
    let env1 = bind_all(st.env, f, bs, bs.len());
    CheckState {
        env: block_env(env1, f, arm.blk.stmts@, arm.blk.stmts@.len()),
        types: st.types.union_prefer_right(
            block_entries(env1, f, arm.blk.stmts@, arm.blk.stmts@.len()),
        ),
    }
}

/// The state after the check pass has walked a match arm whose pattern is
/// matched against a value of type `mt`: where the pattern fits, the arm's
/// body is inferred and checked with the pattern's bindings in scope, and
/// the names of the bindings are put back afterwards.
pub open spec fn arm_state<'ast>(st: CheckState<'ast>, f: Option<Ident>, mt: Option<SpecTy>, arm: MatchArm) -> CheckState<'ast>
    decreases arm, 0nat,
{
    match mt {
        Some(t) => match pat_binds(st.env, arm.pat.val, t) {
            Some(bs) => {
                let after = block_check_state(
                    arm_entry(st, f, bs, arm),
                    f,
                    arm.blk.stmts@,
                    arm.blk.stmts@.len(),
                );
                CheckState { env: restore_all(after.env, st.env, f, bs, bs.len()), types: after.types }
            },
            None => st,
        },
        None => st,
    }
}

/// The state after the check pass has walked the first `n` arms of a match.
pub open spec fn arms_state<'ast>(st: CheckState<'ast>, f: Option<Ident>, mt: Option<SpecTy>, arms: Seq<MatchArm>, n: nat) -> CheckState<'ast>
    decreases arms, n,
{
    if n == 0 || n > arms.len() {
        st
    } else {
        arm_state(arms_state(st, f, mt, arms, (n - 1) as nat), f, mt, arms[n - 1])
    }
}

/// The state after the check pass has walked a statement. The check pass
/// writes the filled type of an enum initializer into the table of
/// inference, and walks the bodies of match arms by inference.
pub open spec fn check_state<'ast>(st: CheckState<'ast>, f: Option<Ident>, s: Statement) -> CheckState<'ast>
    decreases s,
{
    match s.val {
        Stmt::Assign { lval, rval, .. } => CheckState {
            env: st.env,
            types: filled_types(
                st.types,
                rval,
                spec_fill_enum(
                    st.env,
                    spec_lvalue_ty(st.env, st.types, lval),
                    spec_resolve_ty(rval, table_ty(st.types, rval)),
                    rval.val,
                ),
            ),
        },
        Stmt::Ret(e) => CheckState {
            env: st.env,
            types: filled_types(
                st.types,
                e,
                spec_fill_enum(st.env, owner_ret(st.env, e.span), table_ty(st.types, e), e.val),
            ),
        },
        Stmt::If { blk, els, .. } => {
            let s1 = block_check_state(st, f, blk.stmts@, blk.stmts@.len());
            match els {
                Some(b) => block_check_state(s1, f, b.stmts@, b.stmts@.len()),
                None => s1,
            }
        },
        Stmt::While { blk, .. } => block_check_state(st, f, blk.stmts@, blk.stmts@.len()),
        Stmt::Match { expr, arms } => arms_state(
            st,
            f,
            table_ty(st.types, expr),
            arms@,
            arms@.len(),
        ),
        Stmt::Block(b) => block_check_state(st, f, b.stmts@, b.stmts@.len()),
        _ => st,
    }
}

/// `true` when the check pass finds no fault in the first `n` statements of
/// a block.
pub open spec fn block_check_ok(st: CheckState, f: Option<Ident>, stmts: Seq<Statement>, n: nat) -> bool
    decreases stmts, n,
{
    if n == 0 || n > stmts.len() {
        true
    } else {
        block_check_ok(st, f, stmts, (n - 1) as nat) && check_ok(
            block_check_state(st, f, stmts, (n - 1) as nat),
            f,
            stmts[n - 1],
        )
    }
}

/// `true` when the check pass finds no fault in a match arm: the pattern
/// fits the type, inference finds no fault in the arm's body, and neither
/// does the check pass.
pub open spec fn arm_ok(st: CheckState, f: Option<Ident>, mt: Option<SpecTy>, arm: MatchArm) -> bool
    decreases arm, 0nat,
{
    match mt {
        Some(t) => match pat_binds(st.env, arm.pat.val, t) {
            Some(bs) => {
                &&& block_ok(
                    bind_all(st.env, f, bs, bs.len()),
                    f,
                    arm.blk.stmts@,
                    arm.blk.stmts@.len(),
                )
                &&& block_check_ok(
                    arm_entry(st, f, bs, arm),
                    f,
                    arm.blk.stmts@,
                    arm.blk.stmts@.len(),
                )
            },
            None => false,
        },
        None => false,
    }
}

/// `true` when the check pass finds no fault in the first `n` arms of a
/// match.
pub open spec fn arms_ok(st: CheckState, f: Option<Ident>, mt: Option<SpecTy>, arms: Seq<MatchArm>, n: nat) -> bool
    decreases arms, n,
{
    if n == 0 || n > arms.len() {
        true
    } else {
        arms_ok(st, f, mt, arms, (n - 1) as nat) && arm_ok(
            arms_state(st, f, mt, arms, (n - 1) as nat),
            f,
            mt,
            arms[n - 1],
        )
    }
}

/// `true` when the check pass finds no fault in a statement.
///
/// - An assignment: the right side, with the type arguments that an enum
///   initializer leaves open taken from the left, is assignable to the
///   place that the left side names.
/// - A compound assignment: the operator applies to the two sides and its
///   result is assignable to the left side.
/// - A constant declaration: the initial value is assignable to the
///   declared type.
/// - `if` and `while`: the condition is truthy; the bodies are checked.
/// - `match`: the type of what is matched on can be matched on; each arm is
///   checked.
/// - `return`: the returned value, filled as in an assignment, has exactly
///   the declared result of the owning function.
/// - `exit`: the owning function returns `Void`.
/// - Every expression of the statement passes the check of expressions.
pub open spec fn check_ok(st: CheckState, f: Option<Ident>, s: Statement) -> bool
    decreases s,
{
    match s.val {
        Stmt::Assign { lval, rval, .. } => {
            let l = spec_lvalue_ty(st.env, st.types, lval);
            let r = spec_resolve_ty(rval, table_ty(st.types, rval));
            &&& expr_checks(st.env, st.types, rval)
            &&& expr_checks(st.env, st.types, lval)
            &&& spec_fill_enum(st.env, l, r, rval.val) matches Ok(rt) && assignable(l, rt)
            &&& slots_filled(st.env, f, rval, spec_fill_enum(st.env, l, r, rval.val))
        },
        Stmt::AssignOp { lval, rval, op } => {
            let l = spec_lvalue_ty(st.env, st.types, lval);
            let r = spec_resolve_ty(rval, table_ty(st.types, rval));
            &&& expr_checks(st.env, st.types, rval)
            &&& expr_checks(st.env, st.types, lval)
            &&& l matches Some(lt) && r matches Some(rt) && assignable(
                l,
                spec_fold_ty(lt, rt, base_op(op)),
            )
        },
        Stmt::Const(c) => expr_checks(st.env, st.types, c.init) && assignable(
            Some(c.ty@),
            table_ty(st.types, c.init),
        ),
        Stmt::Call(e) => expr_checks(st.env, st.types, e),
        Stmt::TraitMeth(e) => expr_checks(st.env, st.types, e),
        Stmt::Read(e) => expr_checks(st.env, st.types, e),
        Stmt::Write { expr } => expr_checks(st.env, st.types, expr),
        Stmt::If { cond, blk, els } => {
            let s1 = block_check_state(st, f, blk.stmts@, blk.stmts@.len());
            &&& expr_checks(st.env, st.types, cond)
            &&& spec_resolve_ty(cond, table_ty(st.types, cond)) matches Some(t) && t.is_truthy()
            &&& block_check_ok(st, f, blk.stmts@, blk.stmts@.len())
            &&& match els {
                Some(b) => block_check_ok(s1, f, b.stmts@, b.stmts@.len()),
                None => true,
            }
        },
        Stmt::While { cond, blk } => {
            &&& expr_checks(st.env, st.types, cond)
            &&& spec_resolve_ty(cond, table_ty(st.types, cond)) matches Some(t) && t.is_truthy()
            &&& block_check_ok(st, f, blk.stmts@, blk.stmts@.len())
        },
        Stmt::Match { expr, arms } => {
            &&& expr_checks(st.env, st.types, expr)
            &&& valid_match_ty(table_ty(st.types, expr))
            &&& arms_ok(st, f, table_ty(st.types, expr), arms@, arms@.len())
        },
        Stmt::Ret(e) => {
            &&& expr_checks(st.env, st.types, e)
            &&& spec_fill_enum(st.env, owner_ret(st.env, e.span), table_ty(st.types, e), e.val) matches Ok(
                Some(t),
            ) && owner_ret(st.env, e.span) == Some(t)
            &&& slots_filled(
                st.env,
                f,
                e,
                spec_fill_enum(st.env, owner_ret(st.env, e.span), table_ty(st.types, e), e.val),
            )
        },
        Stmt::Exit => owner_ret(st.env, s.span) == Some(SpecTy::Void),
        Stmt::Block(b) => block_check_ok(st, f, b.stmts@, b.stmts@.len()),
    }
}

/// The type parameters of the function `f`: those that a type in its body
/// may hold.
pub open spec fn fn_generics(env: Env, f: Option<Ident>) -> Seq<Ident> {
    match f {
        Some(f) => if env.funcs.contains_key(f.id) {
            crate::ast::types::generic_names(env.funcs[f.id].generics@)
        } else {
            Seq::empty()
        },
        None => Seq::empty(),
    }
}

/// `true` when no type argument of the enum initializer `e` is left open
/// after it was filled from the place it goes to: its filled type holds no
/// type parameter but those of the function that is walked. `true` for
/// what is no enum initializer.
pub open spec fn slots_filled(env: Env, f: Option<Ident>, e: Expression, fill: Result<Option<SpecTy>, ()>) -> bool {
    match (e.val, fill) {
        (Expr::EnumInit { .. }, Ok(Some(t))) => t.generics_within(fn_generics(env, f)),
        _ => true,
    }
}

/// What the check pass leaves beside declarations and types: the id for
/// the next use of a generic item, the diagnostics, the notes of variables
/// not read yet, the literals last assigned to names, and the type
/// arguments found for calls.
pub struct Trace {
    pub next: usize,
    pub errs: Seq<Error>,
    pub vars: Seq<UnusedVar>,
    pub consts: Map<usize, Val>,
    pub found: Map<usize, Seq<SpecTy>>,
    pub res: ResolverModel,
    pub returns: Set<usize>,
    pub waiting: Seq<crate::typeck::checker::Waiting>,
    pub poisoned: bool,
}

/// The trace that the context `c` holds.
pub open spec fn trace_of(c: TyCheckRes) -> Trace {
    Trace {
        next: c.uniq_generic_instance_id,
        errs: c.errors.errors@,
        vars: c.var_func.unsed_vars@,
        consts: c.consts@,
        found: crate::typeck::infer::view_found(c.call_ty_args@),
        res: c.generic_res@,
        returns: c.var_func.func_return@,
        waiting: crate::typeck::checker::view_waiting(c.trait_solve.unsolved@),
        poisoned: c.errors.poisoned,
    }
}

/// The trace with the id and the diagnostics of `m`.
pub open spec fn with_marks(t: Trace, m: Marks) -> Trace {
    Trace {
        next: m.next,
        errs: m.errs,
        vars: t.vars,
        consts: t.consts,
        found: t.found,
        res: t.res,
        returns: t.returns,
        waiting: t.waiting,
        poisoned: m.poisoned,
    }
}

/// What the check pass reads when it records a use, in the state `st`
/// with the trace `t`, in function `f`.
pub open spec fn trace_cx<'ast>(st: CheckState<'ast>, t: Trace, f: Option<Ident>) -> UseCx<'ast> {
    UseCx { env: st.env, types: st.types, found: t.found, curr_fn: f }
}

/// The trace after a use of the generic item `node` with the type
/// arguments `targs` is recorded.
pub open spec fn with_use(st: CheckState, t: Trace, f: Option<Ident>, node: Node, targs: Seq<SpecTy>) -> Trace {
    let t1 = with_marks(t, used(Marks { next: t.next, errs: t.errs, poisoned: t.poisoned }));
    Trace {
        next: t1.next,
        errs: t1.errs,
        vars: t1.vars,
        consts: t1.consts,
        found: t1.found,
        res: recorded(trace_cx(st, t, f), Uses { res: t.res, next: t.next, waiting: t.waiting }, node, targs).res,
        returns: t.returns,
        waiting: t.waiting,
        poisoned: t1.poisoned,
    }
}

/// The trace after the check pass has walked the expression `e`: its
/// diagnostics (see [`expr_marks`]) and the uses of generic items that it
/// records (see [`expr_uses`]).
pub open spec fn checked_expr(st: CheckState, t: Trace, f: Option<Ident>, e: Expression) -> Trace {
    let t1 = with_marks(t, expr_marks(st.env, st.types, Marks { next: t.next, errs: t.errs, poisoned: t.poisoned }, e));
    Trace {
        next: t1.next,
        errs: t1.errs,
        vars: t1.vars,
        consts: t1.consts,
        found: t1.found,
        res: expr_uses(trace_cx(st, t, f), Uses { res: t.res, next: t.next, waiting: t.waiting }, e).res,
        returns: t.returns,
        waiting: expr_uses(
            trace_cx(st, t, f),
            Uses { res: t.res, next: t.next, waiting: t.waiting },
            e,
        ).waiting,
        poisoned: t1.poisoned,
    }
}

/// The trace after a rule was applied: where it does not hold, an error of
/// kind `kind` at `span` is added.
pub open spec fn reported(t: Trace, ok: bool, span: Range, kind: ErrorKind) -> Trace {
    if ok {
        t
    } else {
        Trace {
            next: t.next,
            errs: t.errs.push(fault(span, kind)),
            vars: t.vars,
            consts: t.consts,
            found: t.found,
            res: t.res,
            returns: t.returns,
            waiting: t.waiting,
            poisoned: t.poisoned,
        }
    }
}

/// The trace after a rule on two types was applied: where it does not
/// hold, an error of kind `kind` at `span` is added that says which type
/// was found and which was asked for.
pub open spec fn reported_tys(
    t: Trace,
    ok: bool,
    span: Range,
    kind: ErrorKind,
    found: Option<SpecTy>,
    expected: Option<SpecTy>,
) -> Trace {
    if ok {
        t
    } else {
        Trace {
            next: t.next,
            errs: t.errs.push(
                Error {
                    span,
                    severity: crate::error::Severity::Error,
                    kind,
                    ident: None,
                    found: crate::typeck::check::tag_opt(found),
                    expected: crate::typeck::check::tag_opt(expected),
                },
            ),
            vars: t.vars,
            consts: t.consts,
            found: t.found,
            res: t.res,
            returns: t.returns,
            waiting: t.waiting,
            poisoned: t.poisoned,
        }
    }
}

/// The trace after a `return` at `span`: the function that owns the span is
/// noted as one that returns a value.
pub open spec fn returned(env: Env, t: Trace, span: Range) -> Trace {
    match spec_owner(env.spans, span) {
        Some(f) => Trace {
            next: t.next,
            errs: t.errs,
            vars: t.vars,
            consts: t.consts,
            found: t.found,
            res: t.res,
            returns: t.returns.insert(f.id),
            waiting: t.waiting,
            poisoned: t.poisoned,
        },
        None => t,
    }
}

/// `true` when the rule of the statement `s` itself holds, apart from the
/// check of its expressions and of the statements in it; see
/// [`check_ok`].
pub open spec fn own_fits(st: CheckState, s: Statement) -> bool {
    match s.val {
        Stmt::Assign { lval, rval, .. } => {
            let l = spec_lvalue_ty(st.env, st.types, lval);
            let r = spec_resolve_ty(rval, table_ty(st.types, rval));
            spec_fill_enum(st.env, l, r, rval.val) matches Ok(rt) && assignable(l, rt)
        },
        Stmt::AssignOp { lval, rval, op } => {
            let l = spec_lvalue_ty(st.env, st.types, lval);
            let r = spec_resolve_ty(rval, table_ty(st.types, rval));
            l matches Some(lt) && r matches Some(rt) && assignable(
                l,
                spec_fold_ty(lt, rt, base_op(op)),
            )
        },
        Stmt::Const(c) => assignable(Some(c.ty@), table_ty(st.types, c.init)),
        Stmt::If { cond, .. } => spec_resolve_ty(cond, table_ty(st.types, cond)) matches Some(t)
            && t.is_truthy(),
        Stmt::While { cond, .. } => spec_resolve_ty(cond, table_ty(st.types, cond)) matches Some(
            t,
        ) && t.is_truthy(),
        Stmt::Match { expr, .. } => valid_match_ty(table_ty(st.types, expr)),
        Stmt::Ret(e) => spec_fill_enum(
            st.env,
            owner_ret(st.env, e.span),
            table_ty(st.types, e),
            e.val,
        ) matches Ok(Some(t)) && owner_ret(st.env, e.span) == Some(t),
        Stmt::Exit => owner_ret(st.env, s.span) == Some(SpecTy::Void),
        _ => true,
    }
}

/// The trace after the check pass has walked the first `n` statements of a
/// block.
pub open spec fn block_trace(st: CheckState, t: Trace, f: Option<Ident>, stmts: Seq<Statement>, n: nat) -> Trace
    decreases stmts, n,
{
    if n == 0 || n > stmts.len() {
        t
    } else {
        check_trace(
            block_check_state(st, f, stmts, (n - 1) as nat),
            block_trace(st, t, f, stmts, (n - 1) as nat),
            f,
            stmts[n - 1],
        )
    }
}

/// The trace after the check pass has walked a match arm: where the
/// pattern does not fit, one error at the pattern's span; else the
/// diagnostics and notes of inference over the arm's body, with the
/// pattern's bindings in scope, then what the check of the body leaves.
pub open spec fn arm_trace(st: CheckState, t: Trace, f: Option<Ident>, mt: Option<SpecTy>, arm: MatchArm) -> Trace
    decreases arm, 0nat,
{
    match mt {
        Some(ty) => match pat_binds(st.env, arm.pat.val, ty) {
            Some(bs) => {
                let env1 = bind_all(st.env, f, bs, bs.len());
                let t1 = Trace {
                    next: t.next,
                    errs: t.errs + block_faults(env1, f, arm.blk.stmts@, arm.blk.stmts@.len()),
                    vars: t.vars + block_vars(env1, f, arm.blk.stmts@, arm.blk.stmts@.len()),
                    consts: t.consts,
                    found: crate::typeck::stmt::block_found(
                        env1,
                        t.found,
                        f,
                        arm.blk.stmts@,
                        arm.blk.stmts@.len(),
                    ),
                    res: t.res,
                    returns: t.returns,
                    waiting: t.waiting,
                    poisoned: t.poisoned || !block_ok(
                        env1,
                        f,
                        arm.blk.stmts@,
                        arm.blk.stmts@.len(),
                    ),
                };
                block_trace(arm_entry(st, f, bs, arm), t1, f, arm.blk.stmts@, arm.blk.stmts@.len())
            },
            None => reported(t, false, arm.pat.span, ErrorKind::PatternMismatch),
        },
        None => reported(t, false, arm.pat.span, ErrorKind::PatternMismatch),
    }
}

/// The trace after the check pass has walked the first `n` arms of a
/// match.
pub open spec fn arms_trace(st: CheckState, t: Trace, f: Option<Ident>, mt: Option<SpecTy>, arms: Seq<MatchArm>, n: nat) -> Trace
    decreases arms, n,
{
    if n == 0 || n > arms.len() {
        t
    } else {
        arm_trace(
            arms_state(st, f, mt, arms, (n - 1) as nat),
            arms_trace(st, t, f, mt, arms, (n - 1) as nat),
            f,
            mt,
            arms[n - 1],
        )
    }
}

/// The trace after the check pass has walked a statement.
///
/// - Each expression of the statement is checked; see [`expr_marks`].
/// - Where the rule of the statement itself does not hold (see
///   [`own_fits`]), one error at the statement's span: a type mismatch for
///   an assignment or a constant, a condition that is not truthy, a type
///   that cannot be matched on, a return of the wrong type, an `exit` in a
///   function with a result. A mismatch says which type was found and
///   which was asked for.
/// - An enum initializer that is assigned or returned and whose filled type
///   still holds a type parameter that the function does not declare: one
///   error at the initializer's span.
/// - An assignment to a place of an enum type is a use of the enum.
/// - A literal that is assigned to a name, where the assignment fits, is
///   noted as the literal last assigned to the name.
pub open spec fn check_trace(st: CheckState, t: Trace, f: Option<Ident>, s: Statement) -> Trace
    decreases s,
{
    match s.val {
        Stmt::Assign { lval, rval, .. } => {
            let t1 = match spec_lvalue_ty(st.env, st.types, lval) {
                Some(SpecTy::Enum { ident, gen }) => with_use(st, t, f, Node::Enum(ident), gen),
                _ => t,
            };
            let t3 = checked_expr(st, checked_expr(st, t1, f, rval), f, lval);
            let t4 = match (lval.val, rval.val) {
                (Expr::Ident(x), Expr::Value(v)) => if own_fits(st, s) {
                    Trace {
                        next: t3.next,
                        errs: t3.errs,
                        vars: t3.vars,
                        consts: t3.consts.insert(x.id, v.val),
                        found: t3.found,
                        res: t3.res,
                        returns: t3.returns,
                        waiting: t3.waiting,
                        poisoned: t3.poisoned,
                    }
                } else {
                    t3
                },
                _ => t3,
            };
            reported(
                reported_tys(
                    t4,
                    own_fits(st, s),
                    s.span,
                    ErrorKind::TypeMismatch,
                    spec_resolve_ty(rval, table_ty(st.types, rval)),
                    spec_lvalue_ty(st.env, st.types, lval),
                ),
                slots_filled(
                    st.env,
                    f,
                    rval,
                    spec_fill_enum(
                        st.env,
                        spec_lvalue_ty(st.env, st.types, lval),
                        spec_resolve_ty(rval, table_ty(st.types, rval)),
                        rval.val,
                    ),
                ),
                rval.span,
                ErrorKind::UnusedGeneric,
            )
        },
        Stmt::AssignOp { lval, rval, .. } => reported_tys(
            checked_expr(st, checked_expr(st, t, f, rval), f, lval),
            own_fits(st, s),
            s.span,
            ErrorKind::TypeMismatch,
            spec_resolve_ty(rval, table_ty(st.types, rval)),
            spec_lvalue_ty(st.env, st.types, lval),
        ),
        Stmt::Const(c) => reported_tys(
            checked_expr(st, t, f, c.init),
            own_fits(st, s),
            s.span,
            ErrorKind::TypeMismatch,
            table_ty(st.types, c.init),
            Some(c.ty@),
        ),
        Stmt::Call(e) => checked_expr(st, t, f, e),
        Stmt::TraitMeth(e) => checked_expr(st, t, f, e),
        Stmt::Read(e) => checked_expr(st, t, f, e),
        Stmt::Write { expr } => checked_expr(st, t, f, expr),
        Stmt::Ret(e) => reported(
            reported_tys(
                returned(st.env, checked_expr(st, t, f, e), e.span),
                own_fits(st, s),
                s.span,
                ErrorKind::ReturnMismatch,
                table_ty(st.types, e),
                owner_ret(st.env, e.span),
            ),
            slots_filled(
                st.env,
                f,
                e,
                spec_fill_enum(st.env, owner_ret(st.env, e.span), table_ty(st.types, e), e.val),
            ),
            e.span,
            ErrorKind::UnusedGeneric,
        ),
        Stmt::Exit => reported(t, own_fits(st, s), s.span, ErrorKind::ExitWithValue),
        Stmt::If { cond, blk, els } => {
            let t2 = reported(
                checked_expr(st, t, f, cond),
                own_fits(st, s),
                s.span,
                ErrorKind::NonTruthyCondition,
            );
            let t3 = block_trace(st, t2, f, blk.stmts@, blk.stmts@.len());
            match els {
                Some(b) => block_trace(
                    block_check_state(st, f, blk.stmts@, blk.stmts@.len()),
                    t3,
                    f,
                    b.stmts@,
                    b.stmts@.len(),
                ),
                None => t3,
            }
        },
        Stmt::While { cond, blk } => block_trace(
            st,
            reported(
                checked_expr(st, t, f, cond),
                own_fits(st, s),
                s.span,
                ErrorKind::NonTruthyCondition,
            ),
            f,
            blk.stmts@,
            blk.stmts@.len(),
        ),
        Stmt::Match { expr, arms } => arms_trace(
            st,
            reported(
                checked_expr(st, t, f, expr),
                own_fits(st, s),
                s.span,
                ErrorKind::InvalidMatchType,
            ),
            f,
            table_ty(st.types, expr),
            arms@,
            arms@.len(),
        ),
        Stmt::Block(b) => block_trace(st, t, f, b.stmts@, b.stmts@.len()),
    }
}

/// The state that the check pass works on, as the context holds it.
pub open spec fn state_of<'ast>(c: TyCheckRes<'ast>) -> CheckState<'ast> {
    CheckState { env: c.env(), types: c.types() }
}

/// What the check pass over statements leaves as it is: the function that
/// is walked and every declaration but the variables of functions; and the
/// diagnostics found before are still there.
pub open spec fn scheck_frame(new: TyCheckRes, old: TyCheckRes) -> bool {
    &&& new.curr_fn == old.curr_fn
    &&& new.env().globals == old.env().globals
    &&& new.env().spans == old.env().spans
    &&& new.env().funcs == old.env().funcs
    &&& new.env().structs == old.env().structs
    &&& new.env().enums == old.env().enums
    &&& new.env().traits == old.env().traits
    &&& new.env().impls == old.env().impls
    &&& new.errors.extends(old.errors)
    &&& old.wf() ==> new.wf()
}

/// A context keeps what it holds.
pub proof fn lemma_scheck_frame_refl(c: TyCheckRes)
    ensures
        scheck_frame(c, c),
{
    lemma_extends_refl(c.errors);
}

/// What is kept over two steps is kept over both.
pub proof fn lemma_scheck_frame_trans(a: TyCheckRes, b: TyCheckRes, c: TyCheckRes)
    requires
        scheck_frame(b, a),
        scheck_frame(c, b),
    ensures
        scheck_frame(c, a),
{
    lemma_extends_trans(a.errors, b.errors, c.errors);
}

/// What holds when the check pass has walked the statement `s`.
pub open spec fn stmt_checked(new: TyCheckRes, old: TyCheckRes, s: Statement, r: bool) -> bool {
    &&& scheck_frame(new, old)
    &&& state_of(new) == check_state(state_of(old), old.curr_fn, s)
    &&& r == check_ok(state_of(old), old.curr_fn, s)
    &&& trace_of(new) == check_trace(state_of(old), trace_of(old), old.curr_fn, s)
}

fn opt_ref(t: &Option<Ty>) -> (r: Option<&Ty>)
    ensures
        (match r {
            Some(x) => Some(x@),
            None => None,
        }) == view_opt(*t),
{
    match t {
        Some(x) => Some(x),
        None => None,
    }
}

/// `true` when a value of type `r` may be assigned to a place of type `l`.
pub fn exec_assignable(l: &Option<Ty>, r: &Option<Ty>) -> (ok: bool)
    ensures
        ok == assignable(view_opt(*l), view_opt(*r)),
{
    match (l, r) {
        (Some(lt), Some(rt)) => {
            let mut converted = rt.clone();
            coercion(lt, &mut converted);
            converted.is_ty_eq(lt)
        },
        _ => false,
    }
}

fn exec_base_op(op: BinOp) -> (r: BinOp)
    ensures
        r == base_op(op),
{
    match op {
        BinOp::AddAssign => BinOp::Add,
        BinOp::SubAssign => BinOp::Sub,
        _ => op,
    }
}

/// The check pass over the statements of a program.
pub struct StmtCheck {}

impl StmtCheck {
    /// The declared result of the function that owns `span`.
    fn owner_ret<'ast>(tcxt: &TyCheckRes<'ast>, span: Range) -> (r: Option<Ty>)
        ensures
            view_opt(r) == owner_ret(tcxt.env(), span),
    {
        match tcxt.var_func.get_fn_by_span(span) {
            Some(f) => match tcxt.var_func.name_func.get(&f.id) {
                Some(def) => Some(def.ret.clone()),
                None => None,
            },
            None => None,
        }
    }

    /// Writes the filled type of the enum initializer `e` into the table of
    /// inference.
    fn write_filled<'ast>(tcxt: &mut TyCheckRes<'ast>, e: &Expression, fill: &Result<Option<Ty>, ()>)
        ensures
            scheck_frame(*final(tcxt), *old(tcxt)),
            final(tcxt).env() == old(tcxt).env(),
            final(tcxt).errors == old(tcxt).errors,
            trace_of(*final(tcxt)) == trace_of(*old(tcxt)),
            final(tcxt).types() == filled_types(
                old(tcxt).types(),
                *e,
                match *fill {
                    Ok(t) => Ok(view_opt(t)),
                    Err(x) => Err(x),
                },
            ),
    {
        proof {
            lemma_scheck_frame_refl(*tcxt);
        }
        match (&e.val, fill) {
            (Expr::EnumInit { .. }, Ok(Some(t))) => {
                tcxt.expr_ty.insert(e.id, t.clone());
                assert(tcxt.types() =~= old(tcxt).types().insert(e.id, t@));
            },
            _ => {},
        }
    }

    /// `true` when no type argument of the enum initializer `e` is left
    /// open; see [`slots_filled`].
    fn filled<'ast>(tcxt: &TyCheckRes<'ast>, e: &Expression, fill: &Result<Option<Ty>, ()>) -> (r: bool)
        ensures
            r == slots_filled(
                tcxt.env(),
                tcxt.curr_fn,
                *e,
                match *fill {
                    Ok(t) => Ok(view_opt(t)),
                    Err(x) => Err(x),
                },
            ),
    {
        match (&e.val, fill) {
            (Expr::EnumInit { .. }, Ok(Some(t))) => {
                let names = match tcxt.curr_fn {
                    Some(f) => match tcxt.var_func.name_func.get(&f.id) {
                        Some(def) => crate::ast::types::names_of(&def.generics),
                        None => Vec::new(),
                    },
                    None => Vec::new(),
                };
                t.generics_within(&names)
            },
            _ => true,
        }
    }

    fn report_tys<'ast>(
        tcxt: &mut TyCheckRes<'ast>,
        ok: bool,
        span: Range,
        kind: ErrorKind,
        found: &Option<Ty>,
        expected: &Option<Ty>,
    )
        ensures
            scheck_frame(*final(tcxt), *old(tcxt)),
            state_of(*final(tcxt)) == state_of(*old(tcxt)),
            trace_of(*final(tcxt)) == reported_tys(
                trace_of(*old(tcxt)),
                ok,
                span,
                kind,
                view_opt(*found),
                view_opt(*expected),
            ),
    {
        proof {
            lemma_scheck_frame_refl(*tcxt);
        }
        if !ok {
            tcxt.errors.push_error(
                Error::mismatch(
                    span,
                    kind,
                    crate::typeck::check::tag_of(found),
                    crate::typeck::check::tag_of(expected),
                ),
            );
        }
    }

    fn report<'ast>(tcxt: &mut TyCheckRes<'ast>, ok: bool, span: Range, kind: ErrorKind)
        ensures
            scheck_frame(*final(tcxt), *old(tcxt)),
            state_of(*final(tcxt)) == state_of(*old(tcxt)),
            trace_of(*final(tcxt)) == reported(trace_of(*old(tcxt)), ok, span, kind),
    {
        proof {
            lemma_scheck_frame_refl(*tcxt);
        }
        if !ok {
            tcxt.errors.push_error(Error::error_with_span(span, kind));
        }
    }

    fn check_assign<'ast>(tcxt: &mut TyCheckRes<'ast>, s: &Statement) -> (r: bool)
        requires
            s.val is Assign || s.val is AssignOp || s.val is Const,
        ensures
            stmt_checked(*final(tcxt), *old(tcxt), *s, r),
    {
        let ghost st = state_of(*tcxt);
        match &s.val {
            Stmt::Assign { lval, rval, .. } => {
                let lty = lvalue_type(tcxt, lval);
                let raw = table_type(tcxt, rval);
                let rty = resolve_ty(rval, opt_ref(&raw));
                let fill = check_used_enum_generics(tcxt, opt_ref(&lty), opt_ref(&rty), &rval.val);
                tcxt.collect_enum_generics(opt_ref(&lty), rval.id);
                let ghost z = *tcxt;
                let c1 = tcxt.check_expr(rval);
                let ghost a = *tcxt;
                let c2 = tcxt.check_expr(lval);
                let ghost b = *tcxt;
                Self::write_filled(tcxt, rval, &fill);
                let ghost c = *tcxt;
                let fits = match &fill {
                    Ok(rt) => exec_assignable(&lty, rt),
                    Err(_) => false,
                };
                let ok = c1 && c2 && fits;
                if fits {
                    match (&lval.val, &rval.val) {
                        (Expr::Ident(id), Expr::Value(v)) => {
                            tcxt.consts.insert(id.id, v.val);
                        },
                        _ => {},
                    }
                }
                let ghost d = *tcxt;
                Self::report_tys(tcxt, fits, s.span, ErrorKind::TypeMismatch, &rty, &lty);
                let ghost d2 = *tcxt;
                let full = Self::filled(tcxt, rval, &fill);
                Self::report(tcxt, full, rval.span, ErrorKind::UnusedGeneric);
                let ok = ok && full;
                proof {
                    lemma_scheck_frame_trans(d, d2, *tcxt);
                    assert(scheck_frame(z, *old(tcxt)));
                    assert(scheck_frame(a, z));
                    lemma_scheck_frame_trans(*old(tcxt), z, a);
                    assert(scheck_frame(b, a));
                    lemma_scheck_frame_trans(*old(tcxt), a, b);
                    lemma_scheck_frame_trans(*old(tcxt), b, c);
                    assert(scheck_frame(d, c)) by {
                        lemma_extends_refl(d.errors);
                    }
                    lemma_scheck_frame_trans(*old(tcxt), c, d);
                    lemma_scheck_frame_trans(*old(tcxt), d, *tcxt);
                }
                ok
            },
            Stmt::AssignOp { lval, rval, op } => {
                let lty = lvalue_type(tcxt, lval);
                let raw = table_type(tcxt, rval);
                let rty = resolve_ty(rval, opt_ref(&raw));
                let c1 = tcxt.check_expr(rval);
                let ghost a = *tcxt;
                let c2 = tcxt.check_expr(lval);
                let ghost b = *tcxt;
                let fits = match (&lty, &rty) {
                    (Some(lt), Some(rt)) => {
                        let folded = fold_ty(Some(lt), Some(rt), &exec_base_op(*op));
                        exec_assignable(&lty, &folded)
                    },
                    _ => false,
                };
                Self::report_tys(tcxt, fits, s.span, ErrorKind::TypeMismatch, &rty, &lty);
                proof {
                    lemma_scheck_frame_trans(*old(tcxt), a, b);
                    lemma_scheck_frame_trans(*old(tcxt), b, *tcxt);
                }
                c1 && c2 && fits
            },
            Stmt::Const(c) => {
                let ity = table_type(tcxt, &c.init);
                let c1 = tcxt.check_expr(&c.init);
                let ghost a = *tcxt;
                let declared = Some(c.ty.clone());
                let fits = exec_assignable(&declared, &ity);
                Self::report_tys(tcxt, fits, s.span, ErrorKind::TypeMismatch, &ity, &declared);
                proof {
                    lemma_scheck_frame_trans(*old(tcxt), a, *tcxt);
                }
                c1 && fits
            },
            _ => {
                proof {
                    lemma_scheck_frame_refl(*tcxt);
                }
                true
            },
        }
    }

    fn check_simple<'ast>(tcxt: &mut TyCheckRes<'ast>, s: &Statement) -> (r: bool)
        requires
            s.val is Call || s.val is TraitMeth || s.val is Read || s.val is Write || s.val is Ret
                || s.val is Exit,
        ensures
            stmt_checked(*final(tcxt), *old(tcxt), *s, r),
    {
        match &s.val {
            Stmt::Call(e) => tcxt.check_expr(e),
            Stmt::TraitMeth(e) => tcxt.check_expr(e),
            Stmt::Read(e) => tcxt.check_expr(e),
            Stmt::Write { expr } => tcxt.check_expr(expr),
            Stmt::Ret(e) => {
                let declared = Self::owner_ret(tcxt, e.span);
                let ety = table_type(tcxt, e);
                let fill = check_used_enum_generics(tcxt, opt_ref(&declared), opt_ref(&ety), &e.val);
                let c1 = tcxt.check_expr(e);
                let ghost a = *tcxt;
                Self::write_filled(tcxt, e, &fill);
                let ghost b = *tcxt;
                match tcxt.var_func.get_fn_by_span(e.span) {
                    Some(f) => {
                        tcxt.var_func.func_return.insert(f.id);
                    },
                    None => {},
                }
                let ghost c = *tcxt;
                let fits = match (&fill, &declared) {
                    (Ok(Some(t)), Some(d)) => t.is_ty_eq(d),
                    _ => false,
                };
                Self::report_tys(tcxt, fits, s.span, ErrorKind::ReturnMismatch, &ety, &declared);
                let ghost c2 = *tcxt;
                let full = Self::filled(tcxt, e, &fill);
                Self::report(tcxt, full, e.span, ErrorKind::UnusedGeneric);
                proof {
                    lemma_scheck_frame_trans(c, c2, *tcxt);
                    lemma_scheck_frame_trans(*old(tcxt), a, b);
                    assert(scheck_frame(c, b)) by {
                        lemma_extends_refl(c.errors);
                    }
                    lemma_scheck_frame_trans(*old(tcxt), b, c);
                    lemma_scheck_frame_trans(*old(tcxt), c, *tcxt);
                }
                c1 && fits && full
            },
            Stmt::Exit => {
                let declared = Self::owner_ret(tcxt, s.span);
                let fits = match &declared {
                    Some(Ty::Void) => true,
                    _ => false,
                };
                Self::report(tcxt, fits, s.span, ErrorKind::ExitWithValue);
                fits
            },
            _ => {
                proof {
                    lemma_scheck_frame_refl(*tcxt);
                }
                true
            },
        }
    }
}

/// `true` when two contexts walk the same function and hold the same
/// declarations but for the variables of functions.
pub open spec fn same_decls(new: TyCheckRes, old: TyCheckRes) -> bool {
    &&& new.curr_fn == old.curr_fn
    &&& new.env().globals == old.env().globals
    &&& new.env().spans == old.env().spans
    &&& new.env().funcs == old.env().funcs
    &&& new.env().structs == old.env().structs
    &&& new.env().enums == old.env().enums
    &&& new.env().traits == old.env().traits
    &&& new.env().impls == old.env().impls
}

/// The types that the variables named by `bs` have in `env`, in order.
pub open spec fn saved_tys(env: Env, f: Ident, bs: Seq<SpecBound>) -> Seq<Option<SpecTy>> {
    Seq::new(bs.len(), |i: int| env.local_ty(f, bs[i].ident))
}

impl StmtCheck {
    /// Checks a statement against the table of inference and reports each
    /// fault as a diagnostic. The bodies of match arms are walked by
    /// inference first, with the bindings of the arm's pattern in scope.
    ///
    /// The result is `true` where no fault was found.
    pub fn visit_stmt<'ast>(tcxt: &mut TyCheckRes<'ast>, s: &Statement) -> (r: bool)
        ensures
            stmt_checked(*final(tcxt), *old(tcxt), *s, r),
        decreases s, 1nat,
    {
        match &s.val {
            Stmt::Assign { .. } => Self::check_assign(tcxt, s),
            Stmt::AssignOp { .. } => Self::check_assign(tcxt, s),
            Stmt::Const(_) => Self::check_assign(tcxt, s),
            Stmt::If { .. } => Self::check_nested(tcxt, s),
            Stmt::While { .. } => Self::check_nested(tcxt, s),
            Stmt::Block(_) => Self::check_nested(tcxt, s),
            Stmt::Match { .. } => Self::check_match(tcxt, s),
            _ => Self::check_simple(tcxt, s),
        }
    }

    /// Checks each statement of a block, in order.
    pub fn visit_block<'ast>(tcxt: &mut TyCheckRes<'ast>, stmts: &Vec<Statement>) -> (r: bool)
        ensures
            scheck_frame(*final(tcxt), *old(tcxt)),
            state_of(*final(tcxt)) == block_check_state(
                state_of(*old(tcxt)),
                old(tcxt).curr_fn,
                stmts@,
                stmts@.len(),
            ),
            r == block_check_ok(state_of(*old(tcxt)), old(tcxt).curr_fn, stmts@, stmts@.len()),
            trace_of(*final(tcxt)) == block_trace(
                state_of(*old(tcxt)),
                trace_of(*old(tcxt)),
                old(tcxt).curr_fn,
                stmts@,
                stmts@.len(),
            ),
        decreases stmts,
    {
        let ghost st = state_of(*tcxt);
        let ghost t0 = trace_of(*tcxt);
        let ghost f = tcxt.curr_fn;
        let mut ok = true;
        let mut i: usize = 0;
        proof {
            lemma_scheck_frame_refl(*tcxt);
        }
        while i < stmts.len()
            invariant
                i <= stmts.len(),
                st == state_of(*old(tcxt)),
                f == old(tcxt).curr_fn,
                scheck_frame(*tcxt, *old(tcxt)),
                state_of(*tcxt) == block_check_state(st, f, stmts@, i as nat),
                ok == block_check_ok(st, f, stmts@, i as nat),
                t0 == trace_of(*old(tcxt)),
                trace_of(*tcxt) == block_trace(st, t0, f, stmts@, i as nat),
            decreases stmts.len() - i,
        {
            let ghost before = *tcxt;
            let one = Self::visit_stmt(tcxt, &stmts[i]);
            proof {
                lemma_scheck_frame_trans(*old(tcxt), before, *tcxt);
            }
            ok = ok && one;
            i += 1;
        }
        ok
    }

    fn check_cond<'ast>(tcxt: &mut TyCheckRes<'ast>, cond: &Expression, span: Range) -> (r: bool)
        ensures
            scheck_frame(*final(tcxt), *old(tcxt)),
            state_of(*final(tcxt)) == state_of(*old(tcxt)),
            r == (expr_checks(old(tcxt).env(), old(tcxt).types(), *cond) && (spec_resolve_ty(
                *cond,
                table_ty(old(tcxt).types(), *cond),
            ) matches Some(t) && t.is_truthy())),
            trace_of(*final(tcxt)) == reported(
                checked_expr(state_of(*old(tcxt)), trace_of(*old(tcxt)), old(tcxt).curr_fn, *cond),
                spec_resolve_ty(*cond, table_ty(old(tcxt).types(), *cond)) matches Some(t)
                    && t.is_truthy(),
                span,
                ErrorKind::NonTruthyCondition,
            ),
    {
        let raw = table_type(tcxt, cond);
        let cty = resolve_ty(cond, opt_ref(&raw));
        let c1 = tcxt.check_expr(cond);
        let ghost a = *tcxt;
        let truthy = is_truthy(opt_ref(&cty));
        Self::report(tcxt, truthy, span, ErrorKind::NonTruthyCondition);
        proof {
            lemma_scheck_frame_trans(*old(tcxt), a, *tcxt);
        }
        c1 && truthy
    }

    fn check_nested<'ast>(tcxt: &mut TyCheckRes<'ast>, s: &Statement) -> (r: bool)
        requires
            s.val is If || s.val is While || s.val is Block,
        ensures
            stmt_checked(*final(tcxt), *old(tcxt), *s, r),
        decreases s, 0nat,
    {
        match &s.val {
            Stmt::If { cond, blk, els } => {
                let c = Self::check_cond(tcxt, cond, s.span);
                let ghost a = *tcxt;
                let b1 = Self::visit_block(tcxt, &blk.stmts);
                let ghost b = *tcxt;
                proof {
                    lemma_scheck_frame_trans(*old(tcxt), a, b);
                }
                let b2 = match els {
                    Some(e) => {
                        let r = Self::visit_block(tcxt, &e.stmts);
                        proof {
                            lemma_scheck_frame_trans(*old(tcxt), b, *tcxt);
                        }
                        r
                    },
                    None => true,
                };
                c && b1 && b2
            },
            Stmt::While { cond, blk } => {
                let c = Self::check_cond(tcxt, cond, s.span);
                let ghost a = *tcxt;
                let b1 = Self::visit_block(tcxt, &blk.stmts);
                proof {
                    lemma_scheck_frame_trans(*old(tcxt), a, *tcxt);
                }
                c && b1
            },
            Stmt::Block(blk) => Self::visit_block(tcxt, &blk.stmts),
            _ => {
                proof {
                    lemma_scheck_frame_refl(*tcxt);
                }
                true
            },
        }
    }

    fn check_match<'ast>(tcxt: &mut TyCheckRes<'ast>, s: &Statement) -> (r: bool)
        requires
            s.val is Match,
        ensures
            stmt_checked(*final(tcxt), *old(tcxt), *s, r),
        decreases s, 0nat,
    {
        match &s.val {
            Stmt::Match { expr, arms } => {
                let mt = table_type(tcxt, expr);
                let c1 = tcxt.check_expr(expr);
                let ghost a = *tcxt;
                let valid = match &mt {
                    Some(t) => match t {
                        Ty::Enum { .. } | Ty::Array { .. } | Ty::Int | Ty::Char | Ty::Float
                        | Ty::Bool | Ty::String => true,
                        _ => false,
                    },
                    None => false,
                };
                Self::report(tcxt, valid, s.span, ErrorKind::InvalidMatchType);
                let ghost b = *tcxt;
                proof {
                    lemma_scheck_frame_trans(*old(tcxt), a, b);
                }
                let ghost st = state_of(*tcxt);
                let ghost f = tcxt.curr_fn;
                let mut ok = true;
                let mut i: usize = 0;
                while i < arms.len()
                    invariant
                        i <= arms.len(),
                        f == old(tcxt).curr_fn,
                        st == state_of(*old(tcxt)),
                        *s matches Statement { val: Stmt::Match { arms: a2, .. }, .. } && a2 == arms,
                        scheck_frame(*tcxt, *old(tcxt)),
                        state_of(*tcxt) == arms_state(st, f, view_opt(mt), arms@, i as nat),
                        ok == arms_ok(st, f, view_opt(mt), arms@, i as nat),
                        trace_of(*tcxt) == arms_trace(
                            st,
                            trace_of(b),
                            f,
                            view_opt(mt),
                            arms@,
                            i as nat,
                        ),
                    decreases arms.len() - i,
                {
                    let ghost before = *tcxt;
                    let one = Self::check_arm(tcxt, &mt, &arms[i]);
                    proof {
                        lemma_scheck_frame_trans(*old(tcxt), before, *tcxt);
                    }
                    ok = ok && one;
                    i += 1;
                }
                c1 && valid && ok
            },
            _ => {
                proof {
                    lemma_scheck_frame_refl(*tcxt);
                }
                true
            },
        }
    }

    /// Puts the bindings of a pattern into the scope of function `f`.
    fn bind_pattern<'ast>(tcxt: &mut TyCheckRes<'ast>, f: Ident, binds: &Vec<Bound>)
        ensures
            scheck_frame(*final(tcxt), *old(tcxt)),
            final(tcxt).types() == old(tcxt).types(),
            final(tcxt).errors == old(tcxt).errors,
            trace_of(*final(tcxt)) == trace_of(*old(tcxt)),
            final(tcxt).env() == bind_all(
                old(tcxt).env(),
                Some(f),
                view_bounds(binds@),
                binds@.len(),
            ),
    {
        let ghost env = tcxt.env();
        let mut i: usize = 0;
        proof {
            lemma_scheck_frame_refl(*tcxt);
        }
        while i < binds.len()
            invariant
                i <= binds.len(),
                env == old(tcxt).env(),
                scheck_frame(*tcxt, *old(tcxt)),
                tcxt.types() == old(tcxt).types(),
                tcxt.errors == old(tcxt).errors,
                trace_of(*tcxt) == trace_of(*old(tcxt)),
                tcxt.env() == bind_all(env, Some(f), view_bounds(binds@), i as nat),
            decreases binds.len() - i,
        {
            let ghost before = *tcxt;
            if !binds[i].ty.has_path() {
                tcxt.set_local(f, binds[i].ident, binds[i].ty.clone());
            }
            proof {
                assert(scheck_frame(*tcxt, before)) by {
                    lemma_extends_refl(tcxt.errors);
                }
                lemma_scheck_frame_trans(*old(tcxt), before, *tcxt);
            }
            i += 1;
        }
    }

    /// The types that the variables named by `binds` have, in order.
    fn save_pattern<'ast>(tcxt: &TyCheckRes<'ast>, f: Ident, binds: &Vec<Bound>) -> (r: Vec<
        Option<Ty>,
    >)
        ensures
            crate::typeck::typing::view_opts(r@) == saved_tys(tcxt.env(), f, view_bounds(binds@)),
    {
        let mut out: Vec<Option<Ty>> = Vec::new();
        let mut i: usize = 0;
        while i < binds.len()
            invariant
                i <= binds.len(),
                out@.len() == i,
                forall|j: int|
                    0 <= j < i ==> view_opt(#[trigger] out@[j]) == tcxt.env().local_ty(
                        f,
                        binds@[j].ident,
                    ),
            decreases binds.len() - i,
        {
            out.push(tcxt.local_of(f, binds[i].ident));
            i += 1;
        }
        assert(crate::typeck::typing::view_opts(out@) =~= saved_tys(
            tcxt.env(),
            f,
            view_bounds(binds@),
        ));
        out
    }

    /// Puts the names of a pattern's bindings back to what they were.
    fn restore_pattern<'ast>(
        tcxt: &mut TyCheckRes<'ast>,
        f: Ident,
        binds: &Vec<Bound>,
        saved: &Vec<Option<Ty>>,
        Ghost(saved_env): Ghost<Env<'ast>>,
    )
        requires
            crate::typeck::typing::view_opts(saved@) == saved_tys(
                saved_env,
                f,
                view_bounds(binds@),
            ),
        ensures
            same_decls(*final(tcxt), *old(tcxt)),
            old(tcxt).wf() && saved_env.decls_ok() ==> final(tcxt).wf(),
            final(tcxt).types() == old(tcxt).types(),
            final(tcxt).errors == old(tcxt).errors,
            trace_of(*final(tcxt)) == trace_of(*old(tcxt)),
            final(tcxt).env() == restore_all(
                old(tcxt).env(),
                saved_env,
                Some(f),
                view_bounds(binds@),
                binds@.len(),
            ),
    {
        let ghost env = tcxt.env();
        let ghost bs = view_bounds(binds@);
        let mut i: usize = 0;
        assert(saved@.len() == binds@.len()) by {
            assert(crate::typeck::typing::view_opts(saved@).len() == saved_tys(
                saved_env,
                f,
                bs,
            ).len());
        }
        while i < binds.len()
            invariant
                i <= binds.len(),
                saved@.len() == binds@.len(),
                env == old(tcxt).env(),
                bs == view_bounds(binds@),
                crate::typeck::typing::view_opts(saved@) == saved_tys(saved_env, f, bs),
                same_decls(*tcxt, *old(tcxt)),
                old(tcxt).wf() && saved_env.decls_ok() ==> tcxt.wf(),
                tcxt.types() == old(tcxt).types(),
                tcxt.errors == old(tcxt).errors,
                trace_of(*tcxt) == trace_of(*old(tcxt)),
                tcxt.env() == restore_all(env, saved_env, Some(f), bs, i as nat),
            decreases binds.len() - i,
        {
            let ghost before = *tcxt;
            proof {
                assert(crate::typeck::typing::view_opts(saved@)[i as int] == view_opt(
                    saved@[i as int],
                ));
                assert(saved_tys(saved_env, f, bs)[i as int] == saved_env.local_ty(
                    f,
                    bs[i as int].ident,
                ));
                assert(bs[i as int].ident == binds@[i as int].ident);
            }
            match &saved[i] {
                Some(t) => {
                    proof {
                        if saved_env.decls_ok() {
                            assert(saved_env.locals.contains_key(f.id));
                            assert(saved_env.locals[f.id].contains_key(binds@[i as int].ident.id));
                            assert(!t@.has_path());
                        }
                    }
                    tcxt.set_local(f, binds[i].ident, t.clone());
                },
                None => {
                    tcxt.unbind_local(f, binds[i].ident);
                },
            }
            i += 1;
        }
    }

    /// Checks one arm of a match on a value of type `mt`.
    fn check_arm<'ast>(tcxt: &mut TyCheckRes<'ast>, mt: &Option<Ty>, arm: &MatchArm) -> (r: bool)
        ensures
            scheck_frame(*final(tcxt), *old(tcxt)),
            state_of(*final(tcxt)) == arm_state(
                state_of(*old(tcxt)),
                old(tcxt).curr_fn,
                view_opt(*mt),
                *arm,
            ),
            r == arm_ok(state_of(*old(tcxt)), old(tcxt).curr_fn, view_opt(*mt), *arm),
            trace_of(*final(tcxt)) == arm_trace(
                state_of(*old(tcxt)),
                trace_of(*old(tcxt)),
                old(tcxt).curr_fn,
                view_opt(*mt),
                *arm,
            ),
        decreases arm,
    {
        let ghost st = state_of(*tcxt);
        let ghost f = tcxt.curr_fn;
        let mut binds: Vec<Bound> = Vec::new();
        let fits = check_pattern_type(tcxt, &arm.pat.val, opt_ref(mt), &mut binds);
        if !fits {
            Self::report(tcxt, false, arm.pat.span, ErrorKind::PatternMismatch);
            return false;
        }
        let ghost bs = pat_binds(st.env, arm.pat.val, view_opt(*mt)->0)->0;
        assert(view_bounds(binds@) =~= bs);
        let saved = match tcxt.curr_fn {
            Some(fid) => {
                let saved = Self::save_pattern(tcxt, fid, &binds);
                Self::bind_pattern(tcxt, fid, &binds);
                saved
            },
            None => {
                proof {
                    lemma_scheck_frame_refl(*tcxt);
                }
                Vec::new()
            },
        };
        let ghost a = *tcxt;
        assert(a.env() == bind_all(st.env, f, bs, bs.len()));
        let was_poisoned = tcxt.errors.is_poisoned();
        tcxt.errors.poisoned(false);
        let ghost a2 = *tcxt;
        TypeInfer::visit_block(tcxt, &arm.blk.stmts);
        let ghost a3 = *tcxt;
        let inferred = !tcxt.errors.is_poisoned();
        if was_poisoned {
            tcxt.errors.poisoned(true);
        }
        let ghost b = *tcxt;
        proof {
            assert(b.errors.extends(a.errors)) by {
                assert(a3.errors.extends(a2.errors));
                assert(b.errors.errors@.subrange(0, a.errors.errors@.len() as int)
                    =~= a.errors.errors@);
            }
            assert(a.wf() ==> a2.wf());
            assert(a3.wf() ==> b.wf());
            assert(scheck_frame(b, a));
            lemma_scheck_frame_trans(*old(tcxt), a, b);
        }
        let checked = Self::visit_block(tcxt, &arm.blk.stmts);
        let ghost c = *tcxt;
        proof {
            lemma_scheck_frame_trans(*old(tcxt), b, c);
        }
        match tcxt.curr_fn {
            Some(fid) => {
                Self::restore_pattern(tcxt, fid, &binds, &saved, Ghost(st.env));
            },
            None => {},
        }
        proof {
            assert(tcxt.errors.extends(old(tcxt).errors));
        }
        inferred && checked
    }
}

} // verus!
