//! Inference over statements: what each statement binds, and the types of
//! the expressions in it.

use crate::ast::types::{
    view_opt, Block, Expr, Expression, Ident, Range, SpecTy, Statement, Stmt, Ty,
};
use crate::error::{lemma_extends_refl, lemma_extends_trans, Error, ErrorKind, Severity};
use crate::typeck::faults::{fault, faults, lemma_add_assoc, lemma_add_empty};
use crate::typeck::infer::{entries, found, lemma_union_assoc, ty_of, view_found, TypeInfer};
use crate::typeck::path_free::{lemma_ty_of_path_free, map_path_free};
use crate::typeck::scope::UnusedVar;
use crate::typeck::{view_types, Env, TyCheckRes};
use std::collections::HashMap;
use vstd::prelude::*;

verus! {

impl<'ast> Env<'ast> {
    /// The declarations with the variable `x` of function `f` bound to the
    /// type `t`.
    pub open spec fn bind(self, f: Ident, x: Ident, t: SpecTy) -> Env<'ast> {
        let scope = if self.locals.contains_key(f.id) {
            self.locals[f.id]
        } else {
            Map::empty()
        };
        Env { locals: self.locals.insert(f.id, scope.insert(x.id, t)), ..self }
    }
}

/// What stays as it is when a variable is bound.
pub open spec fn bind_frame(new: TyCheckRes, old: TyCheckRes) -> bool {
    &&& new.curr_fn == old.curr_fn
    &&& new.generic_res == old.generic_res
    &&& new.uniq_generic_instance_id == old.uniq_generic_instance_id
    &&& new.trait_solve == old.trait_solve
    &&& new.expr_ty == old.expr_ty
    &&& new.call_ty_args == old.call_ty_args
    &&& new.consts == old.consts
    &&& new.global == old.global
    &&& new.name_struct == old.name_struct
    &&& new.name_enum == old.name_enum
    &&& new.var_func.func_spans == old.var_func.func_spans
    &&& new.var_func.name_func == old.var_func.name_func
    &&& new.var_func.func_return == old.var_func.func_return
    &&& new.next_scope == old.next_scope
}

impl<'ast> Env<'ast> {
    /// The declarations without the variable `x` of function `f`.
    pub open spec fn unbind(self, f: Ident, x: Ident) -> Env<'ast> {
        if self.locals.contains_key(f.id) {
            Env { locals: self.locals.insert(f.id, self.locals[f.id].remove(x.id)), ..self }
        } else {
            self
        }
    }

    /// The declarations with the variable `x` of function `f` as it is in
    /// `saved`: bound to the type it has there, or not bound.
    pub open spec fn restore(self, saved: Env<'ast>, f: Ident, x: Ident) -> Env<'ast> {
        match saved.local_ty(f, x) {
            Some(t) => self.bind(f, x, t),
            None => self.unbind(f, x),
        }
    }
}

impl<'ast> TyCheckRes<'ast> {
    /// The type of the variable `x` of function `f`.
    pub fn local_of(&self, f: Ident, x: Ident) -> (r: Option<Ty>)
        ensures
            view_opt(r) == self.env().local_ty(f, x),
    {
        match self.var_func.func_refs.get(&f.id) {
            Some(scope) => match scope.get(&x.id) {
                Some(t) => Some(t.clone()),
                None => None,
            },
            None => None,
        }
    }

    /// Binds the variable `x` of function `f` to the type `ty`, whatever it
    /// was bound to.
    pub fn set_local(&mut self, f: Ident, x: Ident, ty: Ty)
        ensures
            bind_frame(*final(self), *old(self)),
            final(self).errors == old(self).errors,
            final(self).var_func.unsed_vars == old(self).var_func.unsed_vars,
            final(self).env() == old(self).env().bind(f, x, ty@),
            old(self).wf() && !ty@.has_path() ==> final(self).wf(),
    {
        let ghost old_env = self.env();
        let ghost old_refs = self.var_func.func_refs@;
        let mut scope: HashMap<usize, Ty> = match self.var_func.func_refs.remove(&f.id) {
            Some(s) => s,
            None => HashMap::new(),
        };
        let ghost old_scope = scope@;
        scope.insert(x.id, ty);
        let ghost new_scope = scope@;
        self.var_func.func_refs.insert(f.id, scope);
        proof {
            let spec_scope = if old_env.locals.contains_key(f.id) {
                old_env.locals[f.id]
            } else {
                Map::empty()
            };
            assert(view_types(old_scope) =~= spec_scope);
            assert(view_types(new_scope) =~= spec_scope.insert(x.id, ty@));
            assert(self.var_func.func_refs@ =~= old_refs.insert(f.id, scope));
            assert(self.env().locals =~= old_env.locals.insert(f.id, spec_scope.insert(x.id, ty@)));
            assert(self.env().globals == old_env.globals);
            if old(self).wf() && !ty@.has_path() {
                let env = self.env();
                assert forall|g: usize, k: usize|
                    env.locals.contains_key(g) && #[trigger] env.locals[g].contains_key(
                        k,
                    ) implies !env.locals[g][k].has_path() by {
                    if g == f.id {
                        if k != x.id {
                            assert(spec_scope.contains_key(k));
                            assert(old_env.locals[g].contains_key(k));
                        }
                    } else {
                        assert(old_env.locals[g].contains_key(k));
                    }
                }
                lemma_decls_ok_locals(old_env, env);
            }
        }
    }

    /// Takes the variable `x` of function `f` out of the declarations.
    pub fn unbind_local(&mut self, f: Ident, x: Ident)
        ensures
            bind_frame(*final(self), *old(self)),
            final(self).errors == old(self).errors,
            final(self).var_func.unsed_vars == old(self).var_func.unsed_vars,
            final(self).env() == old(self).env().unbind(f, x),
            old(self).wf() ==> final(self).wf(),
    {
        let ghost old_env = self.env();
        let ghost old_refs = self.var_func.func_refs@;
        match self.var_func.func_refs.remove(&f.id) {
            Some(mut scope) => {
                let ghost old_scope = scope@;
                scope.remove(&x.id);
                let ghost new_scope = scope@;
                self.var_func.func_refs.insert(f.id, scope);
                proof {
                    assert(view_types(new_scope) =~= view_types(old_scope).remove(x.id));
                    assert(self.var_func.func_refs@ =~= old_refs.insert(f.id, scope));
                    assert(self.env().locals =~= old_env.locals.insert(
                        f.id,
                        old_env.locals[f.id].remove(x.id),
                    ));
                    assert(self.env().globals == old_env.globals);
                    if old(self).wf() {
                        let env = self.env();
                        assert forall|g: usize, k: usize|
                            env.locals.contains_key(g) && #[trigger] env.locals[g].contains_key(
                                k,
                            ) implies !env.locals[g][k].has_path() by {
                            assert(old_env.locals[g].contains_key(k));
                        }
                        lemma_decls_ok_locals(old_env, env);
                    }
                }
            },
            None => {
                assert(self.var_func.func_refs@ =~= old_refs);
            },
        }
    }

    /// Binds the variable `x` of function `f` to the type `ty`, whatever it
    /// was bound to, and notes it as a variable that was not read yet.
    /// The result says whether the function had a variable of that name.
    pub fn bind_local(&mut self, f: Ident, x: Ident, span: Range, ty: Ty) -> (r: bool)
        ensures
            bind_frame(*final(self), *old(self)),
            final(self).errors == old(self).errors,
            final(self).env() == old(self).env().bind(f, x, ty@),
            r == old(self).env().local_ty(f, x) is Some,
            final(self).var_func.unsed_vars@ == old(self).var_func.unsed_vars@.push(
                UnusedVar { func: Some(f), ident: x, span, used: false },
            ),
            old(self).wf() && !ty@.has_path() ==> final(self).wf(),
    {
        let dup = self.local_of(f, x).is_some();
        self.set_local(f, x, ty);
        self.var_func.unsed_vars.push(UnusedVar { func: Some(f), ident: x, span, used: false });
        dup
    }
}

/// Declarations that differ from well-formed ones in the variables of
/// functions alone are well-formed where no variable's type holds an
/// unresolved nominal reference.
pub proof fn lemma_decls_ok_locals(old_env: Env, env: Env)
    requires
        old_env.decls_ok(),
        env.globals == old_env.globals,
        env.funcs == old_env.funcs,
        env.structs == old_env.structs,
        env.enums == old_env.enums,
        env.traits == old_env.traits,
        env.impls == old_env.impls,
        forall|g: usize, k: usize|
            env.locals.contains_key(g) && #[trigger] env.locals[g].contains_key(k)
                ==> !env.locals[g][k].has_path(),
    ensures
        env.decls_ok(),
{
    assert forall|k: usize| #[trigger] env.globals.contains_key(k) implies !env.globals[k].has_path() by {
        assert(old_env.globals.contains_key(k));
    }
}

/// The type that a constant declaration binds: the declared type, if it
/// holds no unresolved nominal reference.
pub open spec fn const_ty(ty: Ty) -> Option<SpecTy> {
    if !ty@.has_path() {
        Some(ty@)
    } else {
        None
    }
}

/// The type that `let a = rval;` binds: the type of `rval`, with what it
/// leaves open taken from the type written at the declaration, where one is
/// written and the two agree; where `rval` has no type, the type written
/// at the declaration, if one is written. A written type that holds an
/// unresolved nominal reference is not used.
pub open spec fn let_ty(env: Env, rval: Expression, given: Option<Ty>) -> Option<SpecTy> {
    match ty_of(env, rval) {
        Some(t) => match given {
            Some(g) => if !g@.has_path() {
                match crate::typeck::infer::spec_unify(t, g@) {
                    Some(u) => Some(u),
                    None => Some(t),
                }
            } else {
                Some(t)
            },
            None => Some(t),
        },
        None => match given {
            Some(g) => if !g@.has_path() {
                Some(g@)
            } else {
                None
            },
            None => None,
        },
    }
}

/// The variable that the left side of a `let` names, if it names one.
pub open spec fn target_of(lval: Expression) -> Option<Ident> {
    match lval.val {
        Expr::Ident(x) => Some(x),
        _ => None,
    }
}

/// The declarations after the variable `target` of function `f` is bound to
/// `ty`; the declarations as they are where one of the three is missing.
pub open spec fn declared<'ast>(env: Env<'ast>, f: Option<Ident>, target: Option<Ident>, ty: Option<SpecTy>) -> Env<'ast> {
    match (f, target, ty) {
        (Some(f), Some(x), Some(t)) => env.bind(f, x, t),
        _ => env,
    }
}

/// `true` when a variable named `x` may be declared in function `f`: no
/// global and no variable of `f` has the name.
pub open spec fn fresh(env: Env, f: Ident, x: Ident) -> bool {
    env.global_ty(x) is None && env.local_ty(f, x) is None
}

/// `true` when `target` names a new variable of a function.
pub open spec fn can_declare(env: Env, f: Option<Ident>, target: Option<Ident>) -> bool {
    f matches Some(f) && target matches Some(x) && fresh(env, f, x)
}

/// The declarations after the first `n` statements of a block.
pub open spec fn block_env<'ast>(env: Env<'ast>, f: Option<Ident>, stmts: Seq<Statement>, n: nat) -> Env<'ast>
    decreases stmts, n,
{
    if n == 0 || n > stmts.len() {
        env
    } else {
        stmt_env(block_env(env, f, stmts, (n - 1) as nat), f, stmts[n - 1])
    }
}

/// The declarations after a statement of function `f`: a `let` and a
/// constant declaration bind a variable of `f`; the statements of an `if`, a
/// `while` and a block bind theirs in turn. The arms of a `match` bind
/// nothing here: they are walked when the statement is checked.
pub open spec fn stmt_env<'ast>(env: Env<'ast>, f: Option<Ident>, s: Statement) -> Env<'ast>
    decreases s,
{
    match s.val {
        Stmt::Assign { lval, rval, ty, is_let } => if is_let {
            declared(env, f, target_of(lval), let_ty(env, rval, ty))
        } else {
            env
        },
        Stmt::Const(c) => declared(env, f, Some(c.ident), const_ty(c.ty)),
        Stmt::If { blk, els, .. } => {
            let e1 = block_env(env, f, blk.stmts@, blk.stmts@.len());
            match els {
                Some(b) => block_env(e1, f, b.stmts@, b.stmts@.len()),
                None => e1,
            }
        },
        Stmt::While { blk, .. } => block_env(env, f, blk.stmts@, blk.stmts@.len()),
        Stmt::Block(b) => block_env(env, f, b.stmts@, b.stmts@.len()),
        _ => env,
    }
}

/// What inference writes for the first `n` statements of a block.
pub open spec fn block_entries(env: Env, f: Option<Ident>, stmts: Seq<Statement>, n: nat) -> Map<
    usize,
    SpecTy,
>
    decreases stmts, n,
{
    if n == 0 || n > stmts.len() {
        Map::empty()
    } else {
        block_entries(env, f, stmts, (n - 1) as nat).union_prefer_right(
            stmt_entries(block_env(env, f, stmts, (n - 1) as nat), f, stmts[n - 1]),
        )
    }
}

/// What inference writes for a statement: the types of the expressions in
/// it, each under the declarations that hold where it stands.
pub open spec fn stmt_entries(env: Env, f: Option<Ident>, s: Statement) -> Map<usize, SpecTy>
    decreases s,
{
    match s.val {
        Stmt::Assign { lval, rval, .. } => entries(env, rval).union_prefer_right(
            entries(stmt_env(env, f, s), lval),
        ),
        Stmt::AssignOp { lval, rval, .. } => entries(env, rval).union_prefer_right(
            entries(env, lval),
        ),
        Stmt::Const(c) => entries(env, c.init),
        Stmt::Call(e) => entries(env, e),
        Stmt::TraitMeth(e) => entries(env, e),
        Stmt::If { cond, blk, els } => {
            let e1 = block_env(env, f, blk.stmts@, blk.stmts@.len());
            entries(env, cond).union_prefer_right(
                block_entries(env, f, blk.stmts@, blk.stmts@.len()),
            ).union_prefer_right(
                match els {
                    Some(b) => block_entries(e1, f, b.stmts@, b.stmts@.len()),
                    None => Map::empty(),
                },
            )
        },
        Stmt::While { cond, blk } => entries(env, cond).union_prefer_right(
            block_entries(env, f, blk.stmts@, blk.stmts@.len()),
        ),
        Stmt::Match { expr, .. } => entries(env, expr),
        Stmt::Read(e) => entries(env, e),
        Stmt::Write { expr } => entries(env, expr),
        Stmt::Ret(e) => entries(env, e),
        Stmt::Exit => Map::empty(),
        Stmt::Block(b) => block_entries(env, f, b.stmts@, b.stmts@.len()),
    }
}

/// `true` when inference finds no fault in the first `n` statements of a
/// block.
pub open spec fn block_ok(env: Env, f: Option<Ident>, stmts: Seq<Statement>, n: nat) -> bool
    decreases stmts, n,
{
    if n == 0 || n > stmts.len() {
        true
    } else {
        block_ok(env, f, stmts, (n - 1) as nat) && stmt_ok(
            block_env(env, f, stmts, (n - 1) as nat),
            f,
            stmts[n - 1],
        )
    }
}

/// `true` when inference finds no fault in a statement: every expression in
/// it has a type, and what it declares is a new variable of a function.
pub open spec fn stmt_ok(env: Env, f: Option<Ident>, s: Statement) -> bool
    decreases s,
{
    match s.val {
        Stmt::Assign { lval, rval, ty, is_let } => {
            &&& ty_of(env, rval) is Some
            &&& ty_of(stmt_env(env, f, s), lval) is Some
            &&& is_let ==> can_declare(env, f, target_of(lval))
        },
        Stmt::AssignOp { lval, rval, .. } => ty_of(env, rval) is Some && ty_of(env, lval) is Some,
        Stmt::Const(c) => {
            &&& ty_of(env, c.init) is Some
            &&& const_ty(c.ty) is Some
            &&& can_declare(env, f, Some(c.ident))
        },
        Stmt::Call(e) => ty_of(env, e) is Some,
        Stmt::TraitMeth(e) => ty_of(env, e) is Some,
        Stmt::If { cond, blk, els } => {
            let e1 = block_env(env, f, blk.stmts@, blk.stmts@.len());
            &&& ty_of(env, cond) is Some
            &&& block_ok(env, f, blk.stmts@, blk.stmts@.len())
            &&& match els {
                Some(b) => block_ok(e1, f, b.stmts@, b.stmts@.len()),
                None => true,
            }
        },
        Stmt::While { cond, blk } => ty_of(env, cond) is Some && block_ok(
            env,
            f,
            blk.stmts@,
            blk.stmts@.len(),
        ),
        Stmt::Match { expr, .. } => ty_of(env, expr) is Some,
        Stmt::Read(e) => ty_of(env, e) is Some,
        Stmt::Write { expr } => ty_of(env, expr) is Some,
        Stmt::Ret(e) => ty_of(env, e) is Some,
        Stmt::Exit => true,
        Stmt::Block(b) => block_ok(env, f, b.stmts@, b.stmts@.len()),
    }
}

/// The diagnostics for the declaration of the variable `target` at `span`
/// in function `f`: a declaration outside any function, of what is no
/// name, of a name that a global has, or of a name that a variable of the
/// function has.
pub open spec fn declare_faults(env: Env, f: Option<Ident>, target: Option<Ident>, span: Range) -> Seq<
    Error,
> {
    match f {
        Some(f) => match target {
            Some(x) => if env.global_ty(x) is Some {
                seq![
                    Error {
                        span,
                        severity: Severity::Error,
                        kind: ErrorKind::ShadowsGlobal,
                        ident: Some(x),
                        found: None,
                        expected: None,
                    },
                ]
            } else if env.local_ty(f, x) is Some {
                seq![
                    Error {
                        span,
                        severity: Severity::Error,
                        kind: ErrorKind::DuplicateVariable,
                        ident: Some(x),
                        found: None,
                        expected: None,
                    },
                ]
            } else {
                Seq::empty()
            },
            None => seq![fault(span, ErrorKind::InvalidLValue)],
        },
        None => seq![fault(span, ErrorKind::OutsideFunction)],
    }
}

/// The note that the declaration of the variable `target` with a type
/// leaves: a variable that was not read yet.
pub open spec fn declare_vars(f: Option<Ident>, target: Option<Ident>, span: Range, ty: Option<SpecTy>) -> Seq<
    UnusedVar,
> {
    match (f, target, ty) {
        (Some(f), Some(x), Some(_)) => seq![UnusedVar { func: Some(f), ident: x, span, used: false }],
        _ => Seq::empty(),
    }
}

/// `true` when the left side of a `let` is not walked: the right side has
/// no type, which is reported there, and the left side names a variable
/// that is therefore not bound.
pub open spec fn skips_lval(env: Env, s: Statement) -> bool {
    s.val matches Stmt::Assign { lval, rval, ty, is_let } && is_let && let_ty(env, rval, ty) is None
        && (lval.val matches Expr::Ident(x) && env.type_of_ident(x, lval.span) is None)
}

/// The diagnostics of inference for the first `n` statements of a block.
pub open spec fn block_faults(env: Env, f: Option<Ident>, stmts: Seq<Statement>, n: nat) -> Seq<Error>
    decreases stmts, n,
{
    if n == 0 || n > stmts.len() {
        Seq::empty()
    } else {
        block_faults(env, f, stmts, (n - 1) as nat) + stmt_faults(
            block_env(env, f, stmts, (n - 1) as nat),
            f,
            stmts[n - 1],
        )
    }
}

/// The diagnostics of inference for a statement: those of its expressions,
/// each under the declarations that hold where it stands, and those of
/// what it declares, in the order in which they are walked.
pub open spec fn stmt_faults(env: Env, f: Option<Ident>, s: Statement) -> Seq<Error>
    decreases s,
{
    match s.val {
        Stmt::Assign { lval, rval, is_let, .. } => faults(env, rval) + (if is_let {
            declare_faults(env, f, target_of(lval), lval.span)
        } else {
            Seq::empty()
        }) + (if skips_lval(env, s) {
            Seq::empty()
        } else {
            faults(stmt_env(env, f, s), lval)
        }),
        Stmt::AssignOp { lval, rval, .. } => faults(env, rval) + faults(env, lval),
        Stmt::Const(c) => faults(env, c.init) + declare_faults(env, f, Some(c.ident), c.span) + (
        if const_ty(c.ty) is None {
            seq![
                Error {
                    span: c.span,
                    severity: Severity::Error,
                    kind: ErrorKind::UnresolvedPath,
                    ident: Some(c.ident),
                    found: None,
                    expected: None,
                },
            ]
        } else {
            Seq::empty()
        }),
        Stmt::Call(e) => faults(env, e),
        Stmt::TraitMeth(e) => faults(env, e),
        Stmt::If { cond, blk, els } => {
            let e1 = block_env(env, f, blk.stmts@, blk.stmts@.len());
            faults(env, cond) + block_faults(env, f, blk.stmts@, blk.stmts@.len()) + (match els {
                Some(b) => block_faults(e1, f, b.stmts@, b.stmts@.len()),
                None => Seq::empty(),
            })
        },
        Stmt::While { cond, blk } => faults(env, cond) + block_faults(
            env,
            f,
            blk.stmts@,
            blk.stmts@.len(),
        ),
        Stmt::Match { expr, .. } => faults(env, expr),
        Stmt::Read(e) => faults(env, e),
        Stmt::Write { expr } => faults(env, expr),
        Stmt::Ret(e) => faults(env, e),
        Stmt::Exit => Seq::empty(),
        Stmt::Block(b) => block_faults(env, f, b.stmts@, b.stmts@.len()),
    }
}

/// The notes of variables not read yet that the first `n` statements of a
/// block leave.
pub open spec fn block_vars(env: Env, f: Option<Ident>, stmts: Seq<Statement>, n: nat) -> Seq<UnusedVar>
    decreases stmts, n,
{
    if n == 0 || n > stmts.len() {
        Seq::empty()
    } else {
        block_vars(env, f, stmts, (n - 1) as nat) + stmt_vars(
            block_env(env, f, stmts, (n - 1) as nat),
            f,
            stmts[n - 1],
        )
    }
}

/// The notes of variables not read yet that a statement leaves: one for
/// each variable that it declares with a type.
pub open spec fn stmt_vars(env: Env, f: Option<Ident>, s: Statement) -> Seq<UnusedVar>
    decreases s,
{
    match s.val {
        Stmt::Assign { lval, rval, ty, is_let } => if is_let {
            declare_vars(f, target_of(lval), lval.span, let_ty(env, rval, ty))
        } else {
            Seq::empty()
        },
        Stmt::Const(c) => declare_vars(f, Some(c.ident), c.span, const_ty(c.ty)),
        Stmt::If { blk, els, .. } => {
            let e1 = block_env(env, f, blk.stmts@, blk.stmts@.len());
            block_vars(env, f, blk.stmts@, blk.stmts@.len()) + (match els {
                Some(b) => block_vars(e1, f, b.stmts@, b.stmts@.len()),
                None => Seq::empty(),
            })
        },
        Stmt::While { blk, .. } => block_vars(env, f, blk.stmts@, blk.stmts@.len()),
        Stmt::Block(b) => block_vars(env, f, b.stmts@, b.stmts@.len()),
        _ => Seq::empty(),
    }
}

/// The table of the type arguments of calls after inference has walked
/// the first `n` statements of a block.
pub open spec fn block_found(env: Env, m: Map<usize, Seq<SpecTy>>, f: Option<Ident>, stmts: Seq<Statement>, n: nat) -> Map<
    usize,
    Seq<SpecTy>,
>
    decreases stmts, n,
{
    if n == 0 || n > stmts.len() {
        m
    } else {
        stmt_found(
            block_env(env, f, stmts, (n - 1) as nat),
            block_found(env, m, f, stmts, (n - 1) as nat),
            f,
            stmts[n - 1],
        )
    }
}

/// The table of the type arguments of calls after inference has walked a
/// statement: each call in it that has a type is mapped to its type
/// arguments.
pub open spec fn stmt_found(env: Env, m: Map<usize, Seq<SpecTy>>, f: Option<Ident>, s: Statement) -> Map<
    usize,
    Seq<SpecTy>,
>
    decreases s,
{
    match s.val {
        Stmt::Assign { lval, rval, .. } => if skips_lval(env, s) {
            found(env, m, rval)
        } else {
            found(stmt_env(env, f, s), found(env, m, rval), lval)
        },
        Stmt::AssignOp { lval, rval, .. } => found(env, found(env, m, rval), lval),
        Stmt::Const(c) => found(env, m, c.init),
        Stmt::Call(e) => found(env, m, e),
        Stmt::TraitMeth(e) => found(env, m, e),
        Stmt::If { cond, blk, els } => {
            let e1 = block_env(env, f, blk.stmts@, blk.stmts@.len());
            let m1 = block_found(env, found(env, m, cond), f, blk.stmts@, blk.stmts@.len());
            match els {
                Some(b) => block_found(e1, m1, f, b.stmts@, b.stmts@.len()),
                None => m1,
            }
        },
        Stmt::While { cond, blk } => block_found(
            env,
            found(env, m, cond),
            f,
            blk.stmts@,
            blk.stmts@.len(),
        ),
        Stmt::Match { expr, .. } => found(env, m, expr),
        Stmt::Read(e) => found(env, m, e),
        Stmt::Write { expr } => found(env, m, expr),
        Stmt::Ret(e) => found(env, m, e),
        Stmt::Exit => m,
        Stmt::Block(b) => block_found(env, m, f, b.stmts@, b.stmts@.len()),
    }
}

/// `true` when `new` holds the diagnostics of `old` and then `errs`, and
/// the notes of variables not read yet of `old` and then `vars`.
pub open spec fn trail(new: TyCheckRes, old: TyCheckRes, errs: Seq<Error>, vars: Seq<UnusedVar>) -> bool {
    &&& new.errors.errors@ == old.errors.errors@ + errs
    &&& new.var_func.unsed_vars@ == old.var_func.unsed_vars@ + vars
}

/// Two steps leave the diagnostics and notes of both, in order.
pub proof fn lemma_trail_trans(
    a: TyCheckRes,
    b: TyCheckRes,
    c: TyCheckRes,
    e1: Seq<Error>,
    v1: Seq<UnusedVar>,
    e2: Seq<Error>,
    v2: Seq<UnusedVar>,
)
    requires
        trail(b, a, e1, v1),
        trail(c, b, e2, v2),
    ensures
        trail(c, a, e1 + e2, v1 + v2),
{
    lemma_add_assoc(a.errors.errors@, e1, e2);
    lemma_add_assoc(a.var_func.unsed_vars@, v1, v2);
}

/// A context leaves no diagnostic and no note on itself.
pub proof fn lemma_trail_refl(a: TyCheckRes)
    ensures
        trail(a, a, Seq::empty(), Seq::empty()),
{
    lemma_add_empty(a.errors.errors@);
    lemma_add_empty(a.var_func.unsed_vars@);
}

/// Inference of an expression leaves its diagnostics and no note.
pub proof fn lemma_expr_trail(new: TyCheckRes, old: TyCheckRes, e: Expression)
    requires
        crate::typeck::infer::infer_frame(new, old),
        new.errors.errors@ == old.errors.errors@ + faults(old.env(), e),
    ensures
        trail(new, old, faults(old.env(), e), Seq::empty()),
{
    lemma_add_empty(old.var_func.unsed_vars@);
}

/// What inference over statements leaves as it is: every declaration but
/// the variables of functions, the generic resolver, the counter of uses;
/// and the diagnostics found before are still there.
pub open spec fn stmt_frame(new: TyCheckRes, old: TyCheckRes) -> bool {
    &&& new.curr_fn == old.curr_fn
    &&& new.generic_res == old.generic_res
    &&& new.uniq_generic_instance_id == old.uniq_generic_instance_id
    &&& new.trait_solve.unsolved == old.trait_solve.unsolved
    &&& new.var_func.func_return == old.var_func.func_return
    &&& new.consts == old.consts
    &&& new.env().globals == old.env().globals
    &&& new.env().spans == old.env().spans
    &&& new.env().funcs == old.env().funcs
    &&& new.env().structs == old.env().structs
    &&& new.env().enums == old.env().enums
    &&& new.env().traits == old.env().traits
    &&& new.env().impls == old.env().impls
    &&& new.errors.extends(old.errors)
    &&& old.wf() ==> new.wf()
    &&& old.wf() && map_path_free(old.types()) ==> map_path_free(new.types())
}

/// What holds when inference has walked the statement `s`.
pub open spec fn stmt_done(new: TyCheckRes, old: TyCheckRes, s: Statement) -> bool {
    &&& stmt_frame(new, old)
    &&& new.env() == stmt_env(old.env(), old.curr_fn, s)
    &&& new.types() == old.types().union_prefer_right(stmt_entries(old.env(), old.curr_fn, s))
    &&& new.errors.poisoned == (old.errors.poisoned || !stmt_ok(old.env(), old.curr_fn, s))
    &&& trail(
        new,
        old,
        stmt_faults(old.env(), old.curr_fn, s),
        stmt_vars(old.env(), old.curr_fn, s),
    )
    &&& view_found(new.call_ty_args@) == stmt_found(
        old.env(),
        view_found(old.call_ty_args@),
        old.curr_fn,
        s,
    )
}

/// A context keeps what it holds.
pub proof fn lemma_stmt_frame_refl(c: TyCheckRes)
    ensures
        stmt_frame(c, c),
{
    lemma_extends_refl(c.errors);
}

/// What is kept over two steps is kept over both.
pub proof fn lemma_stmt_frame_trans(a: TyCheckRes, b: TyCheckRes, c: TyCheckRes)
    requires
        stmt_frame(b, a),
        stmt_frame(c, b),
    ensures
        stmt_frame(c, a),
{
    lemma_extends_trans(a.errors, b.errors, c.errors);
}

/// Inference of an expression keeps what inference of a statement keeps.
pub proof fn lemma_infer_is_stmt_frame(new: TyCheckRes, old: TyCheckRes)
    requires
        crate::typeck::infer::infer_frame(new, old),
        old.wf() && map_path_free(old.types()) ==> map_path_free(new.types()),
    ensures
        stmt_frame(new, old),
{
}

impl TypeInfer {
    /// Infers the types of the expressions of a statement and binds what the
    /// statement declares.
    ///
    /// Where an expression has no type, or a declaration is at fault, a
    /// diagnostic is reported and the context is poisoned.
    pub fn visit_stmt<'ast>(tcxt: &mut TyCheckRes<'ast>, s: &Statement)
        ensures
            stmt_done(*final(tcxt), *old(tcxt), *s),
        decreases s, 1nat,
    {
        match &s.val {
            Stmt::Assign { .. } => Self::infer_assign(tcxt, s),
            Stmt::Const(_) => Self::infer_const(tcxt, s),
            Stmt::If { .. } => Self::infer_nested(tcxt, s),
            Stmt::While { .. } => Self::infer_nested(tcxt, s),
            Stmt::Block(_) => Self::infer_nested(tcxt, s),
            _ => Self::infer_plain(tcxt, s),
        }
    }

    /// Infers the types of the expressions of each statement of a block, in
    /// order.
    pub fn visit_block<'ast>(tcxt: &mut TyCheckRes<'ast>, stmts: &Vec<Statement>)
        ensures
            stmt_frame(*final(tcxt), *old(tcxt)),
            final(tcxt).env() == block_env(
                old(tcxt).env(),
                old(tcxt).curr_fn,
                stmts@,
                stmts@.len(),
            ),
            final(tcxt).types() == old(tcxt).types().union_prefer_right(
                block_entries(old(tcxt).env(), old(tcxt).curr_fn, stmts@, stmts@.len()),
            ),
            final(tcxt).errors.poisoned == (old(tcxt).errors.poisoned || !block_ok(
                old(tcxt).env(),
                old(tcxt).curr_fn,
                stmts@,
                stmts@.len(),
            )),
            trail(
                *final(tcxt),
                *old(tcxt),
                block_faults(old(tcxt).env(), old(tcxt).curr_fn, stmts@, stmts@.len()),
                block_vars(old(tcxt).env(), old(tcxt).curr_fn, stmts@, stmts@.len()),
            ),
            view_found(final(tcxt).call_ty_args@) == block_found(
                old(tcxt).env(),
                view_found(old(tcxt).call_ty_args@),
                old(tcxt).curr_fn,
                stmts@,
                stmts@.len(),
            ),
        decreases stmts,
    {
        let ghost env = tcxt.env();
        let ghost f = tcxt.curr_fn;
        let mut i: usize = 0;
        proof {
            lemma_trail_refl(*tcxt);
            lemma_stmt_frame_refl(*tcxt);
            assert(tcxt.types() =~= old(tcxt).types().union_prefer_right(
                block_entries(env, f, stmts@, 0),
            ));
        }
        while i < stmts.len()
            invariant
                i <= stmts.len(),
                env == old(tcxt).env(),
                f == old(tcxt).curr_fn,
                stmt_frame(*tcxt, *old(tcxt)),
                tcxt.env() == block_env(env, f, stmts@, i as nat),
                tcxt.types() == old(tcxt).types().union_prefer_right(
                    block_entries(env, f, stmts@, i as nat),
                ),
                tcxt.errors.poisoned == (old(tcxt).errors.poisoned || !block_ok(
                    env,
                    f,
                    stmts@,
                    i as nat,
                )),
                trail(
                    *tcxt,
                    *old(tcxt),
                    block_faults(env, f, stmts@, i as nat),
                    block_vars(env, f, stmts@, i as nat),
                ),
                view_found(tcxt.call_ty_args@) == block_found(
                    env,
                    view_found(old(tcxt).call_ty_args@),
                    f,
                    stmts@,
                    i as nat,
                ),
            decreases stmts.len() - i,
        {
            let ghost before = *tcxt;
            Self::visit_stmt(tcxt, &stmts[i]);
            proof {
                lemma_trail_trans(
                    *old(tcxt),
                    before,
                    *tcxt,
                    block_faults(env, f, stmts@, i as nat),
                    block_vars(env, f, stmts@, i as nat),
                    stmt_faults(before.env(), f, stmts@[i as int]),
                    stmt_vars(before.env(), f, stmts@[i as int]),
                );
                lemma_stmt_frame_trans(*old(tcxt), before, *tcxt);
                lemma_union_assoc(
                    old(tcxt).types(),
                    block_entries(env, f, stmts@, i as nat),
                    stmt_entries(before.env(), f, stmts@[i as int]),
                );
            }
            i += 1;
        }
    }

    fn infer_plain<'ast>(tcxt: &mut TyCheckRes<'ast>, s: &Statement)
        requires
            !(s.val is Assign),
            !(s.val is Const),
            !(s.val is If),
            !(s.val is While),
            !(s.val is Block),
        ensures
            stmt_done(*final(tcxt), *old(tcxt), *s),
    {
        let ghost env = tcxt.env();
        match &s.val {
            Stmt::AssignOp { lval, rval, .. } => {
                Self::visit_expr(tcxt, rval);
                let ghost a = *tcxt;
                Self::visit_expr(tcxt, lval);
                proof {
                    lemma_expr_trail(a, *old(tcxt), *rval);
                    lemma_expr_trail(*tcxt, a, *lval);
                    lemma_trail_trans(
                        *old(tcxt),
                        a,
                        *tcxt,
                        faults(env, *rval),
                        Seq::empty(),
                        faults(env, *lval),
                        Seq::empty(),
                    );
                    lemma_add_empty(Seq::<UnusedVar>::empty());
                    lemma_infer_is_stmt_frame(a, *old(tcxt));
                    lemma_infer_is_stmt_frame(*tcxt, a);
                    lemma_stmt_frame_trans(*old(tcxt), a, *tcxt);
                    lemma_union_assoc(old(tcxt).types(), entries(env, *rval), entries(env, *lval));
                }
            },
            Stmt::Call(e) => {
                Self::visit_expr(tcxt, e);
                proof {
                    lemma_expr_trail(*tcxt, *old(tcxt), *e);
                }
            },
            Stmt::TraitMeth(e) => {
                Self::visit_expr(tcxt, e);
                proof {
                    lemma_expr_trail(*tcxt, *old(tcxt), *e);
                }
            },
            Stmt::Match { expr, .. } => {
                Self::visit_expr(tcxt, expr);
                proof {
                    lemma_expr_trail(*tcxt, *old(tcxt), *expr);
                }
            },
            Stmt::Read(e) => {
                Self::visit_expr(tcxt, e);
                proof {
                    lemma_expr_trail(*tcxt, *old(tcxt), *e);
                }
            },
            Stmt::Write { expr } => {
                Self::visit_expr(tcxt, expr);
                proof {
                    lemma_expr_trail(*tcxt, *old(tcxt), *expr);
                }
            },
            Stmt::Ret(e) => {
                Self::visit_expr(tcxt, e);
                proof {
                    lemma_expr_trail(*tcxt, *old(tcxt), *e);
                }
            },
            _ => {
                proof {
                    lemma_trail_refl(*tcxt);
                    lemma_stmt_frame_refl(*tcxt);
                    assert(tcxt.types() =~= old(tcxt).types().union_prefer_right(Map::empty()));
                }
            },
        }
    }

    fn infer_nested<'ast>(tcxt: &mut TyCheckRes<'ast>, s: &Statement)
        requires
            s.val is If || s.val is While || s.val is Block,
        ensures
            stmt_done(*final(tcxt), *old(tcxt), *s),
        decreases s, 0nat,
    {
        let ghost env = tcxt.env();
        let ghost f = tcxt.curr_fn;
        match &s.val {
            Stmt::If { cond, blk, els } => {
                Self::visit_expr(tcxt, cond);
                let ghost a = *tcxt;
                Self::visit_block(tcxt, &blk.stmts);
                let ghost b = *tcxt;
                proof {
                    lemma_expr_trail(a, *old(tcxt), *cond);
                    lemma_trail_trans(
                        *old(tcxt),
                        a,
                        b,
                        faults(env, *cond),
                        Seq::empty(),
                        block_faults(env, f, blk.stmts@, blk.stmts@.len()),
                        block_vars(env, f, blk.stmts@, blk.stmts@.len()),
                    );
                    lemma_add_empty(block_vars(env, f, blk.stmts@, blk.stmts@.len()));
                    lemma_infer_is_stmt_frame(a, *old(tcxt));
                    lemma_stmt_frame_trans(*old(tcxt), a, b);
                    lemma_union_assoc(
                        old(tcxt).types(),
                        entries(env, *cond),
                        block_entries(env, f, blk.stmts@, blk.stmts@.len()),
                    );
                }
                match els {
                    Some(e) => {
                        Self::visit_block(tcxt, &e.stmts);
                        proof {
                            lemma_trail_trans(
                                *old(tcxt),
                                b,
                                *tcxt,
                                faults(env, *cond) + block_faults(
                                    env,
                                    f,
                                    blk.stmts@,
                                    blk.stmts@.len(),
                                ),
                                block_vars(env, f, blk.stmts@, blk.stmts@.len()),
                                block_faults(b.env(), f, e.stmts@, e.stmts@.len()),
                                block_vars(b.env(), f, e.stmts@, e.stmts@.len()),
                            );
                            lemma_stmt_frame_trans(*old(tcxt), b, *tcxt);
                            lemma_union_assoc(
                                old(tcxt).types(),
                                entries(env, *cond).union_prefer_right(
                                    block_entries(env, f, blk.stmts@, blk.stmts@.len()),
                                ),
                                block_entries(b.env(), f, e.stmts@, e.stmts@.len()),
                            );
                        }
                    },
                    None => {
                        proof {
                            lemma_add_empty(
                                faults(env, *cond) + block_faults(
                                    env,
                                    f,
                                    blk.stmts@,
                                    blk.stmts@.len(),
                                ),
                            );
                            lemma_add_empty(block_vars(env, f, blk.stmts@, blk.stmts@.len()));
                            assert(tcxt.types() =~= old(tcxt).types().union_prefer_right(
                                stmt_entries(env, f, *s),
                            ));
                        }
                    },
                }
            },
            Stmt::While { cond, blk } => {
                Self::visit_expr(tcxt, cond);
                let ghost a = *tcxt;
                Self::visit_block(tcxt, &blk.stmts);
                proof {
                    lemma_expr_trail(a, *old(tcxt), *cond);
                    lemma_trail_trans(
                        *old(tcxt),
                        a,
                        *tcxt,
                        faults(env, *cond),
                        Seq::empty(),
                        block_faults(env, f, blk.stmts@, blk.stmts@.len()),
                        block_vars(env, f, blk.stmts@, blk.stmts@.len()),
                    );
                    lemma_add_empty(block_vars(env, f, blk.stmts@, blk.stmts@.len()));
                    lemma_infer_is_stmt_frame(a, *old(tcxt));
                    lemma_stmt_frame_trans(*old(tcxt), a, *tcxt);
                    lemma_union_assoc(
                        old(tcxt).types(),
                        entries(env, *cond),
                        block_entries(env, f, blk.stmts@, blk.stmts@.len()),
                    );
                }
            },
            Stmt::Block(blk) => {
                Self::visit_block(tcxt, &blk.stmts);
            },
            _ => {
                proof {
                    lemma_trail_refl(*tcxt);
                    lemma_stmt_frame_refl(*tcxt);
                }
            },
        }
    }
}

impl TypeInfer {
    /// Binds the variable that a `let` or a constant declaration declares,
    /// and reports the declaration's fault if it has one.
    fn declare<'ast>(tcxt: &mut TyCheckRes<'ast>, target: Option<Ident>, span: Range, ty: Option<Ty>)
        ensures
            (old(tcxt).wf() ==> (ty matches Some(t) ==> !t@.has_path())) ==> stmt_frame(
                *final(tcxt),
                *old(tcxt),
            ),
            final(tcxt).types() == old(tcxt).types(),
            final(tcxt).env() == declared(old(tcxt).env(), old(tcxt).curr_fn, target, view_opt(ty)),
            final(tcxt).errors.poisoned == (old(tcxt).errors.poisoned || !can_declare(
                old(tcxt).env(),
                old(tcxt).curr_fn,
                target,
            )),
            trail(
                *final(tcxt),
                *old(tcxt),
                declare_faults(old(tcxt).env(), old(tcxt).curr_fn, target, span),
                declare_vars(old(tcxt).curr_fn, target, span, view_opt(ty)),
            ),
            final(tcxt).call_ty_args == old(tcxt).call_ty_args,
    {
        proof {
            lemma_trail_refl(*tcxt);
            lemma_stmt_frame_refl(*tcxt);
        }
        match tcxt.curr_fn {
            Some(f) => match target {
                Some(x) => {
                    let shadows = tcxt.global.contains_key(&x.id);
                    let has = match tcxt.var_func.func_refs.get(&f.id) {
                        Some(scope) => scope.contains_key(&x.id),
                        None => false,
                    };
                    assert(has == tcxt.env().local_ty(f, x) is Some);
                    assert(shadows == tcxt.env().global_ty(x) is Some);
                    match ty {
                        Some(t) => {
                            tcxt.bind_local(f, x, span, t);
                            assert(tcxt.var_func.unsed_vars@ =~= old(tcxt).var_func.unsed_vars@
                                + declare_vars(Some(f), target, span, view_opt(ty)));
                        },
                        None => {},
                    }
                    let ghost mid = *tcxt;
                    if shadows {
                        tcxt.errors.fatal(Error::error_with_ident(span, ErrorKind::ShadowsGlobal, x));
                    } else if has {
                        tcxt.errors.fatal(
                            Error::error_with_ident(span, ErrorKind::DuplicateVariable, x),
                        );
                    }
                    assert(tcxt.errors.errors@ =~= old(tcxt).errors.errors@ + declare_faults(
                        old(tcxt).env(),
                        Some(f),
                        target,
                        span,
                    ));
                },
                None => {
                    tcxt.errors.fatal(Error::error_with_span(span, ErrorKind::InvalidLValue));
                    assert(tcxt.errors.errors@ =~= old(tcxt).errors.errors@ + seq![
                        fault(span, ErrorKind::InvalidLValue),
                    ]);
                },
            },
            None => {
                tcxt.errors.fatal(Error::error_with_span(span, ErrorKind::OutsideFunction));
                assert(tcxt.errors.errors@ =~= old(tcxt).errors.errors@ + seq![
                    fault(span, ErrorKind::OutsideFunction),
                ]);
            },
        }
    }

    fn infer_assign<'ast>(tcxt: &mut TyCheckRes<'ast>, s: &Statement)
        requires
            s.val is Assign,
        ensures
            stmt_done(*final(tcxt), *old(tcxt), *s),
    {
        let ghost env = tcxt.env();
        let ghost f = tcxt.curr_fn;
        match &s.val {
            Stmt::Assign { lval, rval, ty, is_let } => {
                let rt = Self::visit_expr(tcxt, rval);
                let ghost a = *tcxt;
                proof {
                    lemma_infer_is_stmt_frame(a, *old(tcxt));
                    if a.wf() {
                        lemma_ty_of_path_free(a.env(), *rval);
                    }
                }
                proof {
                    lemma_expr_trail(a, *old(tcxt), *rval);
                }
                let mut untyped = false;
                if *is_let {
                    let bind_ty: Option<Ty> = match rt {
                        Some(t) => match ty {
                            Some(g) => if !g.has_path() {
                                proof {
                                    if a.wf() {
                                        crate::typeck::path_free::lemma_unify_path_free(t@, g@);
                                    }
                                }
                                match TypeInfer::unify(Some(&t), Some(g)) {
                                    Some(u) => Some(u),
                                    None => Some(t),
                                }
                            } else {
                                Some(t)
                            },
                            None => Some(t),
                        },
                        None => match ty {
                            Some(g) => if !g.has_path() {
                                Some(g.clone())
                            } else {
                                None
                            },
                            None => None,
                        },
                    };
                    assert(view_opt(bind_ty) == let_ty(env, *rval, *ty));
                    let target = match &lval.val {
                        Expr::Ident(x) => Some(*x),
                        _ => None,
                    };
                    assert(target == target_of(*lval));
                    untyped = bind_ty.is_none();
                    Self::declare(tcxt, target, lval.span, bind_ty);
                } else {
                    proof {
                        lemma_trail_refl(*tcxt);
                        lemma_stmt_frame_refl(*tcxt);
                    }
                }
                let ghost b = *tcxt;
                let ghost df = if *is_let {
                    declare_faults(env, f, target_of(*lval), lval.span)
                } else {
                    Seq::empty()
                };
                assert(stmt_frame(b, a));
                assert(b.env() == stmt_env(env, f, *s));
                assert(trail(b, a, df, stmt_vars(env, f, *s)));
                proof {
                    lemma_stmt_frame_trans(*old(tcxt), a, b);
                    lemma_trail_trans(
                        *old(tcxt),
                        a,
                        b,
                        faults(env, *rval),
                        Seq::empty(),
                        df,
                        stmt_vars(env, f, *s),
                    );
                    lemma_add_empty(stmt_vars(env, f, *s));
                }
                let unbound = untyped && match &lval.val {
                    Expr::Ident(x) => tcxt.type_of_ident(*x, lval.span).is_none(),
                    _ => false,
                };
                assert(unbound == skips_lval(env, *s));
                if unbound {
                    // The fault that left the variable without a type is
                    // reported already.
                    proof {
                        lemma_add_empty(faults(env, *rval) + df);
                        assert(ty_of(b.env(), *lval) is None);
                        assert(entries(b.env(), *lval) =~= Map::<usize, SpecTy>::empty());
                        assert(old(tcxt).types().union_prefer_right(
                            entries(env, *rval),
                        ).union_prefer_right(entries(b.env(), *lval)) =~= a.types());
                        lemma_union_assoc(
                            old(tcxt).types(),
                            entries(env, *rval),
                            entries(b.env(), *lval),
                        );
                    }
                } else {
                    Self::visit_expr(tcxt, lval);
                    proof {
                        lemma_expr_trail(*tcxt, b, *lval);
                        lemma_trail_trans(
                            *old(tcxt),
                            b,
                            *tcxt,
                            faults(env, *rval) + df,
                            stmt_vars(env, f, *s),
                            faults(b.env(), *lval),
                            Seq::empty(),
                        );
                        lemma_add_empty(stmt_vars(env, f, *s));
                        lemma_infer_is_stmt_frame(*tcxt, b);
                        lemma_stmt_frame_trans(*old(tcxt), b, *tcxt);
                        lemma_union_assoc(
                            old(tcxt).types(),
                            entries(env, *rval),
                            entries(b.env(), *lval),
                        );
                    }
                }
            },
            _ => {},
        }
    }

    #[verifier::rlimit(40)]
    fn infer_const<'ast>(tcxt: &mut TyCheckRes<'ast>, s: &Statement)
        requires
            s.val is Const,
        ensures
            stmt_done(*final(tcxt), *old(tcxt), *s),
    {
        let ghost env = tcxt.env();
        let ghost f = tcxt.curr_fn;
        match &s.val {
            Stmt::Const(c) => {
                Self::visit_expr(tcxt, &c.init);
                let ghost a = *tcxt;
                proof {
                    lemma_expr_trail(a, *old(tcxt), c.init);
                    lemma_infer_is_stmt_frame(a, *old(tcxt));
                }
                let ty = if !c.ty.has_path() {
                    Some(c.ty.clone())
                } else {
                    None
                };
                assert(view_opt(ty) == const_ty(c.ty));
                let unresolved = ty.is_none();
                Self::declare(tcxt, Some(c.ident), c.span, ty);
                let ghost b = *tcxt;
                assert(stmt_frame(b, a));
                proof {
                    lemma_trail_trans(
                        *old(tcxt),
                        a,
                        b,
                        faults(env, c.init),
                        Seq::empty(),
                        declare_faults(env, f, Some(c.ident), c.span),
                        stmt_vars(env, f, *s),
                    );
                    lemma_add_empty(stmt_vars(env, f, *s));
                    lemma_add_empty(
                        faults(env, c.init) + declare_faults(env, f, Some(c.ident), c.span),
                    );
                }
                if unresolved {
                    tcxt.errors.fatal(Error::error_with_ident(c.span, ErrorKind::UnresolvedPath, c.ident));
                }
                assert(tcxt.env() == stmt_env(env, f, *s));
                proof {
                    if !unresolved {
                        lemma_extends_refl(b.errors);
                    }
                    lemma_extends_trans(a.errors, b.errors, tcxt.errors);
                    lemma_stmt_frame_trans(*old(tcxt), a, *tcxt);
                }
            },
            _ => {},
        }
    }
}


/// `true` when `new` is `old` after inference of the expression `e`.
pub open spec fn expr_done(new: TyCheckRes, old: TyCheckRes, e: Expression) -> bool {
    &&& crate::typeck::infer::infer_frame(new, old)
    &&& new.types() == old.types().union_prefer_right(entries(old.env(), e))
    &&& new.errors.poisoned == (old.errors.poisoned || ty_of(old.env(), e) is None)
    &&& new.errors.errors@ == old.errors.errors@ + faults(old.env(), e)
}

/// Inference of an expression, done a second time, changes nothing: where
/// `b` is `a` after inference of `e`, and `c` is `b` after inference of
/// `e`, the table of inference, the declarations and the poison flag of
/// `c` are those of `b`; and where `b` is not poisoned, so are the
/// diagnostics.
pub proof fn lemma_infer_expr_again(a: TyCheckRes, b: TyCheckRes, c: TyCheckRes, e: Expression)
    requires
        expr_done(b, a, e),
        expr_done(c, b, e),
    ensures
        c.types() == b.types(),
        c.env() == b.env(),
        c.errors.poisoned == b.errors.poisoned,
        !b.errors.poisoned ==> c.errors.errors@ == b.errors.errors@,
{
    assert(c.types() =~= b.types());
    if !b.errors.poisoned {
        crate::typeck::faults::lemma_typed_no_faults(b.env(), e);
        lemma_add_empty(b.errors.errors@);
    }
}

/// A block in which inference finds no fault has no diagnostic.
pub proof fn lemma_block_ok_no_faults(env: Env, f: Option<Ident>, stmts: Seq<Statement>, n: nat)
    requires
        n <= stmts.len(),
        block_ok(env, f, stmts, n),
    ensures
        block_faults(env, f, stmts, n) == Seq::<Error>::empty(),
    decreases stmts, n,
{
    if n > 0 {
        lemma_block_ok_no_faults(env, f, stmts, (n - 1) as nat);
        lemma_stmt_ok_no_faults(block_env(env, f, stmts, (n - 1) as nat), f, stmts[n - 1]);
        assert(block_faults(env, f, stmts, n) =~= Seq::<Error>::empty());
    }
}

/// A statement in which inference finds no fault has no diagnostic.
pub proof fn lemma_stmt_ok_no_faults(env: Env, f: Option<Ident>, s: Statement)
    requires
        stmt_ok(env, f, s),
    ensures
        stmt_faults(env, f, s) == Seq::<Error>::empty(),
    decreases s,
{
    match s.val {
        Stmt::Assign { lval, rval, .. } => {
            crate::typeck::faults::lemma_typed_no_faults(env, rval);
            crate::typeck::faults::lemma_typed_no_faults(stmt_env(env, f, s), lval);
        },
        Stmt::AssignOp { lval, rval, .. } => {
            crate::typeck::faults::lemma_typed_no_faults(env, rval);
            crate::typeck::faults::lemma_typed_no_faults(env, lval);
        },
        Stmt::Const(c) => {
            crate::typeck::faults::lemma_typed_no_faults(env, c.init);
        },
        Stmt::Call(e) => {
            crate::typeck::faults::lemma_typed_no_faults(env, e);
        },
        Stmt::TraitMeth(e) => {
            crate::typeck::faults::lemma_typed_no_faults(env, e);
        },
        Stmt::If { cond, blk, els } => {
            crate::typeck::faults::lemma_typed_no_faults(env, cond);
            lemma_block_ok_no_faults(env, f, blk.stmts@, blk.stmts@.len());
            match els {
                Some(b) => {
                    lemma_block_ok_no_faults(
                        block_env(env, f, blk.stmts@, blk.stmts@.len()),
                        f,
                        b.stmts@,
                        b.stmts@.len(),
                    );
                },
                None => {},
            }
        },
        Stmt::While { cond, blk } => {
            crate::typeck::faults::lemma_typed_no_faults(env, cond);
            lemma_block_ok_no_faults(env, f, blk.stmts@, blk.stmts@.len());
        },
        Stmt::Match { expr, .. } => {
            crate::typeck::faults::lemma_typed_no_faults(env, expr);
        },
        Stmt::Read(e) => {
            crate::typeck::faults::lemma_typed_no_faults(env, e);
        },
        Stmt::Write { expr } => {
            crate::typeck::faults::lemma_typed_no_faults(env, expr);
        },
        Stmt::Ret(e) => {
            crate::typeck::faults::lemma_typed_no_faults(env, e);
        },
        Stmt::Exit => {},
        Stmt::Block(b) => {
            lemma_block_ok_no_faults(env, f, b.stmts@, b.stmts@.len());
        },
    }
    assert(stmt_faults(env, f, s) =~= Seq::<Error>::empty());
}

/// Inference of a statement that declares nothing, done a second time,
/// changes nothing: where `b` is `a` after inference of `s`, `c` is `b`
/// after inference of `s`, and the declarations after `s` are those
/// before it, the table of inference, the declarations and the poison flag
/// of `c` are those of `b`.
pub proof fn lemma_infer_stmt_again(a: TyCheckRes, b: TyCheckRes, c: TyCheckRes, s: Statement)
    requires
        stmt_done(b, a, s),
        stmt_done(c, b, s),
        stmt_env(a.env(), a.curr_fn, s) == a.env(),
    ensures
        c.types() == b.types(),
        c.env() == b.env(),
        c.errors.poisoned == b.errors.poisoned,
        !b.errors.poisoned ==> c.errors.errors@ == b.errors.errors@,
{
    assert(c.types() =~= b.types());
    if !b.errors.poisoned {
        lemma_stmt_ok_no_faults(b.env(), b.curr_fn, s);
        lemma_add_empty(b.errors.errors@);
    }
}

} // verus!
