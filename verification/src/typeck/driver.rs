//! The passes over a whole program: the declarations are collected, the
//! body of each function is walked by inference, then checked, and the
//! variables that are never read are reported.

use crate::ast::symbol::Interner;
use crate::ast::types::{
    Adt, Const, Decl, Declaration, Func, Ident, Impl, SpecTy, Trait, Ty,
};
use crate::error::{lemma_extends_refl, lemma_extends_trans, Error, ErrorKind, Severity};
use crate::typeck::collect::{generics_as_tys, params_env, params_faults, params_vars};
use crate::typeck::stmt::{
    block_faults, block_vars, lemma_trail_refl, lemma_trail_trans, trail,
};
use crate::typeck::stmt_check::{block_trace, trace_of, Trace};
use crate::typeck::generic::{spec_collect_params, Node};
use crate::typeck::infer::{lemma_union_assoc, view_found, TypeInfer};
use crate::typeck::stmt::block_found;
use crate::typeck::path_free::map_path_free;
use crate::typeck::scope::{first_after, FuncSpan, UnusedVar};
use crate::typeck::stmt::{block_entries, block_env, block_ok};
use crate::typeck::stmt_check::{
    block_check_ok, block_check_state, state_of, CheckState, StmtCheck,
};
use crate::typeck::usage::{block_reads, block_returns, stmts_read, stmts_return};
use crate::typeck::{Env, TyCheckRes};
use vstd::prelude::*;

verus! {

/// A declared function with the name that it is declared under: its own,
/// or for the method of an implementation a name of the method's own.
pub struct Body<'ast> {
    pub key: Ident,
    pub func: &'ast Func,
}

/// The declared functions whose regions are among the first `n`, in the
/// order of their regions.
pub open spec fn ordered_funcs<'ast>(spans: Seq<FuncSpan>, funcs: Map<usize, &'ast Func>, n: nat) -> Seq<
    Body<'ast>,
>
    decreases n,
{
    if n == 0 || n > spans.len() {
        Seq::empty()
    } else {
        let before = ordered_funcs(spans, funcs, (n - 1) as nat);
        if funcs.contains_key(spans[n - 1].name.id) {
            before.push(Body { key: spans[n - 1].name, func: funcs[spans[n - 1].name.id] })
        } else {
            before
        }
    }
}

/// The declarations where the body of `f` begins: the parameters of `f`
/// are bound.
pub open spec fn body_start<'ast>(env: Env<'ast>, k: Ident, f: Func) -> Env<'ast> {
    params_env(env, k, f.params@, f.params@.len())
}

/// The declarations after inference has walked the first `n` functions.
pub open spec fn funcs_env<'ast>(env: Env<'ast>, fs: Seq<Body<'ast>>, n: nat) -> Env<'ast>
    decreases n,
{
    if n == 0 || n > fs.len() {
        env
    } else {
        let f = *fs[n - 1].func;
        let k = fs[n - 1].key;
        block_env(
            body_start(funcs_env(env, fs, (n - 1) as nat), k, f),
            Some(k),
            f.stmts.stmts@,
            f.stmts.stmts@.len(),
        )
    }
}

/// What inference writes for the first `n` functions.
pub open spec fn funcs_entries<'ast>(env: Env<'ast>, fs: Seq<Body<'ast>>, n: nat) -> Map<usize, SpecTy>
    decreases n,
{
    if n == 0 || n > fs.len() {
        Map::empty()
    } else {
        let f = *fs[n - 1].func;
        let k = fs[n - 1].key;
        funcs_entries(env, fs, (n - 1) as nat).union_prefer_right(
            block_entries(
                body_start(funcs_env(env, fs, (n - 1) as nat), k, f),
                Some(k),
                f.stmts.stmts@,
                f.stmts.stmts@.len(),
            ),
        )
    }
}

/// `true` when inference finds no fault in the first `n` functions.
pub open spec fn funcs_ok<'ast>(env: Env<'ast>, fs: Seq<Body<'ast>>, n: nat) -> bool
    decreases n,
{
    if n == 0 || n > fs.len() {
        true
    } else {
        let f = *fs[n - 1].func;
        let k = fs[n - 1].key;
        funcs_ok(env, fs, (n - 1) as nat) && block_ok(
            body_start(funcs_env(env, fs, (n - 1) as nat), k, f),
            Some(k),
            f.stmts.stmts@,
            f.stmts.stmts@.len(),
        )
    }
}

/// The diagnostics of inference for the first `n` functions: for each
/// function those of its parameters, then those of its body.
pub open spec fn funcs_faults<'ast>(env: Env<'ast>, fs: Seq<Body<'ast>>, n: nat) -> Seq<Error>
    decreases n,
{
    if n == 0 || n > fs.len() {
        Seq::empty()
    } else {
        let f = *fs[n - 1].func;
        let k = fs[n - 1].key;
        let e = funcs_env(env, fs, (n - 1) as nat);
        funcs_faults(env, fs, (n - 1) as nat) + (params_faults(
            e,
            k,
            f.params@,
            f.params@.len(),
        ) + block_faults(body_start(e, k, f), Some(k), f.stmts.stmts@, f.stmts.stmts@.len()))
    }
}

/// The notes of variables not read yet that inference leaves for the first
/// `n` functions: for each function those of its parameters, then those of
/// the variables that its body declares.
pub open spec fn funcs_vars<'ast>(env: Env<'ast>, fs: Seq<Body<'ast>>, n: nat) -> Seq<UnusedVar>
    decreases n,
{
    if n == 0 || n > fs.len() {
        Seq::empty()
    } else {
        let f = *fs[n - 1].func;
        let k = fs[n - 1].key;
        let e = funcs_env(env, fs, (n - 1) as nat);
        funcs_vars(env, fs, (n - 1) as nat) + (params_vars(k, f.params@, f.params@.len())
            + block_vars(body_start(e, k, f), Some(k), f.stmts.stmts@, f.stmts.stmts@.len()))
    }
}

/// The table of the type arguments of calls after inference has walked
/// the first `n` functions.
pub open spec fn funcs_found<'ast>(env: Env<'ast>, m: Map<usize, Seq<SpecTy>>, fs: Seq<Body<'ast>>, n: nat) -> Map<
    usize,
    Seq<SpecTy>,
>
    decreases n,
{
    if n == 0 || n > fs.len() {
        m
    } else {
        let f = *fs[n - 1].func;
        let k = fs[n - 1].key;
        block_found(
            body_start(funcs_env(env, fs, (n - 1) as nat), k, f),
            funcs_found(env, m, fs, (n - 1) as nat),
            Some(k),
            f.stmts.stmts@,
            f.stmts.stmts@.len(),
        )
    }
}

/// The error for a function that has a result and never returns one.
pub open spec fn missing_return_fault(f: Func) -> Error {
    Error {
        span: f.span,
        severity: Severity::Error,
        kind: ErrorKind::MissingReturn,
        ident: Some(f.ident),
        found: None,
        expected: None,
    }
}

/// The trace after the check pass has walked the first `n` functions: for
/// each function what the check of its body leaves, then one error where
/// the function has a result and never returns one.
pub open spec fn funcs_check_trace<'ast>(st: CheckState<'ast>, t: Trace, fs: Seq<Body<'ast>>, n: nat) -> Trace
    decreases n,
{
    if n == 0 || n > fs.len() {
        t
    } else {
        let f = *fs[n - 1].func;
        let k = fs[n - 1].key;
        let t1 = block_trace(
            funcs_check_state(st, fs, (n - 1) as nat),
            funcs_check_trace(st, t, fs, (n - 1) as nat),
            Some(k),
            f.stmts.stmts@,
            f.stmts.stmts@.len(),
        );
        if missing_return(f) {
            Trace {
                next: t1.next,
                errs: t1.errs.push(missing_return_fault(f)),
                vars: t1.vars,
                consts: t1.consts,
                found: t1.found,
                res: t1.res,
                returns: t1.returns,
                waiting: t1.waiting,
                poisoned: t1.poisoned,
            }
        } else {
            t1
        }
    }
}

/// `true` when `f` has a result and no statement of it returns one.
pub open spec fn missing_return(f: Func) -> bool {
    !(f.ret@ is Void) && !block_returns(f.stmts.stmts@, f.stmts.stmts@.len())
}

/// The declarations and the table of inference after the check pass has
/// walked the first `n` functions.
pub open spec fn funcs_check_state<'ast>(st: CheckState<'ast>, fs: Seq<Body<'ast>>, n: nat) -> CheckState<
    'ast,
>
    decreases n,
{
    if n == 0 || n > fs.len() {
        st
    } else {
        let f = *fs[n - 1].func;
        let k = fs[n - 1].key;
        block_check_state(
            funcs_check_state(st, fs, (n - 1) as nat),
            Some(k),
            f.stmts.stmts@,
            f.stmts.stmts@.len(),
        )
    }
}

/// `true` when the check pass finds no fault in the first `n` functions:
/// none in their statements, and each function with a result returns one.
pub open spec fn funcs_check_ok<'ast>(st: CheckState<'ast>, fs: Seq<Body<'ast>>, n: nat) -> bool
    decreases n,
{
    if n == 0 || n > fs.len() {
        true
    } else {
        let f = *fs[n - 1].func;
        let k = fs[n - 1].key;
        &&& funcs_check_ok(st, fs, (n - 1) as nat)
        &&& block_check_ok(
            funcs_check_state(st, fs, (n - 1) as nat),
            Some(k),
            f.stmts.stmts@,
            f.stmts.stmts@.len(),
        )
        &&& !missing_return(f)
    }
}

impl<'ast> TyCheckRes<'ast> {
    /// The declared functions in the order of their regions.
    pub fn funcs_in_order(&self) -> (r: Vec<Body<'ast>>)
        ensures
            r@ == ordered_funcs(self.env().spans, self.env().funcs, self.env().spans.len()),
    {
        let mut out: Vec<Body<'ast>> = Vec::new();
        let mut i: usize = 0;
        while i < self.var_func.func_spans.len()
            invariant
                i <= self.var_func.func_spans.len(),
                out@ == ordered_funcs(self.env().spans, self.env().funcs, i as nat),
            decreases self.var_func.func_spans.len() - i,
        {
            let name = self.var_func.func_spans[i].name;
            match self.var_func.name_func.get(&name.id) {
                Some(f) => {
                    out.push(Body { key: name, func: *f });
                },
                None => {},
            }
            i += 1;
        }
        out
    }

    /// Walks the body of each function of `fs` by inference, in order, with
    /// the function's parameters bound as its variables.
    pub fn infer_funcs(&mut self, fs: &Vec<Body<'ast>>)
        requires
            old(self).wf(),
        ensures
            final(self).wf(),
            final(self).curr_fn is None,
            final(self).errors.extends(old(self).errors),
            final(self).env() == funcs_env(old(self).env(), fs@, fs@.len()),
            final(self).types() == old(self).types().union_prefer_right(
                funcs_entries(old(self).env(), fs@, fs@.len()),
            ),
            final(self).errors.poisoned == (old(self).errors.poisoned || !funcs_ok(
                old(self).env(),
                fs@,
                fs@.len(),
            )),
            map_path_free(old(self).types()) ==> map_path_free(final(self).types()),
            final(self).uniq_generic_instance_id == old(self).uniq_generic_instance_id,
            final(self).generic_res@ == old(self).generic_res@,
            final(self).consts == old(self).consts,
            final(self).trait_solve.unsolved == old(self).trait_solve.unsolved,
            final(self).var_func.func_return == old(self).var_func.func_return,
            trail(
                *final(self),
                *old(self),
                funcs_faults(old(self).env(), fs@, fs@.len()),
                funcs_vars(old(self).env(), fs@, fs@.len()),
            ),
            view_found(final(self).call_ty_args@) == funcs_found(
                old(self).env(),
                view_found(old(self).call_ty_args@),
                fs@,
                fs@.len(),
            ),
    {
        let ghost env = self.env();
        let mut i: usize = 0;
        proof {
            lemma_trail_refl(*self);
            lemma_extends_refl(self.errors);
            assert(self.types() =~= old(self).types().union_prefer_right(funcs_entries(env, fs@, 0)));
        }
        while i < fs.len()
            invariant
                i <= fs.len(),
                self.wf(),
                env == old(self).env(),
                self.errors.extends(old(self).errors),
                self.env() == funcs_env(env, fs@, i as nat),
                self.types() == old(self).types().union_prefer_right(
                    funcs_entries(env, fs@, i as nat),
                ),
                self.errors.poisoned == (old(self).errors.poisoned || !funcs_ok(env, fs@, i as nat)),
                map_path_free(old(self).types()) ==> map_path_free(self.types()),
                self.uniq_generic_instance_id == old(self).uniq_generic_instance_id,
                self.generic_res@ == old(self).generic_res@,
                self.consts == old(self).consts,
                self.trait_solve.unsolved == old(self).trait_solve.unsolved,
                self.var_func.func_return == old(self).var_func.func_return,
                trail(*self, *old(self), funcs_faults(env, fs@, i as nat), funcs_vars(env, fs@, i as nat)),
                view_found(self.call_ty_args@) == funcs_found(
                    env,
                    view_found(old(self).call_ty_args@),
                    fs@,
                    i as nat,
                ),
            decreases fs.len() - i,
        {
            let k = fs[i].key;
            let f = fs[i].func;
            let ghost before = *self;
            self.curr_fn = Some(k);
            assert(self.env() == before.env());
            assert(self.wf());
            let ghost a = *self;
            self.bind_params(f, k);
            let ghost mid = *self;
            TypeInfer::visit_block(self, &f.stmts.stmts);
            proof {
                let e0 = funcs_env(env, fs@, i as nat);
                lemma_trail_trans(
                    a,
                    mid,
                    *self,
                    params_faults(e0, k, f.params@, f.params@.len()),
                    params_vars(k, f.params@, f.params@.len()),
                    block_faults(
                        body_start(e0, k, *f),
                        Some(k),
                        f.stmts.stmts@,
                        f.stmts.stmts@.len(),
                    ),
                    block_vars(
                        body_start(e0, k, *f),
                        Some(k),
                        f.stmts.stmts@,
                        f.stmts.stmts@.len(),
                    ),
                );
                assert(trail(a, *old(self), funcs_faults(env, fs@, i as nat), funcs_vars(env, fs@, i as nat)));
                lemma_trail_trans(
                    *old(self),
                    a,
                    *self,
                    funcs_faults(env, fs@, i as nat),
                    funcs_vars(env, fs@, i as nat),
                    params_faults(e0, k, f.params@, f.params@.len()) + block_faults(
                        body_start(e0, k, *f),
                        Some(k),
                        f.stmts.stmts@,
                        f.stmts.stmts@.len(),
                    ),
                    params_vars(k, f.params@, f.params@.len()) + block_vars(
                        body_start(e0, k, *f),
                        Some(k),
                        f.stmts.stmts@,
                        f.stmts.stmts@.len(),
                    ),
                );
                lemma_extends_trans(a.errors, mid.errors, self.errors);
                lemma_extends_trans(old(self).errors, a.errors, self.errors);
                lemma_union_assoc(
                    old(self).types(),
                    funcs_entries(env, fs@, i as nat),
                    block_entries(
                        body_start(funcs_env(env, fs@, i as nat), k, *f),
                        Some(k),
                        f.stmts.stmts@,
                        f.stmts.stmts@.len(),
                    ),
                );
            }
            i += 1;
        }
        self.curr_fn = None;
        assert(self.env() == funcs_env(env, fs@, fs@.len()));
    }

    /// Checks the body of each function of `fs`, in order, and reports a
    /// function that has a result and never returns one.
    ///
    /// The result is `true` where no fault was found.
    pub fn check_funcs(&mut self, fs: &Vec<Body<'ast>>) -> (r: bool)
        ensures
            old(self).wf() ==> final(self).wf(),
            final(self).curr_fn is None,
            final(self).errors.extends(old(self).errors),
            state_of(*final(self)) == funcs_check_state(state_of(*old(self)), fs@, fs@.len()),
            r == funcs_check_ok(state_of(*old(self)), fs@, fs@.len()),
            trace_of(*final(self)) == funcs_check_trace(
                state_of(*old(self)),
                trace_of(*old(self)),
                fs@,
                fs@.len(),
            ),
    {
        let ghost st = state_of(*self);
        let ghost t0 = trace_of(*self);
        let mut ok = true;
        let mut i: usize = 0;
        proof {
            lemma_extends_refl(self.errors);
        }
        while i < fs.len()
            invariant
                i <= fs.len(),
                old(self).wf() ==> self.wf(),
                st == state_of(*old(self)),
                self.errors.extends(old(self).errors),
                state_of(*self) == funcs_check_state(st, fs@, i as nat),
                ok == funcs_check_ok(st, fs@, i as nat),
                t0 == trace_of(*old(self)),
                trace_of(*self) == funcs_check_trace(st, t0, fs@, i as nat),
            decreases fs.len() - i,
        {
            let k = fs[i].key;
            let f = fs[i].func;
            let ghost before = *self;
            self.curr_fn = Some(k);
            assert(self.env() == before.env());
            let ghost a = *self;
            let one = StmtCheck::visit_block(self, &f.stmts.stmts);
            let ghost mid = *self;
            proof {
                lemma_extends_refl(mid.errors);
            }
            let has_result = match &f.ret {
                Ty::Void => false,
                _ => true,
            };
            if has_result && !stmts_return(&f.stmts.stmts) {
                self.errors.push_error(
                    Error::error_with_ident(f.span, ErrorKind::MissingReturn, f.ident),
                );
                assert(self.env() == mid.env());
                ok = false;
            }
            proof {
                lemma_extends_trans(a.errors, mid.errors, self.errors);
                lemma_extends_trans(old(self).errors, a.errors, self.errors);
            }
            ok = ok && one;
            i += 1;
        }
        self.curr_fn = None;
        assert(self.env() == funcs_check_state(st, fs@, fs@.len()).env);
        ok
    }
}

/// `true` when the declared variable `u` is read in the body of its
/// function.
pub open spec fn was_read(funcs: Map<usize, &Func>, u: UnusedVar) -> bool {
    u.func matches Some(f) && funcs.contains_key(f.id) && block_reads(
        funcs[f.id].stmts.stmts@,
        u.ident,
        funcs[f.id].stmts.stmts@.len(),
    )
}

/// `true` when the declared variable `u` is reported as unused: it is a
/// variable of a declared function, the body of the function does not read
/// it, and its name does not begin with an underscore.
pub open spec fn is_unused(funcs: Map<usize, &Func>, symbols: Interner, u: UnusedVar) -> bool {
    &&& u.func matches Some(f) && funcs.contains_key(f.id)
    &&& !was_read(funcs, u)
    &&& !(symbols.text_of(u.ident).len() > 0 && symbols.text_of(u.ident)[0] == '_')
}

/// The warning for the unused variable `u`.
pub open spec fn unused_warning(u: UnusedVar) -> Error {
    Error {
        span: u.span,
        severity: Severity::Warning,
        kind: ErrorKind::UnusedVariable,
        ident: Some(u.ident),
        found: None,
        expected: None,
    }
}

/// The warnings for the unused variables among the first `n` declared
/// variables, in the order of their declarations.
pub open spec fn unused_warnings(funcs: Map<usize, &Func>, symbols: Interner, vars: Seq<UnusedVar>, n: nat) -> Seq<
    Error,
>
    decreases n,
{
    if n == 0 || n > vars.len() {
        Seq::empty()
    } else {
        let before = unused_warnings(funcs, symbols, vars, (n - 1) as nat);
        if is_unused(funcs, symbols, vars[n - 1]) {
            before.push(unused_warning(vars[n - 1]))
        } else {
            before
        }
    }
}

/// The declared variables, each marked as read where the body of its
/// function reads it.
pub open spec fn marked(funcs: Map<usize, &Func>, vars: Seq<UnusedVar>) -> Seq<UnusedVar> {
    Seq::new(vars.len(), |i: int| UnusedVar { used: was_read(funcs, vars[i]), ..vars[i] })
}

impl<'ast> TyCheckRes<'ast> {
    /// Marks each declared variable that is read in the body of its
    /// function, and reports each of the others as a warning, unless its
    /// name begins with an underscore.
    pub fn report_unused(&mut self, symbols: &Interner)
        ensures
            old(self).wf() ==> final(self).wf(),
            final(self).env() == old(self).env(),
            final(self).types() == old(self).types(),
            final(self).curr_fn == old(self).curr_fn,
            final(self).generic_res == old(self).generic_res,
            final(self).call_ty_args == old(self).call_ty_args,
            final(self).errors.poisoned == old(self).errors.poisoned,
            final(self).errors.extends(old(self).errors),
            final(self).errors.errors@ == old(self).errors.errors@ + unused_warnings(
                old(self).env().funcs,
                *symbols,
                old(self).var_func.unsed_vars@,
                old(self).var_func.unsed_vars@.len(),
            ),
            final(self).var_func.unsed_vars@ == marked(
                old(self).env().funcs,
                old(self).var_func.unsed_vars@,
            ),
    {
        let ghost funcs = self.env().funcs;
        let ghost vars = self.var_func.unsed_vars@;
        let mut i: usize = 0;
        proof {
            lemma_extends_refl(self.errors);
            assert(self.errors.errors@ =~= old(self).errors.errors@ + unused_warnings(
                funcs,
                *symbols,
                vars,
                0,
            ));
        }
        while i < self.var_func.unsed_vars.len()
            invariant
                i <= self.var_func.unsed_vars.len(),
                self.var_func.unsed_vars@.len() == vars.len(),
                funcs == old(self).env().funcs,
                vars == old(self).var_func.unsed_vars@,
                old(self).wf() ==> self.wf(),
                self.env() == old(self).env(),
                self.types() == old(self).types(),
                self.curr_fn == old(self).curr_fn,
                self.generic_res == old(self).generic_res,
                self.call_ty_args == old(self).call_ty_args,
                self.errors.poisoned == old(self).errors.poisoned,
                self.errors.extends(old(self).errors),
                self.errors.errors@ == old(self).errors.errors@ + unused_warnings(
                    funcs,
                    *symbols,
                    vars,
                    i as nat,
                ),
                forall|j: int| 0 <= j < i ==> self.var_func.unsed_vars@[j] == marked(funcs, vars)[j],
                forall|j: int| i <= j < vars.len() ==> self.var_func.unsed_vars@[j] == vars[j],
            decreases self.var_func.unsed_vars.len() - i,
        {
            let u = self.var_func.unsed_vars[i];
            let ghost before = *self;
            let known = match u.func {
                Some(f) => self.var_func.name_func.get(&f.id),
                None => None,
            };
            let (declared, read) = match known {
                Some(f) => (true, stmts_read(&f.stmts.stmts, u.ident)),
                None => (false, false),
            };
            assert(read == was_read(funcs, u));
            self.var_func.unsed_vars.set(i, UnusedVar { used: read, ..u });
            assert(self.env() == before.env());
            if declared && !read && !symbols.starts_with_underscore(u.ident) {
                let ghost mid = *self;
                self.errors.push_error(Error::warning(u.span, ErrorKind::UnusedVariable, u.ident));
                assert(self.env() == mid.env());
                proof {
                    lemma_extends_trans(old(self).errors, mid.errors, self.errors);
                    assert(self.errors.errors@ =~= old(self).errors.errors@ + unused_warnings(
                        funcs,
                        *symbols,
                        vars,
                        (i + 1) as nat,
                    ));
                }
            }
            i += 1;
        }
        assert(self.var_func.unsed_vars@ =~= marked(funcs, vars));
    }
}


/// What holds after the function `func` was declared in `old`: see
/// [`TyCheckRes::visit_func`].
pub open spec fn func_collected<'ast>(new: TyCheckRes<'ast>, old: TyCheckRes<'ast>, func: &'ast Func, key: Ident) -> bool {
    &&& new.wf()
    &&& new.next_scope == old.next_scope
    &&& new.var_func.unsed_vars == old.var_func.unsed_vars
    &&& new.consts == old.consts
    &&& new.trait_solve.unsolved == old.trait_solve.unsolved
    &&& new.var_func.func_return == old.var_func.func_return
    &&& new.types() == old.types()
    &&& new.curr_fn == old.curr_fn
    &&& match old.func_fault(*func, key) {
        Some(kind) => new.rejected(old, func.span, kind, func.ident),
        None => {
            &&& new.env() == (Env {
                funcs: old.env().funcs.insert(key.id, func),
                spans: old.env().spans.insert(
                    first_after(old.env().spans, func.span.start) as int,
                    FuncSpan { span: func.span, name: key },
                ),
                ..old.env()
            })
            &&& new.generic_res@ == spec_collect_params(
                old.generic_res@,
                Node::Func(key),
                SpecTy::Func {
                    ident: func.ident,
                    ret: Box::new(SpecTy::Void),
                    params: generics_as_tys(func.generics@),
                },
            )
            &&& new.errors == old.errors
        },
    }
}

/// What holds after the struct or enum `adt` was declared in `old`: see
/// [`TyCheckRes::visit_adt`].
pub open spec fn adt_collected<'ast>(new: TyCheckRes<'ast>, old: TyCheckRes<'ast>, adt: &'ast Adt) -> bool {
    &&& new.wf()
    &&& new.next_scope == old.next_scope
    &&& new.var_func.unsed_vars == old.var_func.unsed_vars
    &&& new.consts == old.consts
    &&& new.trait_solve.unsolved == old.trait_solve.unsolved
    &&& new.var_func.func_return == old.var_func.func_return
    &&& new.collect_frame(old)
    &&& match *adt {
        Adt::Struct(s) => match old.struct_decl_fault(s) {
            Some(kind) => new.rejected(old, s.span, kind, s.ident),
            None => new.env() == (Env {
                structs: old.env().structs.insert(s.ident.id, &s),
                ..old.env()
            }) && new.errors == old.errors && new.generic_res@ == spec_collect_params(
                old.generic_res@,
                Node::Struct(s.ident),
                SpecTy::Struct { ident: s.ident, gen: generics_as_tys(s.generics@) },
            ),
        },
        Adt::Enum(e) => match old.enum_decl_fault(e) {
            Some(kind) => new.rejected(old, e.span, kind, e.ident),
            None => new.env() == (Env { enums: old.env().enums.insert(e.ident.id, &e), ..old.env() })
                && new.errors == old.errors && new.generic_res@ == spec_collect_params(
                old.generic_res@,
                Node::Enum(e.ident),
                SpecTy::Enum { ident: e.ident, gen: generics_as_tys(e.generics@) },
            ),
        },
    }
}

/// What holds after the trait `t` was declared in `old`: see
/// [`TyCheckRes::visit_trait`].
pub open spec fn trait_collected<'ast>(new: TyCheckRes<'ast>, old: TyCheckRes<'ast>, t: &'ast Trait) -> bool {
    &&& new.wf()
    &&& new.next_scope == old.next_scope
    &&& new.var_func.unsed_vars == old.var_func.unsed_vars
    &&& new.consts == old.consts
    &&& new.trait_solve.unsolved == old.trait_solve.unsolved
    &&& new.var_func.func_return == old.var_func.func_return
    &&& new.collect_frame(old)
    &&& match old.trait_decl_fault(*t) {
        Some(kind) => new.rejected(old, t.span, kind, t.ident),
        None => {
            &&& new.env() == (Env { traits: old.env().traits.insert(t.ident.id, t), ..old.env() })
            &&& new.generic_res@ == spec_collect_params(
                old.generic_res@,
                Node::Trait(t.ident),
                SpecTy::Struct { ident: t.ident, gen: generics_as_tys(t.generics@) },
            )
            &&& new.errors == old.errors
        },
    }
}

/// What holds after the implementation `imp` was recorded in `old`: see
/// [`TyCheckRes::visit_impl`].
pub open spec fn impl_collected<'ast>(new: TyCheckRes<'ast>, old: TyCheckRes<'ast>, imp: &'ast Impl) -> bool {
    &&& new.wf()
    &&& new.next_scope == old.next_scope
    &&& new.var_func.unsed_vars == old.var_func.unsed_vars
    &&& new.consts == old.consts
    &&& new.trait_solve.unsolved == old.trait_solve.unsolved
    &&& new.var_func.func_return == old.var_func.func_return
    &&& new.collect_frame(old)
    &&& new.generic_res@ == old.generic_res@
    &&& match old.impl_decl_fault(*imp) {
        Some(kind) => new.rejected(old, imp.span, kind, imp.method.ident),
        None => {
            &&& new.trait_solve.impls_of(imp.path@.last()) == old.trait_solve.impls_of(
                imp.path@.last(),
            ).push(imp)
            &&& new.env().impls.remove(imp.path@.last().id) == old.env().impls.remove(
                imp.path@.last().id,
            )
            &&& new.env() == (Env { impls: new.env().impls, ..old.env() })
            &&& new.errors == old.errors
        },
    }
}

/// What holds after the global `c` was declared in `old`: see
/// [`TyCheckRes::visit_var`].
pub open spec fn global_collected<'ast>(new: TyCheckRes<'ast>, old: TyCheckRes<'ast>, c: Const) -> bool {
    &&& new.wf()
    &&& new.next_scope == old.next_scope
    &&& new.var_func.unsed_vars == old.var_func.unsed_vars
    &&& new.consts == old.consts
    &&& new.trait_solve.unsolved == old.trait_solve.unsolved
    &&& new.var_func.func_return == old.var_func.func_return
    &&& new.collect_frame(old)
    &&& new.generic_res@ == old.generic_res@
    &&& match old.global_fault(c) {
        Some(kind) => new.rejected(old, c.span, kind, c.ident),
        None => {
            &&& new.env() == (Env {
                globals: old.env().globals.insert(c.ident.id, c.ty@),
                ..old.env()
            })
            &&& new.errors == old.errors
        },
    }
}

/// What holds after the method of the implementation `imp` was declared
/// in `old`, as a function under a name of the method's own: see
/// [`TyCheckRes::visit_method`].
pub open spec fn method_collected<'ast>(new: TyCheckRes<'ast>, old: TyCheckRes<'ast>, imp: &'ast Impl) -> bool {
    &&& new.next_scope == TyCheckRes::scope_after(old.next_scope)
    &&& func_collected(
        TyCheckRes { next_scope: old.next_scope, ..new },
        old,
        &imp.method,
        Ident { id: old.next_scope },
    )
}

/// What holds after the declaration `d` was collected in `old`. The method
/// of an implementation is declared as a function behind the
/// implementation, under a name of the method's own.
pub open spec fn decl_collected<'ast>(new: TyCheckRes<'ast>, old: TyCheckRes<'ast>, d: &'ast Declaration) -> bool {
    match &d.val {
        Decl::Func(f) => func_collected(new, old, f, f.ident),
        Decl::Adt(a) => adt_collected(new, old, a),
        Decl::Trait(t) => trait_collected(new, old, t),
        Decl::Impl(imp) => exists|mid: TyCheckRes<'ast>|
            #[trigger] impl_collected(mid, old, imp) && method_collected(new, mid, imp),
        Decl::Const(c) => global_collected(new, old, *c),
    }
}

/// What holds after the first `n` declarations were collected in `old`,
/// one after the other.
pub open spec fn decls_collected<'ast>(new: TyCheckRes<'ast>, old: TyCheckRes<'ast>, decls: Seq<Declaration>, n: nat) -> bool
    decreases n,
{
    if n == 0 || n > decls.len() {
        new == old
    } else {
        exists|mid: TyCheckRes<'ast>|
            decls_collected(mid, old, decls, (n - 1) as nat) && #[trigger] decl_collected(
                new,
                mid,
                &decls[n - 1],
            )
    }
}

/// One more declaration collected is one more of the program collected.
pub proof fn lemma_collected_step<'ast>(
    new: TyCheckRes<'ast>,
    mid: TyCheckRes<'ast>,
    old: TyCheckRes<'ast>,
    decls: Seq<Declaration>,
    n: nat,
)
    requires
        n < decls.len(),
        decls_collected(mid, old, decls, n),
        decl_collected(new, mid, &decls[n as int]),
    ensures
        decls_collected(new, old, decls, n + 1),
{
    let m = (n + 1) as nat;
    assert(decls_collected(mid, old, decls, (m - 1) as nat));
    assert(decl_collected(new, mid, &decls[m - 1]));
}

/// What holds after inference has walked the bodies of the functions `fs`
/// in `old`: see [`TyCheckRes::infer_funcs`].
pub open spec fn bodies_inferred<'ast>(new: TyCheckRes<'ast>, old: TyCheckRes<'ast>, fs: Seq<Body<'ast>>) -> bool {
    &&& new.wf()
    &&& new.curr_fn is None
    &&& new.errors.extends(old.errors)
    &&& new.env() == funcs_env(old.env(), fs, fs.len())
    &&& new.types() == old.types().union_prefer_right(funcs_entries(old.env(), fs, fs.len()))
    &&& new.errors.poisoned == (old.errors.poisoned || !funcs_ok(old.env(), fs, fs.len()))
    &&& new.uniq_generic_instance_id == old.uniq_generic_instance_id
    &&& new.generic_res@ == old.generic_res@
    &&& new.consts == old.consts
    &&& new.trait_solve.unsolved == old.trait_solve.unsolved
    &&& new.var_func.func_return == old.var_func.func_return
    &&& trail(
        new,
        old,
        funcs_faults(old.env(), fs, fs.len()),
        funcs_vars(old.env(), fs, fs.len()),
    )
    &&& view_found(new.call_ty_args@) == funcs_found(
        old.env(),
        view_found(old.call_ty_args@),
        fs,
        fs.len(),
    )
}

/// What holds after the check pass has walked the bodies of the functions
/// `fs` in `old` and found no fault exactly if `ok`: see
/// [`TyCheckRes::check_funcs`].
pub open spec fn bodies_checked<'ast>(new: TyCheckRes<'ast>, old: TyCheckRes<'ast>, fs: Seq<Body<'ast>>, ok: bool) -> bool {
    &&& new.wf()
    &&& new.curr_fn is None
    &&& new.errors.extends(old.errors)
    &&& state_of(new) == funcs_check_state(state_of(old), fs, fs.len())
    &&& ok == funcs_check_ok(state_of(old), fs, fs.len())
    &&& trace_of(new) == funcs_check_trace(state_of(old), trace_of(old), fs, fs.len())
}

/// What holds after the check pass over the bodies of the functions `fs`
/// in `old`, which is skipped where `old` is poisoned: the context is then
/// as it was, and `ok` is `false`.
pub open spec fn checked_unless_poisoned<'ast>(new: TyCheckRes<'ast>, old: TyCheckRes<'ast>, fs: Seq<Body<'ast>>, ok: bool) -> bool {
    if old.errors.poisoned {
        new == old && !ok
    } else {
        bodies_checked(new, old, fs, ok)
    }
}

/// What holds after the unused variables of `old` were reported: see
/// [`TyCheckRes::report_unused`].
pub open spec fn unused_reported<'ast>(new: TyCheckRes<'ast>, old: TyCheckRes<'ast>, symbols: Interner) -> bool {
    &&& new.wf()
    &&& new.env() == old.env()
    &&& new.types() == old.types()
    &&& new.curr_fn == old.curr_fn
    &&& new.errors.poisoned == old.errors.poisoned
    &&& new.errors.errors@ == old.errors.errors@ + unused_warnings(
        old.env().funcs,
        symbols,
        old.var_func.unsed_vars@,
        old.var_func.unsed_vars@.len(),
    )
    &&& new.var_func.unsed_vars@ == marked(old.env().funcs, old.var_func.unsed_vars@)
}

/// What holds after the passes over the program `decls`, begun in `old`:
/// the declarations were collected; the bodies of the declared functions
/// were walked by inference, in the order of their regions; then, unless
/// the context was poisoned by then, they were checked; then the unused
/// variables were reported. `ok` says that the program may be lowered: the
/// check pass found no fault, the context is not poisoned, and no
/// diagnostic is an error.
pub open spec fn prog_done<'ast>(new: TyCheckRes<'ast>, old: TyCheckRes<'ast>, decls: Seq<Declaration>, symbols: Interner, ok: bool) -> bool {
    exists|a: TyCheckRes<'ast>, b: TyCheckRes<'ast>, c: TyCheckRes<'ast>, checked: bool|
        #![trigger decls_collected(a, old, decls, decls.len()), checked_unless_poisoned(c, b, ordered_funcs(a.env().spans, a.env().funcs, a.env().spans.len()), checked)]
        {
            let fs = ordered_funcs(a.env().spans, a.env().funcs, a.env().spans.len());
            &&& decls_collected(a, old, decls, decls.len())
            &&& bodies_inferred(b, a, fs)
            &&& checked_unless_poisoned(c, b, fs, checked)
            &&& unused_reported(new, c, symbols)
            &&& ok == (checked && !new.errors.poisoned && !new.errors.spec_has_errors())
        }
}

impl<'ast> TyCheckRes<'ast> {
    /// Collects the declarations of a program, in order.
    pub fn collect_decls(&mut self, items: &'ast Vec<Declaration>)
        requires
            old(self).wf(),
        ensures
            final(self).wf(),
            decls_collected(*final(self), *old(self), items@, items@.len()),
    {
        let mut i: usize = 0;
        while i < items.len()
            invariant
                i <= items.len(),
                self.wf(),
                decls_collected(*self, *old(self), items@, i as nat),
            decreases items.len() - i,
        {
            let ghost before = *self;
            match &items[i].val {
                Decl::Func(f) => {
                    self.visit_func(f);
                },
                Decl::Adt(a) => {
                    self.visit_adt(a);
                },
                Decl::Trait(t) => {
                    self.visit_trait(t);
                },
                Decl::Impl(imp) => {
                    self.visit_impl(imp);
                    let ghost mid = *self;
                    self.visit_method(imp);
                    assert(impl_collected(mid, before, imp));
                    assert(method_collected(*self, mid, imp));
                },
                Decl::Const(c) => {
                    self.visit_var(c);
                },
            }
            assert(decl_collected(*self, before, &items@[i as int]));
            proof {
                lemma_collected_step(*self, before, *old(self), items@, i as nat);
            }
            i += 1;
        }
    }

    /// Runs the passes over a program: collects the declarations, walks the
    /// body of each declared function by inference, checks each unless the
    /// context is poisoned by then, and reports the variables that are
    /// never read.
    ///
    /// The result is `true` where the program may be lowered; see
    /// [`prog_done`].
    pub fn visit_prog(&mut self, items: &'ast Vec<Declaration>, symbols: &Interner) -> (r: bool)
        requires
            old(self).wf(),
        ensures
            final(self).wf(),
            prog_done(*final(self), *old(self), items@, *symbols, r),
    {
        self.collect_decls(items);
        let ghost a = *self;
        let fs = self.funcs_in_order();
        self.infer_funcs(&fs);
        let ghost b = *self;
        let checked = if self.errors.is_poisoned() {
            false
        } else {
            self.check_funcs(&fs)
        };
        let ghost c = *self;
        self.report_unused(symbols);
        let r = checked && !self.errors.is_poisoned() && !self.errors.has_errors();
        proof {
            assert(checked_unless_poisoned(c, b, fs@, checked));
            assert(decls_collected(a, *old(self), items@, items@.len()));
        }
        r
    }
}

} // verus!
