//! Declaration collection: the pass that fills the type context with the
//! declarations of a program.

use crate::ast::types::{
    all_generics_within, any_has_path, generic_names, names_of, seq_generics_within, seq_has_path,
    view_tys, Adt, Const, Enum, Func, Generic, Ident, Impl, Param, Range, SpecTy, Struct, Trait,
    Ty,
};
use crate::error::{Error, ErrorKind, Severity};
use crate::typeck::generic::{spec_collect_params, Node, ResolverModel};
use crate::typeck::scope::{first_after, first_clash, FuncSpan};
use crate::typeck::{enum_ok, field_tys, param_tys, sig_ok, struct_ok, Env, TyCheckRes};
use crate::typeck::scope::UnusedVar;
use crate::typeck::stmt::{lemma_trail_refl, trail};
use vstd::prelude::*;

verus! {

/// `true` when the signature of `f` holds no unresolved nominal reference.
pub fn sig_has_path(f: &Func) -> (r: bool)
    ensures
        r == (f.ret@.has_path() || seq_has_path(param_tys(*f))),
{
    if f.ret.has_path() {
        return true;
    }
    let mut i: usize = 0;
    while i < f.params.len()
        invariant
            i <= f.params.len(),
            forall|j: int| 0 <= j < i ==> !(#[trigger] param_tys(*f)[j]).has_path(),
        decreases f.params.len() - i,
    {
        if f.params[i].ty.has_path() {
            assert(param_tys(*f)[i as int].has_path());
            return true;
        }
        i += 1;
    }
    false
}

/// `true` when every type parameter in the signature of `f` is declared by
/// `f`.
pub fn sig_generics_declared(f: &Func) -> (r: bool)
    ensures
        r == (f.ret@.generics_within(generic_names(f.generics@)) && seq_generics_within(
            param_tys(*f),
            generic_names(f.generics@),
        )),
{
    let names = names_of(&f.generics);
    if !f.ret.generics_within(&names) {
        return false;
    }
    let mut i: usize = 0;
    while i < f.params.len()
        invariant
            i <= f.params.len(),
            names@ == generic_names(f.generics@),
            forall|j: int| 0 <= j < i ==> (#[trigger] param_tys(*f)[j]).generics_within(names@),
        decreases f.params.len() - i,
    {
        if !f.params[i].ty.generics_within(&names) {
            assert(!param_tys(*f)[i as int].generics_within(names@));
            return false;
        }
        i += 1;
    }
    true
}

/// The reason for which the struct `s` cannot be declared, if there is one.
pub fn struct_fault(s: &Struct) -> (r: Option<ErrorKind>)
    ensures
        r == (if seq_has_path(field_tys(*s)) {
            Some(ErrorKind::UnresolvedPath)
        } else if !seq_generics_within(field_tys(*s), generic_names(s.generics@)) {
            Some(ErrorKind::UndeclaredGeneric)
        } else {
            None
        }),
        r is None == struct_ok(*s),
{
    let names = names_of(&s.generics);
    let mut i: usize = 0;
    while i < s.fields.len()
        invariant
            i <= s.fields.len(),
            forall|j: int| 0 <= j < i ==> !(#[trigger] field_tys(*s)[j]).has_path(),
        decreases s.fields.len() - i,
    {
        if s.fields[i].ty.has_path() {
            assert(field_tys(*s)[i as int].has_path());
            return Some(ErrorKind::UnresolvedPath);
        }
        i += 1;
    }
    let mut i: usize = 0;
    while i < s.fields.len()
        invariant
            i <= s.fields.len(),
            names@ == generic_names(s.generics@),
            !seq_has_path(field_tys(*s)),
            forall|j: int| 0 <= j < i ==> (#[trigger] field_tys(*s)[j]).generics_within(names@),
        decreases s.fields.len() - i,
    {
        if !s.fields[i].ty.generics_within(&names) {
            assert(!field_tys(*s)[i as int].generics_within(names@));
            return Some(ErrorKind::UndeclaredGeneric);
        }
        i += 1;
    }
    None
}

/// `true` when a variant of `e` holds an unresolved nominal reference.
pub open spec fn enum_has_path(e: Enum) -> bool {
    exists|i: int| 0 <= i < e.variants@.len() && seq_has_path(view_tys((#[trigger] e.variants@[i]).types@))
}

/// The reason for which the enum `e` cannot be declared, if there is one.
pub open spec fn spec_enum_fault(e: Enum) -> Option<ErrorKind> {
    if enum_has_path(e) {
        Some(ErrorKind::UnresolvedPath)
    } else if !enum_ok(e) {
        Some(ErrorKind::UndeclaredGeneric)
    } else {
        None
    }
}

/// The reason for which the enum `e` cannot be declared, if there is one.
pub fn enum_fault(e: &Enum) -> (r: Option<ErrorKind>)
    ensures
        r == spec_enum_fault(*e),
        r is None == enum_ok(*e),
{
    let names = names_of(&e.generics);
    let mut i: usize = 0;
    while i < e.variants.len()
        invariant
            i <= e.variants.len(),
            forall|j: int| 0 <= j < i ==> !seq_has_path(view_tys((#[trigger] e.variants@[j]).types@)),
        decreases e.variants.len() - i,
    {
        if any_has_path(&e.variants[i].types) {
            return Some(ErrorKind::UnresolvedPath);
        }
        i += 1;
    }
    let mut i: usize = 0;
    while i < e.variants.len()
        invariant
            i <= e.variants.len(),
            names@ == generic_names(e.generics@),
            !enum_has_path(*e),
            forall|j: int|
                0 <= j < i ==> seq_generics_within(
                    view_tys((#[trigger] e.variants@[j]).types@),
                    names@,
                ),
        decreases e.variants.len() - i,
    {
        if !all_generics_within(&e.variants[i].types, &names) {
            return Some(ErrorKind::UndeclaredGeneric);
        }
        i += 1;
    }
    None
}

/// The signature of a generic function as a type: the function's name, its
/// result, and its type parameters in place of parameters.
pub open spec fn generics_as_tys(gs: Seq<Generic>) -> Seq<SpecTy> {
    Seq::new(
        gs.len(),
        |i: int|
            SpecTy::Generic {
                ident: gs[i].ident,
                bound: crate::typeck::generic::view_bound(gs[i].bound),
            },
    )
}

/// The declared type parameters as types.
pub fn generics_to_types(gs: &Vec<Generic>) -> (r: Vec<Ty>)
    ensures
        view_tys(r@) == generics_as_tys(gs@),
{
    let mut out: Vec<Ty> = Vec::new();
    let mut i: usize = 0;
    while i < gs.len()
        invariant
            i <= gs.len(),
            out@.len() == i,
            forall|j: int| 0 <= j < i ==> (#[trigger] out@[j])@ == generics_as_tys(gs@)[j],
        decreases gs.len() - i,
    {
        out.push(gs[i].to_type());
        i += 1;
    }
    assert(view_tys(out@) =~= generics_as_tys(gs@));
    out
}

impl<'ast> TyCheckRes<'ast> {
    /// The reason for which the function `func` cannot be declared under
    /// the name `key`, if there is one: a function of that name is
    /// declared, its signature holds an
    /// unresolved nominal reference or a type parameter it does not declare,
    /// or its region meets that of another function.
    pub open spec fn func_fault(self, func: Func, key: Ident) -> Option<ErrorKind> {
        if self.env().funcs.contains_key(key.id) {
            Some(ErrorKind::DuplicateFunction)
        } else if func.ret@.has_path() || seq_has_path(param_tys(func)) {
            Some(ErrorKind::UnresolvedPath)
        } else if !(func.ret@.generics_within(generic_names(func.generics@)) && seq_generics_within(
            param_tys(func),
            generic_names(func.generics@),
        )) {
            Some(ErrorKind::UndeclaredGeneric)
        } else if first_clash(self.env().spans, func.span) < self.env().spans.len() {
            Some(ErrorKind::SpanClash)
        } else {
            None
        }
    }

    /// Declares a function under the name `key`: the name, the function's
    /// region and its type parameters.
    ///
    /// Where the function cannot be declared (see [`Self::func_fault`]) the
    /// declarations stay as they are, and the reason is reported as a fatal
    /// diagnostic at the function's span.
    pub fn declare_func(&mut self, func: &'ast Func, key: Ident)
        requires
            old(self).wf(),
        ensures
            final(self).wf(),
            final(self).consts == old(self).consts,
            final(self).trait_solve.unsolved == old(self).trait_solve.unsolved,
            final(self).next_scope == old(self).next_scope,
            final(self).var_func.unsed_vars == old(self).var_func.unsed_vars,
            final(self).var_func.func_return == old(self).var_func.func_return,
            final(self).types() == old(self).types(),
            final(self).curr_fn == old(self).curr_fn,
            match old(self).func_fault(*func, key) {
                Some(kind) => {
                    &&& final(self).env() == old(self).env()
                    &&& final(self).generic_res@ == old(self).generic_res@
                    &&& final(self).errors.errors@ == old(self).errors.errors@.push(
                        Error {
                            span: func.span,
                            severity: Severity::Error,
                            kind,
                            ident: Some(func.ident),
                            found: None,
                            expected: None,
                        },
                    )
                    &&& final(self).errors.poisoned
                },
                None => {
                    &&& final(self).env() == (Env {
                        funcs: old(self).env().funcs.insert(key.id, func),
                        spans: old(self).env().spans.insert(
                            first_after(old(self).env().spans, func.span.start) as int,
                            FuncSpan { span: func.span, name: key },
                        ),
                        ..old(self).env()
                    })
                    &&& final(self).generic_res@ == spec_collect_params(
                        old(self).generic_res@,
                        Node::Func(key),
                        SpecTy::Func {
                            ident: func.ident,
                            ret: Box::new(SpecTy::Void),
                            params: generics_as_tys(func.generics@),
                        },
                    )
                    &&& final(self).errors == old(self).errors
                },
            },
    {
        let fault = if self.var_func.name_func.contains_key(&key.id) {
            Some(ErrorKind::DuplicateFunction)
        } else if sig_has_path(func) {
            Some(ErrorKind::UnresolvedPath)
        } else if !sig_generics_declared(func) {
            Some(ErrorKind::UndeclaredGeneric)
        } else {
            match self.var_func.insert(func.span, key) {
                Some(_) => Some(ErrorKind::SpanClash),
                None => None,
            }
        };
        assert(fault == old(self).func_fault(*func, key));
        match fault {
            Some(kind) => {
                assert(self.env() == old(self).env());
                assert(self.generic_res@ == old(self).generic_res@);
                self.errors.fatal(Error::error_with_ident(func.span, kind, func.ident));
                assert(self.wf());
            },
            None => {
                self.var_func.name_func.insert(key.id, func);
                let sig = Ty::Func {
                    ident: func.ident,
                    ret: Box::new(Ty::Void),
                    params: generics_to_types(&func.generics),
                };
                let ghost before = self.generic_res@;
                self.generic_res.collect_generic_params(&Node::Func(key), &sig);
                proof {
                    lemma_collect_params_resolved(before, Node::Func(key), sig@);
                    assert(self.env().funcs =~= old(self).env().funcs.insert(key.id, func));
                    assert(self.env().globals == old(self).env().globals);
                    assert(self.env().locals == old(self).env().locals);
                    assert(sig_ok(*func));
                    assert(self.generic_res@.all_concrete());
                    assert(self.env().decls_ok());
                    assert(Ty::Void@ == SpecTy::Void);
                    assert(sig@ == (SpecTy::Func {
                        ident: func.ident,
                        ret: Box::new(SpecTy::Void),
                        params: generics_as_tys(func.generics@),
                    }));
                }
            },
        }
    }

    /// Declares a function under its own name; see [`Self::declare_func`].
    pub fn visit_func(&mut self, func: &'ast Func)
        requires
            old(self).wf(),
        ensures
            final(self).wf(),
            final(self).consts == old(self).consts,
            final(self).trait_solve.unsolved == old(self).trait_solve.unsolved,
            final(self).next_scope == old(self).next_scope,
            final(self).var_func.unsed_vars == old(self).var_func.unsed_vars,
            final(self).var_func.func_return == old(self).var_func.func_return,
            final(self).types() == old(self).types(),
            final(self).curr_fn == old(self).curr_fn,
            match old(self).func_fault(*func, func.ident) {
                Some(kind) => {
                    &&& final(self).env() == old(self).env()
                    &&& final(self).generic_res@ == old(self).generic_res@
                    &&& final(self).errors.errors@ == old(self).errors.errors@.push(
                        Error {
                            span: func.span,
                            severity: Severity::Error,
                            kind,
                            ident: Some(func.ident),
                            found: None,
                            expected: None,
                        },
                    )
                    &&& final(self).errors.poisoned
                },
                None => {
                    &&& final(self).env() == (Env {
                        funcs: old(self).env().funcs.insert(func.ident.id, func),
                        spans: old(self).env().spans.insert(
                            first_after(old(self).env().spans, func.span.start) as int,
                            FuncSpan { span: func.span, name: func.ident },
                        ),
                        ..old(self).env()
                    })
                    &&& final(self).generic_res@ == spec_collect_params(
                        old(self).generic_res@,
                        Node::Func(func.ident),
                        SpecTy::Func {
                            ident: func.ident,
                            ret: Box::new(SpecTy::Void),
                            params: generics_as_tys(func.generics@),
                        },
                    )
                    &&& final(self).errors == old(self).errors
                },
            },
    {
        self.declare_func(func, func.ident);
    }

    /// The name under which the method of the next implementation is
    /// declared after one was declared.
    pub open spec fn scope_after(n: usize) -> usize {
        if n > 0 {
            (n - 1) as usize
        } else {
            0
        }
    }

    /// Declares the method of the implementation `imp` as a function under
    /// a name of its own; see [`Self::declare_func`].
    pub fn visit_method(&mut self, imp: &'ast Impl)
        requires
            old(self).wf(),
        ensures
            final(self).wf(),
            final(self).consts == old(self).consts,
            final(self).trait_solve.unsolved == old(self).trait_solve.unsolved,
            final(self).next_scope == Self::scope_after(old(self).next_scope),
            final(self).var_func.unsed_vars == old(self).var_func.unsed_vars,
            final(self).var_func.func_return == old(self).var_func.func_return,
            final(self).types() == old(self).types(),
            final(self).curr_fn == old(self).curr_fn,
            match old(self).func_fault(imp.method, (Ident { id: old(self).next_scope })) {
                Some(kind) => {
                    &&& final(self).env() == old(self).env()
                    &&& final(self).generic_res@ == old(self).generic_res@
                    &&& final(self).errors.errors@ == old(self).errors.errors@.push(
                        Error {
                            span: imp.method.span,
                            severity: Severity::Error,
                            kind,
                            ident: Some(imp.method.ident),
                            found: None,
                            expected: None,
                        },
                    )
                    &&& final(self).errors.poisoned
                },
                None => {
                    &&& final(self).env() == (Env {
                        funcs: old(self).env().funcs.insert(old(self).next_scope, &imp.method),
                        spans: old(self).env().spans.insert(
                            first_after(old(self).env().spans, imp.method.span.start) as int,
                            FuncSpan { span: imp.method.span, name: Ident { id: old(self).next_scope } },
                        ),
                        ..old(self).env()
                    })
                    &&& final(self).generic_res@ == spec_collect_params(
                        old(self).generic_res@,
                        Node::Func((Ident { id: old(self).next_scope })),
                        SpecTy::Func {
                            ident: imp.method.ident,
                            ret: Box::new(SpecTy::Void),
                            params: generics_as_tys(imp.method.generics@),
                        },
                    )
                    &&& final(self).errors == old(self).errors
                },
            },
    {
        let key = Ident { id: self.next_scope };
        self.declare_func(&imp.method, key);
        if self.next_scope > 0 {
            self.next_scope = self.next_scope - 1;
        }
    }
}

/// Declaring type parameters records no use.
pub proof fn lemma_collect_params_resolved(m: ResolverModel, node: Node, ty: SpecTy)
    ensures
        spec_collect_params(m, node, ty).resolved == m.resolved,
    decreases ty, 0nat,
{
    match ty {
        SpecTy::Generic { ident, bound } => {},
        SpecTy::Struct { gen, .. } => lemma_collect_params_seq_resolved(m, node, gen, gen.len()),
        SpecTy::Enum { gen, .. } => lemma_collect_params_seq_resolved(m, node, gen, gen.len()),
        SpecTy::Func { ret, params, .. } => {
            let m1 = if *ret is Generic {
                spec_collect_params(m, node, *ret)
            } else {
                m
            };
            if *ret is Generic {
                lemma_collect_params_resolved(m, node, *ret);
            }
            lemma_collect_params_seq_resolved(m1, node, params, params.len());
        },
        _ => {},
    }
}

/// Declaring type parameters records no use.
pub proof fn lemma_collect_params_seq_resolved(m: ResolverModel, node: Node, tys: Seq<SpecTy>, n: nat)
    ensures
        crate::typeck::generic::spec_collect_params_seq(m, node, tys, n).resolved == m.resolved,
    decreases tys, n,
{
    if n == 0 || n > tys.len() {
    } else {
        lemma_collect_params_seq_resolved(m, node, tys, (n - 1) as nat);
        lemma_collect_params_resolved(
            crate::typeck::generic::spec_collect_params_seq(m, node, tys, (n - 1) as nat),
            node,
            tys[n - 1],
        );
    }
}

impl<'ast> TyCheckRes<'ast> {
    /// What declaration collection leaves as it is, whatever it declares:
    /// the tables of inference and the function that is walked.
    pub open spec fn collect_frame(self, old: TyCheckRes<'ast>) -> bool {
        &&& self.types() == old.types()
        &&& self.curr_fn == old.curr_fn
        &&& self.call_ty_args == old.call_ty_args
        &&& self.uniq_generic_instance_id == old.uniq_generic_instance_id
        &&& self.errors.extends(old.errors)
    }

    /// What holds after a declaration that is at fault: the declarations
    /// stay as they are and the fault is reported as a fatal diagnostic.
    pub open spec fn rejected(self, old: TyCheckRes<'ast>, span: Range, kind: ErrorKind, ident: Ident) -> bool {
        &&& self.env() == old.env()
        &&& self.generic_res@ == old.generic_res@
        &&& self.errors.errors@ == old.errors.errors@.push(
            Error { span, severity: Severity::Error, kind, ident: Some(ident), found: None, expected: None },
        )
        &&& self.errors.poisoned
    }

    /// The reason for which the struct `s` cannot be declared, if there is
    /// one.
    pub open spec fn struct_decl_fault(self, s: Struct) -> Option<ErrorKind> {
        if self.env().structs.contains_key(s.ident.id) {
            Some(ErrorKind::DuplicateStruct)
        } else if seq_has_path(field_tys(s)) {
            Some(ErrorKind::UnresolvedPath)
        } else if !seq_generics_within(field_tys(s), generic_names(s.generics@)) {
            Some(ErrorKind::UndeclaredGeneric)
        } else {
            None
        }
    }

    /// The reason for which the enum `e` cannot be declared, if there is
    /// one.
    pub open spec fn enum_decl_fault(self, e: Enum) -> Option<ErrorKind> {
        if self.env().enums.contains_key(e.ident.id) {
            Some(ErrorKind::DuplicateEnum)
        } else {
            spec_enum_fault(e)
        }
    }

    fn reject(&mut self, span: Range, kind: ErrorKind, ident: Ident)
        requires
            old(self).wf(),
        ensures
            final(self).wf(),
            final(self).consts == old(self).consts,
            final(self).trait_solve.unsolved == old(self).trait_solve.unsolved,
            final(self).next_scope == old(self).next_scope,
            final(self).var_func.unsed_vars == old(self).var_func.unsed_vars,
            final(self).var_func.func_return == old(self).var_func.func_return,
            final(self).collect_frame(*old(self)),
            final(self).rejected(*old(self), span, kind, ident),
    {
        self.errors.fatal(Error::error_with_ident(span, kind, ident));
    }

    fn declare_generics(&mut self, node: Node, ty: &Ty)
        requires
            old(self).wf(),
        ensures
            final(self).wf(),
            final(self).consts == old(self).consts,
            final(self).trait_solve.unsolved == old(self).trait_solve.unsolved,
            final(self).next_scope == old(self).next_scope,
            final(self).var_func.unsed_vars == old(self).var_func.unsed_vars,
            final(self).var_func.func_return == old(self).var_func.func_return,
            final(self).collect_frame(*old(self)),
            final(self).env() == old(self).env(),
            final(self).errors == old(self).errors,
            final(self).generic_res@ == spec_collect_params(old(self).generic_res@, node, ty@),
    {
        let ghost before = self.generic_res@;
        self.generic_res.collect_generic_params(&node, ty);
        proof {
            lemma_collect_params_resolved(before, node, ty@);
            crate::error::lemma_extends_refl(self.errors);
        }
    }

    /// Declares a struct: its name and its type parameters.
    ///
    /// Where the struct cannot be declared (see
    /// [`Self::struct_decl_fault`]) the declarations stay as they are, and
    /// the reason is reported as a fatal diagnostic at the struct's span.
    pub fn visit_struct(&mut self, s: &'ast Struct)
        requires
            old(self).wf(),
        ensures
            final(self).wf(),
            final(self).consts == old(self).consts,
            final(self).trait_solve.unsolved == old(self).trait_solve.unsolved,
            final(self).next_scope == old(self).next_scope,
            final(self).var_func.unsed_vars == old(self).var_func.unsed_vars,
            final(self).var_func.func_return == old(self).var_func.func_return,
            final(self).collect_frame(*old(self)),
            match old(self).struct_decl_fault(*s) {
                Some(kind) => final(self).rejected(*old(self), s.span, kind, s.ident),
                None => {
                    &&& final(self).env() == (Env {
                        structs: old(self).env().structs.insert(s.ident.id, s),
                        ..old(self).env()
                    })
                    &&& final(self).generic_res@ == spec_collect_params(
                        old(self).generic_res@,
                        Node::Struct(s.ident),
                        SpecTy::Struct { ident: s.ident, gen: generics_as_tys(s.generics@) },
                    )
                    &&& final(self).errors == old(self).errors
                },
            },
    {
        let fault = if self.name_struct.contains_key(&s.ident.id) {
            Some(ErrorKind::DuplicateStruct)
        } else {
            struct_fault(s)
        };
        match fault {
            Some(kind) => {
                self.reject(s.span, kind, s.ident);
            },
            None => {
                self.name_struct.insert(s.ident.id, s);
                proof {
                    assert(struct_ok(*s));
                    assert(self.env().structs =~= old(self).env().structs.insert(s.ident.id, s));
                    assert(self.env().decls_ok());
                }
                let sig = Ty::Struct { ident: s.ident, gen: generics_to_types(&s.generics) };
                self.declare_generics(Node::Struct(s.ident), &sig);
            },
        }
    }

    /// Declares an enum: its name and its type parameters.
    ///
    /// Where the enum cannot be declared (see [`Self::enum_decl_fault`]) the
    /// declarations stay as they are, and the reason is reported as a fatal
    /// diagnostic at the enum's span.
    pub fn visit_enum(&mut self, e: &'ast Enum)
        requires
            old(self).wf(),
        ensures
            final(self).wf(),
            final(self).consts == old(self).consts,
            final(self).trait_solve.unsolved == old(self).trait_solve.unsolved,
            final(self).next_scope == old(self).next_scope,
            final(self).var_func.unsed_vars == old(self).var_func.unsed_vars,
            final(self).var_func.func_return == old(self).var_func.func_return,
            final(self).collect_frame(*old(self)),
            match old(self).enum_decl_fault(*e) {
                Some(kind) => final(self).rejected(*old(self), e.span, kind, e.ident),
                None => {
                    &&& final(self).env() == (Env {
                        enums: old(self).env().enums.insert(e.ident.id, e),
                        ..old(self).env()
                    })
                    &&& final(self).generic_res@ == spec_collect_params(
                        old(self).generic_res@,
                        Node::Enum(e.ident),
                        SpecTy::Enum { ident: e.ident, gen: generics_as_tys(e.generics@) },
                    )
                    &&& final(self).errors == old(self).errors
                },
            },
    {
        let fault = if self.name_enum.contains_key(&e.ident.id) {
            Some(ErrorKind::DuplicateEnum)
        } else {
            enum_fault(e)
        };
        match fault {
            Some(kind) => {
                self.reject(e.span, kind, e.ident);
            },
            None => {
                self.name_enum.insert(e.ident.id, e);
                proof {
                    assert(enum_ok(*e));
                    assert(self.env().enums =~= old(self).env().enums.insert(e.ident.id, e));
                    assert(self.env().decls_ok());
                }
                let sig = Ty::Enum { ident: e.ident, gen: generics_to_types(&e.generics) };
                self.declare_generics(Node::Enum(e.ident), &sig);
            },
        }
    }

    /// Declares a struct or an enum.
    pub fn visit_adt(&mut self, adt: &'ast Adt)
        requires
            old(self).wf(),
        ensures
            final(self).wf(),
            final(self).consts == old(self).consts,
            final(self).trait_solve.unsolved == old(self).trait_solve.unsolved,
            final(self).next_scope == old(self).next_scope,
            final(self).var_func.unsed_vars == old(self).var_func.unsed_vars,
            final(self).var_func.func_return == old(self).var_func.func_return,
            final(self).collect_frame(*old(self)),
            match *adt {
                Adt::Struct(s) => match old(self).struct_decl_fault(s) {
                    Some(kind) => final(self).rejected(*old(self), s.span, kind, s.ident),
                    None => final(self).env() == (Env {
                        structs: old(self).env().structs.insert(s.ident.id, &s),
                        ..old(self).env()
                    }) && final(self).errors == old(self).errors && final(self).generic_res@
                        == spec_collect_params(
                        old(self).generic_res@,
                        Node::Struct(s.ident),
                        SpecTy::Struct { ident: s.ident, gen: generics_as_tys(s.generics@) },
                    ),
                },
                Adt::Enum(e) => match old(self).enum_decl_fault(e) {
                    Some(kind) => final(self).rejected(*old(self), e.span, kind, e.ident),
                    None => final(self).env() == (Env {
                        enums: old(self).env().enums.insert(e.ident.id, &e),
                        ..old(self).env()
                    }) && final(self).errors == old(self).errors && final(self).generic_res@
                        == spec_collect_params(
                        old(self).generic_res@,
                        Node::Enum(e.ident),
                        SpecTy::Enum { ident: e.ident, gen: generics_as_tys(e.generics@) },
                    ),
                },
            },
    {
        match adt {
            Adt::Struct(s) => self.visit_struct(s),
            Adt::Enum(e) => self.visit_enum(e),
        }
    }
}

/// The reason for which the trait `t` cannot be declared, if there is one.
pub open spec fn spec_trait_fault(t: Trait) -> Option<ErrorKind> {
    let m = t.method.func();
    if m.ret@.has_path() || seq_has_path(param_tys(m)) {
        Some(ErrorKind::UnresolvedPath)
    } else if !(m.ret@.generics_within(generic_names(t.generics@)) && seq_generics_within(
        param_tys(m),
        generic_names(t.generics@),
    )) {
        Some(ErrorKind::UndeclaredGeneric)
    } else {
        None
    }
}

/// The reason for which the trait `t` cannot be declared, if there is one.
pub fn trait_fault(t: &Trait) -> (r: Option<ErrorKind>)
    ensures
        r == spec_trait_fault(*t),
        r is None == crate::typeck::trait_ok(*t),
{
    let m = t.method.function();
    if sig_has_path(m) {
        return Some(ErrorKind::UnresolvedPath);
    }
    let names = names_of(&t.generics);
    if !m.ret.generics_within(&names) {
        return Some(ErrorKind::UndeclaredGeneric);
    }
    let mut i: usize = 0;
    while i < m.params.len()
        invariant
            i <= m.params.len(),
            names@ == generic_names(t.generics@),
            *m == t.method.func(),
            !(m.ret@.has_path() || seq_has_path(param_tys(*m))),
            m.ret@.generics_within(names@),
            forall|j: int| 0 <= j < i ==> (#[trigger] param_tys(*m)[j]).generics_within(names@),
        decreases m.params.len() - i,
    {
        if !m.params[i].ty.generics_within(&names) {
            assert(!param_tys(*m)[i as int].generics_within(names@));
            return Some(ErrorKind::UndeclaredGeneric);
        }
        i += 1;
    }
    None
}

/// The declarations after the first `n` parameters of a function `f` are
/// bound as variables of `f`. A parameter whose type holds an unresolved
/// nominal reference is not bound.
pub open spec fn params_env<'ast>(env: Env<'ast>, f: Ident, params: Seq<Param>, n: nat) -> Env<'ast>
    decreases n,
{
    if n == 0 || n > params.len() {
        env
    } else {
        let before = params_env(env, f, params, (n - 1) as nat);
        let p = params[n - 1];
        if p.ty@.has_path() {
            before
        } else {
            before.bind(f, p.ident, p.ty@)
        }
    }
}

/// The diagnostics for the first `n` parameters of a function `f`: a
/// parameter whose type holds an unresolved nominal reference, and a
/// parameter whose name a variable of `f` has already.
pub open spec fn params_faults(env: Env, f: Ident, params: Seq<Param>, n: nat) -> Seq<Error>
    decreases n,
{
    if n == 0 || n > params.len() {
        Seq::empty()
    } else {
        let before = params_env(env, f, params, (n - 1) as nat);
        let p = params[n - 1];
        params_faults(env, f, params, (n - 1) as nat) + (if p.ty@.has_path() {
            seq![
                Error {
                    span: p.span,
                    severity: Severity::Error,
                    kind: ErrorKind::UnresolvedPath,
                    ident: Some(p.ident),
                    found: None,
                    expected: None,
                },
            ]
        } else if before.local_ty(f, p.ident) is Some {
            seq![
                Error {
                    span: p.span,
                    severity: Severity::Error,
                    kind: ErrorKind::DuplicateParam,
                    ident: Some(p.ident),
                    found: None,
                    expected: None,
                },
            ]
        } else {
            Seq::empty()
        })
    }
}

/// The notes of variables not read yet for the first `n` parameters of a
/// function `f`: one for each parameter that is bound.
pub open spec fn params_vars(f: Ident, params: Seq<Param>, n: nat) -> Seq<UnusedVar>
    decreases n,
{
    if n == 0 || n > params.len() {
        Seq::empty()
    } else {
        let p = params[n - 1];
        params_vars(f, params, (n - 1) as nat) + (if p.ty@.has_path() {
            Seq::empty()
        } else {
            seq![UnusedVar { func: Some(f), ident: p.ident, span: p.span, used: false }]
        })
    }
}

impl<'ast> TyCheckRes<'ast> {
    /// The reason for which the trait `t` cannot be declared, if there is
    /// one.
    pub open spec fn trait_decl_fault(self, t: Trait) -> Option<ErrorKind> {
        if self.env().traits.contains_key(t.ident.id) {
            Some(ErrorKind::DuplicateTrait)
        } else {
            spec_trait_fault(t)
        }
    }

    /// Declares a trait: its name and its type parameters.
    ///
    /// Where the trait cannot be declared (see [`Self::trait_decl_fault`])
    /// the declarations stay as they are, and the reason is reported as a
    /// fatal diagnostic at the trait's span.
    pub fn visit_trait(&mut self, t: &'ast Trait)
        requires
            old(self).wf(),
        ensures
            final(self).wf(),
            final(self).consts == old(self).consts,
            final(self).trait_solve.unsolved == old(self).trait_solve.unsolved,
            final(self).next_scope == old(self).next_scope,
            final(self).var_func.unsed_vars == old(self).var_func.unsed_vars,
            final(self).var_func.func_return == old(self).var_func.func_return,
            final(self).collect_frame(*old(self)),
            match old(self).trait_decl_fault(*t) {
                Some(kind) => final(self).rejected(*old(self), t.span, kind, t.ident),
                None => {
                    &&& final(self).env() == (Env {
                        traits: old(self).env().traits.insert(t.ident.id, t),
                        ..old(self).env()
                    })
                    &&& final(self).generic_res@ == spec_collect_params(
                        old(self).generic_res@,
                        Node::Trait(t.ident),
                        SpecTy::Struct { ident: t.ident, gen: generics_as_tys(t.generics@) },
                    )
                    &&& final(self).errors == old(self).errors
                },
            },
    {
        let fault = if self.trait_solve.traits.contains_key(&t.ident.id) {
            Some(ErrorKind::DuplicateTrait)
        } else {
            trait_fault(t)
        };
        match fault {
            Some(kind) => {
                self.reject(t.span, kind, t.ident);
            },
            None => {
                self.trait_solve.add_trait(t);
                proof {
                    assert(self.env().traits =~= old(self).env().traits.insert(t.ident.id, t));
                    assert(self.env().decls_ok());
                }
                let sig = Ty::Struct { ident: t.ident, gen: generics_to_types(&t.generics) };
                self.declare_generics(Node::Trait(t.ident), &sig);
            },
        }
    }

    /// The reason for which the implementation `imp` cannot be recorded, if
    /// there is one.
    pub open spec fn impl_decl_fault(self, imp: Impl) -> Option<ErrorKind> {
        if imp.path@.len() == 0 || !self.env().traits.contains_key(imp.path@.last().id) {
            Some(ErrorKind::UnknownTrait)
        } else if seq_has_path(view_tys(imp.type_arguments@)) || imp.method.ret@.has_path()
            || seq_has_path(param_tys(imp.method)) {
            Some(ErrorKind::UnresolvedPath)
        } else if !(imp.method.ret@.generics_within(generic_names(imp.method.generics@))
            && seq_generics_within(param_tys(imp.method), generic_names(imp.method.generics@))) {
            Some(ErrorKind::UndeclaredGeneric)
        } else if crate::typeck::trait_solver::find_impl(
            self.trait_solve.impls_of(imp.path@.last()),
            view_tys(imp.type_arguments@),
        ) < self.trait_solve.impls_of(imp.path@.last()).len() {
            Some(ErrorKind::DuplicateImpl)
        } else {
            None
        }
    }

    /// Records an implementation of a trait under its type arguments.
    ///
    /// Where the implementation cannot be recorded (see
    /// [`Self::impl_decl_fault`]) the declarations stay as they are, and the
    /// reason is reported as a fatal diagnostic at the implementation's
    /// span.
    pub fn visit_impl(&mut self, imp: &'ast Impl)
        requires
            old(self).wf(),
        ensures
            final(self).wf(),
            final(self).consts == old(self).consts,
            final(self).trait_solve.unsolved == old(self).trait_solve.unsolved,
            final(self).next_scope == old(self).next_scope,
            final(self).var_func.unsed_vars == old(self).var_func.unsed_vars,
            final(self).var_func.func_return == old(self).var_func.func_return,
            final(self).collect_frame(*old(self)),
            final(self).generic_res@ == old(self).generic_res@,
            match old(self).impl_decl_fault(*imp) {
                Some(kind) => final(self).rejected(*old(self), imp.span, kind, imp.method.ident),
                None => {
                    &&& final(self).trait_solve.impls_of(imp.path@.last()) == old(
                        self,
                    ).trait_solve.impls_of(imp.path@.last()).push(imp)
                    &&& final(self).env().impls.remove(imp.path@.last().id) == old(
                        self,
                    ).env().impls.remove(imp.path@.last().id)
                    &&& final(self).env() == (Env { impls: final(self).env().impls, ..old(self).env() })
                    &&& final(self).errors == old(self).errors
                },
            },
    {
        let known = match imp.path.local_ident() {
            Some(n) => self.trait_solve.traits.contains_key(&n.id),
            None => false,
        };
        let fault = if !known {
            Some(ErrorKind::UnknownTrait)
        } else if any_has_path(&imp.type_arguments) || sig_has_path(&imp.method) {
            Some(ErrorKind::UnresolvedPath)
        } else if !sig_generics_declared(&imp.method) {
            Some(ErrorKind::UndeclaredGeneric)
        } else {
            match self.trait_solve.add_impl(imp) {
                Ok(()) => None,
                Err(_) => Some(ErrorKind::DuplicateImpl),
            }
        };
        match fault {
            Some(kind) => {
                self.reject(imp.span, kind, imp.method.ident);
            },
            None => {
                proof {
                    let env = self.env();
                    let old_env = old(self).env();
                    let key = imp.path@.last().id;
                    crate::error::lemma_extends_refl(self.errors);
                    assert(sig_ok(imp.method));
                    assert forall|k: usize, i: int|
                        env.impls.contains_key(k) && 0 <= i < env.impls[k]@.len() implies sig_ok(
                        (#[trigger] env.impls[k]@[i]).method,
                    ) && !seq_has_path(view_tys(env.impls[k]@[i].type_arguments@)) by {
                        if k == key {
                            let before = old(self).trait_solve.impls_of(imp.path@.last());
                            if i < before.len() {
                                assert(env.impls[k]@[i] == before[i]);
                                assert(old_env.impls.contains_key(k));
                                assert(before[i] == old_env.impls[k]@[i]);
                            }
                        } else {
                            assert(env.impls.remove(key).contains_key(k));
                            assert(old_env.impls.remove(key).contains_key(k));
                            assert(env.impls.remove(key)[k] == old_env.impls.remove(key)[k]);
                            assert(env.impls[k] == old_env.impls[k]);
                        }
                    }
                    assert(env.decls_ok());
                }
            },
        }
    }

    /// The reason for which the module-scope constant `c` cannot be
    /// declared, if there is one.
    pub open spec fn global_fault(self, c: Const) -> Option<ErrorKind> {
        if self.env().globals.contains_key(c.ident.id) {
            Some(ErrorKind::DuplicateGlobal)
        } else if c.ty@.has_path() {
            Some(ErrorKind::UnresolvedPath)
        } else {
            None
        }
    }

    /// Declares a name at module scope with its declared type.
    ///
    /// Where the name cannot be declared (see [`Self::global_fault`]) the
    /// declarations stay as they are, and the reason is reported as a fatal
    /// diagnostic at the declaration's span.
    pub fn visit_var(&mut self, c: &Const)
        requires
            old(self).wf(),
        ensures
            final(self).wf(),
            final(self).consts == old(self).consts,
            final(self).trait_solve.unsolved == old(self).trait_solve.unsolved,
            final(self).next_scope == old(self).next_scope,
            final(self).var_func.unsed_vars == old(self).var_func.unsed_vars,
            final(self).var_func.func_return == old(self).var_func.func_return,
            final(self).collect_frame(*old(self)),
            final(self).generic_res@ == old(self).generic_res@,
            match old(self).global_fault(*c) {
                Some(kind) => final(self).rejected(*old(self), c.span, kind, c.ident),
                None => {
                    &&& final(self).env() == (Env {
                        globals: old(self).env().globals.insert(c.ident.id, c.ty@),
                        ..old(self).env()
                    })
                    &&& final(self).errors == old(self).errors
                },
            },
    {
        let fault = if self.global.contains_key(&c.ident.id) {
            Some(ErrorKind::DuplicateGlobal)
        } else if c.ty.has_path() {
            Some(ErrorKind::UnresolvedPath)
        } else {
            None
        };
        match fault {
            Some(kind) => {
                self.reject(c.span, kind, c.ident);
            },
            None => {
                self.global.insert(c.ident.id, c.ty.clone());
                proof {
                    crate::error::lemma_extends_refl(self.errors);
                    assert(self.env().globals =~= old(self).env().globals.insert(
                        c.ident.id,
                        c.ty@,
                    ));
                    assert(self.env().locals == old(self).env().locals);
                    assert(self.env().decls_ok());
                }
            },
        }
    }

    /// Binds the parameters of `func` as variables of the function declared
    /// under the name `key`, in order. A
    /// parameter whose name is bound already is reported and bound anew.
    pub fn bind_params(&mut self, func: &Func, key: Ident)
        requires
            old(self).wf(),
        ensures
            final(self).wf(),
            final(self).consts == old(self).consts,
            final(self).trait_solve.unsolved == old(self).trait_solve.unsolved,
            final(self).next_scope == old(self).next_scope,
            final(self).var_func.func_return == old(self).var_func.func_return,
            final(self).collect_frame(*old(self)),
            final(self).generic_res@ == old(self).generic_res@,
            final(self).env() == params_env(
                old(self).env(),
                key,
                func.params@,
                func.params@.len(),
            ),
            final(self).errors.poisoned == old(self).errors.poisoned,
            trail(
                *final(self),
                *old(self),
                params_faults(old(self).env(), key, func.params@, func.params@.len()),
                params_vars(key, func.params@, func.params@.len()),
            ),
    {
        let mut i: usize = 0;
        let ghost env = self.env();
        proof {
            crate::error::lemma_extends_refl(self.errors);
            lemma_trail_refl(*self);
        }
        while i < func.params.len()
            invariant
                i <= func.params.len(),
                self.wf(),
                self.collect_frame(*old(self)),
                self.generic_res@ == old(self).generic_res@,
                self.env() == params_env(old(self).env(), key, func.params@, i as nat),
                self.errors.poisoned == old(self).errors.poisoned,
                self.consts == old(self).consts,
                self.trait_solve.unsolved == old(self).trait_solve.unsolved,
                self.next_scope == old(self).next_scope,
                self.var_func.func_return == old(self).var_func.func_return,
                env == old(self).env(),
                trail(
                    *self,
                    *old(self),
                    params_faults(env, key, func.params@, i as nat),
                    params_vars(key, func.params@, i as nat),
                ),
            decreases func.params.len() - i,
        {
            let p = &func.params[i];
            let ghost before = *self;
            if !p.ty.has_path() {
                let dup = self.bind_local(key, p.ident, p.span, p.ty.clone());
                if dup {
                    self.errors.push_error(
                        Error::error_with_ident(p.span, ErrorKind::DuplicateParam, p.ident),
                    );
                } else {
                    proof {
                        crate::error::lemma_extends_refl(self.errors);
                    }
                }
            } else {
                self.errors.push_error(
                    Error::error_with_ident(p.span, ErrorKind::UnresolvedPath, p.ident),
                );
            }
            proof {
                crate::error::lemma_extends_trans(old(self).errors, before.errors, self.errors);
                let e1 = params_faults(env, key, func.params@, i as nat);
                let v1 = params_vars(key, func.params@, i as nat);
                let e2 = params_faults(env, key, func.params@, (i + 1) as nat);
                let v2 = params_vars(key, func.params@, (i + 1) as nat);
                assert(self.errors.errors@ =~= old(self).errors.errors@ + e2);
                assert(self.var_func.unsed_vars@ =~= old(self).var_func.unsed_vars@ + v2);
            }
            i += 1;
        }
    }

    /// Binds the parameters of `func` as variables of `func`; see
    /// [`Self::bind_params`].
    pub fn visit_params(&mut self, func: &Func)
        requires
            old(self).wf(),
        ensures
            final(self).wf(),
            final(self).consts == old(self).consts,
            final(self).trait_solve.unsolved == old(self).trait_solve.unsolved,
            final(self).next_scope == old(self).next_scope,
            final(self).var_func.func_return == old(self).var_func.func_return,
            final(self).collect_frame(*old(self)),
            final(self).generic_res@ == old(self).generic_res@,
            final(self).env() == params_env(
                old(self).env(),
                func.ident,
                func.params@,
                func.params@.len(),
            ),
            final(self).errors.poisoned == old(self).errors.poisoned,
            trail(
                *final(self),
                *old(self),
                params_faults(old(self).env(), func.ident, func.params@, func.params@.len()),
                params_vars(func.ident, func.params@, func.params@.len()),
            ),
    {
        self.bind_params(func, func.ident);
    }
}

} // verus!
