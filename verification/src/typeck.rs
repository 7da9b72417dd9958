//! The type context and the passes that fill and read it.

pub mod check;
pub mod checker;
pub mod collect;
pub mod driver;
pub mod faults;
pub mod generic;
pub mod infer;
pub mod coverage;
pub mod path_free;
pub mod pattern;
pub mod rawvec;
pub mod scope;
pub mod stmt;
pub mod stmt_check;
pub mod trait_solver;
pub mod typing;
pub mod usage;

use crate::ast::types::{
    generic_names, seq_generics_within, seq_has_path, view_tys, Enum, Func, Ident, Impl, Range,
    SpecTy, Struct, Trait, Ty, Val,
};
use crate::error::{Error, ErrorKind, ErrorReport};
use crate::typeck::generic::GenericResolver;
use crate::typeck::scope::{spec_owner, FuncSpan, VarInFunction};
use crate::typeck::trait_solver::TraitSolve;
use std::collections::HashMap;
use vstd::prelude::*;

verus! {

/// The model of a table of types.
pub open spec fn view_types(m: Map<usize, Ty>) -> Map<usize, SpecTy> {
    m.map_values(|t: Ty| t@)
}

/// The model of the table of the functions' variables.
pub open spec fn view_locals(m: Map<usize, HashMap<usize, Ty>>) -> Map<usize, Map<usize, SpecTy>> {
    m.map_values(|l: HashMap<usize, Ty>| view_types(l@))
}

/// The types of a function's parameters, in order.
pub open spec fn param_tys(f: Func) -> Seq<SpecTy> {
    Seq::new(f.params@.len(), |i: int| f.params@[i].ty@)
}

/// The types of a struct's fields, in order.
pub open spec fn field_tys(s: Struct) -> Seq<SpecTy> {
    Seq::new(s.fields@.len(), |i: int| s.fields@[i].ty@)
}

/// A function's signature holds no unresolved nominal reference and no type
/// parameter but the function's own.
pub open spec fn sig_ok(f: Func) -> bool {
    &&& !f.ret@.has_path()
    &&& !seq_has_path(param_tys(f))
    &&& f.ret@.generics_within(generic_names(f.generics@))
    &&& seq_generics_within(param_tys(f), generic_names(f.generics@))
}

/// A trait's method holds no unresolved nominal reference and no type
/// parameter but the trait's own.
pub open spec fn trait_ok(t: Trait) -> bool {
    &&& !t.method.func().ret@.has_path()
    &&& !seq_has_path(param_tys(t.method.func()))
    &&& t.method.func().ret@.generics_within(generic_names(t.generics@))
    &&& seq_generics_within(param_tys(t.method.func()), generic_names(t.generics@))
}

/// A struct's fields hold no unresolved nominal reference and no type
/// parameter but the struct's own.
pub open spec fn struct_ok(s: Struct) -> bool {
    &&& !seq_has_path(field_tys(s))
    &&& seq_generics_within(field_tys(s), generic_names(s.generics@))
}

/// An enum's variants hold no unresolved nominal reference and no type
/// parameter but the enum's own.
pub open spec fn enum_ok(e: Enum) -> bool {
    forall|i: int|
        0 <= i < e.variants@.len() ==> {
            &&& !seq_has_path(view_tys((#[trigger] e.variants@[i]).types@))
            &&& seq_generics_within(view_tys(e.variants@[i].types@), generic_names(e.generics@))
        }
}

/// What the passes know of a program's declarations: the part of the type
/// context that the type of an expression depends on.
pub struct Env<'ast> {
    /// The types of the names declared at module scope.
    pub globals: Map<usize, SpecTy>,
    /// The types of each function's parameters and locals.
    pub locals: Map<usize, Map<usize, SpecTy>>,
    /// The region of each function.
    pub spans: Seq<FuncSpan>,
    pub funcs: Map<usize, &'ast Func>,
    pub structs: Map<usize, &'ast Struct>,
    pub enums: Map<usize, &'ast Enum>,
    pub traits: Map<usize, &'ast Trait>,
    pub impls: Map<usize, Vec<&'ast Impl>>,
}

impl<'ast> Env<'ast> {
    /// The type of the global `id`.
    pub open spec fn global_ty(self, id: Ident) -> Option<SpecTy> {
        if self.globals.contains_key(id.id) {
            Some(self.globals[id.id])
        } else {
            None
        }
    }

    /// The type of the variable `id` of function `f`.
    pub open spec fn local_ty(self, f: Ident, id: Ident) -> Option<SpecTy> {
        if self.locals.contains_key(f.id) && self.locals[f.id].contains_key(id.id) {
            Some(self.locals[f.id][id.id])
        } else {
            None
        }
    }

    /// The type of the name `id` where it is used at `span`: that of the
    /// variable of the function that owns `span`, else that of the global.
    pub open spec fn type_of_ident(self, id: Ident, span: Range) -> Option<SpecTy> {
        match spec_owner(self.spans, span) {
            Some(f) => match self.local_ty(f, id) {
                Some(t) => Some(t),
                None => self.global_ty(id),
            },
            None => self.global_ty(id),
        }
    }

    /// No declared type holds an unresolved nominal reference, and no
    /// declaration uses a type parameter that it does not declare.
    pub open spec fn decls_ok(self) -> bool {
        &&& forall|k: usize| #[trigger] self.globals.contains_key(k) ==> !self.globals[k].has_path()
        &&& forall|f: usize, k: usize|
            self.locals.contains_key(f) && #[trigger] self.locals[f].contains_key(k)
                ==> !self.locals[f][k].has_path()
        &&& forall|k: usize| #[trigger] self.funcs.contains_key(k) ==> sig_ok(*self.funcs[k])
        &&& forall|k: usize| #[trigger] self.structs.contains_key(k) ==> struct_ok(*self.structs[k])
        &&& forall|k: usize| #[trigger] self.enums.contains_key(k) ==> enum_ok(*self.enums[k])
        &&& forall|k: usize| #[trigger] self.traits.contains_key(k) ==> trait_ok(*self.traits[k])
        &&& forall|k: usize, i: int|
            self.impls.contains_key(k) && 0 <= i < self.impls[k]@.len() ==> sig_ok(
                (#[trigger] self.impls[k]@[i]).method,
            ) && !seq_has_path(view_tys(self.impls[k]@[i].type_arguments@))
    }
}

/// The type context: every declaration of a program, the types of its names
/// and the type of each of its expressions.
pub struct TyCheckRes<'ast> {
    /// The function whose body is walked, if one is.
    pub curr_fn: Option<Ident>,
    /// The types of the names declared at module scope.
    pub global: HashMap<usize, Ty>,
    /// What is known of each function.
    pub var_func: VarInFunction<'ast>,
    /// The type of each expression, by the expression's id: the main table
    /// of inference.
    pub expr_ty: HashMap<usize, Ty>,
    /// The type arguments of each call, by the call expression's id: those
    /// written at the call, else those inferred from its arguments.
    pub call_ty_args: HashMap<usize, Vec<Ty>>,
    /// The literal last assigned to a name.
    pub consts: HashMap<usize, Val>,
    /// Each struct by its name.
    pub name_struct: HashMap<usize, &'ast Struct>,
    /// Each enum by its name.
    pub name_enum: HashMap<usize, &'ast Enum>,
    pub generic_res: GenericResolver,
    pub trait_solve: TraitSolve<'ast>,
    /// The next id for a use of a generic item.
    pub uniq_generic_instance_id: usize,
    /// The name under which the method of the next implementation is
    /// declared: implementations of one trait carry methods of one name,
    /// so each method is declared under a name of its own, counted down
    /// from the largest.
    pub next_scope: usize,
    pub errors: ErrorReport,
}

impl<'ast> TyCheckRes<'ast> {
    /// The declarations held by the context.
    pub open spec fn env(self) -> Env<'ast> {
        Env {
            globals: view_types(self.global@),
            locals: view_locals(self.var_func.func_refs@),
            spans: self.var_func.func_spans@,
            funcs: self.var_func.name_func@,
            structs: self.name_struct@,
            enums: self.name_enum@,
            traits: self.trait_solve.traits@,
            impls: self.trait_solve.impls@,
        }
    }

    /// The table of inference: the type of each expression that has one.
    pub open spec fn types(self) -> Map<usize, SpecTy> {
        view_types(self.expr_ty@)
    }

    /// What holds of the context between any two calls.
    pub open spec fn wf(self) -> bool {
        &&& self.var_func.wf()
        &&& self.trait_solve.wf()
        &&& self.generic_res@.all_concrete()
        &&& self.env().decls_ok()
    }

    /// A context that holds nothing.
    pub fn new() -> (r: Self)
        ensures
            r.wf(),
            r.types() == Map::<usize, SpecTy>::empty(),
            r.errors.errors@.len() == 0,
            !r.errors.poisoned,
            r.env().funcs == Map::<usize, &'ast Func>::empty(),
            r.env().spans.len() == 0,
            r.curr_fn is None,
    {
        let r = TyCheckRes {
            curr_fn: None,
            global: HashMap::new(),
            var_func: VarInFunction::new(),
            expr_ty: HashMap::new(),
            call_ty_args: HashMap::new(),
            consts: HashMap::new(),
            name_struct: HashMap::new(),
            name_enum: HashMap::new(),
            generic_res: GenericResolver::new(),
            trait_solve: TraitSolve::new(),
            uniq_generic_instance_id: 0,
            next_scope: usize::MAX,
            errors: ErrorReport::new(),
        };
        assert(r.types() =~= Map::<usize, SpecTy>::empty());
        assert(r.env().globals =~= Map::empty());
        assert(r.env().locals =~= Map::empty());
        r
    }

    /// `Err` with a word for the driver when a diagnostic of severity
    /// `Error` was found.
    pub fn report_errors(&self) -> (r: Result<(), ()>)
        ensures
            r is Err == self.errors.spec_has_errors(),
    {
        if self.errors.has_errors() {
            Err(())
        } else {
            Ok(())
        }
    }

    /// A fresh id for a use of a generic item. When the ids are used up the
    /// context is poisoned and the last id is handed out again.
    pub fn unique_id(&mut self) -> (r: usize)
        ensures
            r == old(self).uniq_generic_instance_id,
            final(self).env() == old(self).env(),
            final(self).expr_ty == old(self).expr_ty,
            final(self).call_ty_args == old(self).call_ty_args,
            final(self).generic_res == old(self).generic_res,
            final(self).curr_fn == old(self).curr_fn,
            final(self).trait_solve == old(self).trait_solve,
            final(self).var_func == old(self).var_func,
            final(self).consts == old(self).consts,
            final(self).errors.extends(old(self).errors),
            old(self).wf() ==> final(self).wf(),
            old(self).uniq_generic_instance_id < usize::MAX ==> {
                &&& final(self).uniq_generic_instance_id == old(self).uniq_generic_instance_id + 1
                &&& final(self).errors == old(self).errors
            },
            old(self).uniq_generic_instance_id == usize::MAX ==> {
                &&& final(self).uniq_generic_instance_id == usize::MAX
                &&& final(self).errors.poisoned
                &&& final(self).errors.errors@ == old(self).errors.errors@.push(
                    Error {
                        span: Range { start: 0, end: 0, file_id: 0 },
                        severity: crate::error::Severity::Error,
                        kind: ErrorKind::TooManyInstances,
                        ident: None,
                        found: None,
                        expected: None,
                    },
                )
            },
    {
        let x = self.uniq_generic_instance_id;
        if x < usize::MAX {
            self.uniq_generic_instance_id = x + 1;
            assert(self.errors.errors@.subrange(0, self.errors.errors@.len() as int)
                =~= self.errors.errors@);
        } else {
            self.errors.fatal(Error::error_with_span(Range::dummy(), ErrorKind::TooManyInstances));
        }
        x
    }

    /// The type of the name `id` where it is used at `span`.
    pub fn type_of_ident(&self, id: Ident, span: Range) -> (r: Option<Ty>)
        ensures
            crate::ast::types::view_opt(r) == self.env().type_of_ident(id, span),
    {
        match self.var_func.get_fn_by_span(span) {
            Some(f) => {
                match self.var_func.func_refs.get(&f.id) {
                    Some(locals) => {
                        match locals.get(&id.id) {
                            Some(t) => {
                                return Some(t.clone());
                            },
                            None => {},
                        }
                    },
                    None => {},
                }
            },
            None => {},
        }
        match self.global.get(&id.id) {
            Some(t) => Some(t.clone()),
            None => None,
        }
    }
}

} // verus!
