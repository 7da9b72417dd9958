//! The diagnostics of inference: for an expression without a type, one
//! error at the innermost expression that the typing rules refuse.

use crate::ast::types::{
    position_of, seq_has_path, view_tys, Expr, Expression, FieldInit, Ident, Range, SpecTy,
};
use crate::error::{Error, ErrorKind, Severity};
use crate::typeck::check::struct_of;
use crate::typeck::infer::{
    all_int, all_typed, field_of, field_ty, init_decls, init_names, init_tys_of, ty_of, tys_of,
    variant_names,
};
use crate::typeck::Env;
use vstd::prelude::*;

verus! {

/// The error of kind `kind` at `span`.
pub open spec fn fault(span: Range, kind: ErrorKind) -> Error {
    Error { span, severity: Severity::Error, kind, ident: None, found: None, expected: None }
}

/// The error of kind `kind` at `span` about the name `ident`.
pub open spec fn named_fault(span: Range, kind: ErrorKind, ident: Option<Ident>) -> Error {
    Error { span, severity: Severity::Error, kind, ident, found: None, expected: None }
}

/// The name that a fault of the expression `e` is about: the variable, the
/// indexed variable or field, the function, trait, struct or enum that it
/// names; for a field access that of its left side.
pub open spec fn subject(e: Expression) -> Option<Ident>
    decreases e,
{
    match e.val {
        Expr::Ident(x) => Some(x),
        Expr::Array { ident, .. } => Some(ident),
        Expr::Call { path, .. } => if path@.len() > 0 {
            Some(path@.last())
        } else {
            None
        },
        Expr::TraitMeth { trait_, .. } => if trait_@.len() > 0 {
            Some(trait_@.last())
        } else {
            None
        },
        Expr::StructInit { path, .. } => if path@.len() > 0 {
            Some(path@.last())
        } else {
            None
        },
        Expr::EnumInit { path, .. } => if path@.len() > 0 {
            Some(path@.last())
        } else {
            None
        },
        Expr::FieldAccess { lhs, .. } => subject(*lhs),
        _ => None,
    }
}

/// The name that a fault of the expression `e` is about.
pub fn subject_of(e: &Expression) -> (r: Option<Ident>)
    ensures
        r == subject(*e),
    decreases e,
{
    match &e.val {
        Expr::Ident(x) => Some(*x),
        Expr::Array { ident, .. } => Some(*ident),
        Expr::Call { path, .. } => path.local_ident(),
        Expr::TraitMeth { trait_, .. } => trait_.local_ident(),
        Expr::StructInit { path, .. } => path.local_ident(),
        Expr::EnumInit { path, .. } => path.local_ident(),
        Expr::FieldAccess { lhs, .. } => subject_of(lhs),
        _ => None,
    }
}

/// The diagnostics for an outcome without a type: one error where the rule
/// itself refuses (`kind` is given), none where an expression inside has no
/// type and is reported there.
pub open spec fn fault_seq(span: Range, typed: bool, kind: Option<ErrorKind>, ident: Option<Ident>) -> Seq<
    Error,
> {
    match kind {
        Some(k) => if typed {
            Seq::empty()
        } else {
            seq![named_fault(span, k, ident)]
        },
        None => Seq::empty(),
    }
}

/// Why a call of the function `path` has no type: no such function, an
/// argument without a type (reported there), the wrong number of
/// arguments, or a type parameter that nothing determines.
pub open spec fn call_kind(env: Env, path: Seq<Ident>, args: Seq<Option<SpecTy>>) -> Option<ErrorKind> {
    if path.len() == 0 || !env.funcs.contains_key(path.last().id) {
        Some(ErrorKind::UnknownFunction)
    } else if !all_typed(args) {
        None
    } else if args.len() != env.funcs[path.last().id].params@.len() {
        Some(ErrorKind::WrongArity)
    } else {
        Some(ErrorKind::UnusedGeneric)
    }
}

/// Why a call of the method of trait `path` has no type: no such trait, an
/// argument without a type (reported there), a type argument that is not
/// resolved, or no implementation for the type arguments.
pub open spec fn trait_call_kind(env: Env, path: Seq<Ident>, args: Seq<Option<SpecTy>>, targs: Seq<SpecTy>) -> Option<
    ErrorKind,
> {
    if path.len() == 0 || !env.traits.contains_key(path.last().id) {
        Some(ErrorKind::UnknownTrait)
    } else if !all_typed(args) {
        None
    } else if seq_has_path(targs) {
        Some(ErrorKind::UnresolvedPath)
    } else {
        Some(ErrorKind::NotImplemented)
    }
}

/// Why a struct initializer has no type: no such struct, an initial value
/// without a type (reported there), a field that the struct does not have,
/// or a type parameter that nothing determines.
pub open spec fn struct_init_kind(env: Env, path: Seq<Ident>, names: Seq<Ident>, inits: Seq<Option<SpecTy>>) -> Option<
    ErrorKind,
> {
    if path.len() == 0 || !env.structs.contains_key(path.last().id) {
        Some(ErrorKind::UnknownStruct)
    } else if !all_typed(inits) {
        None
    } else if init_decls(*env.structs[path.last().id], names) is None {
        Some(ErrorKind::UnknownField)
    } else {
        Some(ErrorKind::UnusedGeneric)
    }
}

/// Why an enum initializer has no type: no such enum, an item without a
/// type (reported there), a variant that the enum does not have, or the
/// wrong number of items.
pub open spec fn enum_init_kind(env: Env, path: Seq<Ident>, variant: Ident, items: Seq<Option<SpecTy>>) -> Option<
    ErrorKind,
> {
    if path.len() == 0 || !env.enums.contains_key(path.last().id) {
        Some(ErrorKind::UnknownEnum)
    } else if !all_typed(items) {
        None
    } else if position_of(variant_names(*env.enums[path.last().id]), variant)
        >= env.enums[path.last().id].variants@.len() {
        Some(ErrorKind::UnknownVariant)
    } else {
        Some(ErrorKind::WrongArity)
    }
}

/// Why a value of type `lhs_ty` has no field of some name: it is no struct,
/// or the struct has no such field.
pub open spec fn field_fault_kind(env: Env, lhs_ty: SpecTy) -> ErrorKind {
    if struct_of(env, lhs_ty) is Some {
        ErrorKind::UnknownField
    } else {
        ErrorKind::InvalidFieldAccess
    }
}

/// Why indices `tys` into a value do not give a type: an index without a
/// type (reported there), an index that is no `Int`, or, with `found`, a
/// value with fewer array layers than indices; `missing` where there is no
/// value.
pub open spec fn index_kind(tys: Seq<Option<SpecTy>>, found: bool, missing: ErrorKind) -> Option<ErrorKind> {
    if !all_typed(tys) {
        None
    } else if !all_int(tys) {
        Some(ErrorKind::IndexNonInt)
    } else if found {
        Some(ErrorKind::IndexNonArray)
    } else {
        Some(missing)
    }
}

/// Why the typing rule of `e` itself gives no type, where it gives none:
/// `None` where an expression in `e` has no type and is reported there.
pub open spec fn own_kind(env: Env, e: Expression) -> Option<ErrorKind> {
    match e.val {
        Expr::Value(_) => None,
        Expr::Ident(_) => Some(ErrorKind::UndeclaredVariable),
        Expr::AddrOf(_) => None,
        Expr::Parens(_) => None,
        Expr::Deref { expr, .. } => if ty_of(env, *expr) is Some {
            Some(ErrorKind::DerefNonPointer)
        } else {
            None
        },
        Expr::Urnary { expr, .. } => if ty_of(env, *expr) is Some {
            Some(ErrorKind::InvalidOperands)
        } else {
            None
        },
        Expr::Binary { lhs, rhs, .. } => if ty_of(env, *lhs) is Some && ty_of(env, *rhs) is Some {
            Some(ErrorKind::InvalidOperands)
        } else {
            None
        },
        Expr::Array { ident, exprs } => index_kind(
            tys_of(env, exprs@),
            env.type_of_ident(ident, e.span) is Some,
            ErrorKind::UndeclaredVariable,
        ),
        Expr::Call { path, args, .. } => call_kind(env, path@, tys_of(env, args@)),
        Expr::TraitMeth { trait_, args, type_args } => trait_call_kind(
            env,
            trait_@,
            tys_of(env, args@),
            view_tys(type_args@),
        ),
        Expr::FieldAccess { .. } => None,
        Expr::StructInit { path, fields } => struct_init_kind(
            env,
            path@,
            init_names(fields@),
            init_tys_of(env, fields@),
        ),
        Expr::EnumInit { path, variant, items } => enum_init_kind(
            env,
            path@,
            variant,
            tys_of(env, items@),
        ),
        Expr::ArrayInit { items } => if all_typed(tys_of(env, items@)) {
            Some(ErrorKind::TypeMismatch)
        } else {
            None
        },
    }
}

/// Why the right side `rhs` of a field access on a value of type `lhs_ty`
/// has no type, where it has none.
pub open spec fn field_kind(env: Env, lhs_ty: SpecTy, rhs: Expression) -> Option<ErrorKind> {
    match rhs.val {
        Expr::Ident(_) => Some(field_fault_kind(env, lhs_ty)),
        Expr::Array { ident: f, exprs } => index_kind(
            tys_of(env, exprs@),
            field_of(env, lhs_ty, f) is Some,
            field_fault_kind(env, lhs_ty),
        ),
        Expr::FieldAccess { lhs: l2, .. } => match l2.val {
            Expr::Ident(f2) => if field_of(env, lhs_ty, f2) is Some {
                None
            } else {
                Some(ErrorKind::UnknownField)
            },
            _ => Some(ErrorKind::InvalidFieldAccess),
        },
        _ => Some(ErrorKind::InvalidFieldAccess),
    }
}

/// The diagnostics of inference for the first `n` expressions of a list.
pub open spec fn faults_seq(env: Env, es: Seq<Expression>, n: nat) -> Seq<Error>
    decreases es, n,
{
    if n == 0 || n > es.len() {
        Seq::empty()
    } else {
        faults_seq(env, es, (n - 1) as nat) + faults(env, es[n - 1])
    }
}

/// The diagnostics of inference for the first `n` initial values of a
/// struct initializer.
pub open spec fn init_faults_seq(env: Env, fs: Seq<FieldInit>, n: nat) -> Seq<Error>
    decreases fs, n,
{
    if n == 0 || n > fs.len() {
        Seq::empty()
    } else {
        init_faults_seq(env, fs, (n - 1) as nat) + faults(env, fs[n - 1].init)
    }
}

/// The diagnostics of inference for the right side `rhs` of a field access
/// on a value of type `lhs_ty`.
pub open spec fn field_faults(env: Env, lhs_ty: SpecTy, rhs: Expression) -> Seq<Error>
    decreases rhs, 0nat,
{
    let kids = match rhs.val {
        Expr::Array { exprs, .. } => faults_seq(env, exprs@, exprs@.len()),
        Expr::FieldAccess { lhs: l2, rhs: r2 } => match l2.val {
            Expr::Ident(f2) => match field_of(env, lhs_ty, f2) {
                Some(t2) => field_faults(env, t2, *r2),
                None => Seq::empty(),
            },
            _ => Seq::empty(),
        },
        _ => Seq::empty(),
    };
    kids + fault_seq(
        rhs.span,
        field_ty(env, lhs_ty, rhs) is Some,
        field_kind(env, lhs_ty, rhs),
        subject(rhs),
    )
}

/// The diagnostics of inference for the expressions in `e`, without `e`
/// itself, in the order in which they are walked.
pub open spec fn kids_faults(env: Env, e: Expression) -> Seq<Error>
    decreases e, 0nat,
{
    match e.val {
        Expr::Value(_) => Seq::empty(),
        Expr::Ident(_) => Seq::empty(),
        Expr::AddrOf(x) => faults(env, *x),
        Expr::Deref { expr, .. } => faults(env, *expr),
        Expr::Array { exprs, .. } => faults_seq(env, exprs@, exprs@.len()),
        Expr::Urnary { expr, .. } => faults(env, *expr),
        Expr::Binary { lhs, rhs, .. } => faults(env, *lhs) + faults(env, *rhs),
        Expr::Parens(x) => faults(env, *x),
        Expr::Call { args, .. } => faults_seq(env, args@, args@.len()),
        Expr::TraitMeth { args, .. } => faults_seq(env, args@, args@.len()),
        Expr::FieldAccess { lhs, rhs } => faults(env, *lhs) + (match ty_of(env, *lhs) {
            Some(t) => field_faults(env, t, *rhs),
            None => Seq::empty(),
        }),
        Expr::StructInit { fields, .. } => init_faults_seq(env, fields@, fields@.len()),
        Expr::EnumInit { items, .. } => faults_seq(env, items@, items@.len()),
        Expr::ArrayInit { items } => faults_seq(env, items@, items@.len()),
    }
}

/// The diagnostics of inference for an expression: none where the
/// expression has a type; else one error, at the innermost expression that
/// the typing rules refuse, for each such expression, in the order in which
/// they are walked. An error names what the refused expression names: the
/// variable, the field, the function, the trait, the struct or the enum.
pub open spec fn faults(env: Env, e: Expression) -> Seq<Error>
    decreases e, 1nat,
{
    kids_faults(env, e) + fault_seq(e.span, ty_of(env, e) is Some, own_kind(env, e), subject(e))
}

/// Adding up lists does not depend on the grouping.
pub proof fn lemma_add_assoc<T>(a: Seq<T>, b: Seq<T>, c: Seq<T>)
    ensures
        (a + b) + c == a + (b + c),
{
    assert((a + b) + c =~= a + (b + c));
}

/// Adding nothing changes nothing.
pub proof fn lemma_add_empty<T>(a: Seq<T>)
    ensures
        a + Seq::<T>::empty() == a,
        Seq::<T>::empty() + a == a,
{
    assert(a + Seq::<T>::empty() =~= a);
    assert(Seq::<T>::empty() + a =~= a);
}


/// Where each of the first `n` expressions of a list has a type, inference
/// reports nothing for them.
pub proof fn lemma_seq_no_faults(env: Env, es: Seq<Expression>, n: nat)
    requires
        n <= es.len(),
        forall|i: int| 0 <= i < n ==> (#[trigger] tys_of(env, es)[i]) is Some,
    ensures
        faults_seq(env, es, n) == Seq::<Error>::empty(),
    decreases es, n,
{
    if n > 0 {
        lemma_seq_no_faults(env, es, (n - 1) as nat);
        assert(tys_of(env, es)[n - 1] is Some);
        lemma_typed_no_faults(env, es[n - 1]);
        assert(faults_seq(env, es, n) =~= Seq::<Error>::empty());
    }
}

/// Where each of the first `n` initial values has a type, inference reports
/// nothing for them.
pub proof fn lemma_inits_no_faults(env: Env, fs: Seq<FieldInit>, n: nat)
    requires
        n <= fs.len(),
        forall|i: int| 0 <= i < n ==> (#[trigger] init_tys_of(env, fs)[i]) is Some,
    ensures
        init_faults_seq(env, fs, n) == Seq::<Error>::empty(),
    decreases fs, n,
{
    if n > 0 {
        lemma_inits_no_faults(env, fs, (n - 1) as nat);
        assert(init_tys_of(env, fs)[n - 1] is Some);
        lemma_typed_no_faults(env, fs[n - 1].init);
        assert(init_faults_seq(env, fs, n) =~= Seq::<Error>::empty());
    }
}

/// Where the right side of a field access has a type, inference reports
/// nothing for it.
pub proof fn lemma_field_no_faults(env: Env, lhs_ty: SpecTy, rhs: Expression)
    ensures
        field_ty(env, lhs_ty, rhs) is Some ==> field_faults(env, lhs_ty, rhs) == Seq::<
            Error,
        >::empty(),
    decreases rhs, 0nat,
{
    if field_ty(env, lhs_ty, rhs) is Some {
        match rhs.val {
            Expr::Array { exprs, .. } => {
                assert forall|i: int| 0 <= i < exprs@.len() implies (#[trigger] tys_of(
                    env,
                    exprs@,
                )[i]) is Some by {}
                lemma_seq_no_faults(env, exprs@, exprs@.len());
            },
            Expr::FieldAccess { lhs: l2, rhs: r2 } => match l2.val {
                Expr::Ident(f2) => match field_of(env, lhs_ty, f2) {
                    Some(t2) => {
                        lemma_field_no_faults(env, t2, *r2);
                    },
                    None => {},
                },
                _ => {},
            },
            _ => {},
        }
        assert(field_faults(env, lhs_ty, rhs) =~= Seq::<Error>::empty());
    }
}

/// An expression that has a type has no fault: inference reports nothing
/// for it.
#[verifier::rlimit(60)]
pub proof fn lemma_typed_no_faults(env: Env, e: Expression)
    ensures
        ty_of(env, e) is Some ==> faults(env, e) == Seq::<Error>::empty(),
    decreases e, 1nat,
{
    if ty_of(env, e) is Some {
        match e.val {
            Expr::Value(_) => {},
            Expr::Ident(_) => {},
            Expr::AddrOf(x) => {
                lemma_typed_no_faults(env, *x);
            },
            Expr::Deref { expr, .. } => {
                lemma_typed_no_faults(env, *expr);
            },
            Expr::Array { exprs, .. } => {
                assert forall|i: int| 0 <= i < exprs@.len() implies (#[trigger] tys_of(
                    env,
                    exprs@,
                )[i]) is Some by {}
                lemma_seq_no_faults(env, exprs@, exprs@.len());
            },
            Expr::Urnary { expr, .. } => {
                lemma_typed_no_faults(env, *expr);
            },
            Expr::Binary { lhs, rhs, .. } => {
                lemma_typed_no_faults(env, *lhs);
                lemma_typed_no_faults(env, *rhs);
            },
            Expr::Parens(x) => {
                lemma_typed_no_faults(env, *x);
            },
            Expr::Call { args, .. } => {
                lemma_seq_no_faults(env, args@, args@.len());
            },
            Expr::TraitMeth { args, .. } => {
                lemma_seq_no_faults(env, args@, args@.len());
            },
            Expr::FieldAccess { lhs, rhs } => {
                lemma_typed_no_faults(env, *lhs);
                lemma_field_no_faults(env, ty_of(env, *lhs)->0, *rhs);
            },
            Expr::StructInit { fields, .. } => {
                lemma_inits_no_faults(env, fields@, fields@.len());
            },
            Expr::EnumInit { items, .. } => {
                lemma_seq_no_faults(env, items@, items@.len());
            },
            Expr::ArrayInit { items } => {
                lemma_seq_no_faults(env, items@, items@.len());
            },
        }
        assert(faults(env, e) =~= Seq::<Error>::empty());
    }
}

} // verus!
