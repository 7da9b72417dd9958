//! The rules by which types meet: in operators, in conditions and in
//! assignments.

use crate::ast::types::{
    generic_names, names_of, position_of, view_opt, view_tys, BinOp, Enum, Expr, Expression,
    Generic, Ident, SpecTy, Struct, Ty, Val,
};
use crate::error::TyTag;
use crate::typeck::generic::Node;
use crate::typeck::infer::struct_field_ty;
use crate::typeck::typing::exec_struct_field_ty;
use crate::typeck::{Env, TyCheckRes};
use vstd::prelude::*;

verus! {

/// What a diagnostic says of the type `t`.
pub open spec fn tag(t: SpecTy) -> TyTag {
    match t {
        SpecTy::Generic { ident, .. } => TyTag::Generic(ident),
        SpecTy::Array { size, .. } => TyTag::Array(size),
        SpecTy::Struct { ident, .. } => TyTag::Struct(ident),
        SpecTy::Enum { ident, .. } => TyTag::Enum(ident),
        SpecTy::Ptr(_) => TyTag::Ptr,
        SpecTy::Ref(_) => TyTag::Ref,
        SpecTy::String => TyTag::String,
        SpecTy::Int => TyTag::Int,
        SpecTy::Char => TyTag::Char,
        SpecTy::Float => TyTag::Float,
        SpecTy::Bool => TyTag::Bool,
        SpecTy::Void => TyTag::Void,
        SpecTy::Func { ident, .. } => TyTag::Func(ident),
        SpecTy::Path(_) => TyTag::Path,
    }
}

/// What a diagnostic says of a type that may be missing.
pub open spec fn tag_opt(t: Option<SpecTy>) -> Option<TyTag> {
    match t {
        Some(t) => Some(tag(t)),
        None => None,
    }
}

/// What a diagnostic says of a type that may be missing.
pub fn tag_of(t: &Option<Ty>) -> (r: Option<TyTag>)
    ensures
        r == tag_opt(view_opt(*t)),
{
    match t {
        Some(Ty::Generic { ident, .. }) => Some(TyTag::Generic(*ident)),
        Some(Ty::Array { size, .. }) => Some(TyTag::Array(*size)),
        Some(Ty::Struct { ident, .. }) => Some(TyTag::Struct(*ident)),
        Some(Ty::Enum { ident, .. }) => Some(TyTag::Enum(*ident)),
        Some(Ty::Ptr(_)) => Some(TyTag::Ptr),
        Some(Ty::Ref(_)) => Some(TyTag::Ref),
        Some(Ty::String) => Some(TyTag::String),
        Some(Ty::Int) => Some(TyTag::Int),
        Some(Ty::Char) => Some(TyTag::Char),
        Some(Ty::Float) => Some(TyTag::Float),
        Some(Ty::Bool) => Some(TyTag::Bool),
        Some(Ty::Void) => Some(TyTag::Void),
        Some(Ty::Func { ident, .. }) => Some(TyTag::Func(*ident)),
        Some(Ty::Path(_)) => Some(TyTag::Path),
        None => None,
    }
}

/// The type of a binary operation on two numbers of type `ret`: `ret` for an
/// arithmetic, shift or bitwise operator, `Bool` for a comparison, and no
/// type for any other operator.
pub open spec fn spec_math_ops(op: BinOp, ret: SpecTy) -> Option<SpecTy> {
    if op.arith() {
        Some(ret)
    } else if op.comparison() {
        Some(SpecTy::Bool)
    } else {
        None
    }
}

/// The type of `lhs op rhs`, or `None` where the operator does not apply to
/// operands of these types.
///
/// - two `Int`s or two `Float`s: see [`spec_math_ops`];
/// - an `Int` and a `Float`: the `Int` is widened, then as for two `Float`s;
/// - two `Char`s: `Bool` for a comparison;
/// - a pointer and an `Int`, in either order: the pointer's type, for an
///   arithmetic, shift or bitwise operator;
/// - two arrays of one size: an array of that size, of the items' type;
/// - two `Bool`s: `Bool` for `&&` and `||`;
/// - a dereference layer on either side is taken off first.
///
/// The compound assignment operators never have a type.
pub open spec fn spec_fold_ty(lhs: SpecTy, rhs: SpecTy, op: BinOp) -> Option<SpecTy>
    decreases lhs, rhs,
{
    match (lhs, rhs) {
        (SpecTy::Ref(t), _) => spec_fold_ty(*t, rhs, op),
        (_, SpecTy::Ref(t)) => spec_fold_ty(lhs, *t, op),
        (SpecTy::Int, SpecTy::Int) => spec_math_ops(op, SpecTy::Int),
        (SpecTy::Float, SpecTy::Float) => spec_math_ops(op, SpecTy::Float),
        (SpecTy::Int, SpecTy::Float) => spec_math_ops(op, SpecTy::Float),
        (SpecTy::Float, SpecTy::Int) => spec_math_ops(op, SpecTy::Float),
        (SpecTy::Char, SpecTy::Char) => if op.comparison() {
            Some(SpecTy::Bool)
        } else {
            None
        },
        (SpecTy::Ptr(t), SpecTy::Int) => if op.arith() {
            Some(SpecTy::Ptr(t))
        } else {
            None
        },
        (SpecTy::Int, SpecTy::Ptr(t)) => if op.arith() {
            Some(SpecTy::Ptr(t))
        } else {
            None
        },
        (SpecTy::Array { size: n1, ty: t1 }, SpecTy::Array { size: n2, ty: t2 }) => if n1 == n2 {
            match spec_fold_ty(*t1, *t2, op) {
                Some(t) => Some(SpecTy::Array { size: n1, ty: Box::new(t) }),
                None => None,
            }
        } else {
            None
        },
        (SpecTy::Bool, SpecTy::Bool) => if op.logical() {
            Some(SpecTy::Bool)
        } else {
            None
        },
        _ => None,
    }
}

/// The type a value of type `rhs` takes when it is assigned or handed to a
/// place of type `lhs`: `Int` and `Float` convert to each other, `Bool`
/// converts to `Int`, and `Int` and pointers convert to each other. Any other
/// type stays as it is.
pub open spec fn spec_coercion(lhs: SpecTy, rhs: SpecTy) -> SpecTy {
    match (lhs, rhs) {
        (SpecTy::Int, SpecTy::Float) => SpecTy::Int,
        (SpecTy::Int, SpecTy::Bool) => SpecTy::Int,
        (SpecTy::Int, SpecTy::Ptr(_)) => SpecTy::Int,
        (SpecTy::Float, SpecTy::Int) => SpecTy::Float,
        (SpecTy::Ptr(t), SpecTy::Int) => SpecTy::Ptr(t),
        _ => rhs,
    }
}

/// `true` when a value of this type may stand as the condition of an `if` or
/// a `while`. No type is not truthy.
pub fn is_truthy(ty: Option<&Ty>) -> (r: bool)
    ensures
        r == (ty matches Some(t) && t@.is_truthy()),
{
    match ty {
        Some(t) => match t {
            Ty::Ptr(_) | Ty::Ref(_) | Ty::String | Ty::Int | Ty::Char | Ty::Float | Ty::Bool => true,
            _ => false,
        },
        None => false,
    }
}

/// Converts `rhs` to the type it takes at a place of type `lhs`, and says
/// whether that changed it.
pub fn coercion(lhs: &Ty, rhs: &mut Ty) -> (changed: bool)
    ensures
        final(rhs)@ == spec_coercion(lhs@, old(rhs)@),
        changed == (final(rhs)@ != old(rhs)@),
{
    match lhs {
        Ty::Int => match rhs {
            Ty::Float | Ty::Bool | Ty::Ptr(_) => {
                *rhs = Ty::Int;
                true
            },
            _ => false,
        },
        Ty::Float => match rhs {
            Ty::Int => {
                *rhs = Ty::Float;
                true
            },
            _ => false,
        },
        Ty::Ptr(t) => match rhs {
            Ty::Int => {
                *rhs = Ty::Ptr(Box::new((**t).clone()));
                true
            },
            _ => false,
        },
        _ => false,
    }
}

/// The type of a binary operation on two numbers of type `ret_ty`.
pub fn math_ops(op: &BinOp, ret_ty: Ty) -> (r: Option<Ty>)
    ensures
        view_opt(r) == spec_math_ops(*op, ret_ty@),
{
    if op.is_arith() {
        Some(ret_ty)
    } else if op.is_cmp() {
        Some(Ty::Bool)
    } else {
        None
    }
}

/// The type of `lhs op rhs`; no type where either side has none.
pub fn fold_ty(lhs: Option<&Ty>, rhs: Option<&Ty>, op: &BinOp) -> (r: Option<Ty>)
    ensures
        view_opt(r) == (match (lhs, rhs) {
            (Some(l), Some(r)) => spec_fold_ty(l@, r@, *op),
            _ => None,
        }),
{
    match (lhs, rhs) {
        (Some(l), Some(r)) => fold(l, r, op),
        _ => None,
    }
}

fn fold(lhs: &Ty, rhs: &Ty, op: &BinOp) -> (r: Option<Ty>)
    ensures
        view_opt(r) == spec_fold_ty(lhs@, rhs@, *op),
    decreases lhs, rhs,
{
    match (lhs, rhs) {
        (Ty::Ref(t), _) => fold(t, rhs, op),
        (_, Ty::Ref(t)) => fold(lhs, t, op),
        (Ty::Int, Ty::Int) => math_ops(op, Ty::Int),
        (Ty::Float, Ty::Float) => math_ops(op, Ty::Float),
        (Ty::Int, Ty::Float) => math_ops(op, Ty::Float),
        (Ty::Float, Ty::Int) => math_ops(op, Ty::Float),
        (Ty::Char, Ty::Char) => if op.is_cmp() {
            Some(Ty::Bool)
        } else {
            None
        },
        (Ty::Ptr(_), Ty::Int) => if op.is_arith() {
            Some(lhs.clone())
        } else {
            None
        },
        (Ty::Int, Ty::Ptr(_)) => if op.is_arith() {
            Some(rhs.clone())
        } else {
            None
        },
        (Ty::Array { size: n1, ty: t1 }, Ty::Array { size: n2, ty: t2 }) => if *n1 == *n2 {
            match fold(t1, t2, op) {
                Some(t) => Some(Ty::Array { size: *n1, ty: Box::new(t) }),
                None => None,
            }
        } else {
            None
        },
        (Ty::Bool, Ty::Bool) => if op.is_logical() {
            Some(Ty::Bool)
        } else {
            None
        },
        _ => None,
    }
}

/// The type a literal has by itself.
pub fn lit_to_type(lit: &Val) -> (r: Ty)
    ensures
        r@ == lit.spec_type_of(),
{
    lit.to_type()
}

/// The type that the table of inference holds for an expression.
pub open spec fn table_ty(types: Map<usize, SpecTy>, e: Expression) -> Option<SpecTy> {
    if types.contains_key(e.id) {
        Some(types[e.id])
    } else {
        None
    }
}

/// The types that the table of inference holds for a list of expressions.
pub open spec fn table_tys(types: Map<usize, SpecTy>, es: Seq<Expression>) -> Seq<Option<SpecTy>> {
    Seq::new(es.len(), |i: int| table_ty(types, es[i]))
}

/// The type of an indexed array of type `t` with `n` indices: the type of
/// its items, where the array has exactly `n` dimensions.
pub open spec fn indexed(t: SpecTy, n: nat) -> Option<SpecTy> {
    if t.array_dim() == n {
        t.index(n)
    } else {
        None
    }
}

/// The struct that a value of type `t` is, under its pointer and
/// dereference layers, with the type arguments it has.
pub open spec fn struct_of<'ast>(env: Env<'ast>, t: SpecTy) -> Option<(&'ast Struct, Seq<SpecTy>)> {
    match t.pointee() {
        SpecTy::Struct { ident, gen } => if env.structs.contains_key(ident.id) {
            Some((env.structs[ident.id], gen))
        } else {
            None
        },
        _ => None,
    }
}

/// The type of the place that `e` names inside a value of struct `s` with
/// the type arguments `gen`: a field, a dereferenced place, an indexed
/// field with as many indices as the field has dimensions, or a place
/// inside a field that is a struct itself.
pub open spec fn spec_walk_field_access(env: Env, s: Struct, gen: Seq<SpecTy>, e: Expression) -> Option<SpecTy>
    decreases e,
{
    match e.val {
        Expr::Ident(f) => struct_field_ty(s, gen, f),
        Expr::Deref { indir, expr } => match spec_walk_field_access(env, s, gen, *expr) {
            Some(t) => t.strip(indir as nat),
            None => None,
        },
        Expr::Array { ident, exprs } => match struct_field_ty(s, gen, ident) {
            Some(t) => indexed(t, exprs@.len()),
            None => None,
        },
        Expr::FieldAccess { lhs, rhs } => match lhs.val {
            Expr::Ident(f2) => match struct_field_ty(s, gen, f2) {
                Some(t2) => match struct_of(env, t2) {
                    Some((s2, g2)) => spec_walk_field_access(env, *s2, g2, *rhs),
                    None => None,
                },
                None => None,
            },
            _ => None,
        },
        _ => None,
    }
}

/// The type of the place that the left side of an assignment names: a
/// variable, a dereferenced place, an indexed array with as many indices as
/// it has dimensions, or a place inside a struct. Any other expression names
/// no place.
pub open spec fn spec_lvalue_ty(env: Env, types: Map<usize, SpecTy>, lval: Expression) -> Option<SpecTy>
    decreases lval,
{
    match lval.val {
        Expr::Ident(_) => table_ty(types, lval),
        Expr::Deref { indir, expr } => match spec_lvalue_ty(env, types, *expr) {
            Some(t) => t.strip(indir as nat),
            None => None,
        },
        Expr::Array { ident, exprs } => match env.type_of_ident(ident, lval.span) {
            Some(t) => indexed(t, exprs@.len()),
            None => None,
        },
        Expr::FieldAccess { lhs, rhs } => match table_ty(types, *lhs) {
            Some(t) => match struct_of(env, t) {
                Some((s, gen)) => spec_walk_field_access(env, *s, gen, *rhs),
                None => None,
            },
            None => None,
        },
        _ => None,
    }
}

/// `true` when `e` names a place that a dereference can start from: a
/// declared variable, a dereferenced place or an address of one, a field
/// access between two of them, or an array that takes the indices.
pub open spec fn deref_ok(env: Env, types: Map<usize, SpecTy>, e: Expression) -> bool
    decreases e,
{
    match e.val {
        Expr::Ident(id) => env.type_of_ident(id, e.span) is Some || table_ty(types, e) is Some,
        Expr::Deref { expr, .. } => deref_ok(env, types, *expr),
        Expr::AddrOf(expr) => deref_ok(env, types, *expr),
        Expr::FieldAccess { lhs, rhs } => deref_ok(env, types, *lhs) && deref_ok(env, types, *rhs),
        Expr::Array { ident, exprs } => match env.type_of_ident(ident, e.span) {
            Some(t) => t.index(exprs@.len()) is Some,
            None => false,
        },
        _ => false,
    }
}

/// The type of the expression `expr`, whose type in the table is `ty`, as
/// a value: a dereference gives up the dereference layer on top.
pub open spec fn spec_resolve_ty(expr: Expression, ty: Option<SpecTy>) -> Option<SpecTy> {
    match ty {
        Some(t) => match expr.val {
            Expr::Deref { .. } => Some(t.peel()),
            _ => Some(t),
        },
        None => None,
    }
}

/// The stack of generic items for a use of `kind` in the function that is
/// walked: the function first where it is generic, then `kind`.
pub open spec fn spec_build_stack(env: Env, curr_fn: Option<Ident>, kind: Node) -> Seq<Node> {
    match curr_fn {
        Some(f) => if env.funcs.contains_key(f.id) && env.funcs[f.id].generics@.len() > 0 {
            seq![Node::Func(f), kind]
        } else {
            seq![kind]
        },
        None => seq![kind],
    }
}

/// The type `ty` with the type parameters `generics` replaced by the type
/// arguments `ty_args`, each by the argument at its place. A parameter
/// without an argument stays.
pub fn subs_type_args(ty: &Ty, ty_args: &Vec<Ty>, generics: &Vec<Generic>) -> (r: Ty)
    ensures
        r@ == ty@.subst_all(generic_names(generics@), view_tys(ty_args@)),
{
    let names = names_of(generics);
    ty.subst_all(&names, ty_args)
}

/// The stack of generic items for a use of `kind` in the function that is
/// walked.
pub fn build_stack<'ast>(tcxt: &TyCheckRes<'ast>, kind: Node) -> (r: Vec<Node>)
    ensures
        r@ == spec_build_stack(tcxt.env(), tcxt.curr_fn, kind),
{
    let mut stack: Vec<Node> = Vec::new();
    match tcxt.curr_fn {
        Some(f) => {
            match tcxt.var_func.name_func.get(&f.id) {
                Some(def) => {
                    if def.generics.len() > 0 {
                        stack.push(Node::Func(f));
                    }
                },
                None => {},
            }
        },
        None => {},
    }
    stack.push(kind);
    assert(stack@ =~= spec_build_stack(tcxt.env(), tcxt.curr_fn, kind));
    stack
}

/// The type of `expr` as a value.
pub fn resolve_ty(expr: &Expression, ty: Option<&Ty>) -> (r: Option<Ty>)
    ensures
        view_opt(r) == spec_resolve_ty(
            *expr,
            match ty {
                Some(t) => Some(t@),
                None => None,
            },
        ),
{
    match ty {
        Some(t) => match &expr.val {
            Expr::Deref { .. } => Some(t.resolve()),
            _ => Some(t.clone()),
        },
        None => None,
    }
}

/// The type of an indexed array of type `t` with `n` indices.
pub fn exec_indexed(t: &Ty, n: usize) -> (r: Option<Ty>)
    ensures
        view_opt(r) == indexed(t@, n as nat),
{
    if t.has_dim(n) {
        t.index_dim(n)
    } else {
        None
    }
}

/// The struct that a value of type `t` is, with its type arguments.
pub fn exec_struct_of<'a, 'ast>(tcxt: &TyCheckRes<'ast>, t: &'a Ty) -> (r: Option<
    (&'ast Struct, &'a Vec<Ty>),
>)
    ensures
        match r {
            Some((s, gen)) => struct_of(tcxt.env(), t@) == Some((s, view_tys(gen@))),
            None => struct_of(tcxt.env(), t@) is None,
        },
{
    match t.pointee() {
        Ty::Struct { ident, gen } => match tcxt.name_struct.get(&ident.id) {
            Some(s) => Some((*s, gen)),
            None => None,
        },
        _ => None,
    }
}

/// The type of the place that `expr` names inside a value of struct `s`.
pub fn walk_field_access<'ast>(tcxt: &TyCheckRes<'ast>, s: &Struct, gen: &Vec<Ty>, expr: &Expression) -> (r:
    Option<Ty>)
    ensures
        view_opt(r) == spec_walk_field_access(tcxt.env(), *s, view_tys(gen@), *expr),
    decreases expr,
{
    match &expr.val {
        Expr::Ident(f) => exec_struct_field_ty(s, gen, *f),
        Expr::Deref { indir, expr: inner } => match walk_field_access(tcxt, s, gen, inner) {
            Some(t) => t.dereference(*indir),
            None => None,
        },
        Expr::Array { ident, exprs } => match exec_struct_field_ty(s, gen, *ident) {
            Some(t) => exec_indexed(&t, exprs.len()),
            None => None,
        },
        Expr::FieldAccess { lhs, rhs } => match &lhs.val {
            Expr::Ident(f2) => match exec_struct_field_ty(s, gen, *f2) {
                Some(t2) => match exec_struct_of(tcxt, &t2) {
                    Some((s2, g2)) => walk_field_access(tcxt, s2, g2, rhs),
                    None => None,
                },
                None => None,
            },
            _ => None,
        },
        _ => None,
    }
}

/// The type that the table of inference holds for `e`.
pub fn table_type<'ast>(tcxt: &TyCheckRes<'ast>, e: &Expression) -> (r: Option<Ty>)
    ensures
        view_opt(r) == table_ty(tcxt.types(), *e),
{
    match tcxt.expr_ty.get(&e.id) {
        Some(t) => Some(t.clone()),
        None => None,
    }
}

/// The type of the place that the left side of an assignment names, or
/// `None` where it names none.
pub fn lvalue_type<'ast>(tcxt: &TyCheckRes<'ast>, lval: &Expression) -> (r: Option<Ty>)
    ensures
        view_opt(r) == spec_lvalue_ty(tcxt.env(), tcxt.types(), *lval),
    decreases lval,
{
    match &lval.val {
        Expr::Ident(_) => table_type(tcxt, lval),
        Expr::Deref { indir, expr } => match lvalue_type(tcxt, expr) {
            Some(t) => t.dereference(*indir),
            None => None,
        },
        Expr::Array { ident, exprs } => match tcxt.type_of_ident(*ident, lval.span) {
            Some(t) => exec_indexed(&t, exprs.len()),
            None => None,
        },
        Expr::FieldAccess { lhs, rhs } => match table_type(tcxt, lhs) {
            Some(t) => match exec_struct_of(tcxt, &t) {
                Some((s, gen)) => walk_field_access(tcxt, s, gen, rhs),
                None => None,
            },
            None => None,
        },
        _ => None,
    }
}

/// `true` when `expr` names a place that a dereference can start from.
pub fn check_dereference<'ast>(tcxt: &TyCheckRes<'ast>, expr: &Expression) -> (r: bool)
    ensures
        r == deref_ok(tcxt.env(), tcxt.types(), *expr),
    decreases expr,
{
    match &expr.val {
        Expr::Ident(id) => {
            tcxt.type_of_ident(*id, expr.span).is_some() || table_type(tcxt, expr).is_some()
        },
        Expr::Deref { expr: inner, .. } => check_dereference(tcxt, inner),
        Expr::AddrOf(inner) => check_dereference(tcxt, inner),
        Expr::FieldAccess { lhs, rhs } => {
            let a = check_dereference(tcxt, lhs);
            let b = check_dereference(tcxt, rhs);
            a && b
        },
        Expr::Array { ident, exprs } => match tcxt.type_of_ident(*ident, expr.span) {
            Some(t) => t.index_dim(exprs.len()).is_some(),
            None => false,
        },
        _ => false,
    }
}

/// `true` when the type arguments `rgen` of an enum initializer for the
/// variant at `pos` agree with the type arguments `lgen` of the place it
/// goes to: at the place of each type parameter that the variant's payload
/// mentions both have the same type.
pub open spec fn enum_args_agree(e: Enum, pos: int, lgen: Seq<SpecTy>, rgen: Seq<SpecTy>) -> bool {
    forall|i: int|
        0 <= i < e.generics@.len() && crate::ast::types::seq_mentions(
            view_tys(e.variants@[pos].types@),
            (#[trigger] e.generics@[i]).ident,
        ) ==> i < lgen.len() && i < rgen.len() && rgen[i] == lgen[i]
}

/// The type of an enum initializer `rexpr` of type `rty` that goes to a
/// place of type `lty`: the type arguments that the variant does not
/// determine are taken from `lty`. `Err` where the two disagree on one that
/// the variant does determine. Any other expression keeps its type.
pub open spec fn spec_fill_enum(env: Env, lty: Option<SpecTy>, rty: Option<SpecTy>, rexpr: Expr) -> Result<
    Option<SpecTy>,
    (),
> {
    match (lty, rty, rexpr) {
        (
            Some(SpecTy::Enum { ident, gen: lgen }),
            Some(SpecTy::Enum { ident: rid, gen: rgen }),
            Expr::EnumInit { variant, .. },
        ) => if ident != rid || (lgen.len() == 0 && rgen.len() == 0) || !env.enums.contains_key(
            ident.id,
        ) {
            Ok(rty)
        } else {
            let e = *env.enums[ident.id];
            let pos = position_of(crate::typeck::infer::variant_names(e), variant);
            if pos >= e.variants@.len() {
                Ok(rty)
            } else if enum_args_agree(e, pos as int, lgen, rgen) {
                Ok(lty)
            } else {
                Err(())
            }
        },
        _ => Ok(rty),
    }
}

fn exec_enum_args_agree(e: &Enum, pos: usize, lgen: &Vec<Ty>, rgen: &Vec<Ty>) -> (r: bool)
    requires
        pos < e.variants@.len(),
    ensures
        r == enum_args_agree(*e, pos as int, view_tys(lgen@), view_tys(rgen@)),
{
    let mut i: usize = 0;
    while i < e.generics.len()
        invariant
            i <= e.generics.len(),
            pos < e.variants@.len(),
            forall|j: int|
                0 <= j < i && crate::ast::types::seq_mentions(
                    view_tys(e.variants@[pos as int].types@),
                    (#[trigger] e.generics@[j]).ident,
                ) ==> j < lgen@.len() && j < rgen@.len() && view_tys(rgen@)[j] == view_tys(
                    lgen@,
                )[j],
        decreases e.generics.len() - i,
    {
        if crate::ast::types::any_mentions(&e.variants[pos].types, e.generics[i].ident) {
            if !(i < lgen.len() && i < rgen.len() && rgen[i].is_ty_eq(&lgen[i])) {
                return false;
            }
        }
        i += 1;
    }
    true
}

/// Fills the type arguments that an enum initializer leaves open from the
/// type of the place it goes to.
pub fn check_used_enum_generics<'ast>(
    tcxt: &TyCheckRes<'ast>,
    lty: Option<&Ty>,
    rty: Option<&Ty>,
    rexpr: &Expr,
) -> (r: Result<Option<Ty>, ()>)
    ensures
        (match r {
            Ok(t) => Ok(view_opt(t)),
            Err(e) => Err(e),
        }) == spec_fill_enum(
            tcxt.env(),
            match lty {
                Some(t) => Some(t@),
                None => None,
            },
            match rty {
                Some(t) => Some(t@),
                None => None,
            },
            *rexpr,
        ),
{
    let keep: Result<Option<Ty>, ()> = Ok(
        match rty {
            Some(t) => Some(t.clone()),
            None => None,
        },
    );
    match (lty, rty, rexpr) {
        (
            Some(Ty::Enum { ident, gen: lgen }),
            Some(Ty::Enum { ident: rid, gen: rgen }),
            Expr::EnumInit { variant, .. },
        ) => {
            proof {
                assert(lty->0@ == SpecTy::Enum { ident: *ident, gen: view_tys(lgen@) });
                assert(rty->0@ == SpecTy::Enum { ident: *rid, gen: view_tys(rgen@) });
                assert(view_tys(lgen@).len() == lgen@.len());
                assert(view_tys(rgen@).len() == rgen@.len());
            }
            if *ident != *rid || (lgen.len() == 0 && rgen.len() == 0) {
                return keep;
            }
            match tcxt.name_enum.get(&ident.id) {
                Some(e) => {
                    let pos = crate::typeck::typing::variant_position(e, *variant);
                    if pos >= e.variants.len() {
                        keep
                    } else if exec_enum_args_agree(e, pos, lgen, rgen) {
                        match lty {
                            Some(t) => Ok(Some(t.clone())),
                            None => keep,
                        }
                    } else {
                        Err(())
                    }
                },
                None => keep,
            }
        },
        _ => keep,
    }
}

} // verus!
