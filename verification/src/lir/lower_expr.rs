//! Lowering of expressions.

use crate::ast::types as ast;
use crate::ast::types::{
    generic_names, names_of, position_of, seq_subst_all, subst_all_tys, view_tys, Ident, Path,
    SpecTy,
};
use crate::lir::instances::{instance_name, InstanceModel, MonoNames};
use crate::lir::lower::{
    lower_plain_tys, lowerable, plain_lowerable, seq_lowerable, seq_plain_lowerable,
    struct_lowerable, struct_lowered, ty_lowered, tys_lowered, BinOp, Enum, Expr, FieldInit, Func,
    Param, Struct, Ty, UnOp, Val,
};
use crate::typeck::infer::field_names;
use crate::typeck::typing::field_position;
use crate::typeck::{Env, TyCheckRes};
use vstd::prelude::*;

verus! {

/// What lowering reads: the type context, the table of specialized items,
/// the type parameters of the function that is lowered with the type
/// arguments of the copy that is made, and how deep definitions may stand
/// in each other.
pub struct Lowering<'a, 'ast> {
    pub tcxt: &'a TyCheckRes<'ast>,
    pub names: &'a MonoNames,
    pub params: &'a Vec<Ident>,
    pub args: &'a Vec<ast::Ty>,
    pub fuel: usize,
}

/// The model of a [`Lowering`].
pub struct LowerCx<'ast> {
    pub env: Env<'ast>,
    pub types: Map<usize, SpecTy>,
    pub call_targs: Map<usize, Seq<SpecTy>>,
    pub tbl: Seq<InstanceModel>,
    pub params: Seq<Ident>,
    pub args: Seq<SpecTy>,
    pub fuel: nat,
}

impl<'a, 'ast> View for Lowering<'a, 'ast> {
    type V = LowerCx<'ast>;

    open spec fn view(&self) -> LowerCx<'ast> {
        LowerCx {
            env: self.tcxt.env(),
            types: self.tcxt.types(),
            call_targs: crate::typeck::infer::view_found(self.tcxt.call_ty_args@),
            tbl: self.names@,
            params: self.params@,
            args: view_tys(self.args@),
            fuel: self.fuel as nat,
        }
    }
}

impl<'ast> LowerCx<'ast> {
    /// The type `t` in the copy that is made: with the type arguments of
    /// the copy in place of the type parameters.
    pub open spec fn inst(self, t: SpecTy) -> SpecTy {
        t.subst_all(self.params, self.args)
    }

    /// The type of the expression `e` in the copy that is made.
    pub open spec fn ty_at(self, e: ast::Expression) -> Option<SpecTy> {
        if self.types.contains_key(e.id) {
            Some(self.inst(self.types[e.id]))
        } else {
            None
        }
    }

    /// `true` when `ty` is the type of `e` in the copy that is made,
    /// lowered.
    pub open spec fn carried(self, e: ast::Expression, ty: Ty) -> bool {
        self.ty_at(e) matches Some(t) && ty_lowered(self.env, self.fuel, t, ty)
    }

    /// `true` when the type of `e` is known and can be lowered.
    pub open spec fn typed(self, e: ast::Expression) -> bool {
        self.ty_at(e) matches Some(t) && plain_lowerable(self.env, self.fuel, t)
    }

    /// The type arguments of the call `e` in the copy that is made: those
    /// written at the call, else those that inference found.
    pub open spec fn targs_at(self, e: ast::Expression, written: Seq<SpecTy>) -> Seq<SpecTy> {
        seq_subst_all(
            if written.len() > 0 {
                written
            } else if self.call_targs.contains_key(e.id) {
                self.call_targs[e.id]
            } else {
                Seq::empty()
            },
            self.params,
            self.args,
        )
    }

    /// The name under which the item `base` is called with the type
    /// arguments `targs`: its own name without type arguments, else the
    /// name of its copy, if the table of specialized items holds one.
    pub open spec fn callee(self, base: Ident, targs: Seq<SpecTy>) -> Option<Ident> {
        if targs.len() == 0 {
            Some(base)
        } else {
            instance_name(self.tbl, base, targs)
        }
    }
}

impl<'a, 'ast> Lowering<'a, 'ast> {
    /// The type `t` in the copy that is made.
    pub fn inst(&self, t: &ast::Ty) -> (r: ast::Ty)
        ensures
            r@ == self@.inst(t@),
    {
        t.subst_all(self.params, self.args)
    }

    /// The type of `e` in the copy that is made, lowered.
    pub fn carried(&self, e: &ast::Expression) -> (r: Option<Ty>)
        ensures
            r is Some == self@.typed(*e),
            r matches Some(t) ==> self@.carried(*e, t),
    {
        match self.tcxt.expr_ty.get(&e.id) {
            Some(t) => {
                let it = self.inst(t);
                Ty::lower_plain(self.tcxt, &it, self.fuel)
            },
            None => None,
        }
    }

    /// The type arguments of the call `e` in the copy that is made.
    pub fn targs_at(&self, e: &ast::Expression, written: &Vec<ast::Ty>) -> (r: Vec<ast::Ty>)
        ensures
            view_tys(r@) == self@.targs_at(*e, view_tys(written@)),
    {
        if written.len() > 0 {
            let r = subst_all_tys(written, self.params, self.args);
            assert(view_tys(written@).len() > 0);
            r
        } else {
            assert(view_tys(written@).len() == 0);
            match self.tcxt.call_ty_args.get(&e.id) {
                Some(found) => subst_all_tys(found, self.params, self.args),
                None => {
                    let empty: Vec<ast::Ty> = Vec::new();
                    let r = subst_all_tys(&empty, self.params, self.args);
                    assert(view_tys(empty@) =~= Seq::<SpecTy>::empty());
                    r
                },
            }
        }
    }

    /// The name under which `base` is called with the type arguments
    /// `targs`.
    pub fn callee(&self, base: Ident, targs: &Vec<ast::Ty>) -> (r: Option<Ident>)
        ensures
            r == self@.callee(base, view_tys(targs@)),
    {
        if targs.len() == 0 {
            assert(view_tys(targs@).len() == 0);
            Some(base)
        } else {
            assert(view_tys(targs@).len() > 0);
            self.names.lookup(base, targs)
        }
    }
}

/// The types of the parameters of `f` in a copy for the type arguments
/// `targs`.
pub open spec fn sig_param_tys(f: ast::Func, targs: Seq<SpecTy>) -> Seq<SpecTy> {
    Seq::new(
        f.params@.len(),
        |i: int| f.params@[i].ty@.subst_all(generic_names(f.generics@), targs),
    )
}

/// The type of the result of `f` in a copy for the type arguments `targs`.
pub open spec fn sig_ret_ty(f: ast::Func, targs: Seq<SpecTy>) -> SpecTy {
    f.ret@.subst_all(generic_names(f.generics@), targs)
}

/// `true` when the signature of the copy of `f` for `targs` can be lowered.
pub open spec fn sig_lowerable(cx: LowerCx, f: ast::Func, targs: Seq<SpecTy>) -> bool {
    lowerable(cx.env, cx.fuel, sig_ret_ty(f, targs)) && seq_lowerable(
        cx.env,
        cx.fuel,
        sig_param_tys(f, targs),
    )
}

/// `true` when `r` is the signature of the copy of `f` for the type
/// arguments `targs` under the name `name`: the name, the lowered types of
/// the parameters and of the result, no type parameter and no statement.
pub open spec fn sig_lowered(cx: LowerCx, f: ast::Func, targs: Seq<SpecTy>, name: Ident, r: Func) -> bool {
    &&& r.ident == name
    &&& r.stmts@.len() == 0
    &&& r.generics@.len() == 0
    &&& ty_lowered(cx.env, cx.fuel, sig_ret_ty(f, targs), r.ret)
    &&& r.params@.len() == f.params@.len()
    &&& forall|i: int|
        0 <= i < f.params@.len() ==> (#[trigger] r.params@[i]).ident == f.params@[i].ident
            && ty_lowered(cx.env, cx.fuel, sig_param_tys(f, targs)[i], r.params@[i].ty)
}

/// The field that the right side of a field access names first.
pub open spec fn field_name(rhs: ast::Expression) -> Option<Ident> {
    match rhs.val {
        ast::Expr::Ident(f) => Some(f),
        ast::Expr::Array { ident, .. } => Some(ident),
        ast::Expr::FieldAccess { lhs, .. } => match lhs.val {
            ast::Expr::Ident(f) => Some(f),
            _ => None,
        },
        _ => None,
    }
}

/// The struct that the left side of a field access is, in the copy that is
/// made.
pub open spec fn access_struct<'ast>(cx: LowerCx<'ast>, lhs: ast::Expression) -> Option<&'ast ast::Struct> {
    match cx.ty_at(lhs) {
        Some(t) => match t.pointee() {
            SpecTy::Struct { ident, .. } => if cx.env.structs.contains_key(ident.id) {
                Some(cx.env.structs[ident.id])
            } else {
                None
            },
            _ => None,
        },
        None => None,
    }
}

/// The place of the field that `rhs` names among the fields of `s`, where
/// `s` has the field and the place fits 32 bits.
pub open spec fn field_index(s: ast::Struct, rhs: ast::Expression) -> Option<u32> {
    match field_name(rhs) {
        Some(f) => if position_of(field_names(s), f) < s.fields@.len() && position_of(
            field_names(s),
            f,
        ) <= u32::MAX {
            Some(position_of(field_names(s), f) as u32)
        } else {
            None
        },
        None => None,
    }
}

/// The implementation that answers the call of the method of trait `name`
/// with the type arguments `targs`, if one does.
pub open spec fn impl_for<'ast>(cx: LowerCx<'ast>, name: Ident, targs: Seq<SpecTy>) -> Option<&'ast ast::Impl> {
    match crate::typeck::trait_solver::solve_in(cx.env.impls, name, targs) {
        crate::typeck::trait_solver::Solved::Impl(i) => Some(i),
        _ => None,
    }
}

/// `true` when each expression of the list can be lowered.
pub open spec fn exprs_lowerable(cx: LowerCx, es: Seq<ast::Expression>) -> bool
    decreases es,
{
    forall|i: int| 0 <= i < es.len() ==> expr_lowerable(cx, #[trigger] es[i])
}

/// The type of the field `name` of a value of struct `s` with the type
/// arguments `gen`: the declared type with the type arguments in place of
/// the struct's type parameters.
pub open spec fn init_field_ty(s: ast::Struct, gen: Seq<SpecTy>, name: Ident) -> SpecTy {
    s.fields@[position_of(field_names(s), name) as int].ty@.subst_all(
        generic_names(s.generics@),
        gen,
    )
}

/// The type arguments of the struct type that the table of inference holds
/// for the initializer `e`, in the copy that is made.
pub open spec fn init_gen(cx: LowerCx, e: ast::Expression) -> Option<Seq<SpecTy>> {
    match cx.ty_at(e) {
        Some(SpecTy::Struct { gen, .. }) => Some(gen),
        _ => None,
    }
}

/// `true` when each initial value of the list can be lowered, and each
/// names a field of `s` whose type, for the type arguments `gen`, can be
/// lowered and holds no type parameter.
pub open spec fn inits_lowerable(cx: LowerCx, s: ast::Struct, gen: Seq<SpecTy>, fs: Seq<ast::FieldInit>) -> bool
    decreases fs,
{
    forall|i: int|
        0 <= i < fs.len() ==> {
            &&& expr_lowerable(cx, (#[trigger] fs[i]).init)
            &&& position_of(field_names(s), fs[i].ident) < s.fields@.len()
            &&& plain_lowerable(cx.env, cx.fuel, init_field_ty(s, gen, fs[i].ident))
        }
}

/// `true` when an expression can be lowered: every expression in it has a
/// type in the table of inference that can be lowered, every struct, enum
/// and function that it names is declared, every call of a generic item
/// has a copy in the table of specialized items, and every call of a
/// trait's method has an implementation.
pub open spec fn expr_lowerable(cx: LowerCx, e: ast::Expression) -> bool
    decreases e,
{
    match e.val {
        ast::Expr::Ident(_) => cx.typed(e),
        ast::Expr::Deref { expr, .. } => expr_lowerable(cx, *expr) && cx.typed(e),
        ast::Expr::AddrOf(x) => expr_lowerable(cx, *x),
        ast::Expr::Array { exprs, .. } => exprs_lowerable(cx, exprs@) && cx.typed(e),
        ast::Expr::Urnary { expr, .. } => expr_lowerable(cx, *expr) && cx.typed(e),
        ast::Expr::Binary { lhs, rhs, .. } => expr_lowerable(cx, *lhs) && expr_lowerable(cx, *rhs)
            && cx.typed(e),
        ast::Expr::Parens(x) => expr_lowerable(cx, *x),
        ast::Expr::Call { path, args, type_args } => {
            &&& exprs_lowerable(cx, args@)
            &&& path@.len() > 0
            &&& cx.env.funcs.contains_key(path@.last().id)
            &&& seq_plain_lowerable(cx.env, cx.fuel, cx.targs_at(e, view_tys(type_args@)))
            &&& cx.callee(path@.last(), cx.targs_at(e, view_tys(type_args@))) is Some
            &&& sig_lowerable(
                cx,
                *cx.env.funcs[path@.last().id],
                cx.targs_at(e, view_tys(type_args@)),
            )
        },
        ast::Expr::TraitMeth { trait_, args, type_args } => {
            let targs = seq_subst_all(view_tys(type_args@), cx.params, cx.args);
            &&& exprs_lowerable(cx, args@)
            &&& trait_@.len() > 0
            &&& impl_for(cx, trait_@.last(), targs) is Some
            &&& instance_name(cx.tbl, trait_@.last(), targs) is Some
            &&& sig_lowerable(cx, impl_for(cx, trait_@.last(), targs)->0.method, Seq::empty())
        },
        ast::Expr::FieldAccess { lhs, rhs } => {
            &&& expr_lowerable(cx, *lhs)
            &&& expr_lowerable(cx, *rhs)
            &&& access_struct(cx, *lhs) is Some
            &&& struct_lowerable(cx.env, cx.fuel, *access_struct(cx, *lhs)->0)
            &&& field_index(*access_struct(cx, *lhs)->0, *rhs) is Some
        },
        ast::Expr::StructInit { path, fields } => {
            &&& path@.len() > 0
            &&& cx.env.structs.contains_key(path@.last().id)
            &&& struct_lowerable(cx.env, cx.fuel, *cx.env.structs[path@.last().id])
            &&& init_gen(cx, e) is Some
            &&& inits_lowerable(cx, *cx.env.structs[path@.last().id], init_gen(cx, e)->0, fields@)
        },
        ast::Expr::EnumInit { path, items, .. } => {
            &&& exprs_lowerable(cx, items@)
            &&& path@.len() > 0
            &&& cx.env.enums.contains_key(path@.last().id)
            &&& crate::lir::lower::enum_lowerable(cx.env, cx.fuel, *cx.env.enums[path@.last().id])
        },
        ast::Expr::ArrayInit { items } => exprs_lowerable(cx, items@) && cx.typed(e),
        ast::Expr::Value(_) => true,
    }
}

/// `true` when `e` is a call of a trait's method whose arguments can be
/// lowered and for whose type arguments the trait has no implementation.
pub open spec fn missing_impl(cx: LowerCx, e: ast::Expression) -> bool {
    e.val matches ast::Expr::TraitMeth { trait_, args, type_args } && exprs_lowerable(cx, args@)
        && (trait_@.len() == 0 || impl_for(
        cx,
        trait_@.last(),
        seq_subst_all(view_tys(type_args@), cx.params, cx.args),
    ) is None)
}

/// `true` when the expressions `rs` are the expressions `es`, lowered.
pub open spec fn exprs_lowered(cx: LowerCx, es: Seq<ast::Expression>, rs: Seq<Expr>) -> bool
    decreases es,
{
    es.len() == rs.len() && forall|i: int|
        0 <= i < es.len() ==> expr_lowered(cx, #[trigger] es[i], rs[i])
}

/// `true` when the initial values `rs` are the initial values `fs` of an
/// initializer of struct `s` with the type arguments `gen`, lowered: each
/// has the name of its field, the lowered value, and the type of the field
/// for these type arguments, lowered.
pub open spec fn inits_lowered(cx: LowerCx, s: ast::Struct, gen: Seq<SpecTy>, fs: Seq<ast::FieldInit>, rs: Seq<FieldInit>) -> bool
    decreases fs,
{
    fs.len() == rs.len() && forall|i: int|
        0 <= i < fs.len() ==> {
            &&& (#[trigger] rs[i]).ident == fs[i].ident
            &&& expr_lowered(cx, fs[i].init, rs[i].init)
            &&& position_of(field_names(s), fs[i].ident) < s.fields@.len()
            &&& ty_lowered(cx.env, cx.fuel, init_field_ty(s, gen, fs[i].ident), rs[i].ty)
        }
}

/// `true` when `r` is the expression `e`, lowered.
///
/// The lowered expression has the form of `e`, with each expression in it
/// lowered, and carries the type that the table of inference holds for
/// `e`, in the copy that is made. A field access carries the definition of
/// the struct and the place of the field in it. A call names what is
/// called by the name of its copy, and carries the signature of the copy.
/// A call of a trait's method is a call of the copy of the implementation
/// that answers it.
pub open spec fn expr_lowered(cx: LowerCx, e: ast::Expression, r: Expr) -> bool
    decreases e,
{
    match (e.val, r) {
        (ast::Expr::Ident(x), Expr::Ident { ident, ty }) => ident == x && cx.carried(e, ty),
        (ast::Expr::Deref { indir, expr }, Expr::Deref { indir: i2, expr: r2, ty }) => indir == i2
            && expr_lowered(cx, *expr, *r2) && cx.carried(e, ty),
        (ast::Expr::AddrOf(x), Expr::AddrOf(r2)) => expr_lowered(cx, *x, *r2),
        (ast::Expr::Array { ident, exprs }, Expr::Array { ident: i2, exprs: rs, ty }) => ident
            == i2 && exprs_lowered(cx, exprs@, rs@) && cx.carried(e, ty),
        (ast::Expr::Urnary { op, expr }, Expr::Urnary { op: o2, expr: r2, ty }) => o2
            == UnOp::spec_lower(op) && expr_lowered(cx, *expr, *r2) && cx.carried(e, ty),
        (
            ast::Expr::Binary { op, lhs, rhs },
            Expr::Binary { op: o2, lhs: l2, rhs: r2, ty },
        ) => o2 == BinOp::spec_lower(op) && expr_lowered(cx, *lhs, *l2) && expr_lowered(
            cx,
            *rhs,
            *r2,
        ) && cx.carried(e, ty),
        (ast::Expr::Parens(x), Expr::Parens(r2)) => expr_lowered(cx, *x, *r2),
        (
            ast::Expr::Call { path, args, type_args },
            Expr::Call { path: p2, args: rs, type_args: ts, def },
        ) => {
            let targs = cx.targs_at(e, view_tys(type_args@));
            &&& path@.len() > 0
            &&& cx.env.funcs.contains_key(path@.last().id)
            &&& cx.callee(path@.last(), targs) is Some
            &&& p2@ == seq![cx.callee(path@.last(), targs)->0]
            &&& exprs_lowered(cx, args@, rs@)
            &&& tys_lowered(cx.env, cx.fuel, targs, ts@)
            &&& sig_lowered(
                cx,
                *cx.env.funcs[path@.last().id],
                targs,
                cx.callee(path@.last(), targs)->0,
                def,
            )
        },
        (
            ast::Expr::TraitMeth { trait_, args, type_args },
            Expr::Call { path: p2, args: rs, type_args: ts, def },
        ) => {
            let targs = seq_subst_all(view_tys(type_args@), cx.params, cx.args);
            &&& trait_@.len() > 0
            &&& impl_for(cx, trait_@.last(), targs) is Some
            &&& instance_name(cx.tbl, trait_@.last(), targs) is Some
            &&& p2@ == seq![instance_name(cx.tbl, trait_@.last(), targs)->0]
            &&& exprs_lowered(cx, args@, rs@)
            &&& ts@.len() == 0
            &&& sig_lowered(
                cx,
                impl_for(cx, trait_@.last(), targs)->0.method,
                Seq::empty(),
                instance_name(cx.tbl, trait_@.last(), targs)->0,
                def,
            )
        },
        (
            ast::Expr::FieldAccess { lhs, rhs },
            Expr::FieldAccess { lhs: l2, def, rhs: r2, field_idx },
        ) => {
            &&& expr_lowered(cx, *lhs, *l2)
            &&& expr_lowered(cx, *rhs, *r2)
            &&& access_struct(cx, *lhs) is Some
            &&& struct_lowered(cx.env, cx.fuel, *access_struct(cx, *lhs)->0, def)
            &&& field_index(*access_struct(cx, *lhs)->0, *rhs) == Some(field_idx)
        },
        (ast::Expr::StructInit { path, fields }, Expr::StructInit { path: p2, fields: rs, def }) => {
            &&& p2@ == path@
            &&& path@.len() > 0
            &&& cx.env.structs.contains_key(path@.last().id)
            &&& struct_lowered(cx.env, cx.fuel, *cx.env.structs[path@.last().id], def)
            &&& init_gen(cx, e) is Some
            &&& inits_lowered(cx, *cx.env.structs[path@.last().id], init_gen(cx, e)->0, fields@, rs@)
        },
        (
            ast::Expr::EnumInit { path, variant, items },
            Expr::EnumInit { path: p2, variant: v2, items: rs, def },
        ) => {
            &&& p2@ == path@
            &&& v2 == variant
            &&& path@.len() > 0
            &&& cx.env.enums.contains_key(path@.last().id)
            &&& crate::lir::lower::enum_lowered(
                cx.env,
                cx.fuel,
                *cx.env.enums[path@.last().id],
                def,
            )
            &&& exprs_lowered(cx, items@, rs@)
        },
        (ast::Expr::ArrayInit { items }, Expr::ArrayInit { items: rs, ty }) => exprs_lowered(
            cx,
            items@,
            rs@,
        ) && cx.carried(e, ty),
        (ast::Expr::Value(v), Expr::Value(v2)) => v2 == Val::spec_lower(v.val),
        _ => false,
    }
}

/// Why a part of a program was not lowered.
#[derive(Clone, Copy, Debug, PartialEq, Eq, Structural)]
pub enum LowerError {
    /// An expression has no type in the table of inference.
    NoType,
    /// A type holds what the lowered program cannot hold.
    NotLowerable,
    UnknownFunction,
    UnknownStruct,
    UnknownEnum,
    UnknownField,
    UnknownVariant,
    /// A trait has no implementation for the type arguments of a call.
    NotImplemented,
    /// A generic item is called with type arguments for which no copy is
    /// made.
    MissingInstance,
    /// The left side of an assignment names no place.
    InvalidLValue,
    /// A call statement that holds no call.
    NotACall,
}

impl Func {
    /// The signature of the copy of `f` for the type arguments `targs`
    /// under the name `name`.
    pub fn lower_sig<'a, 'ast>(
        cx: &Lowering<'a, 'ast>,
        f: &ast::Func,
        targs: &Vec<ast::Ty>,
        name: Ident,
    ) -> (r: Option<Func>)
        ensures
            r is Some == sig_lowerable(cx@, *f, view_tys(targs@)),
            r matches Some(x) ==> sig_lowered(cx@, *f, view_tys(targs@), name, x),
    {
        let names = names_of(&f.generics);
        let ret_ty = f.ret.subst_all(&names, targs);
        let ret = match Ty::lower(cx.tcxt, &ret_ty, cx.fuel) {
            Some(t) => t,
            None => {
                return None;
            },
        };
        let ghost want = sig_param_tys(*f, view_tys(targs@));
        let mut params: Vec<Param> = Vec::new();
        let mut i: usize = 0;
        while i < f.params.len()
            invariant
                i <= f.params.len(),
                params@.len() == i,
                names@ == generic_names(f.generics@),
                want == sig_param_tys(*f, view_tys(targs@)),
                lowerable(cx@.env, cx@.fuel, sig_ret_ty(*f, view_tys(targs@))),
                ty_lowered(cx@.env, cx@.fuel, sig_ret_ty(*f, view_tys(targs@)), ret),
                forall|j: int| 0 <= j < i ==> lowerable(cx@.env, cx@.fuel, #[trigger] want[j]),
                forall|j: int|
                    0 <= j < i ==> (#[trigger] params@[j]).ident == f.params@[j].ident
                        && ty_lowered(cx@.env, cx@.fuel, want[j], params@[j].ty),
            decreases f.params.len() - i,
        {
            let pt = f.params[i].ty.subst_all(&names, targs);
            assert(pt@ == want[i as int]);
            match Ty::lower(cx.tcxt, &pt, cx.fuel) {
                Some(ty) => {
                    params.push(Param { ident: f.params[i].ident, ty });
                },
                None => {
                    return None;
                },
            }
            i += 1;
        }
        Some(Func { ret, ident: name, generics: Vec::new(), params, stmts: Vec::new() })
    }
}

/// The expressions of a list, lowered.
pub fn lower_exprs<'a, 'ast>(cx: &Lowering<'a, 'ast>, es: &Vec<ast::Expression>) -> (r: Result<
    Vec<Expr>,
    LowerError,
>)
    ensures
        r is Ok == exprs_lowerable(cx@, es@),
        r matches Ok(v) ==> exprs_lowered(cx@, es@, v@),
    decreases es,
{
    let mut out: Vec<Expr> = Vec::new();
    let mut i: usize = 0;
    while i < es.len()
        invariant
            i <= es.len(),
            out@.len() == i,
            forall|j: int|
                0 <= j < i ==> expr_lowerable(cx@, #[trigger] es@[j]) && expr_lowered(
                    cx@,
                    es@[j],
                    out@[j],
                ),
        decreases es.len() - i,
    {
        match Expr::lower(cx, &es[i]) {
            Ok(x) => {
                out.push(x);
            },
            Err(err) => {
                return Err(err);
            },
        }
        i += 1;
    }
    Ok(out)
}

impl FieldInit {
    /// The initial value of a field of struct `s` with the type arguments
    /// `gen`, lowered.
    pub fn lower<'a, 'ast>(
        cx: &Lowering<'a, 'ast>,
        s: &ast::Struct,
        gen: &Vec<ast::Ty>,
        f: &ast::FieldInit,
    ) -> (r: Result<Self, LowerError>)
        ensures
            r is Ok == (expr_lowerable(cx@, f.init) && position_of(field_names(*s), f.ident)
                < s.fields@.len() && plain_lowerable(
                cx@.env,
                cx@.fuel,
                init_field_ty(*s, view_tys(gen@), f.ident),
            )),
            r matches Ok(x) ==> x.ident == f.ident && expr_lowered(cx@, f.init, x.init)
                && ty_lowered(cx@.env, cx@.fuel, init_field_ty(*s, view_tys(gen@), f.ident), x.ty),
        decreases f,
    {
        let init = match Expr::lower(cx, &f.init) {
            Ok(x) => x,
            Err(err) => {
                return Err(err);
            },
        };
        let pos = field_position(s, f.ident);
        if pos >= s.fields.len() {
            return Err(LowerError::UnknownField);
        }
        let names = crate::ast::types::names_of(&s.generics);
        let declared = s.fields[pos].ty.subst_all(&names, gen);
        match Ty::lower_plain(cx.tcxt, &declared, cx.fuel) {
            Some(ty) => Ok(FieldInit { ident: f.ident, init, ty }),
            None => Err(LowerError::NotLowerable),
        }
    }
}

fn lower_inits<'a, 'ast>(
    cx: &Lowering<'a, 'ast>,
    s: &ast::Struct,
    gen: &Vec<ast::Ty>,
    fs: &Vec<ast::FieldInit>,
) -> (r: Result<Vec<FieldInit>, LowerError>)
    ensures
        r is Ok == inits_lowerable(cx@, *s, view_tys(gen@), fs@),
        r matches Ok(v) ==> inits_lowered(cx@, *s, view_tys(gen@), fs@, v@),
    decreases fs,
{
    let mut out: Vec<FieldInit> = Vec::new();
    let mut i: usize = 0;
    while i < fs.len()
        invariant
            i <= fs.len(),
            out@.len() == i,
            forall|j: int|
                0 <= j < i ==> {
                    &&& expr_lowerable(cx@, (#[trigger] fs@[j]).init)
                    &&& position_of(field_names(*s), fs@[j].ident) < s.fields@.len()
                    &&& plain_lowerable(
                        cx@.env,
                        cx@.fuel,
                        init_field_ty(*s, view_tys(gen@), fs@[j].ident),
                    )
                },
            forall|j: int|
                0 <= j < i ==> {
                    &&& (#[trigger] out@[j]).ident == fs@[j].ident
                    &&& expr_lowered(cx@, fs@[j].init, out@[j].init)
                    &&& ty_lowered(
                        cx@.env,
                        cx@.fuel,
                        init_field_ty(*s, view_tys(gen@), fs@[j].ident),
                        out@[j].ty,
                    )
                },
        decreases fs.len() - i,
    {
        match FieldInit::lower(cx, s, gen, &fs[i]) {
            Ok(x) => {
                out.push(x);
            },
            Err(err) => {
                let ghost bad = fs@[i as int];
                assert(!(expr_lowerable(cx@, bad.init) && position_of(field_names(*s), bad.ident)
                    < s.fields@.len() && plain_lowerable(
                    cx@.env,
                    cx@.fuel,
                    init_field_ty(*s, view_tys(gen@), bad.ident),
                )));
                return Err(err);
            },
        }
        i += 1;
    }
    Ok(out)
}

/// The field that the right side of a field access names first.
fn exec_field_name(rhs: &ast::Expression) -> (r: Option<Ident>)
    ensures
        r == field_name(*rhs),
{
    match &rhs.val {
        ast::Expr::Ident(f) => Some(*f),
        ast::Expr::Array { ident, .. } => Some(*ident),
        ast::Expr::FieldAccess { lhs, .. } => match &lhs.val {
            ast::Expr::Ident(f) => Some(*f),
            _ => None,
        },
        _ => None,
    }
}

/// The place of the field that `rhs` names among the fields of `s`, if `s` has the field.
pub fn exec_field_index(s: &ast::Struct, rhs: &ast::Expression) -> (r: Option<u32>)
    ensures
        r == field_index(*s, *rhs),
{
    match exec_field_name(rhs) {
        Some(f) => {
            let pos = field_position(s, f);
            if pos < s.fields.len() && pos <= 0xffff_ffff {
                Some(pos as u32)
            } else {
                None
            }
        },
        None => None,
    }
}

impl<'a, 'ast> Lowering<'a, 'ast> {
    /// The struct that the left side `lhs` of a field access has, if it has one.
    pub fn access_struct(&self, lhs: &ast::Expression) -> (r: Option<&'ast ast::Struct>)
        ensures
            r == access_struct(self@, *lhs),
    {
        match self.tcxt.expr_ty.get(&lhs.id) {
            Some(t) => {
                let it = self.inst(t);
                match it.pointee() {
                    ast::Ty::Struct { ident, .. } => match self.tcxt.name_struct.get(&ident.id) {
                        Some(s) => Some(*s),
                        None => None,
                    },
                    _ => None,
                }
            },
            None => None,
        }
    }

    fn impl_for(&self, name: Ident, targs: &Vec<ast::Ty>) -> (r: Option<&'ast ast::Impl>)
        ensures
            r == impl_for(self@, name, view_tys(targs@)),
    {
        match self.tcxt.trait_solve.solve(name, targs) {
            crate::typeck::trait_solver::Solved::Impl(i) => Some(i),
            _ => None,
        }
    }
}

impl Expr {
    /// The expression `e`, lowered.
    pub fn lower<'a, 'ast>(cx: &Lowering<'a, 'ast>, e: &ast::Expression) -> (r: Result<
        Self,
        LowerError,
    >)
        ensures
            r is Ok == expr_lowerable(cx@, *e),
            r matches Ok(x) ==> expr_lowered(cx@, *e, x),
            r matches Err(k) ==> (missing_impl(cx@, *e) ==> k == LowerError::NotImplemented),
        decreases e,
    {
        match &e.val {
            ast::Expr::Ident(x) => match cx.carried(e) {
                Some(ty) => Ok(Expr::Ident { ident: *x, ty }),
                None => Err(LowerError::NoType),
            },
            ast::Expr::Deref { indir, expr } => {
                let inner = match Expr::lower(cx, expr) {
                    Ok(x) => x,
                    Err(err) => {
                        return Err(err);
                    },
                };
                match cx.carried(e) {
                    Some(ty) => Ok(Expr::Deref { indir: *indir, expr: Box::new(inner), ty }),
                    None => Err(LowerError::NoType),
                }
            },
            ast::Expr::AddrOf(x) => match Expr::lower(cx, x) {
                Ok(inner) => Ok(Expr::AddrOf(Box::new(inner))),
                Err(err) => Err(err),
            },
            ast::Expr::Parens(x) => match Expr::lower(cx, x) {
                Ok(inner) => Ok(Expr::Parens(Box::new(inner))),
                Err(err) => Err(err),
            },
            ast::Expr::Array { ident, exprs } => {
                let rs = match lower_exprs(cx, exprs) {
                    Ok(x) => x,
                    Err(err) => {
                        return Err(err);
                    },
                };
                match cx.carried(e) {
                    Some(ty) => Ok(Expr::Array { ident: *ident, exprs: rs, ty }),
                    None => Err(LowerError::NoType),
                }
            },
            ast::Expr::Urnary { op, expr } => {
                let inner = match Expr::lower(cx, expr) {
                    Ok(x) => x,
                    Err(err) => {
                        return Err(err);
                    },
                };
                match cx.carried(e) {
                    Some(ty) => Ok(
                        Expr::Urnary { op: UnOp::lower(*op), expr: Box::new(inner), ty },
                    ),
                    None => Err(LowerError::NoType),
                }
            },
            ast::Expr::Binary { op, lhs, rhs } => {
                let l = match Expr::lower(cx, lhs) {
                    Ok(x) => x,
                    Err(err) => {
                        return Err(err);
                    },
                };
                let r = match Expr::lower(cx, rhs) {
                    Ok(x) => x,
                    Err(err) => {
                        return Err(err);
                    },
                };
                match cx.carried(e) {
                    Some(ty) => Ok(
                        Expr::Binary {
                            op: BinOp::lower(*op),
                            lhs: Box::new(l),
                            rhs: Box::new(r),
                            ty,
                        },
                    ),
                    None => Err(LowerError::NoType),
                }
            },
            ast::Expr::ArrayInit { items } => {
                let rs = match lower_exprs(cx, items) {
                    Ok(x) => x,
                    Err(err) => {
                        return Err(err);
                    },
                };
                match cx.carried(e) {
                    Some(ty) => Ok(Expr::ArrayInit { items: rs, ty }),
                    None => Err(LowerError::NoType),
                }
            },
            ast::Expr::Value(v) => Ok(Expr::Value(Val::lower(v.val))),
            _ => Self::lower_named(cx, e),
        }
    }

    /// Lowers an expression that names a declaration: a call, a field
    /// access or an initializer.
    fn lower_named<'a, 'ast>(cx: &Lowering<'a, 'ast>, e: &ast::Expression) -> (r: Result<
        Self,
        LowerError,
    >)
        requires
            e.val is Call || e.val is TraitMeth || e.val is FieldAccess || e.val is StructInit
                || e.val is EnumInit,
        ensures
            r is Ok == expr_lowerable(cx@, *e),
            r matches Ok(x) ==> expr_lowered(cx@, *e, x),
            r matches Err(k) ==> (missing_impl(cx@, *e) ==> k == LowerError::NotImplemented),
        decreases e, 0nat,
    {
        match &e.val {
            ast::Expr::Call { path, args, type_args } => {
                let rs = match lower_exprs(cx, args) {
                    Ok(x) => x,
                    Err(err) => {
                        return Err(err);
                    },
                };
                let name = match path.local_ident() {
                    Some(n) => n,
                    None => {
                        return Err(LowerError::UnknownFunction);
                    },
                };
                let f: &ast::Func = match cx.tcxt.var_func.name_func.get(&name.id) {
                    Some(f) => *f,
                    None => {
                        return Err(LowerError::UnknownFunction);
                    },
                };
                let targs = cx.targs_at(e, type_args);
                let ts = match lower_plain_tys(cx.tcxt, &targs, cx.fuel) {
                    Some(ts) => ts,
                    None => {
                        return Err(LowerError::NotLowerable);
                    },
                };
                let callee = match cx.callee(name, &targs) {
                    Some(c) => c,
                    None => {
                        return Err(LowerError::MissingInstance);
                    },
                };
                match Func::lower_sig(cx, f, &targs, callee) {
                    Some(def) => Ok(
                        Expr::Call { path: Path::single(callee), args: rs, type_args: ts, def },
                    ),
                    None => Err(LowerError::NotLowerable),
                }
            },
            ast::Expr::TraitMeth { trait_, args, type_args } => {
                let rs = match lower_exprs(cx, args) {
                    Ok(x) => x,
                    Err(err) => {
                        return Err(err);
                    },
                };
                let name = match trait_.local_ident() {
                    Some(n) => n,
                    None => {
                        return Err(LowerError::NotImplemented);
                    },
                };
                let targs = subst_all_tys(type_args, cx.params, cx.args);
                let imp = match cx.impl_for(name, &targs) {
                    Some(i) => i,
                    None => {
                        return Err(LowerError::NotImplemented);
                    },
                };
                let callee = match cx.names.lookup(name, &targs) {
                    Some(c) => c,
                    None => {
                        return Err(LowerError::MissingInstance);
                    },
                };
                let none: Vec<ast::Ty> = Vec::new();
                assert(view_tys(none@) =~= Seq::<SpecTy>::empty());
                match Func::lower_sig(cx, &imp.method, &none, callee) {
                    Some(def) => Ok(
                        Expr::Call {
                            path: Path::single(callee),
                            args: rs,
                            type_args: Vec::new(),
                            def,
                        },
                    ),
                    None => Err(LowerError::NotLowerable),
                }
            },
            ast::Expr::FieldAccess { lhs, rhs } => {
                let l = match Expr::lower(cx, lhs) {
                    Ok(x) => x,
                    Err(err) => {
                        return Err(err);
                    },
                };
                let r = match Expr::lower(cx, rhs) {
                    Ok(x) => x,
                    Err(err) => {
                        return Err(err);
                    },
                };
                let s = match cx.access_struct(lhs) {
                    Some(s) => s,
                    None => {
                        return Err(LowerError::UnknownStruct);
                    },
                };
                let def = match Struct::lower(cx.tcxt, s, cx.fuel) {
                    Some(d) => d,
                    None => {
                        return Err(LowerError::NotLowerable);
                    },
                };
                match exec_field_index(s, rhs) {
                    Some(field_idx) => Ok(
                        Expr::FieldAccess { lhs: Box::new(l), def, rhs: Box::new(r), field_idx },
                    ),
                    None => Err(LowerError::UnknownField),
                }
            },
            ast::Expr::StructInit { path, fields } => {
                let name = match path.local_ident() {
                    Some(n) => n,
                    None => {
                        return Err(LowerError::UnknownStruct);
                    },
                };
                let s: &ast::Struct = match cx.tcxt.name_struct.get(&name.id) {
                    Some(s) => *s,
                    None => {
                        return Err(LowerError::UnknownStruct);
                    },
                };
                let def = match Struct::lower(cx.tcxt, s, cx.fuel) {
                    Some(d) => d,
                    None => {
                        return Err(LowerError::NotLowerable);
                    },
                };
                let whole = match cx.tcxt.expr_ty.get(&e.id) {
                    Some(t) => cx.inst(t),
                    None => {
                        return Err(LowerError::NoType);
                    },
                };
                let gen = match &whole {
                    ast::Ty::Struct { gen, .. } => gen,
                    _ => {
                        return Err(LowerError::NoType);
                    },
                };
                assert(init_gen(cx@, *e) == Some(view_tys(gen@)));
                match lower_inits(cx, s, gen, fields) {
                    Ok(rs) => Ok(Expr::StructInit { path: path.clone(), fields: rs, def }),
                    Err(err) => Err(err),
                }
            },
            ast::Expr::EnumInit { path, variant, items } => {
                let rs = match lower_exprs(cx, items) {
                    Ok(x) => x,
                    Err(err) => {
                        return Err(err);
                    },
                };
                let name = match path.local_ident() {
                    Some(n) => n,
                    None => {
                        return Err(LowerError::UnknownEnum);
                    },
                };
                let en: &ast::Enum = match cx.tcxt.name_enum.get(&name.id) {
                    Some(x) => *x,
                    None => {
                        return Err(LowerError::UnknownEnum);
                    },
                };
                match Enum::lower(cx.tcxt, en, cx.fuel) {
                    Some(def) => Ok(
                        Expr::EnumInit { path: path.clone(), variant: *variant, items: rs, def },
                    ),
                    None => Err(LowerError::NotLowerable),
                }
            },
            _ => Err(LowerError::NoType),
        }
    }
}

} // verus!
