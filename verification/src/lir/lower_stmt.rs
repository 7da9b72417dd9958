//! Lowering of places, patterns, statements and functions.

use crate::ast::types as ast;
use crate::ast::types::{position_of, view_tys, Ident, SpecTy};
use crate::lir::lower::{
    plain_lowerable, ty_lowered, Binding, BinOp, Block, CallExpr, Const, Expr, Func, LValue,
    MatchArm, Param, Pat, Stmt, Struct, Ty, Val,
};
use crate::lir::lower_expr::{
    access_struct, expr_lowerable, expr_lowered, exprs_lowerable, exprs_lowered, field_index,
    lower_exprs, LowerCx, LowerError, Lowering,
};
use crate::lir::lower::{struct_lowerable, struct_lowered};
use crate::typeck::infer::variant_names;
use crate::typeck::stmt_check::base_op;
use crate::typeck::typing::variant_position;
use vstd::prelude::*;

verus! {

/// `true` when the left side `e` of an assignment can be lowered: it names
/// a place, and every expression in it can be lowered.
pub open spec fn lvalue_lowerable(cx: LowerCx, e: ast::Expression) -> bool
    decreases e,
{
    match e.val {
        ast::Expr::Ident(_) => cx.typed(e),
        ast::Expr::Deref { expr, .. } => lvalue_lowerable(cx, *expr) && cx.typed(e),
        ast::Expr::Array { exprs, .. } => exprs_lowerable(cx, exprs@) && cx.typed(e),
        ast::Expr::FieldAccess { lhs, rhs } => {
            &&& lvalue_lowerable(cx, *lhs)
            &&& lvalue_lowerable(cx, *rhs)
            &&& access_struct(cx, *lhs) is Some
            &&& struct_lowerable(cx.env, cx.fuel, *access_struct(cx, *lhs)->0)
            &&& field_index(*access_struct(cx, *lhs)->0, *rhs) is Some
        },
        _ => false,
    }
}

/// `true` when `r` is the place that `e` names, lowered: a variable, a
/// dereferenced place, an indexed array or a field of a struct, each with
/// the type that the table of inference holds for it.
pub open spec fn lvalue_lowered(cx: LowerCx, e: ast::Expression, r: LValue) -> bool
    decreases e,
{
    match (e.val, r) {
        (ast::Expr::Ident(x), LValue::Ident { ident, ty }) => ident == x && cx.carried(e, ty),
        (ast::Expr::Deref { indir, expr }, LValue::Deref { indir: i2, expr: r2, ty }) => indir
            == i2 && lvalue_lowered(cx, *expr, *r2) && cx.carried(e, ty),
        (ast::Expr::Array { ident, exprs }, LValue::Array { ident: i2, exprs: rs, ty }) => ident
            == i2 && exprs_lowered(cx, exprs@, rs@) && cx.carried(e, ty),
        (
            ast::Expr::FieldAccess { lhs, rhs },
            LValue::FieldAccess { lhs: l2, def, rhs: r2, field_idx },
        ) => {
            &&& lvalue_lowered(cx, *lhs, *l2)
            &&& lvalue_lowered(cx, *rhs, *r2)
            &&& access_struct(cx, *lhs) is Some
            &&& struct_lowered(cx.env, cx.fuel, *access_struct(cx, *lhs)->0, def)
            &&& field_index(*access_struct(cx, *lhs)->0, *rhs) == Some(field_idx)
        },
        _ => false,
    }
}

impl LValue {
    /// The place that `e` names, lowered.
    pub fn lower<'a, 'ast>(cx: &Lowering<'a, 'ast>, e: &ast::Expression) -> (r: Result<
        Self,
        LowerError,
    >)
        ensures
            r is Ok == lvalue_lowerable(cx@, *e),
            r matches Ok(x) ==> lvalue_lowered(cx@, *e, x),
        decreases e,
    {
        match &e.val {
            ast::Expr::Ident(x) => match cx.carried(e) {
                Some(ty) => Ok(LValue::Ident { ident: *x, ty }),
                None => Err(LowerError::NoType),
            },
            ast::Expr::Deref { indir, expr } => {
                let inner = match LValue::lower(cx, expr) {
                    Ok(x) => x,
                    Err(err) => {
                        return Err(err);
                    },
                };
                match cx.carried(e) {
                    Some(ty) => Ok(LValue::Deref { indir: *indir, expr: Box::new(inner), ty }),
                    None => Err(LowerError::NoType),
                }
            },
            ast::Expr::Array { ident, exprs } => {
                let rs = match lower_exprs(cx, exprs) {
                    Ok(x) => x,
                    Err(err) => {
                        return Err(err);
                    },
                };
                match cx.carried(e) {
                    Some(ty) => Ok(LValue::Array { ident: *ident, exprs: rs, ty }),
                    None => Err(LowerError::NoType),
                }
            },
            ast::Expr::FieldAccess { lhs, rhs } => {
                let l = match LValue::lower(cx, lhs) {
                    Ok(x) => x,
                    Err(err) => {
                        return Err(err);
                    },
                };
                let r = match LValue::lower(cx, rhs) {
                    Ok(x) => x,
                    Err(err) => {
                        return Err(err);
                    },
                };
                let s = match cx.access_struct(lhs) {
                    Some(s) => s,
                    None => {
                        return Err(LowerError::UnknownStruct);
                    },
                };
                let def = match Struct::lower(cx.tcxt, s, cx.fuel) {
                    Some(d) => d,
                    None => {
                        return Err(LowerError::NotLowerable);
                    },
                };
                match crate::lir::lower_expr::exec_field_index(s, rhs) {
                    Some(field_idx) => Ok(
                        LValue::FieldAccess { lhs: Box::new(l), def, rhs: Box::new(r), field_idx },
                    ),
                    None => Err(LowerError::UnknownField),
                }
            },
            _ => Err(LowerError::InvalidLValue),
        }
    }

    /// The variable that the place starts from.
    pub open spec fn spec_as_ident(self) -> Ident
        decreases self,
    {
        match self {
            LValue::Ident { ident, .. } => ident,
            LValue::Deref { expr, .. } => expr.spec_as_ident(),
            LValue::Array { ident, .. } => ident,
            LValue::FieldAccess { lhs, .. } => lhs.spec_as_ident(),
        }
    }

    /// The variable that the place starts from.
    pub fn as_ident(&self) -> (r: Option<Ident>)
        ensures
            r == Some(self.spec_as_ident()),
        decreases self,
    {
        match self {
            LValue::Ident { ident, .. } => Some(*ident),
            LValue::Deref { expr, .. } => expr.as_ident(),
            LValue::Array { ident, .. } => Some(*ident),
            LValue::FieldAccess { lhs, .. } => lhs.as_ident(),
        }
    }

    /// The type that the place carries: that of a variable or an indexed
    /// array, that of the place under a dereference, and that of the field
    /// of a field access.
    pub open spec fn spec_type_of(self) -> Ty
        decreases self,
    {
        match self {
            LValue::Ident { ty, .. } => ty,
            LValue::Deref { expr, .. } => expr.spec_type_of(),
            LValue::Array { ty, .. } => ty,
            LValue::FieldAccess { rhs, .. } => rhs.spec_type_of(),
        }
    }

    /// The type that the place carries.
    pub fn type_of(&self) -> (r: &Ty)
        ensures
            *r == self.spec_type_of(),
        decreases self,
    {
        match self {
            LValue::Ident { ty, .. } => ty,
            LValue::Deref { expr, .. } => expr.type_of(),
            LValue::Array { ty, .. } => ty,
            LValue::FieldAccess { rhs, .. } => rhs.type_of(),
        }
    }
}

/// The place of the variant `variant` among the variants of the enum that
/// `path` names, where the enum is declared and has the variant.
pub open spec fn variant_index(cx: LowerCx, path: Seq<Ident>, variant: Ident) -> Option<usize> {
    if path.len() > 0 && cx.env.enums.contains_key(path.last().id) && position_of(
        variant_names(*cx.env.enums[path.last().id]),
        variant,
    ) < cx.env.enums[path.last().id].variants@.len() {
        Some(position_of(variant_names(*cx.env.enums[path.last().id]), variant) as usize)
    } else {
        None
    }
}

/// `true` when each pattern of the list can be lowered.
pub open spec fn pats_lowerable(cx: LowerCx, ps: Seq<ast::Pattern>) -> bool
    decreases ps,
{
    forall|i: int| 0 <= i < ps.len() ==> pat_lowerable(cx, (#[trigger] ps[i]).val)
}

/// `true` when a pattern can be lowered: each enum pattern in it names a
/// variant of a declared enum.
pub open spec fn pat_lowerable(cx: LowerCx, p: ast::Pat) -> bool
    decreases p,
{
    match p {
        ast::Pat::Enum { path, variant, items } => variant_index(cx, path@, variant) is Some
            && pats_lowerable(cx, items@),
        ast::Pat::Array { items, .. } => pats_lowerable(cx, items@),
        ast::Pat::Bind(_) => true,
    }
}

/// `true` when the patterns `rs` are the patterns `ps`, lowered.
pub open spec fn pats_lowered(cx: LowerCx, ps: Seq<ast::Pattern>, rs: Seq<Pat>) -> bool
    decreases ps,
{
    ps.len() == rs.len() && forall|i: int|
        0 <= i < ps.len() ==> pat_lowered(cx, (#[trigger] ps[i]).val, rs[i])
}

/// `true` when `r` is the pattern `p`, lowered: the same pattern, where an
/// enum pattern carries the place of its variant among the variants of its
/// enum.
pub open spec fn pat_lowered(cx: LowerCx, p: ast::Pat, r: Pat) -> bool
    decreases p,
{
    match (p, r) {
        (
            ast::Pat::Enum { path, variant, items },
            Pat::Enum { path: p2, variant: v2, idx, items: rs },
        ) => p2@ == path@ && v2 == variant && variant_index(cx, path@, variant) == Some(idx)
            && pats_lowered(cx, items@, rs@),
        (ast::Pat::Array { size, items }, Pat::Array { size: s2, items: rs }) => size == s2
            && pats_lowered(cx, items@, rs@),
        (ast::Pat::Bind(ast::Binding::Wild(x)), Pat::Bind(Binding::Wild(y))) => x == y,
        (ast::Pat::Bind(ast::Binding::Value(v)), Pat::Bind(Binding::Value(w))) => w
            == Val::spec_lower(v.val),
        _ => false,
    }
}

fn lower_pats<'a, 'ast>(cx: &Lowering<'a, 'ast>, ps: &Vec<ast::Pattern>) -> (r: Result<
    Vec<Pat>,
    LowerError,
>)
    ensures
        r is Ok == pats_lowerable(cx@, ps@),
        r matches Ok(v) ==> pats_lowered(cx@, ps@, v@),
    decreases ps,
{
    let mut out: Vec<Pat> = Vec::new();
    let mut i: usize = 0;
    while i < ps.len()
        invariant
            i <= ps.len(),
            out@.len() == i,
            forall|j: int|
                0 <= j < i ==> pat_lowerable(cx@, (#[trigger] ps@[j]).val) && pat_lowered(
                    cx@,
                    ps@[j].val,
                    out@[j],
                ),
        decreases ps.len() - i,
    {
        match Pat::lower(cx, &ps[i].val) {
            Ok(x) => {
                out.push(x);
            },
            Err(err) => {
                assert(!pat_lowerable(cx@, ps@[i as int].val));
                return Err(err);
            },
        }
        i += 1;
    }
    Ok(out)
}

impl Pat {
    /// The pattern `p`, lowered.
    pub fn lower<'a, 'ast>(cx: &Lowering<'a, 'ast>, p: &ast::Pat) -> (r: Result<Self, LowerError>)
        ensures
            r is Ok == pat_lowerable(cx@, *p),
            r matches Ok(x) ==> pat_lowered(cx@, *p, x),
        decreases p,
    {
        match p {
            ast::Pat::Enum { path, variant, items } => {
                let name = match path.local_ident() {
                    Some(n) => n,
                    None => {
                        return Err(LowerError::UnknownEnum);
                    },
                };
                let en = match cx.tcxt.name_enum.get(&name.id) {
                    Some(e) => *e,
                    None => {
                        return Err(LowerError::UnknownEnum);
                    },
                };
                let idx = variant_position(en, *variant);
                if idx >= en.variants.len() {
                    return Err(LowerError::UnknownVariant);
                }
                match lower_pats(cx, items) {
                    Ok(rs) => Ok(
                        Pat::Enum { path: path.clone(), variant: *variant, idx, items: rs },
                    ),
                    Err(err) => Err(err),
                }
            },
            ast::Pat::Array { size, items } => match lower_pats(cx, items) {
                Ok(rs) => Ok(Pat::Array { size: *size, items: rs }),
                Err(err) => Err(err),
            },
            ast::Pat::Bind(b) => Ok(
                Pat::Bind(
                    match b {
                        ast::Binding::Wild(w) => Binding::Wild(*w),
                        ast::Binding::Value(v) => Binding::Value(Val::lower(v.val)),
                    },
                ),
            ),
        }
    }
}

/// `true` when each statement of the list can be lowered.
pub open spec fn stmts_lowerable(cx: LowerCx, ss: Seq<ast::Statement>) -> bool
    decreases ss,
{
    forall|i: int| 0 <= i < ss.len() ==> stmt_lowerable(cx, #[trigger] ss[i])
}

/// `true` when each arm of the list can be lowered.
pub open spec fn arms_lowerable(cx: LowerCx, arms: Seq<ast::MatchArm>) -> bool
    decreases arms,
{
    forall|i: int|
        0 <= i < arms.len() ==> pat_lowerable(cx, (#[trigger] arms[i]).pat.val) && stmts_lowerable(
            cx,
            arms[i].blk.stmts@,
        )
}

/// `true` when a statement can be lowered: every expression, place and
/// pattern in it can be lowered, and a call statement holds a call.
pub open spec fn stmt_lowerable(cx: LowerCx, s: ast::Statement) -> bool
    decreases s,
{
    match s.val {
        ast::Stmt::Const(c) => plain_lowerable(cx.env, cx.fuel, cx.inst(c.ty@)) && expr_lowerable(
            cx,
            c.init,
        ),
        ast::Stmt::Assign { lval, rval, .. } => lvalue_lowerable(cx, lval) && expr_lowerable(
            cx,
            rval,
        ),
        ast::Stmt::AssignOp { lval, rval, .. } => lvalue_lowerable(cx, lval) && expr_lowerable(
            cx,
            lval,
        ) && expr_lowerable(cx, rval) && cx.typed(lval),
        ast::Stmt::Call(e) => e.val is Call && expr_lowerable(cx, e),
        ast::Stmt::TraitMeth(e) => e.val is TraitMeth && expr_lowerable(cx, e),
        ast::Stmt::If { cond, blk, els } => expr_lowerable(cx, cond) && stmts_lowerable(
            cx,
            blk.stmts@,
        ) && (match els {
            Some(b) => stmts_lowerable(cx, b.stmts@),
            None => true,
        }),
        ast::Stmt::While { cond, blk } => expr_lowerable(cx, cond) && stmts_lowerable(
            cx,
            blk.stmts@,
        ),
        ast::Stmt::Match { expr, arms } => expr_lowerable(cx, expr) && cx.typed(expr)
            && arms_lowerable(cx, arms@),
        ast::Stmt::Read(e) => expr_lowerable(cx, e),
        ast::Stmt::Write { expr } => expr_lowerable(cx, expr),
        ast::Stmt::Ret(e) => expr_lowerable(cx, e) && cx.typed(e),
        ast::Stmt::Exit => true,
        ast::Stmt::Block(b) => stmts_lowerable(cx, b.stmts@),
    }
}

/// `true` when the statements `rs` are the statements `ss`, lowered.
pub open spec fn stmts_lowered(cx: LowerCx, ss: Seq<ast::Statement>, rs: Seq<Stmt>) -> bool
    decreases ss,
{
    ss.len() == rs.len() && forall|i: int|
        0 <= i < ss.len() ==> stmt_lowered(cx, #[trigger] ss[i], rs[i])
}

/// `true` when the arms `rs` are the arms `arms`, lowered.
pub open spec fn arms_lowered(cx: LowerCx, arms: Seq<ast::MatchArm>, rs: Seq<MatchArm>) -> bool
    decreases arms,
{
    arms.len() == rs.len() && forall|i: int|
        0 <= i < arms.len() ==> pat_lowered(cx, (#[trigger] arms[i]).pat.val, rs[i].pat)
            && stmts_lowered(cx, arms[i].blk.stmts@, rs[i].blk.stmts@)
}

/// `true` when `r` is the statement `s`, lowered.
///
/// The lowered statement has the form of `s`, with each expression, place
/// and pattern in it lowered. A compound assignment is the assignment of
/// the operation to the place. A call of a trait's method is a call of the
/// copy of the implementation that answers it. A match carries the type of
/// what is matched on, and a return the type of what is returned.
pub open spec fn stmt_lowered(cx: LowerCx, s: ast::Statement, r: Stmt) -> bool
    decreases s,
{
    match (s.val, r) {
        (ast::Stmt::Const(c), Stmt::Const(k)) => {
            &&& k.ident == c.ident
            &&& !k.is_global
            &&& ty_lowered(cx.env, cx.fuel, cx.inst(c.ty@), k.ty)
            &&& expr_lowered(cx, c.init, k.init)
        },
        (ast::Stmt::Assign { lval, rval, .. }, Stmt::Assign { lval: l2, rval: r2 }) => {
            lvalue_lowered(cx, lval, l2) && expr_lowered(cx, rval, r2)
        },
        (ast::Stmt::AssignOp { lval, rval, op }, Stmt::Assign { lval: l2, rval: r2 }) => {
            &&& lvalue_lowered(cx, lval, l2)
            &&& r2 matches Expr::Binary { op: o2, lhs: a, rhs: b, ty }
            &&& o2 == BinOp::spec_lower(base_op(op))
            &&& expr_lowered(cx, lval, *a)
            &&& expr_lowered(cx, rval, *b)
            &&& cx.carried(lval, ty)
        },
        (ast::Stmt::Call(e), Stmt::Call { expr, def }) => expr_lowered(
            cx,
            e,
            Expr::Call { path: expr.path, args: expr.args, type_args: expr.type_args, def },
        ),
        (ast::Stmt::TraitMeth(e), Stmt::Call { expr, def }) => expr_lowered(
            cx,
            e,
            Expr::Call { path: expr.path, args: expr.args, type_args: expr.type_args, def },
        ),
        (ast::Stmt::If { cond, blk, els }, Stmt::If { cond: c2, blk: b2, els: e2 }) => {
            &&& expr_lowered(cx, cond, c2)
            &&& stmts_lowered(cx, blk.stmts@, b2.stmts@)
            &&& match (els, e2) {
                (Some(a), Some(b)) => stmts_lowered(cx, a.stmts@, b.stmts@),
                (None, None) => true,
                _ => false,
            }
        },
        (ast::Stmt::While { cond, blk }, Stmt::While { cond: c2, stmts }) => expr_lowered(
            cx,
            cond,
            c2,
        ) && stmts_lowered(cx, blk.stmts@, stmts.stmts@),
        (ast::Stmt::Match { expr, arms }, Stmt::Match { expr: e2, arms: a2, ty }) => {
            &&& expr_lowered(cx, expr, e2)
            &&& arms_lowered(cx, arms@, a2@)
            &&& cx.carried(expr, ty)
        },
        (ast::Stmt::Read(e), Stmt::Read(e2)) => expr_lowered(cx, e, e2),
        (ast::Stmt::Write { expr }, Stmt::Write { expr: e2 }) => expr_lowered(cx, expr, e2),
        (ast::Stmt::Ret(e), Stmt::Ret(e2, ty)) => expr_lowered(cx, e, e2) && cx.carried(e, ty),
        (ast::Stmt::Exit, Stmt::Exit) => true,
        (ast::Stmt::Block(b), Stmt::Block(b2)) => stmts_lowered(cx, b.stmts@, b2.stmts@),
        _ => false,
    }
}

/// The statements of a list, lowered.
pub fn lower_stmts<'a, 'ast>(cx: &Lowering<'a, 'ast>, ss: &Vec<ast::Statement>) -> (r: Result<
    Vec<Stmt>,
    LowerError,
>)
    ensures
        r is Ok == stmts_lowerable(cx@, ss@),
        r matches Ok(v) ==> stmts_lowered(cx@, ss@, v@),
    decreases ss,
{
    let mut out: Vec<Stmt> = Vec::new();
    let mut i: usize = 0;
    while i < ss.len()
        invariant
            i <= ss.len(),
            out@.len() == i,
            forall|j: int|
                0 <= j < i ==> stmt_lowerable(cx@, #[trigger] ss@[j]) && stmt_lowered(
                    cx@,
                    ss@[j],
                    out@[j],
                ),
        decreases ss.len() - i,
    {
        match Stmt::lower(cx, &ss[i]) {
            Ok(x) => {
                out.push(x);
            },
            Err(err) => {
                return Err(err);
            },
        }
        i += 1;
    }
    Ok(out)
}

impl Block {
    /// The block `b`, lowered.
    pub fn lower<'a, 'ast>(cx: &Lowering<'a, 'ast>, b: &ast::Block) -> (r: Result<Self, LowerError>)
        ensures
            r is Ok == stmts_lowerable(cx@, b.stmts@),
            r matches Ok(x) ==> stmts_lowered(cx@, b.stmts@, x.stmts@),
        decreases b,
    {
        match lower_stmts(cx, &b.stmts) {
            Ok(stmts) => Ok(Block { stmts }),
            Err(err) => Err(err),
        }
    }
}

impl MatchArm {
    /// The arm `arm`, lowered.
    pub fn lower<'a, 'ast>(cx: &Lowering<'a, 'ast>, arm: &ast::MatchArm) -> (r: Result<
        Self,
        LowerError,
    >)
        ensures
            r is Ok == (pat_lowerable(cx@, arm.pat.val) && stmts_lowerable(cx@, arm.blk.stmts@)),
            r matches Ok(x) ==> pat_lowered(cx@, arm.pat.val, x.pat) && stmts_lowered(
                cx@,
                arm.blk.stmts@,
                x.blk.stmts@,
            ),
        decreases arm,
    {
        let pat = match Pat::lower(cx, &arm.pat.val) {
            Ok(p) => p,
            Err(err) => {
                return Err(err);
            },
        };
        match Block::lower(cx, &arm.blk) {
            Ok(blk) => Ok(MatchArm { pat, blk }),
            Err(err) => Err(err),
        }
    }
}

fn lower_arms<'a, 'ast>(cx: &Lowering<'a, 'ast>, arms: &Vec<ast::MatchArm>) -> (r: Result<
    Vec<MatchArm>,
    LowerError,
>)
    ensures
        r is Ok == arms_lowerable(cx@, arms@),
        r matches Ok(v) ==> arms_lowered(cx@, arms@, v@),
    decreases arms,
{
    let mut out: Vec<MatchArm> = Vec::new();
    let mut i: usize = 0;
    while i < arms.len()
        invariant
            i <= arms.len(),
            out@.len() == i,
            forall|j: int|
                0 <= j < i ==> pat_lowerable(cx@, (#[trigger] arms@[j]).pat.val) && stmts_lowerable(
                    cx@,
                    arms@[j].blk.stmts@,
                ),
            forall|j: int|
                0 <= j < i ==> pat_lowered(cx@, (#[trigger] arms@[j]).pat.val, out@[j].pat)
                    && stmts_lowered(cx@, arms@[j].blk.stmts@, out@[j].blk.stmts@),
        decreases arms.len() - i,
    {
        match MatchArm::lower(cx, &arms[i]) {
            Ok(x) => {
                out.push(x);
            },
            Err(err) => {
                let ghost bad = arms@[i as int];
                assert(!(pat_lowerable(cx@, bad.pat.val) && stmts_lowerable(cx@, bad.blk.stmts@)));
                return Err(err);
            },
        }
        i += 1;
    }
    Ok(out)
}

fn lower_base_op(op: ast::BinOp) -> (r: BinOp)
    ensures
        r == BinOp::spec_lower(base_op(op)),
{
    match op {
        ast::BinOp::AddAssign => BinOp::Add,
        ast::BinOp::SubAssign => BinOp::Sub,
        _ => BinOp::lower(op),
    }
}

impl Stmt {
    /// The statement `s`, lowered.
    pub fn lower<'a, 'ast>(cx: &Lowering<'a, 'ast>, s: &ast::Statement) -> (r: Result<
        Self,
        LowerError,
    >)
        ensures
            r is Ok == stmt_lowerable(cx@, *s),
            r matches Ok(x) ==> stmt_lowered(cx@, *s, x),
        decreases s, 1nat,
    {
        match &s.val {
            ast::Stmt::If { .. } => Self::lower_nested(cx, s),
            ast::Stmt::While { .. } => Self::lower_nested(cx, s),
            ast::Stmt::Match { .. } => Self::lower_nested(cx, s),
            ast::Stmt::Block(_) => Self::lower_nested(cx, s),
            _ => Self::lower_plain(cx, s),
        }
    }

    fn lower_plain<'a, 'ast>(cx: &Lowering<'a, 'ast>, s: &ast::Statement) -> (r: Result<
        Self,
        LowerError,
    >)
        requires
            !(s.val is If),
            !(s.val is While),
            !(s.val is Match),
            !(s.val is Block),
        ensures
            r is Ok == stmt_lowerable(cx@, *s),
            r matches Ok(x) ==> stmt_lowered(cx@, *s, x),
    {
        match &s.val {
            ast::Stmt::Const(c) => {
                let declared = cx.inst(&c.ty);
                let ty = match Ty::lower_plain(cx.tcxt, &declared, cx.fuel) {
                    Some(t) => t,
                    None => {
                        return Err(LowerError::NotLowerable);
                    },
                };
                match Expr::lower(cx, &c.init) {
                    Ok(init) => Ok(Stmt::Const(Const { ty, ident: c.ident, init, is_global: false })),
                    Err(err) => Err(err),
                }
            },
            ast::Stmt::Assign { lval, rval, .. } => {
                let l = match LValue::lower(cx, lval) {
                    Ok(x) => x,
                    Err(err) => {
                        return Err(err);
                    },
                };
                match Expr::lower(cx, rval) {
                    Ok(r) => Ok(Stmt::Assign { lval: l, rval: r }),
                    Err(err) => Err(err),
                }
            },
            ast::Stmt::AssignOp { lval, rval, op } => {
                let l = match LValue::lower(cx, lval) {
                    Ok(x) => x,
                    Err(err) => {
                        return Err(err);
                    },
                };
                let a = match Expr::lower(cx, lval) {
                    Ok(x) => x,
                    Err(err) => {
                        return Err(err);
                    },
                };
                let b = match Expr::lower(cx, rval) {
                    Ok(x) => x,
                    Err(err) => {
                        return Err(err);
                    },
                };
                match cx.carried(lval) {
                    Some(ty) => Ok(
                        Stmt::Assign {
                            lval: l,
                            rval: Expr::Binary {
                                op: lower_base_op(*op),
                                lhs: Box::new(a),
                                rhs: Box::new(b),
                                ty,
                            },
                        },
                    ),
                    None => Err(LowerError::NoType),
                }
            },
            ast::Stmt::Call(e) => Self::lower_call(cx, e, true),
            ast::Stmt::TraitMeth(e) => Self::lower_call(cx, e, false),
            ast::Stmt::Read(e) => match Expr::lower(cx, e) {
                Ok(x) => Ok(Stmt::Read(x)),
                Err(err) => Err(err),
            },
            ast::Stmt::Write { expr } => match Expr::lower(cx, expr) {
                Ok(x) => Ok(Stmt::Write { expr: x }),
                Err(err) => Err(err),
            },
            ast::Stmt::Ret(e) => {
                let x = match Expr::lower(cx, e) {
                    Ok(x) => x,
                    Err(err) => {
                        return Err(err);
                    },
                };
                match cx.carried(e) {
                    Some(ty) => Ok(Stmt::Ret(x, ty)),
                    None => Err(LowerError::NoType),
                }
            },
            ast::Stmt::Exit => Ok(Stmt::Exit),
            _ => Err(LowerError::NotACall),
        }
    }

    /// Lowers the call that a call statement holds.
    fn lower_call<'a, 'ast>(cx: &Lowering<'a, 'ast>, e: &ast::Expression, plain: bool) -> (r: Result<
        Self,
        LowerError,
    >)
        ensures
            r is Ok == ((if plain {
                e.val is Call
            } else {
                e.val is TraitMeth
            }) && expr_lowerable(cx@, *e)),
            r matches Ok(x) ==> x matches Stmt::Call { expr, def } && expr_lowered(
                cx@,
                *e,
                Expr::Call { path: expr.path, args: expr.args, type_args: expr.type_args, def },
            ),
    {
        let fits = match &e.val {
            ast::Expr::Call { .. } => plain,
            ast::Expr::TraitMeth { .. } => !plain,
            _ => false,
        };
        if !fits {
            return Err(LowerError::NotACall);
        }
        match Expr::lower(cx, e) {
            Ok(Expr::Call { path, args, type_args, def }) => Ok(
                Stmt::Call { expr: CallExpr { path, args, type_args }, def },
            ),
            Ok(_) => Err(LowerError::NotACall),
            Err(err) => Err(err),
        }
    }

    fn lower_nested<'a, 'ast>(cx: &Lowering<'a, 'ast>, s: &ast::Statement) -> (r: Result<
        Self,
        LowerError,
    >)
        requires
            s.val is If || s.val is While || s.val is Match || s.val is Block,
        ensures
            r is Ok == stmt_lowerable(cx@, *s),
            r matches Ok(x) ==> stmt_lowered(cx@, *s, x),
        decreases s, 0nat,
    {
        match &s.val {
            ast::Stmt::If { cond, blk, els } => {
                let c = match Expr::lower(cx, cond) {
                    Ok(x) => x,
                    Err(err) => {
                        return Err(err);
                    },
                };
                let b = match Block::lower(cx, blk) {
                    Ok(x) => x,
                    Err(err) => {
                        return Err(err);
                    },
                };
                let e = match els {
                    Some(x) => match Block::lower(cx, x) {
                        Ok(y) => Some(y),
                        Err(err) => {
                            return Err(err);
                        },
                    },
                    None => None,
                };
                Ok(Stmt::If { cond: c, blk: b, els: e })
            },
            ast::Stmt::While { cond, blk } => {
                let c = match Expr::lower(cx, cond) {
                    Ok(x) => x,
                    Err(err) => {
                        return Err(err);
                    },
                };
                match Block::lower(cx, blk) {
                    Ok(stmts) => Ok(Stmt::While { cond: c, stmts }),
                    Err(err) => Err(err),
                }
            },
            ast::Stmt::Match { expr, arms } => {
                let x = match Expr::lower(cx, expr) {
                    Ok(x) => x,
                    Err(err) => {
                        return Err(err);
                    },
                };
                let ty = match cx.carried(expr) {
                    Some(t) => t,
                    None => {
                        return Err(LowerError::NoType);
                    },
                };
                match lower_arms(cx, arms) {
                    Ok(a) => Ok(Stmt::Match { expr: x, arms: a, ty }),
                    Err(err) => Err(err),
                }
            },
            ast::Stmt::Block(b) => match Block::lower(cx, b) {
                Ok(x) => Ok(Stmt::Block(x)),
                Err(err) => Err(err),
            },
            _ => Err(LowerError::NotACall),
        }
    }
}

/// The types of the parameters of `f` in the copy that is made.
pub open spec fn inst_param_tys(cx: LowerCx, f: ast::Func) -> Seq<SpecTy> {
    Seq::new(f.params@.len(), |i: int| cx.inst(f.params@[i].ty@))
}

/// `true` when the function `f` can be lowered: the copy gives each of its
/// type parameters a type, and its signature and every statement of its
/// body can be lowered, without a type parameter.
pub open spec fn func_lowerable(cx: LowerCx, f: ast::Func) -> bool {
    &&& cx.args.len() >= f.generics@.len()
    &&& plain_lowerable(cx.env, cx.fuel, cx.inst(f.ret@))
    &&& forall|i: int|
        0 <= i < f.params@.len() ==> plain_lowerable(
            cx.env,
            cx.fuel,
            #[trigger] inst_param_tys(cx, f)[i],
        )
    &&& stmts_lowerable(cx, f.stmts.stmts@)
}

/// `true` when `r` is the copy of the function `f` that is made, under the
/// name `name`: the name, the lowered types of the parameters and of the
/// result with the type arguments of the copy put in, the lowered body, and
/// the type parameters of `f` where the copy does not give each a type
/// argument.
pub open spec fn func_lowered(cx: LowerCx, f: ast::Func, name: Ident, r: Func) -> bool {
    &&& r.ident == name
    &&& ty_lowered(cx.env, cx.fuel, cx.inst(f.ret@), r.ret)
    &&& r.params@.len() == f.params@.len()
    &&& forall|i: int|
        0 <= i < f.params@.len() ==> (#[trigger] r.params@[i]).ident == f.params@[i].ident
            && ty_lowered(cx.env, cx.fuel, inst_param_tys(cx, f)[i], r.params@[i].ty)
    &&& stmts_lowered(cx, f.stmts.stmts@, r.stmts@)
    &&& if cx.args.len() >= f.generics@.len() {
        r.generics@.len() == 0
    } else {
        crate::lir::lower::ir_view_tys(r.generics@) == crate::typeck::collect::generics_as_tys(
            f.generics@,
        )
    }
}

/// The type parameters of a function as types of the lowered program.
fn lower_generic_tys(gs: &Vec<ast::Generic>) -> (r: Vec<Ty>)
    ensures
        crate::lir::lower::ir_view_tys(r@) == crate::typeck::collect::generics_as_tys(gs@),
{
    let mut out: Vec<Ty> = Vec::new();
    let mut i: usize = 0;
    while i < gs.len()
        invariant
            i <= gs.len(),
            out@.len() == i,
            forall|j: int|
                0 <= j < i ==> (#[trigger] out@[j])@ == crate::typeck::collect::generics_as_tys(
                    gs@,
                )[j],
        decreases gs.len() - i,
    {
        let g = crate::lir::lower::Generic::lower(&gs[i]);
        out.push(g.to_type());
        i += 1;
    }
    assert(crate::lir::lower::ir_view_tys(out@) =~= crate::typeck::collect::generics_as_tys(gs@));
    out
}

impl Func {
    /// The copy of the function `func` that is made, under the name
    /// `name`.
    pub fn lower<'a, 'ast>(cx: &Lowering<'a, 'ast>, func: &ast::Func, name: Ident) -> (r: Result<
        Self,
        LowerError,
    >)
        ensures
            r is Ok == func_lowerable(cx@, *func),
            r matches Ok(x) ==> func_lowered(cx@, *func, name, x),
    {
        assert(crate::ast::types::view_tys(cx.args@).len() == cx.args@.len());
        if cx.args.len() < func.generics.len() {
            return Err(LowerError::NotLowerable);
        }
        let declared = cx.inst(&func.ret);
        let ret = match Ty::lower_plain(cx.tcxt, &declared, cx.fuel) {
            Some(t) => t,
            None => {
                return Err(LowerError::NotLowerable);
            },
        };
        let ghost want = inst_param_tys(cx@, *func);
        let mut params: Vec<Param> = Vec::new();
        let mut i: usize = 0;
        while i < func.params.len()
            invariant
                i <= func.params.len(),
                params@.len() == i,
                want == inst_param_tys(cx@, *func),
                plain_lowerable(cx@.env, cx@.fuel, cx@.inst(func.ret@)),
                ty_lowered(cx@.env, cx@.fuel, cx@.inst(func.ret@), ret),
                forall|j: int| 0 <= j < i ==> plain_lowerable(cx@.env, cx@.fuel, #[trigger] want[j]),
                forall|j: int|
                    0 <= j < i ==> (#[trigger] params@[j]).ident == func.params@[j].ident
                        && ty_lowered(cx@.env, cx@.fuel, want[j], params@[j].ty),
            decreases func.params.len() - i,
        {
            let pt = cx.inst(&func.params[i].ty);
            assert(pt@ == want[i as int]);
            match Ty::lower_plain(cx.tcxt, &pt, cx.fuel) {
                Some(ty) => {
                    params.push(Param { ident: func.params[i].ident, ty });
                },
                None => {
                    return Err(LowerError::NotLowerable);
                },
            }
            i += 1;
        }
        let stmts = match lower_stmts(cx, &func.stmts.stmts) {
            Ok(s) => s,
            Err(err) => {
                return Err(err);
            },
        };
        assert(crate::ast::types::view_tys(cx.args@).len() == cx.args@.len());
        let generics = if cx.args.len() >= func.generics.len() {
            Vec::new()
        } else {
            lower_generic_tys(&func.generics)
        };
        Ok(Func { ret, ident: name, generics, params, stmts })
    }
}

} // verus!
