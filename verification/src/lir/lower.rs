//! The types of the lowered program.

use crate::ast::types as ast;
use crate::ast::types::{any_has_generics, seq_has_generics, view_tys, Ident, Path, SpecTy};
use crate::typeck::generic::view_bound;
use crate::typeck::{Env, TyCheckRes};
use vstd::prelude::*;

verus! {

/// A literal. A float is held as the bits of its IEEE 754 double.
#[derive(Clone, Copy, Debug, PartialEq, Eq, Structural)]
pub enum Val {
    Float(u64),
    Int(isize),
    Char(char),
    Bool(bool),
    Str(Ident),
}

impl Val {
    /// The lowered form.
    pub open spec fn spec_lower(val: ast::Val) -> Val {
        match val {
            ast::Val::Float(v) => Val::Float(v),
            ast::Val::Int(v) => Val::Int(v),
            ast::Val::Char(v) => Val::Char(v),
            ast::Val::Bool(v) => Val::Bool(v),
            ast::Val::Str(v) => Val::Str(v),
        }
    }

    /// The same literal in the lowered program.
    pub fn lower(val: ast::Val) -> (r: Self)
        ensures
            r == Self::spec_lower(val),
    {
        match val {
            ast::Val::Float(v) => Val::Float(v),
            ast::Val::Int(v) => Val::Int(v),
            ast::Val::Char(v) => Val::Char(v),
            ast::Val::Bool(v) => Val::Bool(v),
            ast::Val::Str(v) => Val::Str(v),
        }
    }

    /// The size of a literal in bytes.
    pub open spec fn spec_size_of(self) -> usize {
        match self {
            Val::Float(_) => 8,
            Val::Int(_) => 8,
            Val::Char(_) => 4,
            Val::Bool(_) => 1,
            Val::Str(_) => 8,
        }
    }

    /// The type a literal has by itself.
    pub fn type_of(&self) -> (r: Ty)
        ensures
            r.shape() == (match *self {
                Val::Float(_) => TyShape::Float,
                Val::Int(_) => TyShape::Int,
                Val::Char(_) => TyShape::Char,
                Val::Bool(_) => TyShape::Bool,
                Val::Str(_) => TyShape::String,
            }),
    {
        match self {
            Val::Float(_) => Ty::Float,
            Val::Int(_) => Ty::Int,
            Val::Char(_) => Ty::Char,
            Val::Bool(_) => Ty::Bool,
            Val::Str(_) => Ty::String,
        }
    }

    /// The size of a literal in bytes.
    pub fn size_of(&self) -> (r: usize)
        ensures
            r == self.spec_size_of(),
    {
        match self {
            Val::Float(_) => 8,
            Val::Int(_) => 8,
            Val::Char(_) => 4,
            Val::Bool(_) => 1,
            Val::Str(_) => 8,
        }
    }
}

#[derive(Clone, Copy, Debug, PartialEq, Eq, Structural)]
pub enum UnOp {
    Not,
    OnesComp,
}

impl UnOp {
    /// The lowered form.
    pub open spec fn spec_lower(op: ast::UnOp) -> UnOp {
        match op {
            ast::UnOp::Not => UnOp::Not,
            ast::UnOp::OnesComp => UnOp::OnesComp,
        }
    }

    /// The same operator in the lowered program.
    pub fn lower(op: ast::UnOp) -> (r: Self)
        ensures
            r == Self::spec_lower(op),
    {
        match op {
            ast::UnOp::Not => UnOp::Not,
            ast::UnOp::OnesComp => UnOp::OnesComp,
        }
    }
}

#[derive(Clone, Copy, Debug, PartialEq, Eq, Structural)]
pub enum BinOp {
    /// The `*` operator.
    Mul,
    /// The `/` operator.
    Div,
    /// The `%` operator.
    Rem,
    /// The `+` operator.
    Add,
    /// The `-` operator.
    Sub,
    /// The `<<` operator.
    LeftShift,
    /// The `>>` operator.
    RightShift,
    /// The `<` operator.
    Lt,
    /// The `<=` operator.
    Le,
    /// The `>=` operator.
    Ge,
    /// The `>` operator.
    Gt,
    /// The `==` operator.
    Eq,
    /// The `!=` operator.
    Ne,
    /// The `&` operator.
    BitAnd,
    /// The `^` operator.
    BitXor,
    /// The `|` operator.
    BitOr,
    /// The `&&` operator.
    And,
    /// The `||` operator.
    Or,
    /// The `+=` operator.
    AddAssign,
    /// The `-=` operator.
    SubAssign,
}

impl BinOp {
    /// The lowered form.
    pub open spec fn spec_lower(op: ast::BinOp) -> BinOp {
        match op {
            ast::BinOp::Mul => BinOp::Mul,
            ast::BinOp::Div => BinOp::Div,
            ast::BinOp::Rem => BinOp::Rem,
            ast::BinOp::Add => BinOp::Add,
            ast::BinOp::Sub => BinOp::Sub,
            ast::BinOp::LeftShift => BinOp::LeftShift,
            ast::BinOp::RightShift => BinOp::RightShift,
            ast::BinOp::Lt => BinOp::Lt,
            ast::BinOp::Le => BinOp::Le,
            ast::BinOp::Ge => BinOp::Ge,
            ast::BinOp::Gt => BinOp::Gt,
            ast::BinOp::Eq => BinOp::Eq,
            ast::BinOp::Ne => BinOp::Ne,
            ast::BinOp::BitAnd => BinOp::BitAnd,
            ast::BinOp::BitXor => BinOp::BitXor,
            ast::BinOp::BitOr => BinOp::BitOr,
            ast::BinOp::And => BinOp::And,
            ast::BinOp::Or => BinOp::Or,
            ast::BinOp::AddAssign => BinOp::AddAssign,
            ast::BinOp::SubAssign => BinOp::SubAssign,
        }
    }

    /// The same operator in the lowered program.
    pub fn lower(op: ast::BinOp) -> (r: Self)
        ensures
            r == Self::spec_lower(op),
    {
        match op {
            ast::BinOp::Mul => BinOp::Mul,
            ast::BinOp::Div => BinOp::Div,
            ast::BinOp::Rem => BinOp::Rem,
            ast::BinOp::Add => BinOp::Add,
            ast::BinOp::Sub => BinOp::Sub,
            ast::BinOp::LeftShift => BinOp::LeftShift,
            ast::BinOp::RightShift => BinOp::RightShift,
            ast::BinOp::Lt => BinOp::Lt,
            ast::BinOp::Le => BinOp::Le,
            ast::BinOp::Ge => BinOp::Ge,
            ast::BinOp::Gt => BinOp::Gt,
            ast::BinOp::Eq => BinOp::Eq,
            ast::BinOp::Ne => BinOp::Ne,
            ast::BinOp::BitAnd => BinOp::BitAnd,
            ast::BinOp::BitXor => BinOp::BitXor,
            ast::BinOp::BitOr => BinOp::BitOr,
            ast::BinOp::And => BinOp::And,
            ast::BinOp::Or => BinOp::Or,
            ast::BinOp::AddAssign => BinOp::AddAssign,
            ast::BinOp::SubAssign => BinOp::SubAssign,
        }
    }

    /// Operators that compare their operands.
    pub open spec fn comparison(self) -> bool {
        match self {
            BinOp::Lt | BinOp::Le | BinOp::Ge | BinOp::Gt | BinOp::Eq | BinOp::Ne => true,
            _ => false,
        }
    }

    /// Operators that assign to their left operand.
    pub open spec fn assigns(self) -> bool {
        self == BinOp::AddAssign || self == BinOp::SubAssign
    }

    /// The mnemonic of the machine instruction for an operator.
    pub open spec fn instruction(self) -> Seq<char> {
        match self {
            BinOp::Mul => "imul"@,
            BinOp::Add => "add"@,
            BinOp::Sub => "sub"@,
            BinOp::LeftShift => "shl"@,
            BinOp::RightShift => "shr"@,
            BinOp::And => "and"@,
            BinOp::Or => "or"@,
            BinOp::BitAnd => "and"@,
            BinOp::BitXor => "xor"@,
            BinOp::BitOr => "or"@,
            _ => "div"@,
        }
    }

    /// The mnemonic of the machine instruction for an operator that is
    /// neither a comparison nor an assignment.
    pub fn as_instruction(&self) -> (r: &'static str)
        requires
            !self.comparison(),
            !self.assigns(),
        ensures
            r@ == self.instruction(),
    {
        match self {
            BinOp::Mul => "imul",
            BinOp::Add => "add",
            BinOp::Sub => "sub",
            BinOp::LeftShift => "shl",
            BinOp::RightShift => "shr",
            BinOp::And => "and",
            BinOp::Or => "or",
            BinOp::BitAnd => "and",
            BinOp::BitXor => "xor",
            BinOp::BitOr => "or",
            _ => "div",
        }
    }

    /// `true` for a comparison operator.
    pub fn is_cmp(&self) -> (r: bool)
        ensures
            r == self.comparison(),
    {
        match self {
            BinOp::Lt | BinOp::Le | BinOp::Ge | BinOp::Gt | BinOp::Eq | BinOp::Ne => true,
            _ => false,
        }
    }
}

/// A declared type parameter, with its trait bound if any.
#[derive(Debug)]
pub struct Generic {
    pub ident: Ident,
    pub bound: Option<Path>,
}

/// A type of the lowered program. A struct or an enum carries its
/// definition.
#[derive(Debug)]
#[allow(inconsistent_fields)]
pub enum Ty {
    /// A type parameter.
    Generic { ident: Ident, bound: Option<Path> },
    /// A fixed-size array of `size` items.
    Array { size: usize, ty: Box<Ty> },
    Struct { ident: Ident, gen: Vec<Ty>, def: Struct },
    Enum { ident: Ident, gen: Vec<Ty>, def: Enum },
    /// A pointer to a value.
    Ptr(Box<Ty>),
    /// One layer of dereference.
    Ref(Box<Ty>),
    String,
    Int,
    Char,
    Float,
    Bool,
    Void,
}

/// The constructor of a type of the lowered program.
pub enum TyShape {
    Generic,
    Array,
    Struct,
    Enum,
    Ptr,
    Ref,
    String,
    Int,
    Char,
    Float,
    Bool,
    Void,
}

#[derive(Debug)]
pub struct Field {
    pub ident: Ident,
    pub ty: Ty,
}

#[derive(Debug)]
pub struct Struct {
    pub ident: Ident,
    pub fields: Vec<Field>,
    pub generics: Vec<Generic>,
}

#[derive(Debug)]
pub struct Variant {
    pub ident: Ident,
    /// The types of the variant's payload.
    pub types: Vec<Ty>,
}

#[derive(Debug)]
pub struct Enum {
    pub ident: Ident,
    pub variants: Vec<Variant>,
    pub generics: Vec<Generic>,
}

#[derive(Debug)]
pub enum Adt {
    Struct(Struct),
    Enum(Enum),
}

#[derive(Debug)]
pub struct Param {
    pub ty: Ty,
    pub ident: Ident,
}

impl Ty {
    /// The constructor of the type.
    pub open spec fn shape(self) -> TyShape {
        match self {
            Ty::Generic { .. } => TyShape::Generic,
            Ty::Array { .. } => TyShape::Array,
            Ty::Struct { .. } => TyShape::Struct,
            Ty::Enum { .. } => TyShape::Enum,
            Ty::Ptr(_) => TyShape::Ptr,
            Ty::Ref(_) => TyShape::Ref,
            Ty::String => TyShape::String,
            Ty::Int => TyShape::Int,
            Ty::Char => TyShape::Char,
            Ty::Float => TyShape::Float,
            Ty::Bool => TyShape::Bool,
            Ty::Void => TyShape::Void,
        }
    }
}

impl Generic {
    pub open spec fn lowered_from(self, g: ast::Generic) -> bool {
        self.ident == g.ident && crate::typeck::generic::view_bound(self.bound)
            == crate::typeck::generic::view_bound(g.bound)
    }

    /// The same type parameter in the lowered program.
    pub fn lower(g: &ast::Generic) -> (r: Self)
        ensures
            r.lowered_from(*g),
    {
        Generic {
            ident: g.ident,
            bound: match &g.bound {
                Some(p) => Some(p.clone()),
                None => None,
            },
        }
    }

    /// The type parameter as a type.
    pub fn to_type(&self) -> (r: Ty)
        ensures
            r matches Ty::Generic { ident, bound } && ident == self.ident
                && crate::typeck::generic::view_bound(bound) == crate::typeck::generic::view_bound(
                self.bound,
            ),
    {
        Ty::Generic {
            ident: self.ident,
            bound: match &self.bound {
                Some(p) => Some(p.clone()),
                None => None,
            },
        }
    }
}

/// What the types of a list denote.
pub open spec fn ir_view_tys(tys: Seq<Ty>) -> Seq<SpecTy>
    decreases tys,
{
    Seq::new(
        tys.len(),
        |i: int|
            if 0 <= i < tys.len() {
                ir_ty_model(tys[i])
            } else {
                SpecTy::Void
            },
    )
}

/// What a type of the lowered program denotes: the type of the source
/// language that it was lowered from.
pub open spec fn ir_ty_model(t: Ty) -> SpecTy
    decreases t,
{
    match t {
        Ty::Generic { ident, bound } => SpecTy::Generic { ident, bound: view_bound(bound) },
        Ty::Array { size, ty } => SpecTy::Array { size, ty: Box::new(ir_ty_model(*ty)) },
        Ty::Struct { ident, gen, .. } => SpecTy::Struct { ident, gen: ir_view_tys(gen@) },
        Ty::Enum { ident, gen, .. } => SpecTy::Enum { ident, gen: ir_view_tys(gen@) },
        Ty::Ptr(t) => SpecTy::Ptr(Box::new(ir_ty_model(*t))),
        Ty::Ref(t) => SpecTy::Ref(Box::new(ir_ty_model(*t))),
        Ty::String => SpecTy::String,
        Ty::Int => SpecTy::Int,
        Ty::Char => SpecTy::Char,
        Ty::Float => SpecTy::Float,
        Ty::Bool => SpecTy::Bool,
        Ty::Void => SpecTy::Void,
    }
}

impl View for Ty {
    type V = SpecTy;

    open spec fn view(&self) -> SpecTy {
        ir_ty_model(*self)
    }
}

/// `true` when the types `rs` are the types `ts`, lowered.
pub open spec fn tys_lowered(env: Env, fuel: nat, ts: Seq<SpecTy>, rs: Seq<Ty>) -> bool
    decreases fuel, 1nat, ts,
{
    ts.len() == rs.len() && forall|i: int|
        0 <= i < ts.len() ==> ty_lowered(env, fuel, #[trigger] ts[i], rs[i])
}

/// `true` when the generics `rs` are the generics `gs`, lowered.
pub open spec fn generics_lowered(gs: Seq<ast::Generic>, rs: Seq<Generic>) -> bool {
    gs.len() == rs.len() && forall|i: int| 0 <= i < gs.len() ==> (#[trigger] rs[i]).lowered_from(gs[i])
}

/// `true` when `r` is the struct `s`, lowered: it has the name and the type
/// parameters of `s`, and its fields are the fields of `s` with their types
/// lowered.
pub open spec fn struct_lowered(env: Env, fuel: nat, s: ast::Struct, r: Struct) -> bool
    decreases fuel, 0nat, s,
{
    &&& fuel > 0
    &&& r.ident == s.ident
    &&& generics_lowered(s.generics@, r.generics@)
    &&& r.fields@.len() == s.fields@.len()
    &&& forall|i: int|
        0 <= i < s.fields@.len() ==> (#[trigger] r.fields@[i]).ident == s.fields@[i].ident
            && ty_lowered(env, (fuel - 1) as nat, s.fields@[i].ty@, r.fields@[i].ty)
}

/// `true` when `r` is the enum `e`, lowered: it has the name and the type
/// parameters of `e`, and its variants are the variants of `e` with the
/// types of their payloads lowered.
pub open spec fn enum_lowered(env: Env, fuel: nat, e: ast::Enum, r: Enum) -> bool
    decreases fuel, 0nat, e,
{
    &&& fuel > 0
    &&& r.ident == e.ident
    &&& generics_lowered(e.generics@, r.generics@)
    &&& r.variants@.len() == e.variants@.len()
    &&& forall|i: int|
        0 <= i < e.variants@.len() ==> (#[trigger] r.variants@[i]).ident == e.variants@[i].ident
            && tys_lowered(
            env,
            (fuel - 1) as nat,
            view_tys(e.variants@[i].types@),
            r.variants@[i].types@,
        )
}

/// `true` when `r` is the type `t`, lowered: the same type, where each
/// struct and each enum carries its definition, lowered in turn. `fuel`
/// bounds how deep definitions stand in definitions.
pub open spec fn ty_lowered(env: Env, fuel: nat, t: SpecTy, r: Ty) -> bool
    decreases fuel, 1nat, t,
{
    match (t, r) {
        (SpecTy::Generic { ident, bound }, Ty::Generic { ident: i2, bound: b2 }) => ident == i2
            && bound == view_bound(b2),
        (SpecTy::Array { size, ty }, Ty::Array { size: s2, ty: r2 }) => size == s2 && ty_lowered(
            env,
            fuel,
            *ty,
            *r2,
        ),
        (SpecTy::Struct { ident, gen }, Ty::Struct { ident: i2, gen: g2, def }) => {
            &&& ident == i2
            &&& tys_lowered(env, fuel, gen, g2@)
            &&& env.structs.contains_key(ident.id)
            &&& struct_lowered(env, fuel, *env.structs[ident.id], def)
        },
        (SpecTy::Enum { ident, gen }, Ty::Enum { ident: i2, gen: g2, def }) => {
            &&& ident == i2
            &&& tys_lowered(env, fuel, gen, g2@)
            &&& env.enums.contains_key(ident.id)
            &&& enum_lowered(env, fuel, *env.enums[ident.id], def)
        },
        (SpecTy::Ptr(x), Ty::Ptr(y)) => ty_lowered(env, fuel, *x, *y),
        (SpecTy::Ref(x), Ty::Ref(y)) => ty_lowered(env, fuel, *x, *y),
        (SpecTy::String, Ty::String) => true,
        (SpecTy::Int, Ty::Int) => true,
        (SpecTy::Char, Ty::Char) => true,
        (SpecTy::Float, Ty::Float) => true,
        (SpecTy::Bool, Ty::Bool) => true,
        (SpecTy::Void, Ty::Void) => true,
        _ => false,
    }
}

/// `true` when the type can be lowered and holds no type parameter: what is
/// asked of a type that stands by itself in the lowered program, outside
/// the definitions that types carry.
pub open spec fn plain_lowerable(env: Env, fuel: nat, t: SpecTy) -> bool {
    !t.has_generics() && lowerable(env, fuel, t)
}

/// `true` when each type of the list can be lowered and none holds a type
/// parameter.
pub open spec fn seq_plain_lowerable(env: Env, fuel: nat, ts: Seq<SpecTy>) -> bool {
    !seq_has_generics(ts) && seq_lowerable(env, fuel, ts)
}

/// A lowered type denotes the type that it was lowered from: where that
/// holds no type parameter, neither does the lowered type outside the
/// definitions that it carries.
pub proof fn lemma_lowered_view(env: Env, fuel: nat, t: SpecTy, r: Ty)
    requires
        ty_lowered(env, fuel, t, r),
    ensures
        r@ == t,
    decreases t,
{
    match (t, r) {
        (SpecTy::Array { ty, .. }, Ty::Array { ty: r2, .. }) => {
            lemma_lowered_view(env, fuel, *ty, *r2);
        },
        (SpecTy::Struct { gen, .. }, Ty::Struct { gen: g2, .. }) => {
            lemma_lowered_views(env, fuel, gen, g2@);
        },
        (SpecTy::Enum { gen, .. }, Ty::Enum { gen: g2, .. }) => {
            lemma_lowered_views(env, fuel, gen, g2@);
        },
        (SpecTy::Ptr(x), Ty::Ptr(y)) => {
            lemma_lowered_view(env, fuel, *x, *y);
        },
        (SpecTy::Ref(x), Ty::Ref(y)) => {
            lemma_lowered_view(env, fuel, *x, *y);
        },
        _ => {},
    }
}

/// Lowered types denote the types that they were lowered from.
pub proof fn lemma_lowered_views(env: Env, fuel: nat, ts: Seq<SpecTy>, rs: Seq<Ty>)
    requires
        tys_lowered(env, fuel, ts, rs),
    ensures
        ir_view_tys(rs) == ts,
    decreases ts,
{
    assert forall|i: int| 0 <= i < ts.len() implies ir_view_tys(rs)[i] == ts[i] by {
        lemma_lowered_view(env, fuel, ts[i], rs[i]);
    }
    assert(ir_view_tys(rs) =~= ts);
}

/// `true` when each type of the list can be lowered.
pub open spec fn seq_lowerable(env: Env, fuel: nat, ts: Seq<SpecTy>) -> bool
    decreases fuel, 1nat, ts,
{
    forall|i: int| 0 <= i < ts.len() ==> lowerable(env, fuel, #[trigger] ts[i])
}

/// `true` when the struct `s` can be lowered with definitions `fuel` deep.
pub open spec fn struct_lowerable(env: Env, fuel: nat, s: ast::Struct) -> bool
    decreases fuel, 0nat, s,
{
    fuel > 0 && forall|i: int|
        0 <= i < s.fields@.len() ==> lowerable(
            env,
            (fuel - 1) as nat,
            (#[trigger] s.fields@[i]).ty@,
        )
}

/// `true` when the enum `e` can be lowered with definitions `fuel` deep.
pub open spec fn enum_lowerable(env: Env, fuel: nat, e: ast::Enum) -> bool
    decreases fuel, 0nat, e,
{
    fuel > 0 && forall|i: int|
        0 <= i < e.variants@.len() ==> seq_lowerable(
            env,
            (fuel - 1) as nat,
            view_tys((#[trigger] e.variants@[i]).types@),
        )
}

/// `true` when the type `t` can be lowered: it holds no function signature
/// and no unresolved path, each struct and enum in it is declared, and the
/// definitions that it carries stand no more than `fuel` deep in each
/// other.
pub open spec fn lowerable(env: Env, fuel: nat, t: SpecTy) -> bool
    decreases fuel, 1nat, t,
{
    match t {
        SpecTy::Array { ty, .. } => lowerable(env, fuel, *ty),
        SpecTy::Struct { ident, gen } => seq_lowerable(env, fuel, gen) && env.structs.contains_key(
            ident.id,
        ) && struct_lowerable(env, fuel, *env.structs[ident.id]),
        SpecTy::Enum { ident, gen } => seq_lowerable(env, fuel, gen) && env.enums.contains_key(
            ident.id,
        ) && enum_lowerable(env, fuel, *env.enums[ident.id]),
        SpecTy::Ptr(x) => lowerable(env, fuel, *x),
        SpecTy::Ref(x) => lowerable(env, fuel, *x),
        SpecTy::Func { .. } => false,
        SpecTy::Path(_) => false,
        _ => true,
    }
}

/// The type parameters of a declaration in the lowered program.
pub fn lower_generics(gs: &Vec<ast::Generic>) -> (r: Vec<Generic>)
    ensures
        generics_lowered(gs@, r@),
{
    let mut out: Vec<Generic> = Vec::new();
    let mut i: usize = 0;
    while i < gs.len()
        invariant
            i <= gs.len(),
            out@.len() == i,
            forall|j: int| 0 <= j < i ==> (#[trigger] out@[j]).lowered_from(gs@[j]),
        decreases gs.len() - i,
    {
        out.push(Generic::lower(&gs[i]));
        i += 1;
    }
    out
}

/// The types of a list in the lowered program, where each can be lowered.
pub fn lower_tys<'ast>(tcxt: &TyCheckRes<'ast>, tys: &Vec<ast::Ty>, fuel: usize) -> (r: Option<
    Vec<Ty>,
>)
    ensures
        r is Some == seq_lowerable(tcxt.env(), fuel as nat, view_tys(tys@)),
        r matches Some(v) ==> tys_lowered(tcxt.env(), fuel as nat, view_tys(tys@), v@),
    decreases fuel, 1nat, tys,
{
    let mut out: Vec<Ty> = Vec::new();
    let mut i: usize = 0;
    while i < tys.len()
        invariant
            i <= tys.len(),
            out@.len() == i,
            forall|j: int|
                0 <= j < i ==> lowerable(tcxt.env(), fuel as nat, #[trigger] view_tys(tys@)[j])
                    && ty_lowered(tcxt.env(), fuel as nat, view_tys(tys@)[j], out@[j]),
        decreases tys.len() - i,
    {
        match Ty::lower(tcxt, &tys[i], fuel) {
            Some(t) => {
                out.push(t);
            },
            None => {
                assert(!lowerable(tcxt.env(), fuel as nat, view_tys(tys@)[i as int]));
                return None;
            },
        }
        i += 1;
    }
    Some(out)
}

impl Field {
    /// The field in the lowered program, where its type can be lowered.
    pub fn lower<'ast>(tcxt: &TyCheckRes<'ast>, v: &ast::Field, fuel: usize) -> (r: Option<Self>)
        ensures
            r is Some == lowerable(tcxt.env(), fuel as nat, v.ty@),
            r matches Some(f) ==> f.ident == v.ident && ty_lowered(
                tcxt.env(),
                fuel as nat,
                v.ty@,
                f.ty,
            ),
        decreases fuel, 2nat, v,
    {
        match Ty::lower(tcxt, &v.ty, fuel) {
            Some(ty) => Some(Field { ident: v.ident, ty }),
            None => None,
        }
    }
}

impl Variant {
    /// The variant in the lowered program, where the types of its payload
    /// can be lowered.
    pub fn lower<'ast>(tcxt: &TyCheckRes<'ast>, v: &ast::Variant, fuel: usize) -> (r: Option<
        Self,
    >)
        ensures
            r is Some == seq_lowerable(tcxt.env(), fuel as nat, view_tys(v.types@)),
            r matches Some(x) ==> x.ident == v.ident && tys_lowered(
                tcxt.env(),
                fuel as nat,
                view_tys(v.types@),
                x.types@,
            ),
        decreases fuel, 2nat, v,
    {
        match lower_tys(tcxt, &v.types, fuel) {
            Some(types) => Some(Variant { ident: v.ident, types }),
            None => None,
        }
    }
}

impl Struct {
    /// The struct in the lowered program, where it can be lowered.
    pub fn lower<'ast>(tcxt: &TyCheckRes<'ast>, s: &ast::Struct, fuel: usize) -> (r: Option<Self>)
        ensures
            r is Some == struct_lowerable(tcxt.env(), fuel as nat, *s),
            r matches Some(x) ==> struct_lowered(tcxt.env(), fuel as nat, *s, x),
        decreases fuel, 0nat, s,
    {
        if fuel == 0 {
            return None;
        }
        let mut fields: Vec<Field> = Vec::new();
        let mut i: usize = 0;
        while i < s.fields.len()
            invariant
                i <= s.fields.len(),
                fuel > 0,
                fields@.len() == i,
                forall|j: int|
                    0 <= j < i ==> lowerable(
                        tcxt.env(),
                        (fuel - 1) as nat,
                        (#[trigger] s.fields@[j]).ty@,
                    ) && fields@[j].ident == s.fields@[j].ident && ty_lowered(
                        tcxt.env(),
                        (fuel - 1) as nat,
                        s.fields@[j].ty@,
                        fields@[j].ty,
                    ),
            decreases s.fields.len() - i,
        {
            match Field::lower(tcxt, &s.fields[i], fuel - 1) {
                Some(f) => {
                    fields.push(f);
                },
                None => {
                    return None;
                },
            }
            i += 1;
        }
        Some(Struct { ident: s.ident, fields, generics: lower_generics(&s.generics) })
    }
}

impl Enum {
    /// The enum in the lowered program, where it can be lowered.
    pub fn lower<'ast>(tcxt: &TyCheckRes<'ast>, e: &ast::Enum, fuel: usize) -> (r: Option<Self>)
        ensures
            r is Some == enum_lowerable(tcxt.env(), fuel as nat, *e),
            r matches Some(x) ==> enum_lowered(tcxt.env(), fuel as nat, *e, x),
        decreases fuel, 0nat, e,
    {
        if fuel == 0 {
            return None;
        }
        let mut variants: Vec<Variant> = Vec::new();
        let mut i: usize = 0;
        while i < e.variants.len()
            invariant
                i <= e.variants.len(),
                fuel > 0,
                variants@.len() == i,
                forall|j: int|
                    0 <= j < i ==> seq_lowerable(
                        tcxt.env(),
                        (fuel - 1) as nat,
                        view_tys((#[trigger] e.variants@[j]).types@),
                    ) && variants@[j].ident == e.variants@[j].ident && tys_lowered(
                        tcxt.env(),
                        (fuel - 1) as nat,
                        view_tys(e.variants@[j].types@),
                        variants@[j].types@,
                    ),
            decreases e.variants.len() - i,
        {
            match Variant::lower(tcxt, &e.variants[i], fuel - 1) {
                Some(v) => {
                    variants.push(v);
                },
                None => {
                    return None;
                },
            }
            i += 1;
        }
        Some(Enum { ident: e.ident, variants, generics: lower_generics(&e.generics) })
    }
}

/// The types of a list in the lowered program, where each can be lowered
/// and none holds a type parameter.
pub fn lower_plain_tys<'ast>(tcxt: &TyCheckRes<'ast>, tys: &Vec<ast::Ty>, fuel: usize) -> (r: Option<
    Vec<Ty>,
>)
    ensures
        r is Some == seq_plain_lowerable(tcxt.env(), fuel as nat, view_tys(tys@)),
        r matches Some(v) ==> tys_lowered(tcxt.env(), fuel as nat, view_tys(tys@), v@),
{
    if any_has_generics(tys) {
        None
    } else {
        lower_tys(tcxt, tys, fuel)
    }
}

impl Ty {
    /// The type in the lowered program, where it can be lowered and holds
    /// no type parameter.
    pub fn lower_plain<'ast>(tcxt: &TyCheckRes<'ast>, ty: &ast::Ty, fuel: usize) -> (r: Option<Self>)
        ensures
            r is Some == plain_lowerable(tcxt.env(), fuel as nat, ty@),
            r matches Some(x) ==> ty_lowered(tcxt.env(), fuel as nat, ty@, x) && x@ == ty@,
    {
        if ty.has_generics() {
            None
        } else {
            let r = Ty::lower(tcxt, ty, fuel);
            proof {
                if r is Some {
                    lemma_lowered_view(tcxt.env(), fuel as nat, ty@, r->0);
                }
            }
            r
        }
    }

    /// The type in the lowered program, where it can be lowered: each
    /// struct and enum carries its definition, `fuel` definitions deep.
    pub fn lower<'ast>(tcxt: &TyCheckRes<'ast>, ty: &ast::Ty, fuel: usize) -> (r: Option<Self>)
        ensures
            r is Some == lowerable(tcxt.env(), fuel as nat, ty@),
            r matches Some(x) ==> ty_lowered(tcxt.env(), fuel as nat, ty@, x),
        decreases fuel, 1nat, ty,
    {
        match ty {
            ast::Ty::Array { size, ty: t } => match Ty::lower(tcxt, t, fuel) {
                Some(x) => Some(Ty::Array { size: *size, ty: Box::new(x) }),
                None => None,
            },
            ast::Ty::Struct { ident, gen } => {
                let g = match lower_tys(tcxt, gen, fuel) {
                    Some(g) => g,
                    None => {
                        return None;
                    },
                };
                match tcxt.name_struct.get(&ident.id) {
                    Some(s) => match Struct::lower(tcxt, s, fuel) {
                        Some(def) => Some(Ty::Struct { ident: *ident, gen: g, def }),
                        None => None,
                    },
                    None => None,
                }
            },
            ast::Ty::Enum { ident, gen } => {
                let g = match lower_tys(tcxt, gen, fuel) {
                    Some(g) => g,
                    None => {
                        return None;
                    },
                };
                match tcxt.name_enum.get(&ident.id) {
                    Some(e) => match Enum::lower(tcxt, e, fuel) {
                        Some(def) => Some(Ty::Enum { ident: *ident, gen: g, def }),
                        None => None,
                    },
                    None => None,
                }
            },
            ast::Ty::Ptr(t) => match Ty::lower(tcxt, t, fuel) {
                Some(x) => Some(Ty::Ptr(Box::new(x))),
                None => None,
            },
            ast::Ty::Ref(t) => match Ty::lower(tcxt, t, fuel) {
                Some(x) => Some(Ty::Ref(Box::new(x))),
                None => None,
            },
            ast::Ty::String => Some(Ty::String),
            ast::Ty::Int => Some(Ty::Int),
            ast::Ty::Char => Some(Ty::Char),
            ast::Ty::Float => Some(Ty::Float),
            ast::Ty::Bool => Some(Ty::Bool),
            ast::Ty::Void => Some(Ty::Void),
            ast::Ty::Generic { ident, bound } => Some(
                Ty::Generic {
                    ident: *ident,
                    bound: match bound {
                        Some(p) => Some(p.clone()),
                        None => None,
                    },
                },
            ),
            ast::Ty::Path(_) => None,
            ast::Ty::Func { .. } => None,
        }
    }
}

impl Param {
    /// The parameter in the lowered program, where its type can be lowered.
    pub fn lower<'ast>(tcxt: &TyCheckRes<'ast>, v: &ast::Param, fuel: usize) -> (r: Option<Self>)
        ensures
            r is Some == lowerable(tcxt.env(), fuel as nat, v.ty@),
            r matches Some(p) ==> p.ident == v.ident && ty_lowered(
                tcxt.env(),
                fuel as nat,
                v.ty@,
                p.ty,
            ),
    {
        match Ty::lower(tcxt, &v.ty, fuel) {
            Some(ty) => Some(Param { ident: v.ident, ty }),
            None => None,
        }
    }
}

/// A field with its initial value and the field's declared type.
#[derive(Debug)]
pub struct FieldInit {
    pub ident: Ident,
    pub init: Expr,
    pub ty: Ty,
}

/// An expression of the lowered program. Each expression carries its type:
/// in a field of its own, or in the definition it carries.
#[derive(Debug)]
#[allow(inconsistent_fields)]
pub enum Expr {
    /// A named variable `a`.
    Ident { ident: Ident, ty: Ty },
    /// `indir` dereferences of a pointer.
    Deref { indir: usize, expr: Box<Expr>, ty: Ty },
    /// The address of a place.
    AddrOf(Box<Expr>),
    /// An indexed array, one expression for each dimension.
    Array { ident: Ident, exprs: Vec<Expr>, ty: Ty },
    /// A unary operation.
    Urnary { op: UnOp, expr: Box<Expr>, ty: Ty },
    /// A binary operation.
    Binary { op: BinOp, lhs: Box<Expr>, rhs: Box<Expr>, ty: Ty },
    /// An expression in parentheses.
    Parens(Box<Expr>),
    /// A call; `def` is the signature of what is called.
    Call { path: Path, args: Vec<Expr>, type_args: Vec<Ty>, def: Func },
    /// A call of a trait's method that is not resolved to an
    /// implementation.
    TraitMeth { trait_: Path, args: Vec<Expr>, type_args: Vec<Ty>, def: Impl },
    /// A field of a struct; `field_idx` is the place of the field among the
    /// fields of `def`.
    FieldAccess { lhs: Box<Expr>, def: Struct, rhs: Box<Expr>, field_idx: u32 },
    /// A struct initializer.
    StructInit { path: Path, fields: Vec<FieldInit>, def: Struct },
    /// An enum initializer.
    EnumInit { path: Path, variant: Ident, items: Vec<Expr>, def: Enum },
    /// An array initializer.
    ArrayInit { items: Vec<Expr>, ty: Ty },
    /// A literal.
    Value(Val),
}

/// A place that can be assigned to.
#[derive(Debug)]
pub enum LValue {
    /// A named variable `a`.
    Ident { ident: Ident, ty: Ty },
    /// `indir` dereferences of a pointer.
    Deref { indir: usize, expr: Box<LValue>, ty: Ty },
    /// An indexed array, one expression for each dimension.
    Array { ident: Ident, exprs: Vec<Expr>, ty: Ty },
    /// A field of a struct; `field_idx` is the place of the field among the
    /// fields of `def`.
    FieldAccess { lhs: Box<LValue>, def: Struct, rhs: Box<LValue>, field_idx: u32 },
}

#[derive(Debug)]
pub struct Block {
    pub stmts: Vec<Stmt>,
}

#[derive(Debug)]
pub enum Binding {
    Wild(Ident),
    Value(Val),
}

#[derive(Debug)]
pub enum Pat {
    /// An enum variant; `idx` is the place of the variant among the
    /// variants of its enum.
    Enum { path: Path, variant: Ident, idx: usize, items: Vec<Pat> },
    Array { size: usize, items: Vec<Pat> },
    Bind(Binding),
}

#[derive(Debug)]
pub struct MatchArm {
    pub pat: Pat,
    pub blk: Block,
}

#[derive(Debug)]
pub struct CallExpr {
    pub path: Path,
    pub args: Vec<Expr>,
    pub type_args: Vec<Ty>,
}

#[derive(Debug)]
pub struct TraitMethExpr {
    pub trait_: Path,
    pub args: Vec<Expr>,
    pub type_args: Vec<Ty>,
}

/// A named value with its type and initial value.
#[derive(Debug)]
pub struct Const {
    pub ty: Ty,
    pub ident: Ident,
    pub init: Expr,
    pub is_global: bool,
}

#[derive(Debug)]
#[allow(inconsistent_fields)]
pub enum Stmt {
    /// A constant declaration.
    Const(Const),
    /// An assignment `lval = rval;`.
    Assign { lval: LValue, rval: Expr },
    /// A call as a statement; `def` is the signature of what is called.
    Call { expr: CallExpr, def: Func },
    /// A call of a trait's method that is not resolved to an
    /// implementation.
    TraitMeth { expr: TraitMethExpr, def: Impl },
    If { cond: Expr, blk: Block, els: Option<Block> },
    While { cond: Expr, stmts: Block },
    /// A match; `ty` is the type of what is matched on.
    Match { expr: Expr, arms: Vec<MatchArm>, ty: Ty },
    Read(Expr),
    Write { expr: Expr },
    /// A return with the type of the returned value.
    Ret(Expr, Ty),
    /// A return from a function without a value.
    Exit,
    Block(Block),
}

#[derive(Debug)]
pub struct Func {
    /// The type of the function's result.
    pub ret: Ty,
    pub ident: Ident,
    /// The type parameters that are left.
    pub generics: Vec<Ty>,
    pub params: Vec<Param>,
    pub stmts: Vec<Stmt>,
}

/// A trait's one method, with a default body or without.
#[derive(Debug)]
pub enum TraitMethod {
    Default(Func),
    NoBody(Func),
}

impl TraitMethod {
    /// The method's declaration.
    pub open spec fn func(self) -> Func {
        match self {
            TraitMethod::Default(f) => f,
            TraitMethod::NoBody(f) => f,
        }
    }

    /// The method's declaration.
    pub fn function(&self) -> (r: &Func)
        ensures
            *r == self.func(),
    {
        match self {
            TraitMethod::Default(f) => f,
            TraitMethod::NoBody(f) => f,
        }
    }
}

#[derive(Debug)]
pub struct Trait {
    pub ident: Ident,
    pub generics: Vec<Ty>,
    pub method: TraitMethod,
}

#[derive(Debug)]
pub struct Impl {
    pub ident: Path,
    pub type_arguments: Vec<Ty>,
    pub method: Func,
}

#[derive(Debug)]
pub enum Item {
    Adt(Adt),
    Func(Func),
    Trait(Trait),
    Impl(Impl),
    Const(Const),
}

fn clone_generics(gs: &Vec<Generic>) -> (r: Vec<Generic>)
    ensures
        r@.len() == gs@.len(),
        forall|i: int|
            0 <= i < gs@.len() ==> (#[trigger] r@[i]).ident == gs@[i].ident && view_bound(
                r@[i].bound,
            ) == view_bound(gs@[i].bound),
{
    let mut out: Vec<Generic> = Vec::new();
    let mut i: usize = 0;
    while i < gs.len()
        invariant
            i <= gs.len(),
            out@.len() == i,
            forall|j: int|
                0 <= j < i ==> (#[trigger] out@[j]).ident == gs@[j].ident && view_bound(
                    out@[j].bound,
                ) == view_bound(gs@[j].bound),
        decreases gs.len() - i,
    {
        out.push(
            Generic {
                ident: gs[i].ident,
                bound: match &gs[i].bound {
                    Some(p) => Some(p.clone()),
                    None => None,
                },
            },
        );
        i += 1;
    }
    out
}

fn clone_ir_tys(tys: &Vec<Ty>) -> (r: Vec<Ty>)
    ensures
        ir_view_tys(r@) == ir_view_tys(tys@),
    decreases tys,
{
    let mut out: Vec<Ty> = Vec::new();
    let mut i: usize = 0;
    while i < tys.len()
        invariant
            i <= tys.len(),
            out@.len() == i,
            forall|j: int| 0 <= j < i ==> (#[trigger] out@[j])@ == tys@[j]@,
        decreases tys.len() - i,
    {
        let t = tys[i].clone();
        out.push(t);
        i += 1;
    }
    assert(ir_view_tys(out@) =~= ir_view_tys(tys@));
    out
}

impl Clone for Struct {
    fn clone(&self) -> (r: Self)
        ensures
            r.ident == self.ident,
            r.fields@.len() == self.fields@.len(),
            forall|i: int|
                0 <= i < self.fields@.len() ==> (#[trigger] r.fields@[i]).ident
                    == self.fields@[i].ident && r.fields@[i].ty@ == self.fields@[i].ty@,
        decreases self,
    {
        let mut fields: Vec<Field> = Vec::new();
        let mut i: usize = 0;
        while i < self.fields.len()
            invariant
                i <= self.fields.len(),
                fields@.len() == i,
                forall|j: int|
                    0 <= j < i ==> (#[trigger] fields@[j]).ident == self.fields@[j].ident
                        && fields@[j].ty@ == self.fields@[j].ty@,
            decreases self.fields.len() - i,
        {
            let ty = self.fields[i].ty.clone();
            fields.push(Field { ident: self.fields[i].ident, ty });
            i += 1;
        }
        Struct { ident: self.ident, fields, generics: clone_generics(&self.generics) }
    }
}

impl Clone for Enum {
    fn clone(&self) -> (r: Self)
        ensures
            r.ident == self.ident,
            r.variants@.len() == self.variants@.len(),
        decreases self,
    {
        let mut variants: Vec<Variant> = Vec::new();
        let mut i: usize = 0;
        while i < self.variants.len()
            invariant
                i <= self.variants.len(),
                variants@.len() == i,
            decreases self.variants.len() - i,
        {
            let types = clone_ir_tys(&self.variants[i].types);
            variants.push(Variant { ident: self.variants[i].ident, types });
            i += 1;
        }
        Enum { ident: self.ident, variants, generics: clone_generics(&self.generics) }
    }
}

impl Clone for Ty {
    fn clone(&self) -> (r: Self)
        ensures
            r@ == self@,
        decreases self,
    {
        match self {
            Ty::Generic { ident, bound } => Ty::Generic {
                ident: *ident,
                bound: match bound {
                    Some(p) => Some(p.clone()),
                    None => None,
                },
            },
            Ty::Array { size, ty } => Ty::Array { size: *size, ty: Box::new((**ty).clone()) },
            Ty::Struct { ident, gen, def } => Ty::Struct {
                ident: *ident,
                gen: clone_ir_tys(gen),
                def: def.clone(),
            },
            Ty::Enum { ident, gen, def } => Ty::Enum {
                ident: *ident,
                gen: clone_ir_tys(gen),
                def: def.clone(),
            },
            Ty::Ptr(t) => Ty::Ptr(Box::new((**t).clone())),
            Ty::Ref(t) => Ty::Ref(Box::new((**t).clone())),
            Ty::String => Ty::String,
            Ty::Int => Ty::Int,
            Ty::Char => Ty::Char,
            Ty::Float => Ty::Float,
            Ty::Bool => Ty::Bool,
            Ty::Void => Ty::Void,
        }
    }
}

/// The type parameters of a declaration as types.
pub open spec fn generic_tys(gs: Seq<Generic>) -> Seq<SpecTy> {
    Seq::new(gs.len(), |i: int| SpecTy::Generic { ident: gs[i].ident, bound: view_bound(gs[i].bound) })
}

fn generics_to_tys(gs: &Vec<Generic>) -> (r: Vec<Ty>)
    ensures
        ir_view_tys(r@) == generic_tys(gs@),
{
    let mut out: Vec<Ty> = Vec::new();
    let mut i: usize = 0;
    while i < gs.len()
        invariant
            i <= gs.len(),
            out@.len() == i,
            forall|j: int| 0 <= j < i ==> (#[trigger] out@[j])@ == generic_tys(gs@)[j],
        decreases gs.len() - i,
    {
        out.push(gs[i].to_type());
        i += 1;
    }
    assert(ir_view_tys(out@) =~= generic_tys(gs@));
    out
}

impl Expr {
    /// What the type that an expression carries denotes.
    pub open spec fn ty_view(self) -> SpecTy
        decreases self,
    {
        match self {
            Expr::Ident { ty, .. } => ty@,
            Expr::Deref { ty, .. } => ty@,
            Expr::AddrOf(e) => e.ty_view(),
            Expr::Array { ty, .. } => ty@,
            Expr::Urnary { ty, .. } => ty@,
            Expr::Binary { ty, .. } => ty@,
            Expr::Parens(e) => e.ty_view(),
            Expr::Call { def, .. } => def.ret@,
            Expr::TraitMeth { def, .. } => def.method.ret@,
            Expr::FieldAccess { def, field_idx, .. } => def.fields@[field_idx as int].ty@,
            Expr::StructInit { def, .. } => SpecTy::Struct {
                ident: def.ident,
                gen: generic_tys(def.generics@),
            },
            Expr::EnumInit { def, .. } => SpecTy::Enum {
                ident: def.ident,
                gen: generic_tys(def.generics@),
            },
            Expr::ArrayInit { ty, .. } => ty@,
            Expr::Value(v) => match v {
                Val::Float(_) => SpecTy::Float,
                Val::Int(_) => SpecTy::Int,
                Val::Char(_) => SpecTy::Char,
                Val::Bool(_) => SpecTy::Bool,
                Val::Str(_) => SpecTy::String,
            },
        }
    }

    /// `true` when each field access in the expression names a field that
    /// the struct it carries has.
    pub open spec fn fields_in_range(self) -> bool
        decreases self,
    {
        match self {
            Expr::AddrOf(e) => e.fields_in_range(),
            Expr::Parens(e) => e.fields_in_range(),
            Expr::FieldAccess { def, field_idx, .. } => field_idx < def.fields@.len(),
            _ => true,
        }
    }

    /// The type that the expression carries: the type in its own field;
    /// for an address and for parentheses that of the expression in them;
    /// for a call the result of the signature; for a field access the type
    /// of the field; for an initializer the struct or enum with its type
    /// parameters; for a literal its own type.
    pub fn type_of(&self) -> (r: Ty)
        requires
            self.fields_in_range(),
        ensures
            r@ == self.ty_view(),
        decreases self,
    {
        match self {
            Expr::Ident { ty, .. } => ty.clone(),
            Expr::Deref { ty, .. } => ty.clone(),
            Expr::AddrOf(e) => e.type_of(),
            Expr::Array { ty, .. } => ty.clone(),
            Expr::Urnary { ty, .. } => ty.clone(),
            Expr::Binary { ty, .. } => ty.clone(),
            Expr::Parens(e) => e.type_of(),
            Expr::Call { def, .. } => def.ret.clone(),
            Expr::TraitMeth { def, .. } => def.method.ret.clone(),
            Expr::FieldAccess { def, field_idx, .. } => def.fields[*field_idx as usize].ty.clone(),
            Expr::StructInit { def, .. } => Ty::Struct {
                ident: def.ident,
                gen: generics_to_tys(&def.generics),
                def: def.clone(),
            },
            Expr::EnumInit { def, .. } => Ty::Enum {
                ident: def.ident,
                gen: generics_to_tys(&def.generics),
                def: def.clone(),
            },
            Expr::ArrayInit { ty, .. } => ty.clone(),
            Expr::Value(v) => v.type_of(),
        }
    }
}

impl Ty {
    /// `true` for a type that has a null value: a pointer, a dereference
    /// layer, or a primitive but `Void`.
    pub open spec fn has_null(self) -> bool {
        match self {
            Ty::Ptr(_) | Ty::Ref(_) | Ty::String | Ty::Int | Ty::Float | Ty::Char | Ty::Bool => true,
            _ => false,
        }
    }

    /// The literal that stands for the null value of the type.
    pub fn null_val(&self) -> (r: Val)
        requires
            self.has_null(),
        ensures
            r == Val::Int(1),
    {
        Val::Int(1)
    }
}

/// The sizes of the first `n` fields, added up.
pub open spec fn fields_size(fs: Seq<Field>, n: nat) -> nat
    decreases fs, n,
{
    if n == 0 || n > fs.len() {
        0
    } else {
        fields_size(fs, (n - 1) as nat) + spec_size(fs[n - 1].ty)
    }
}

/// The sizes of the first `n` types, added up.
pub open spec fn tys_size(tys: Seq<Ty>, n: nat) -> nat
    decreases tys, n,
{
    if n == 0 || n > tys.len() {
        0
    } else {
        tys_size(tys, (n - 1) as nat) + spec_size(tys[n - 1])
    }
}

/// The sizes of the payloads of the first `n` variants, added up.
pub open spec fn variants_size(vs: Seq<Variant>, n: nat) -> nat
    decreases vs, n,
{
    if n == 0 || n > vs.len() {
        0
    } else {
        variants_size(vs, (n - 1) as nat) + tys_size(vs[n - 1].types@, vs[n - 1].types@.len())
    }
}

/// The size of a value of the type in bytes: 8 for a pointer, a
/// dereference layer, a string, an `Int`, a `Char` and a `Float`, 4 for a
/// `Bool`, 0 for `Void`; for an array the size of an item times the number
/// of items; for a struct the sizes of its fields added up; for an enum the
/// sizes of the payloads of all its variants added up. A type parameter
/// has no size; it counts as 0.
pub open spec fn spec_size(t: Ty) -> nat
    decreases t,
{
    match t {
        Ty::Array { size, ty } => spec_size(*ty) * (size as nat),
        Ty::Struct { def, .. } => fields_size(def.fields@, def.fields@.len()),
        Ty::Enum { def, .. } => variants_size(def.variants@, def.variants@.len()),
        Ty::Ptr(_) => 8,
        Ty::Ref(_) => 8,
        Ty::String => 8,
        Ty::Int => 8,
        Ty::Char => 8,
        Ty::Float => 8,
        Ty::Bool => 4,
        Ty::Void => 0,
        Ty::Generic { .. } => 0,
    }
}

/// `true` when no type parameter stands where the size of the type is
/// taken from.
pub open spec fn sized(t: Ty) -> bool
    decreases t,
{
    match t {
        Ty::Array { ty, .. } => sized(*ty),
        Ty::Struct { def, .. } => forall|i: int|
            0 <= i < def.fields@.len() ==> sized((#[trigger] def.fields@[i]).ty),
        Ty::Enum { def, .. } => forall|i: int, j: int|
            0 <= i < def.variants@.len() && 0 <= j < def.variants@[i].types@.len() ==> sized(
                #[trigger] def.variants@[i].types@[j],
            ),
        Ty::Generic { .. } => false,
        _ => true,
    }
}

/// The sizes of fewer fields add up to no more.
pub proof fn lemma_fields_size_mono(fs: Seq<Field>, n: nat, m: nat)
    requires
        n <= m <= fs.len(),
    ensures
        fields_size(fs, n) <= fields_size(fs, m),
    decreases m - n,
{
    if n < m {
        lemma_fields_size_mono(fs, n, (m - 1) as nat);
    }
}

/// The sizes of fewer types add up to no more.
pub proof fn lemma_tys_size_mono(tys: Seq<Ty>, n: nat, m: nat)
    requires
        n <= m <= tys.len(),
    ensures
        tys_size(tys, n) <= tys_size(tys, m),
    decreases m - n,
{
    if n < m {
        lemma_tys_size_mono(tys, n, (m - 1) as nat);
    }
}

/// The sizes of the payloads of fewer variants add up to no more.
pub proof fn lemma_variants_size_mono(vs: Seq<Variant>, n: nat, m: nat)
    requires
        n <= m <= vs.len(),
    ensures
        variants_size(vs, n) <= variants_size(vs, m),
    decreases m - n,
{
    if n < m {
        lemma_variants_size_mono(vs, n, (m - 1) as nat);
    }
}

fn tys_total(tys: &Vec<Ty>) -> (r: usize)
    requires
        tys_size(tys@, tys@.len()) <= usize::MAX,
        forall|j: int| 0 <= j < tys@.len() ==> sized(#[trigger] tys@[j]),
    ensures
        r == tys_size(tys@, tys@.len()),
    decreases tys,
{
    let mut total: usize = 0;
    let mut i: usize = 0;
    while i < tys.len()
        invariant
            i <= tys.len(),
            total == tys_size(tys@, i as nat),
            tys_size(tys@, tys@.len()) <= usize::MAX,
            forall|j: int| 0 <= j < tys@.len() ==> sized(#[trigger] tys@[j]),
        decreases tys.len() - i,
    {
        proof {
            lemma_tys_size_mono(tys@, (i + 1) as nat, tys@.len());
        }
        let one = tys[i].size();
        total = total + one;
        i += 1;
    }
    total
}

impl Ty {
    /// The size of a value of the type in bytes.
    pub fn size(&self) -> (r: usize)
        requires
            sized(*self),
            spec_size(*self) <= usize::MAX,
        ensures
            r == spec_size(*self),
        decreases self,
    {
        match self {
            Ty::Array { size, ty } => {
                let ghost inner = spec_size(**ty);
                let ghost n = *size as nat;
                if *size == 0 {
                    assert(inner * n == 0) by (nonlinear_arith)
                        requires
                            n == 0,
                    ;
                    0
                } else {
                    assert(inner <= inner * n) by (nonlinear_arith)
                        requires
                            n >= 1,
                    ;
                    let one = ty.size();
                    one * *size
                }
            },
            Ty::Struct { def, .. } => {
                let mut total: usize = 0;
                let mut i: usize = 0;
                while i < def.fields.len()
                    invariant
                        i <= def.fields.len(),
                        *self matches Ty::Struct { def: d, .. } && d == def,
                        total == fields_size(def.fields@, i as nat),
                        fields_size(def.fields@, def.fields@.len()) <= usize::MAX,
                        forall|j: int|
                            0 <= j < def.fields@.len() ==> sized((#[trigger] def.fields@[j]).ty),
                    decreases def.fields.len() - i,
                {
                    proof {
                        lemma_fields_size_mono(def.fields@, (i + 1) as nat, def.fields@.len());
                    }
                    let one = def.fields[i].ty.size();
                    total = total + one;
                    i += 1;
                }
                total
            },
            Ty::Enum { def, .. } => {
                let mut total: usize = 0;
                let mut i: usize = 0;
                while i < def.variants.len()
                    invariant
                        i <= def.variants.len(),
                        *self matches Ty::Enum { def: d, .. } && d == def,
                        total == variants_size(def.variants@, i as nat),
                        variants_size(def.variants@, def.variants@.len()) <= usize::MAX,
                        forall|a: int, b: int|
                            0 <= a < def.variants@.len() && 0 <= b < def.variants@[a].types@.len()
                                ==> sized(#[trigger] def.variants@[a].types@[b]),
                    decreases def.variants.len() - i,
                {
                    proof {
                        lemma_variants_size_mono(def.variants@, (i + 1) as nat, def.variants@.len());
                    }
                    let one = tys_total(&def.variants[i].types);
                    total = total + one;
                    i += 1;
                }
                total
            },
            Ty::Ptr(_) => 8,
            Ty::Ref(_) => 8,
            Ty::String => 8,
            Ty::Int => 8,
            Ty::Char => 8,
            Ty::Float => 8,
            Ty::Bool => 4,
            Ty::Void => 0,
            Ty::Generic { .. } => 0,
        }
    }
}

} // verus!
