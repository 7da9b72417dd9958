use vstd::prelude::*;

verus! {

/// A half-open region `start..end` of the source file `file_id`.
#[derive(Clone, Copy, Debug, PartialEq, Eq, Structural)]
pub struct Range {
    pub start: usize,
    pub end: usize,
    pub file_id: usize,
}

impl Range {
    /// The span given to nodes that have no place in the source.
    pub fn dummy() -> (r: Range)
        ensures
            r == (Range { start: 0, end: 0, file_id: 0 }),
    {
        Range { start: 0, end: 0, file_id: 0 }
    }

    /// `true` when `inner` lies wholly inside `self`.
    pub open spec fn covers(self, inner: Range) -> bool {
        self.start <= inner.start && inner.end <= self.end
    }

    /// `true` when the two regions share no position.
    pub open spec fn disjoint(self, other: Range) -> bool {
        self.end <= other.start || other.end <= self.start
    }

    /// `true` when `inner` lies within this region.
    pub fn contains(&self, inner: &Range) -> (r: bool)
        ensures
            r == self.covers(*inner),
    {
        self.start <= inner.start && inner.end <= self.end
    }

    /// `true` when the two regions share no position.
    pub fn is_disjoint(&self, other: &Range) -> (r: bool)
        ensures
            r == self.disjoint(*other),
    {
        self.end <= other.start || other.end <= self.start
    }
}

/// An interned name. Two identifiers are the same name exactly when their
/// ids are equal.
#[derive(Clone, Copy, Debug, PartialEq, Eq, Structural)]
pub struct Ident {
    pub id: usize,
}

/// A non-empty sequence of names, `a::b::c`.
#[derive(Debug)]
pub struct Path {
    pub segs: Vec<Ident>,
    pub span: Range,
}

impl View for Path {
    type V = Seq<Ident>;

    open spec fn view(&self) -> Seq<Ident> {
        self.segs@
    }
}

impl Clone for Path {
    fn clone(&self) -> (r: Self)
        ensures
            r@ == self@,
            r.span == self.span,
    {
        let mut segs: Vec<Ident> = Vec::new();
        let mut i: usize = 0;
        while i < self.segs.len()
            invariant
                i <= self.segs.len(),
                segs@ == self.segs@.subrange(0, i as int),
            decreases self.segs.len() - i,
        {
            segs.push(self.segs[i]);
            i += 1;
        }
        assert(segs@ == self.segs@);
        Path { segs, span: self.span }
    }
}

impl Path {
    /// A path of one segment.
    pub fn single(ident: Ident) -> (r: Self)
        ensures
            r@ == seq![ident],
    {
        let mut segs: Vec<Ident> = Vec::new();
        segs.push(ident);
        Path { segs, span: Range::dummy() }
    }

    /// The last segment: the name the path denotes in its own module.
    pub fn local_ident(&self) -> (r: Option<Ident>)
        ensures
            r == (if self@.len() > 0 { Some(self@.last()) } else { None }),
    {
        if self.segs.len() > 0 {
            Some(self.segs[self.segs.len() - 1])
        } else {
            None
        }
    }

    /// `true` when the two paths have the same names in the same order.
    pub fn is_path_eq(&self, other: &Path) -> (r: bool)
        ensures
            r == (self@ == other@),
    {
        if self.segs.len() != other.segs.len() {
            return false;
        }
        let mut i: usize = 0;
        while i < self.segs.len()
            invariant
                i <= self.segs.len(),
                self.segs.len() == other.segs.len(),
                forall|j: int| 0 <= j < i ==> self.segs@[j] == other.segs@[j],
            decreases self.segs.len() - i,
        {
            if self.segs[i] != other.segs[i] {
                return false;
            }
            i += 1;
        }
        assert(self@ =~= other@);
        true
    }
}

/// The mathematical model of a type: what [`Ty`] denotes, with sequences in
/// place of vectors.
pub enum SpecTy {
    Generic { ident: Ident, bound: Option<Seq<Ident>> },
    Array { size: usize, ty: Box<SpecTy> },
    Struct { ident: Ident, gen: Seq<SpecTy> },
    Enum { ident: Ident, gen: Seq<SpecTy> },
    Ptr(Box<SpecTy>),
    Ref(Box<SpecTy>),
    String,
    Int,
    Char,
    Float,
    Bool,
    Void,
    Func { ident: Ident, ret: Box<SpecTy>, params: Seq<SpecTy> },
    Path(Seq<Ident>),
}

/// The position of the first `ident` in `names`, or `names.len()` if there
/// is none.
pub open spec fn position_of(names: Seq<Ident>, ident: Ident) -> nat
    decreases names.len(),
{
    if names.len() == 0 {
        0
    } else if names[0] == ident {
        0
    } else {
        1 + position_of(names.drop_first(), ident)
    }
}

/// The place that [`position_of`] gives is the first place of the name, if the name is held.
pub proof fn lemma_position_of(names: Seq<Ident>, ident: Ident)
    ensures
        position_of(names, ident) <= names.len(),
        position_of(names, ident) < names.len() ==> names[position_of(names, ident) as int]
            == ident,
        forall|j: int| 0 <= j < position_of(names, ident) ==> names[j] != ident,
        names.contains(ident) <==> position_of(names, ident) < names.len(),
    decreases names.len(),
{
    if names.len() == 0 {
    } else if names[0] == ident {
    } else {
        let rest = names.drop_first();
        lemma_position_of(rest, ident);
        assert forall|j: int| 0 <= j < position_of(names, ident) implies names[j] != ident by {
            if j > 0 {
                assert(names[j] == rest[j - 1]);
            }
        }
        if names.contains(ident) {
            let k = choose|k: int| 0 <= k < names.len() && names[k] == ident;
            assert(rest[k - 1] == ident);
        }
        if position_of(names, ident) < names.len() {
            assert(names[position_of(names, ident) as int] == rest[position_of(rest, ident) as int]);
        }
    }
}

/// `true` when a type parameter occurs in one of `tys`.
pub open spec fn seq_has_generics(tys: Seq<SpecTy>) -> bool
    decreases tys,
{
    exists|i: int| 0 <= i < tys.len() && (#[trigger] tys[i]).has_generics()
}

/// `true` when an unresolved nominal reference occurs in one of `tys`.
pub open spec fn seq_has_path(tys: Seq<SpecTy>) -> bool
    decreases tys,
{
    exists|i: int| 0 <= i < tys.len() && (#[trigger] tys[i]).has_path()
}

/// `true` when the parameter `g` occurs in one of `tys`.
pub open spec fn seq_mentions(tys: Seq<SpecTy>, g: Ident) -> bool
    decreases tys,
{
    exists|i: int| 0 <= i < tys.len() && (#[trigger] tys[i]).mentions(g)
}

/// `true` when every type parameter that occurs in `tys` is one of
/// `declared`.
pub open spec fn seq_generics_within(tys: Seq<SpecTy>, declared: Seq<Ident>) -> bool
    decreases tys,
{
    forall|i: int| 0 <= i < tys.len() ==> (#[trigger] tys[i]).generics_within(declared)
}

/// Each type of `tys` with the parameter `g` replaced by `with`.
pub open spec fn seq_subst(tys: Seq<SpecTy>, g: Ident, with: SpecTy) -> Seq<SpecTy>
    decreases tys,
{
    Seq::new(
        tys.len(),
        |i: int|
            if 0 <= i < tys.len() {
                tys[i].subst(g, with)
            } else {
                SpecTy::Void
            },
    )
}

/// Each type of `tys` with the parameters `params` replaced by `args`.
pub open spec fn seq_subst_all(tys: Seq<SpecTy>, params: Seq<Ident>, args: Seq<SpecTy>) -> Seq<
    SpecTy,
>
    decreases tys,
{
    Seq::new(
        tys.len(),
        |i: int|
            if 0 <= i < tys.len() {
                tys[i].subst_all(params, args)
            } else {
                SpecTy::Void
            },
    )
}

impl SpecTy {
    /// `true` when a type parameter occurs anywhere in the type.
    pub open spec fn has_generics(self) -> bool
        decreases self,
    {
        match self {
            SpecTy::Generic { .. } => true,
            SpecTy::Array { ty, .. } => ty.has_generics(),
            SpecTy::Struct { gen, .. } => seq_has_generics(gen),
            SpecTy::Enum { gen, .. } => seq_has_generics(gen),
            SpecTy::Ptr(t) => t.has_generics(),
            SpecTy::Ref(t) => t.has_generics(),
            SpecTy::Func { ret, params, .. } => ret.has_generics() || seq_has_generics(params),
            _ => false,
        }
    }

    /// `true` when an unresolved nominal reference occurs anywhere in the
    /// type.
    pub open spec fn has_path(self) -> bool
        decreases self,
    {
        match self {
            SpecTy::Path(_) => true,
            SpecTy::Array { ty, .. } => ty.has_path(),
            SpecTy::Struct { gen, .. } => seq_has_path(gen),
            SpecTy::Enum { gen, .. } => seq_has_path(gen),
            SpecTy::Ptr(t) => t.has_path(),
            SpecTy::Ref(t) => t.has_path(),
            SpecTy::Func { ret, params, .. } => ret.has_path() || seq_has_path(params),
            _ => false,
        }
    }

    /// A type is concrete when it holds neither a type parameter nor an
    /// unresolved nominal reference; only such types reach lowering.
    pub open spec fn is_concrete(self) -> bool {
        !self.has_generics() && !self.has_path()
    }

    /// `true` when the type parameter `g` occurs in the type.
    pub open spec fn mentions(self, g: Ident) -> bool
        decreases self,
    {
        match self {
            SpecTy::Generic { ident, .. } => ident == g,
            SpecTy::Array { ty, .. } => ty.mentions(g),
            SpecTy::Struct { gen, .. } => seq_mentions(gen, g),
            SpecTy::Enum { gen, .. } => seq_mentions(gen, g),
            SpecTy::Ptr(t) => t.mentions(g),
            SpecTy::Ref(t) => t.mentions(g),
            SpecTy::Func { ret, params, .. } => ret.mentions(g) || seq_mentions(params, g),
            _ => false,
        }
    }

    /// `true` when every type parameter that occurs in the type is one of
    /// `declared`.
    pub open spec fn generics_within(self, declared: Seq<Ident>) -> bool
        decreases self,
    {
        match self {
            SpecTy::Generic { ident, .. } => declared.contains(ident),
            SpecTy::Array { ty, .. } => ty.generics_within(declared),
            SpecTy::Struct { gen, .. } => seq_generics_within(gen, declared),
            SpecTy::Enum { gen, .. } => seq_generics_within(gen, declared),
            SpecTy::Ptr(t) => t.generics_within(declared),
            SpecTy::Ref(t) => t.generics_within(declared),
            SpecTy::Func { ret, params, .. } => ret.generics_within(declared) && seq_generics_within(params, declared),
            _ => true,
        }
    }

    /// The type with every occurrence of the parameter `g` replaced by `with`.
    pub open spec fn subst(self, g: Ident, with: SpecTy) -> SpecTy
        decreases self,
    {
        match self {
            SpecTy::Generic { ident, .. } => if ident == g {
                with
            } else {
                self
            },
            SpecTy::Array { size, ty } => SpecTy::Array { size, ty: Box::new(ty.subst(g, with)) },
            SpecTy::Struct { ident, gen } => SpecTy::Struct {
                ident,
                gen: seq_subst(gen, g, with),
            },
            SpecTy::Enum { ident, gen } => SpecTy::Enum {
                ident,
                gen: seq_subst(gen, g, with),
            },
            SpecTy::Ptr(t) => SpecTy::Ptr(Box::new(t.subst(g, with))),
            SpecTy::Ref(t) => SpecTy::Ref(Box::new(t.subst(g, with))),
            SpecTy::Func { ident, ret, params } => SpecTy::Func {
                ident,
                ret: Box::new(ret.subst(g, with)),
                params: seq_subst(params, g, with),
            },
            _ => self,
        }
    }

    /// The type with each parameter `params[i]` replaced by `args[i]`, all at
    /// once. A parameter that is not among `params`, or whose position has no
    /// argument, stays.
    pub open spec fn subst_all(self, params: Seq<Ident>, args: Seq<SpecTy>) -> SpecTy
        decreases self,
    {
        match self {
            SpecTy::Generic { ident, .. } => if position_of(params, ident) < params.len()
                && position_of(params, ident) < args.len() {
                args[position_of(params, ident) as int]
            } else {
                self
            },
            SpecTy::Array { size, ty } => SpecTy::Array {
                size,
                ty: Box::new(ty.subst_all(params, args)),
            },
            SpecTy::Struct { ident, gen } => SpecTy::Struct {
                ident,
                gen: seq_subst_all(gen, params, args),
            },
            SpecTy::Enum { ident, gen } => SpecTy::Enum {
                ident,
                gen: seq_subst_all(gen, params, args),
            },
            SpecTy::Ptr(t) => SpecTy::Ptr(Box::new(t.subst_all(params, args))),
            SpecTy::Ref(t) => SpecTy::Ref(Box::new(t.subst_all(params, args))),
            SpecTy::Func { ident, ret, params: ps } => SpecTy::Func {
                ident,
                ret: Box::new(ret.subst_all(params, args)),
                params: seq_subst_all(ps, params, args),
            },
            _ => self,
        }
    }

    /// The type left after `n` layers of pointer or dereference are taken
    /// off, or `None` if the type has fewer than `n`.
    pub open spec fn strip(self, n: nat) -> Option<SpecTy>
        decreases n,
    {
        if n == 0 {
            Some(self)
        } else {
            match self {
                SpecTy::Ptr(t) => t.strip((n - 1) as nat),
                SpecTy::Ref(t) => t.strip((n - 1) as nat),
                _ => None,
            }
        }
    }

    /// The type with one dereference layer taken off, if it has one on top.
    pub open spec fn peel(self) -> SpecTy {
        match self {
            SpecTy::Ref(t) => *t,
            _ => self,
        }
    }

    /// The type under all leading pointer and dereference layers.
    pub open spec fn pointee(self) -> SpecTy
        decreases self,
    {
        match self {
            SpecTy::Ptr(t) => t.pointee(),
            SpecTy::Ref(t) => t.pointee(),
            _ => self,
        }
    }

    /// The type of an item reached by `n` indices, or `None` if the type has
    /// fewer than `n` array layers.
    pub open spec fn index(self, n: nat) -> Option<SpecTy>
        decreases n,
    {
        if n == 0 {
            Some(self)
        } else {
            match self {
                SpecTy::Array { ty, .. } => ty.index((n - 1) as nat),
                _ => None,
            }
        }
    }

    /// The number of array layers on top of the type.
    pub open spec fn array_dim(self) -> nat
        decreases self,
    {
        match self {
            SpecTy::Array { ty, .. } => 1 + ty.array_dim(),
            _ => 0,
        }
    }

    /// A type that may stand as a branch condition.
    pub open spec fn is_truthy(self) -> bool {
        match self {
            SpecTy::Ptr(_) | SpecTy::Ref(_) | SpecTy::String | SpecTy::Int | SpecTy::Char
            | SpecTy::Float | SpecTy::Bool => true,
            _ => false,
        }
    }

    /// One of the built-in types without parts.
    pub open spec fn is_primitive(self) -> bool {
        match self {
            SpecTy::String | SpecTy::Int | SpecTy::Char | SpecTy::Float | SpecTy::Bool
            | SpecTy::Void => true,
            _ => false,
        }
    }
}

/// A type of the source language.
#[derive(Debug)]
pub enum Ty {
    /// An unresolved type parameter `T`, with its trait bound if any.
    Generic { ident: Ident, bound: Option<Path> },
    /// A fixed-size array of `size` items.
    Array { size: usize, ty: Box<Ty> },
    /// A struct by name, with its type arguments.
    Struct { ident: Ident, gen: Vec<Ty> },
    /// An enum by name, with its type arguments.
    Enum { ident: Ident, gen: Vec<Ty> },
    /// A pointer to a value.
    Ptr(Box<Ty>),
    /// One layer of dereference, made when a place is read.
    Ref(Box<Ty>),
    String,
    Int,
    Char,
    Float,
    Bool,
    Void,
    /// A function's generic signature; only used in generic bookkeeping.
    Func { ident: Ident, ret: Box<Ty>, params: Vec<Ty> },
    /// A nominal reference that has not been resolved yet.
    Path(Path),
}

/// The models of a sequence of types, item by item.
pub open spec fn view_tys(tys: Seq<Ty>) -> Seq<SpecTy>
    decreases tys,
{
    Seq::new(
        tys.len(),
        |i: int|
            if 0 <= i < tys.len() {
                ty_model(tys[i])
            } else {
                SpecTy::Void
            },
    )
}

/// What a type denotes.
pub open spec fn ty_model(t: Ty) -> SpecTy
    decreases t,
{
    match t {
        Ty::Generic { ident, bound } => SpecTy::Generic {
            ident,
            bound: match bound {
                Some(p) => Some(p@),
                None => None,
            },
        },
        Ty::Array { size, ty } => SpecTy::Array { size, ty: Box::new(ty_model(*ty)) },
        Ty::Struct { ident, gen } => SpecTy::Struct { ident, gen: view_tys(gen@) },
        Ty::Enum { ident, gen } => SpecTy::Enum { ident, gen: view_tys(gen@) },
        Ty::Ptr(t) => SpecTy::Ptr(Box::new(ty_model(*t))),
        Ty::Ref(t) => SpecTy::Ref(Box::new(ty_model(*t))),
        Ty::String => SpecTy::String,
        Ty::Int => SpecTy::Int,
        Ty::Char => SpecTy::Char,
        Ty::Float => SpecTy::Float,
        Ty::Bool => SpecTy::Bool,
        Ty::Void => SpecTy::Void,
        Ty::Func { ident, ret, params } => SpecTy::Func {
            ident,
            ret: Box::new(ty_model(*ret)),
            params: view_tys(params@),
        },
        Ty::Path(p) => SpecTy::Path(p@),
    }
}

impl View for Ty {
    type V = SpecTy;

    open spec fn view(&self) -> SpecTy {
        ty_model(*self)
    }
}

/// The model of an optional type.
pub open spec fn view_opt(t: Option<Ty>) -> Option<SpecTy> {
    match t {
        Some(t) => Some(t@),
        None => None,
    }
}

/// A copy of each type of `tys`.
pub fn clone_tys(tys: &Vec<Ty>) -> (r: Vec<Ty>)
    ensures
        view_tys(r@) == view_tys(tys@),
    decreases tys,
{
    let mut out: Vec<Ty> = Vec::new();
    let mut i: usize = 0;
    while i < tys.len()
        invariant
            i <= tys.len(),
            out@.len() == i,
            forall|j: int| 0 <= j < i ==> (#[trigger] out@[j])@ == tys@[j]@,
        decreases tys.len() - i,
    {
        let t = tys[i].clone();
        out.push(t);
        i += 1;
    }
    assert(view_tys(out@) =~= view_tys(tys@));
    out
}

/// `true` when the two lists hold the same types in the same order.
pub fn tys_eq(a: &Vec<Ty>, b: &Vec<Ty>) -> (r: bool)
    ensures
        r == (view_tys(a@) == view_tys(b@)),
    decreases a,
{
    if a.len() != b.len() {
        assert(view_tys(a@).len() != view_tys(b@).len());
        return false;
    }
    let mut i: usize = 0;
    while i < a.len()
        invariant
            i <= a.len(),
            a.len() == b.len(),
            forall|j: int| 0 <= j < i ==> (#[trigger] a@[j])@ == b@[j]@,
        decreases a.len() - i,
    {
        if !a[i].is_ty_eq(&b[i]) {
            assert(view_tys(a@)[i as int] == a@[i as int]@);
            assert(view_tys(b@)[i as int] == b@[i as int]@);
            return false;
        }
        i += 1;
    }
    assert(view_tys(a@) =~= view_tys(b@));
    true
}

impl Clone for Ty {
    fn clone(&self) -> (r: Self)
        ensures
            r@ == self@,
        decreases self,
    {
        match self {
            Ty::Generic { ident, bound } => Ty::Generic {
                ident: *ident,
                bound: match bound {
                    Some(p) => Some(p.clone()),
                    None => None,
                },
            },
            Ty::Array { size, ty } => Ty::Array { size: *size, ty: Box::new((**ty).clone()) },
            Ty::Struct { ident, gen } => Ty::Struct { ident: *ident, gen: clone_tys(gen) },
            Ty::Enum { ident, gen } => Ty::Enum { ident: *ident, gen: clone_tys(gen) },
            Ty::Ptr(t) => Ty::Ptr(Box::new((**t).clone())),
            Ty::Ref(t) => Ty::Ref(Box::new((**t).clone())),
            Ty::String => Ty::String,
            Ty::Int => Ty::Int,
            Ty::Char => Ty::Char,
            Ty::Float => Ty::Float,
            Ty::Bool => Ty::Bool,
            Ty::Void => Ty::Void,
            Ty::Func { ident, ret, params } => Ty::Func {
                ident: *ident,
                ret: Box::new((**ret).clone()),
                params: clone_tys(params),
            },
            Ty::Path(p) => Ty::Path(p.clone()),
        }
    }
}

impl Ty {
    /// Equality of types: of what they denote, whatever their place in memory
    /// or in the source.
    pub fn is_ty_eq(&self, other: &Ty) -> (r: bool)
        ensures
            r == (self@ == other@),
        decreases self,
    {
        match (self, other) {
            (Ty::Generic { ident: i1, bound: b1 }, Ty::Generic { ident: i2, bound: b2 }) => {
                *i1 == *i2 && match (b1, b2) {
                    (Some(p1), Some(p2)) => p1.is_path_eq(p2),
                    (None, None) => true,
                    _ => false,
                }
            },
            (Ty::Array { size: s1, ty: t1 }, Ty::Array { size: s2, ty: t2 }) => {
                *s1 == *s2 && t1.is_ty_eq(t2)
            },
            (Ty::Struct { ident: i1, gen: g1 }, Ty::Struct { ident: i2, gen: g2 }) => {
                *i1 == *i2 && tys_eq(g1, g2)
            },
            (Ty::Enum { ident: i1, gen: g1 }, Ty::Enum { ident: i2, gen: g2 }) => {
                *i1 == *i2 && tys_eq(g1, g2)
            },
            (Ty::Ptr(t1), Ty::Ptr(t2)) => t1.is_ty_eq(t2),
            (Ty::Ref(t1), Ty::Ref(t2)) => t1.is_ty_eq(t2),
            (Ty::String, Ty::String) => true,
            (Ty::Int, Ty::Int) => true,
            (Ty::Char, Ty::Char) => true,
            (Ty::Float, Ty::Float) => true,
            (Ty::Bool, Ty::Bool) => true,
            (Ty::Void, Ty::Void) => true,
            (
                Ty::Func { ident: i1, ret: r1, params: p1 },
                Ty::Func { ident: i2, ret: r2, params: p2 },
            ) => { *i1 == *i2 && r1.is_ty_eq(r2) && tys_eq(p1, p2) },
            (Ty::Path(p1), Ty::Path(p2)) => p1.is_path_eq(p2),
            _ => false,
        }
    }
}

/// The position of the first `ident` in `names`, or `names.len()`.
pub fn position(names: &Vec<Ident>, ident: Ident) -> (r: usize)
    ensures
        r == position_of(names@, ident),
{
    let mut i: usize = 0;
    assert(names@.subrange(0, names.len() as int) =~= names@);
    while i < names.len()
        invariant
            i <= names.len(),
            position_of(names@, ident) == i + position_of(names@.subrange(i as int, names.len() as int), ident),
        decreases names.len() - i,
    {
        let ghost rest = names@.subrange(i as int, names.len() as int);
        if names[i] == ident {
            assert(rest[0] == ident);
            return i;
        }
        assert(rest[0] != ident);
        assert(rest.drop_first() =~= names@.subrange(i + 1, names.len() as int));
        i += 1;
    }
    assert(names@.subrange(i as int, names.len() as int).len() == 0);
    i
}

/// Each type of `tys` with the parameter `g` replaced by `with`.
pub fn subst_tys(tys: &Vec<Ty>, g: Ident, with: &Ty) -> (r: Vec<Ty>)
    ensures
        view_tys(r@) == seq_subst(view_tys(tys@), g, with@),
    decreases tys,
{
    let mut out: Vec<Ty> = Vec::new();
    let mut i: usize = 0;
    while i < tys.len()
        invariant
            i <= tys.len(),
            out@.len() == i,
            forall|j: int| 0 <= j < i ==> (#[trigger] out@[j])@ == tys@[j]@.subst(g, with@),
        decreases tys.len() - i,
    {
        let t = tys[i].subst_generic(g, with);
        out.push(t);
        i += 1;
    }
    assert(view_tys(out@) =~= seq_subst(view_tys(tys@), g, with@));
    out
}

/// Each type of `tys` with the parameters `params` replaced by `args`.
pub fn subst_all_tys(tys: &Vec<Ty>, params: &Vec<Ident>, args: &Vec<Ty>) -> (r: Vec<Ty>)
    ensures
        view_tys(r@) == seq_subst_all(view_tys(tys@), params@, view_tys(args@)),
    decreases tys,
{
    let mut out: Vec<Ty> = Vec::new();
    let mut i: usize = 0;
    while i < tys.len()
        invariant
            i <= tys.len(),
            out@.len() == i,
            forall|j: int|
                0 <= j < i ==> (#[trigger] out@[j])@ == tys@[j]@.subst_all(
                    params@,
                    view_tys(args@),
                ),
        decreases tys.len() - i,
    {
        let t = tys[i].subst_all(params, args);
        out.push(t);
        i += 1;
    }
    assert(view_tys(out@) =~= seq_subst_all(view_tys(tys@), params@, view_tys(args@)));
    out
}

/// `true` when a type parameter occurs in one of `tys`.
pub fn any_has_generics(tys: &Vec<Ty>) -> (r: bool)
    ensures
        r == seq_has_generics(view_tys(tys@)),
    decreases tys,
{
    let mut i: usize = 0;
    while i < tys.len()
        invariant
            i <= tys.len(),
            forall|j: int| 0 <= j < i ==> !(#[trigger] view_tys(tys@)[j]).has_generics(),
        decreases tys.len() - i,
    {
        if tys[i].has_generics() {
            assert(view_tys(tys@)[i as int].has_generics());
            return true;
        }
        i += 1;
    }
    false
}

/// `true` when an unresolved nominal reference occurs in one of `tys`.
pub fn any_has_path(tys: &Vec<Ty>) -> (r: bool)
    ensures
        r == seq_has_path(view_tys(tys@)),
    decreases tys,
{
    let mut i: usize = 0;
    while i < tys.len()
        invariant
            i <= tys.len(),
            forall|j: int| 0 <= j < i ==> !(#[trigger] view_tys(tys@)[j]).has_path(),
        decreases tys.len() - i,
    {
        if tys[i].has_path() {
            assert(view_tys(tys@)[i as int].has_path());
            return true;
        }
        i += 1;
    }
    false
}

/// `true` when the parameter `g` occurs in one of `tys`.
pub fn any_mentions(tys: &Vec<Ty>, g: Ident) -> (r: bool)
    ensures
        r == seq_mentions(view_tys(tys@), g),
    decreases tys,
{
    let mut i: usize = 0;
    while i < tys.len()
        invariant
            i <= tys.len(),
            forall|j: int| 0 <= j < i ==> !(#[trigger] view_tys(tys@)[j]).mentions(g),
        decreases tys.len() - i,
    {
        if tys[i].mentions(g) {
            assert(view_tys(tys@)[i as int].mentions(g));
            return true;
        }
        i += 1;
    }
    false
}

/// `true` when every type parameter that occurs in `tys` is one of
/// `declared`.
pub fn all_generics_within(tys: &Vec<Ty>, declared: &Vec<Ident>) -> (r: bool)
    ensures
        r == seq_generics_within(view_tys(tys@), declared@),
    decreases tys,
{
    let mut i: usize = 0;
    while i < tys.len()
        invariant
            i <= tys.len(),
            forall|j: int|
                0 <= j < i ==> (#[trigger] view_tys(tys@)[j]).generics_within(declared@),
        decreases tys.len() - i,
    {
        if !tys[i].generics_within(declared) {
            assert(!view_tys(tys@)[i as int].generics_within(declared@));
            return false;
        }
        i += 1;
    }
    true
}

impl Ty {
    /// `true` when a type parameter occurs anywhere in the type.
    pub fn has_generics(&self) -> (r: bool)
        ensures
            r == self@.has_generics(),
        decreases self,
    {
        match self {
            Ty::Generic { .. } => true,
            Ty::Array { ty, .. } => ty.has_generics(),
            Ty::Struct { gen, .. } => any_has_generics(gen),
            Ty::Enum { gen, .. } => any_has_generics(gen),
            Ty::Ptr(t) => t.has_generics(),
            Ty::Ref(t) => t.has_generics(),
            Ty::Func { ret, params, .. } => {
                let a = ret.has_generics();
                let b = any_has_generics(params);
                a || b
            },
            _ => false,
        }
    }

    /// `true` when an unresolved nominal reference occurs anywhere in the
    /// type.
    pub fn has_path(&self) -> (r: bool)
        ensures
            r == self@.has_path(),
        decreases self,
    {
        match self {
            Ty::Path(_) => true,
            Ty::Array { ty, .. } => ty.has_path(),
            Ty::Struct { gen, .. } => {
                any_has_path(gen)
            },
            Ty::Enum { gen, .. } => {
                any_has_path(gen)
            },
            Ty::Ptr(t) => t.has_path(),
            Ty::Ref(t) => t.has_path(),
            Ty::Func { ret, params, .. } => {
                let a = ret.has_path();
                let b = any_has_path(params);
                a || b
            },
            _ => false,
        }
    }

    /// `true` when the type holds neither a type parameter nor an unresolved
    /// nominal reference.
    pub fn is_concrete(&self) -> (r: bool)
        ensures
            r == self@.is_concrete(),
    {
        !self.has_generics() && !self.has_path()
    }

    /// `true` when the type parameter `g` occurs in the type.
    pub fn mentions(&self, g: Ident) -> (r: bool)
        ensures
            r == self@.mentions(g),
        decreases self,
    {
        match self {
            Ty::Generic { ident, .. } => *ident == g,
            Ty::Array { ty, .. } => ty.mentions(g),
            Ty::Struct { gen, .. } => {
                any_mentions(gen, g)
            },
            Ty::Enum { gen, .. } => {
                any_mentions(gen, g)
            },
            Ty::Ptr(t) => t.mentions(g),
            Ty::Ref(t) => t.mentions(g),
            Ty::Func { ret, params, .. } => {
                let a = ret.mentions(g);
                let b = any_mentions(params, g);
                a || b
            },
            _ => false,
        }
    }

    /// `true` when every type parameter that occurs in the type is one of
    /// `declared`.
    pub fn generics_within(&self, declared: &Vec<Ident>) -> (r: bool)
        ensures
            r == self@.generics_within(declared@),
        decreases self,
    {
        match self {
            Ty::Generic { ident, .. } => {
                let pos = position(declared, *ident);
                proof {
                    lemma_position_of(declared@, *ident);
                }
                pos < declared.len()
            },
            Ty::Array { ty, .. } => ty.generics_within(declared),
            Ty::Struct { gen, .. } => {
                all_generics_within(gen, declared)
            },
            Ty::Enum { gen, .. } => {
                all_generics_within(gen, declared)
            },
            Ty::Ptr(t) => t.generics_within(declared),
            Ty::Ref(t) => t.generics_within(declared),
            Ty::Func { ret, params, .. } => {
                let a = ret.generics_within(declared);
                let b = all_generics_within(params, declared);
                a && b
            },
            _ => true,
        }
    }

    /// The type with every occurrence of the parameter `g` replaced by `with`.
    pub fn subst_generic(&self, g: Ident, with: &Ty) -> (r: Ty)
        ensures
            r@ == self@.subst(g, with@),
        decreases self,
    {
        match self {
            Ty::Generic { ident, .. } => if *ident == g {
                with.clone()
            } else {
                self.clone()
            },
            Ty::Array { size, ty } => Ty::Array {
                size: *size,
                ty: Box::new(ty.subst_generic(g, with)),
            },
            Ty::Struct { ident, gen } => {
                let out = subst_tys(gen, g, with);
                let r = Ty::Struct { ident: *ident, gen: out };
                r
            },
            Ty::Enum { ident, gen } => {
                let out = subst_tys(gen, g, with);
                let r = Ty::Enum { ident: *ident, gen: out };
                r
            },
            Ty::Ptr(t) => Ty::Ptr(Box::new(t.subst_generic(g, with))),
            Ty::Ref(t) => Ty::Ref(Box::new(t.subst_generic(g, with))),
            Ty::Func { ident, ret, params } => {
                let out = subst_tys(params, g, with);
                let r = Ty::Func {
                    ident: *ident,
                    ret: Box::new(ret.subst_generic(g, with)),
                    params: out,
                };
                r
            },
            _ => self.clone(),
        }
    }

    /// The type with each parameter `params[i]` replaced by `args[i]`, all at
    /// once.
    pub fn subst_all(&self, params: &Vec<Ident>, args: &Vec<Ty>) -> (r: Ty)
        ensures
            r@ == self@.subst_all(params@, view_tys(args@)),
        decreases self,
    {
        match self {
            Ty::Generic { ident, .. } => {
                let pos = position(params, *ident);
                if pos < params.len() && pos < args.len() {
                    args[pos].clone()
                } else {
                    self.clone()
                }
            },
            Ty::Array { size, ty } => Ty::Array {
                size: *size,
                ty: Box::new(ty.subst_all(params, args)),
            },
            Ty::Struct { ident, gen } => {
                let out = subst_all_tys(gen, params, args);
                let r = Ty::Struct { ident: *ident, gen: out };
                r
            },
            Ty::Enum { ident, gen } => {
                let out = subst_all_tys(gen, params, args);
                let r = Ty::Enum { ident: *ident, gen: out };
                r
            },
            Ty::Ptr(t) => Ty::Ptr(Box::new(t.subst_all(params, args))),
            Ty::Ref(t) => Ty::Ref(Box::new(t.subst_all(params, args))),
            Ty::Func { ident, ret, params: ps } => {
                let out = subst_all_tys(ps, params, args);
                let r = Ty::Func {
                    ident: *ident,
                    ret: Box::new(ret.subst_all(params, args)),
                    params: out,
                };
                r
            },
            _ => self.clone(),
        }
    }

    /// The type left after `indir` layers of pointer or dereference are taken
    /// off, or `None` if the type has fewer.
    pub fn dereference(&self, indir: usize) -> (r: Option<Ty>)
        ensures
            view_opt(r) == self@.strip(indir as nat),
        decreases indir,
    {
        if indir == 0 {
            Some(self.clone())
        } else {
            match self {
                Ty::Ptr(t) => t.dereference(indir - 1),
                Ty::Ref(t) => t.dereference(indir - 1),
                _ => None,
            }
        }
    }

    /// The type with one dereference layer taken off, if it has one on top.
    pub fn resolve(&self) -> (r: Ty)
        ensures
            r@ == self@.peel(),
    {
        match self {
            Ty::Ref(t) => (**t).clone(),
            _ => self.clone(),
        }
    }

    /// The type under all leading pointer and dereference layers.
    pub fn pointee(&self) -> (r: &Ty)
        ensures
            r@ == self@.pointee(),
        decreases self,
    {
        match self {
            Ty::Ptr(t) => t.pointee(),
            Ty::Ref(t) => t.pointee(),
            _ => self,
        }
    }

    /// The type of an item reached by `n` indices, or `None` if the type has
    /// fewer than `n` array layers.
    pub fn index_dim(&self, n: usize) -> (r: Option<Ty>)
        ensures
            view_opt(r) == self@.index(n as nat),
        decreases n,
    {
        if n == 0 {
            Some(self.clone())
        } else {
            match self {
                Ty::Array { ty, .. } => ty.index_dim(n - 1),
                _ => None,
            }
        }
    }

    /// `true` when the type has exactly `n` array layers on top.
    pub fn has_dim(&self, n: usize) -> (r: bool)
        ensures
            r == (self@.array_dim() == n),
        decreases self,
    {
        match self {
            Ty::Array { ty, .. } => n > 0 && ty.has_dim(n - 1),
            _ => n == 0,
        }
    }

    /// `true` for one of the built-in types without parts.
    pub fn is_primitive(&self) -> (r: bool)
        ensures
            r == self@.is_primitive(),
    {
        match self {
            Ty::String | Ty::Int | Ty::Char | Ty::Float | Ty::Bool | Ty::Void => true,
            _ => false,
        }
    }
}

/// A literal. A float is held as the bits of its IEEE 754 double.
#[derive(Clone, Copy, Debug, PartialEq, Eq, Structural)]
pub enum Val {
    Float(u64),
    Int(isize),
    Char(char),
    Bool(bool),
    Str(Ident),
}

/// A literal with its place in the source.
#[derive(Clone, Copy, Debug)]
pub struct Value {
    pub val: Val,
    pub span: Range,
}

#[derive(Clone, Copy, Debug, PartialEq, Eq, Structural)]
pub enum UnOp {
    /// The `!` operator.
    Not,
    /// The `~` operator.
    OnesComp,
}

#[derive(Clone, Copy, Debug, PartialEq, Eq, Structural)]
pub enum BinOp {
    /// The `*` operator.
    Mul,
    /// The `/` operator.
    Div,
    /// The `%` operator.
    Rem,
    /// The `+` operator.
    Add,
    /// The `-` operator.
    Sub,
    /// The `<<` operator.
    LeftShift,
    /// The `>>` operator.
    RightShift,
    /// The `<` operator.
    Lt,
    /// The `<=` operator.
    Le,
    /// The `>=` operator.
    Ge,
    /// The `>` operator.
    Gt,
    /// The `==` operator.
    Eq,
    /// The `!=` operator.
    Ne,
    /// The `&` operator.
    BitAnd,
    /// The `^` operator.
    BitXor,
    /// The `|` operator.
    BitOr,
    /// The `&&` operator.
    And,
    /// The `||` operator.
    Or,
    /// The `+=` operator.
    AddAssign,
    /// The `-=` operator.
    SubAssign,
}

impl BinOp {
    /// Arithmetic, shift and bitwise operators.
    pub open spec fn arith(self) -> bool {
        match self {
            BinOp::Mul | BinOp::Div | BinOp::Rem | BinOp::Add | BinOp::Sub | BinOp::LeftShift
            | BinOp::RightShift | BinOp::BitAnd | BinOp::BitXor | BinOp::BitOr => true,
            _ => false,
        }
    }

    /// Comparison operators.
    pub open spec fn comparison(self) -> bool {
        match self {
            BinOp::Lt | BinOp::Le | BinOp::Ge | BinOp::Gt | BinOp::Eq | BinOp::Ne => true,
            _ => false,
        }
    }

    /// The operators `&&` and `||`.
    pub open spec fn logical(self) -> bool {
        self == BinOp::And || self == BinOp::Or
    }

    /// `true` for an arithmetic, shift or bitwise operator.
    pub fn is_arith(&self) -> (r: bool)
        ensures
            r == self.arith(),
    {
        match self {
            BinOp::Mul | BinOp::Div | BinOp::Rem | BinOp::Add | BinOp::Sub | BinOp::LeftShift
            | BinOp::RightShift | BinOp::BitAnd | BinOp::BitXor | BinOp::BitOr => true,
            _ => false,
        }
    }

    /// `true` for a comparison operator.
    pub fn is_cmp(&self) -> (r: bool)
        ensures
            r == self.comparison(),
    {
        match self {
            BinOp::Lt | BinOp::Le | BinOp::Ge | BinOp::Gt | BinOp::Eq | BinOp::Ne => true,
            _ => false,
        }
    }

    /// `true` for `&&` and `||`.
    pub fn is_logical(&self) -> (r: bool)
        ensures
            r == self.logical(),
    {
        match self {
            BinOp::And | BinOp::Or => true,
            _ => false,
        }
    }
}

/// A field with its initial value, in a struct initializer.
#[derive(Debug)]
pub struct FieldInit {
    pub ident: Ident,
    pub init: Expression,
    pub span: Range,
}

/// An expression node. `id` is the node's identity: no two nodes of a
/// program share one, and the tables of the type context are keyed by it.
#[derive(Debug)]
pub struct Expression {
    pub id: usize,
    pub val: Expr,
    pub span: Range,
}

#[derive(Debug)]
#[allow(inconsistent_fields)]
pub enum Expr {
    /// A named variable `a`.
    Ident(Ident),
    /// `indir` dereferences of a pointer, `**a`.
    Deref { indir: usize, expr: Box<Expression> },
    /// The address of a place, `&a`.
    AddrOf(Box<Expression>),
    /// An indexed array, `a[i][j]`, one expression for each dimension.
    Array { ident: Ident, exprs: Vec<Expression> },
    /// A unary operation `!a`.
    Urnary { op: UnOp, expr: Box<Expression> },
    /// A binary operation `a + b`.
    Binary { op: BinOp, lhs: Box<Expression>, rhs: Box<Expression> },
    /// An expression in parentheses.
    Parens(Box<Expression>),
    /// A call `f::<T>(a, b)`.
    Call { path: Path, args: Vec<Expression>, type_args: Vec<Ty> },
    /// A call of a trait's method, `<T as tr>::m(a, b)`.
    TraitMeth { trait_: Path, args: Vec<Expression>, type_args: Vec<Ty> },
    /// A field of a struct, `a.b`.
    FieldAccess { lhs: Box<Expression>, rhs: Box<Expression> },
    /// A struct initializer.
    StructInit { path: Path, fields: Vec<FieldInit> },
    /// An enum initializer `e::v(a, b)`.
    EnumInit { path: Path, variant: Ident, items: Vec<Expression> },
    /// An array initializer `[a, b, c]`.
    ArrayInit { items: Vec<Expression> },
    /// A literal.
    Value(Value),
}

#[derive(Debug)]
pub enum Binding {
    /// A name that takes whatever stands at its place.
    Wild(Ident),
    /// A literal that the value at its place must equal.
    Value(Value),
}

/// A pattern with its place in the source.
#[derive(Debug)]
pub struct Pattern {
    pub val: Pat,
    pub span: Range,
}

#[derive(Debug)]
pub enum Pat {
    /// An enum variant `e::v(p, q)`.
    Enum { path: Path, variant: Ident, items: Vec<Pattern> },
    /// An array `[p, q, r]`.
    Array { size: usize, items: Vec<Pattern> },
    Bind(Binding),
}

#[derive(Debug)]
pub struct Block {
    pub stmts: Vec<Statement>,
    pub span: Range,
}

#[derive(Debug)]
pub struct MatchArm {
    pub pat: Pattern,
    pub blk: Block,
    pub span: Range,
}

/// A named value with its declared type and initial value, at module scope
/// or in a function.
#[derive(Debug)]
pub struct Const {
    pub ident: Ident,
    pub ty: Ty,
    pub init: Expression,
    pub span: Range,
}

/// A statement with its place in the source.
#[derive(Debug)]
pub struct Statement {
    pub val: Stmt,
    pub span: Range,
}

#[derive(Debug)]
pub enum Stmt {
    /// A constant declaration `const x: T = e;`.
    Const(Const),
    /// An assignment `a = e;`, or with `is_let` the declaration `let a = e;`.
    Assign { lval: Expression, rval: Expression, ty: Option<Ty>, is_let: bool },
    /// A compound assignment `a += e;`.
    AssignOp { lval: Expression, rval: Expression, op: BinOp },
    /// A call as a statement.
    Call(Expression),
    /// A trait method call as a statement.
    TraitMeth(Expression),
    If { cond: Expression, blk: Block, els: Option<Block> },
    While { cond: Expression, blk: Block },
    Match { expr: Expression, arms: Vec<MatchArm> },
    /// Reads into a place.
    Read(Expression),
    /// Writes a value out.
    Write { expr: Expression },
    /// `return e;`
    Ret(Expression),
    /// A return from a function without a value.
    Exit,
    Block(Block),
}

/// A declared type parameter, with its trait bound if any.
#[derive(Debug)]
pub struct Generic {
    pub ident: Ident,
    pub bound: Option<Path>,
    pub span: Range,
}

#[derive(Debug)]
pub struct Param {
    pub ident: Ident,
    pub ty: Ty,
    pub span: Range,
}

#[derive(Debug)]
pub struct Func {
    pub ident: Ident,
    pub ret: Ty,
    pub generics: Vec<Generic>,
    pub params: Vec<Param>,
    pub stmts: Block,
    pub span: Range,
}

#[derive(Debug)]
pub struct Field {
    pub ident: Ident,
    pub ty: Ty,
    pub span: Range,
}

#[derive(Debug)]
pub struct Struct {
    pub ident: Ident,
    pub fields: Vec<Field>,
    pub generics: Vec<Generic>,
    pub span: Range,
}

#[derive(Debug)]
pub struct Variant {
    pub ident: Ident,
    /// The types of the variant's payload.
    pub types: Vec<Ty>,
    pub span: Range,
}

#[derive(Debug)]
pub struct Enum {
    pub ident: Ident,
    pub variants: Vec<Variant>,
    pub generics: Vec<Generic>,
    pub span: Range,
}

#[derive(Debug)]
pub enum Adt {
    Struct(Struct),
    Enum(Enum),
}

/// A trait's one method, with a default body or without.
#[derive(Debug)]
pub enum TraitMethod {
    Default(Func),
    NoBody(Func),
}

impl TraitMethod {
    /// The method's declaration.
    pub open spec fn func(self) -> Func {
        match self {
            TraitMethod::Default(f) => f,
            TraitMethod::NoBody(f) => f,
        }
    }

    /// The method's declaration.
    pub fn function(&self) -> (r: &Func)
        ensures
            *r == self.func(),
    {
        match self {
            TraitMethod::Default(f) => f,
            TraitMethod::NoBody(f) => f,
        }
    }
}

#[derive(Debug)]
pub struct Trait {
    pub ident: Ident,
    pub generics: Vec<Generic>,
    pub method: TraitMethod,
    pub span: Range,
}

/// An implementation of a trait for a tuple of type arguments.
#[derive(Debug)]
pub struct Impl {
    pub path: Path,
    pub type_arguments: Vec<Ty>,
    pub method: Func,
    pub span: Range,
}

#[derive(Debug)]
pub enum Decl {
    Adt(Adt),
    Func(Func),
    Trait(Trait),
    Impl(Impl),
    Const(Const),
}

/// A top-level declaration with its place in the source.
#[derive(Debug)]
pub struct Declaration {
    pub val: Decl,
    pub span: Range,
}

/// The names of a list of declared type parameters.
pub open spec fn generic_names(gs: Seq<Generic>) -> Seq<Ident> {
    Seq::new(gs.len(), |i: int| gs[i].ident)
}

/// The names of a list of declared type parameters.
pub fn names_of(gs: &Vec<Generic>) -> (r: Vec<Ident>)
    ensures
        r@ == generic_names(gs@),
{
    let mut out: Vec<Ident> = Vec::new();
    let mut i: usize = 0;
    while i < gs.len()
        invariant
            i <= gs.len(),
            out@.len() == i,
            forall|j: int| 0 <= j < i ==> out@[j] == gs@[j].ident,
        decreases gs.len() - i,
    {
        out.push(gs[i].ident);
        i += 1;
    }
    assert(out@ =~= generic_names(gs@));
    out
}

impl Generic {
    /// The type parameter as a type.
    pub fn to_type(&self) -> (r: Ty)
        ensures
            r@ == (SpecTy::Generic {
                ident: self.ident,
                bound: match self.bound {
                    Some(p) => Some(p@),
                    None => None,
                },
            }),
    {
        Ty::Generic {
            ident: self.ident,
            bound: match &self.bound {
                Some(p) => Some(p.clone()),
                None => None,
            },
        }
    }
}

impl Val {
    /// The type a literal has by itself.
    pub open spec fn spec_type_of(self) -> SpecTy {
        match self {
            Val::Float(_) => SpecTy::Float,
            Val::Int(_) => SpecTy::Int,
            Val::Char(_) => SpecTy::Char,
            Val::Bool(_) => SpecTy::Bool,
            Val::Str(_) => SpecTy::String,
        }
    }

    /// The type a literal has by itself.
    pub fn to_type(&self) -> (r: Ty)
        ensures
            r@ == self.spec_type_of(),
    {
        match self {
            Val::Float(_) => Ty::Float,
            Val::Int(_) => Ty::Int,
            Val::Char(_) => Ty::Char,
            Val::Bool(_) => Ty::Bool,
            Val::Str(_) => Ty::String,
        }
    }
}

} // verus!
