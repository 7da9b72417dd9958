use midend::ast::types::{BinOp, Ident, Path, Range, Ty, Val};
use midend::typeck::check::{coercion, fold_ty, is_truthy, lit_to_type, math_ops};
use midend::typeck::infer::{peel_out_ty, TypeInfer};

fn name(id: usize) -> Ident {
    Ident { id }
}

fn same(a: &Ty, b: &Ty) -> bool {
    a.is_ty_eq(b)
}

fn folded(l: Ty, r: Ty, op: BinOp) -> Option<Ty> {
    fold_ty(Some(&l), Some(&r), &op)
}

#[test]
fn fold_of_two_ints() {
    assert!(matches!(folded(Ty::Int, Ty::Int, BinOp::Add), Some(Ty::Int)));
    assert!(matches!(folded(Ty::Int, Ty::Int, BinOp::Rem), Some(Ty::Int)));
    assert!(matches!(folded(Ty::Int, Ty::Int, BinOp::BitXor), Some(Ty::Int)));
    assert!(matches!(folded(Ty::Int, Ty::Int, BinOp::Lt), Some(Ty::Bool)));
    assert!(matches!(folded(Ty::Int, Ty::Int, BinOp::Ne), Some(Ty::Bool)));
    assert!(folded(Ty::Int, Ty::Int, BinOp::And).is_none());
}

#[test]
fn fold_widens_int_to_float() {
    assert!(matches!(folded(Ty::Int, Ty::Float, BinOp::Mul), Some(Ty::Float)));
    assert!(matches!(folded(Ty::Float, Ty::Int, BinOp::Sub), Some(Ty::Float)));
    assert!(matches!(folded(Ty::Float, Ty::Float, BinOp::Div), Some(Ty::Float)));
    assert!(matches!(folded(Ty::Float, Ty::Int, BinOp::Ge), Some(Ty::Bool)));
}

#[test]
fn fold_of_chars_is_comparison_only() {
    assert!(matches!(folded(Ty::Char, Ty::Char, BinOp::Eq), Some(Ty::Bool)));
    assert!(folded(Ty::Char, Ty::Char, BinOp::Add).is_none());
}

#[test]
fn fold_of_pointer_and_int_keeps_the_pointer() {
    let p = Ty::Ptr(Box::new(Ty::Char));
    let q = Ty::Ptr(Box::new(Ty::Char));
    let r = folded(p, Ty::Int, BinOp::Add).expect("pointer arithmetic has a type");
    assert!(same(&r, &q));
    let l = folded(Ty::Int, Ty::Ptr(Box::new(Ty::Char)), BinOp::Sub).expect("in either order");
    assert!(same(&l, &q));
    assert!(folded(Ty::Ptr(Box::new(Ty::Char)), Ty::Int, BinOp::Lt).is_none());
}

#[test]
fn fold_of_arrays_is_item_by_item() {
    let a = Ty::Array { size: 3, ty: Box::new(Ty::Int) };
    let b = Ty::Array { size: 3, ty: Box::new(Ty::Float) };
    let want = Ty::Array { size: 3, ty: Box::new(Ty::Float) };
    let r = folded(a, b, BinOp::Add).expect("two arrays of one size");
    assert!(same(&r, &want));
    let c = Ty::Array { size: 3, ty: Box::new(Ty::Int) };
    let d = Ty::Array { size: 4, ty: Box::new(Ty::Int) };
    assert!(folded(c, d, BinOp::Add).is_none());
}

#[test]
fn fold_of_bools_is_logical_only() {
    assert!(matches!(folded(Ty::Bool, Ty::Bool, BinOp::And), Some(Ty::Bool)));
    assert!(matches!(folded(Ty::Bool, Ty::Bool, BinOp::Or), Some(Ty::Bool)));
    assert!(folded(Ty::Bool, Ty::Bool, BinOp::Add).is_none());
    assert!(folded(Ty::Bool, Ty::Int, BinOp::And).is_none());
}

#[test]
fn fold_looks_through_a_dereference_layer() {
    assert!(matches!(folded(Ty::Ref(Box::new(Ty::Int)), Ty::Int, BinOp::Add), Some(Ty::Int)));
    assert!(matches!(folded(Ty::Int, Ty::Ref(Box::new(Ty::Float)), BinOp::Add), Some(Ty::Float)));
}

#[test]
fn fold_never_yields_a_compound_assignment() {
    assert!(folded(Ty::Int, Ty::Int, BinOp::AddAssign).is_none());
    assert!(folded(Ty::Float, Ty::Float, BinOp::SubAssign).is_none());
    assert!(folded(Ty::String, Ty::String, BinOp::Add).is_none());
}

#[test]
fn fold_of_a_missing_type_is_none() {
    assert!(fold_ty(None, Some(&Ty::Int), &BinOp::Add).is_none());
    assert!(fold_ty(Some(&Ty::Int), None, &BinOp::Add).is_none());
}

#[test]
fn math_ops_by_operator_class() {
    assert!(matches!(math_ops(&BinOp::LeftShift, Ty::Int), Some(Ty::Int)));
    assert!(matches!(math_ops(&BinOp::Le, Ty::Float), Some(Ty::Bool)));
    assert!(math_ops(&BinOp::Or, Ty::Int).is_none());
    assert!(math_ops(&BinOp::AddAssign, Ty::Int).is_none());
}

#[test]
fn coercion_table() {
    let mut r = Ty::Float;
    assert!(coercion(&Ty::Int, &mut r));
    assert!(matches!(r, Ty::Int));

    let mut r = Ty::Bool;
    assert!(coercion(&Ty::Int, &mut r));
    assert!(matches!(r, Ty::Int));

    let mut r = Ty::Ptr(Box::new(Ty::Char));
    assert!(coercion(&Ty::Int, &mut r));
    assert!(matches!(r, Ty::Int));

    let mut r = Ty::Int;
    assert!(coercion(&Ty::Float, &mut r));
    assert!(matches!(r, Ty::Float));

    let mut r = Ty::Int;
    assert!(coercion(&Ty::Ptr(Box::new(Ty::Char)), &mut r));
    assert!(same(&r, &Ty::Ptr(Box::new(Ty::Char))));
}

#[test]
fn coercion_adds_nothing_else() {
    let mut r = Ty::Bool;
    assert!(!coercion(&Ty::Float, &mut r));
    assert!(matches!(r, Ty::Bool));

    let mut r = Ty::Int;
    assert!(!coercion(&Ty::Bool, &mut r));
    assert!(matches!(r, Ty::Int));

    let mut r = Ty::Char;
    assert!(!coercion(&Ty::Int, &mut r));
    assert!(matches!(r, Ty::Char));

    let mut r = Ty::Int;
    assert!(!coercion(&Ty::Int, &mut r));
    assert!(matches!(r, Ty::Int));
}

#[test]
fn truthy_types() {
    assert!(is_truthy(Some(&Ty::Bool)));
    assert!(is_truthy(Some(&Ty::Int)));
    assert!(is_truthy(Some(&Ty::Float)));
    assert!(is_truthy(Some(&Ty::Char)));
    assert!(is_truthy(Some(&Ty::String)));
    assert!(is_truthy(Some(&Ty::Ptr(Box::new(Ty::Int)))));
    assert!(is_truthy(Some(&Ty::Ref(Box::new(Ty::Int)))));
    assert!(!is_truthy(Some(&Ty::Void)));
    assert!(!is_truthy(Some(&Ty::Array { size: 1, ty: Box::new(Ty::Int) })));
    assert!(!is_truthy(Some(&Ty::Struct { ident: name(0), gen: vec![] })));
    assert!(!is_truthy(None));
}

#[test]
fn literal_types() {
    assert!(matches!(lit_to_type(&Val::Int(3)), Ty::Int));
    assert!(matches!(lit_to_type(&Val::Bool(true)), Ty::Bool));
    assert!(matches!(lit_to_type(&Val::Char('c')), Ty::Char));
    assert!(matches!(lit_to_type(&Val::Float(1.5f64.to_bits())), Ty::Float));
    assert!(matches!(lit_to_type(&Val::Str(name(4))), Ty::String));
}

#[test]
fn unify_takes_the_concrete_side() {
    let g = Ty::Generic { ident: name(1), bound: None };
    assert!(matches!(TypeInfer::unify(Some(&g), Some(&Ty::Int)), Some(Ty::Int)));
    assert!(matches!(TypeInfer::unify(Some(&Ty::Bool), Some(&g)), Some(Ty::Bool)));
    assert!(matches!(TypeInfer::unify(Some(&Ty::Int), Some(&Ty::Int)), Some(Ty::Int)));
    assert!(TypeInfer::unify(Some(&Ty::Int), Some(&Ty::Bool)).is_none());
    // Where one side has no type the other stands.
    assert!(matches!(TypeInfer::unify(None, Some(&Ty::Bool)), Some(Ty::Bool)));
    assert!(matches!(TypeInfer::unify(Some(&Ty::Char), None), Some(Ty::Char)));
    assert!(TypeInfer::unify(None, None).is_none());
}

#[test]
fn unify_goes_through_constructors() {
    let g = || Ty::Generic { ident: name(1), bound: None };
    let a = Ty::Enum { ident: name(7), gen: vec![g(), Ty::String] };
    let b = Ty::Enum { ident: name(7), gen: vec![Ty::Int, g()] };
    let want = Ty::Enum { ident: name(7), gen: vec![Ty::Int, Ty::String] };
    let r = TypeInfer::unify(Some(&a), Some(&b)).expect("the two agree");
    assert!(same(&r, &want));

    let c = Ty::Enum { ident: name(8), gen: vec![Ty::Int, Ty::String] };
    assert!(TypeInfer::unify(Some(&a), Some(&c)).is_none());

    let p = Ty::Ptr(Box::new(g()));
    let q = Ty::Ptr(Box::new(Ty::Char));
    let r = TypeInfer::unify(Some(&p), Some(&q)).expect("pointers agree");
    assert!(same(&r, &q));

    let x = Ty::Array { size: 2, ty: Box::new(g()) };
    let y = Ty::Array { size: 3, ty: Box::new(Ty::Int) };
    assert!(TypeInfer::unify(Some(&x), Some(&y)).is_none());
}

#[test]
fn peel_out_finds_the_type_parameter() {
    let t = name(1);
    let g = Ty::Generic { ident: t, bound: None };
    let (ty, id) = peel_out_ty(Some(&Ty::Int), &g).expect("a parameter takes any type");
    assert!(matches!(ty, Ty::Int));
    assert_eq!(id, t);

    let declared = Ty::Ptr(Box::new(Ty::Generic { ident: t, bound: None }));
    let actual = Ty::Ptr(Box::new(Ty::Bool));
    let (ty, id) = peel_out_ty(Some(&actual), &declared).expect("through a pointer");
    assert!(matches!(ty, Ty::Bool));
    assert_eq!(id, t);

    assert!(peel_out_ty(Some(&Ty::Int), &declared).is_none());
    assert!(peel_out_ty(None, &g).is_none());
    assert!(peel_out_ty(Some(&Ty::Int), &Ty::Int).is_none());
}

#[test]
fn substitution_is_simultaneous() {
    let t = name(1);
    let u = name(2);
    let ty = Ty::Struct {
        ident: name(9),
        gen: vec![
            Ty::Generic { ident: t, bound: None },
            Ty::Generic { ident: u, bound: None },
        ],
    };
    // T := U and U := int at once: the U that comes in for T stays.
    let r = ty.subst_all(&vec![t, u], &vec![Ty::Generic { ident: u, bound: None }, Ty::Int]);
    let want =
        Ty::Struct { ident: name(9), gen: vec![Ty::Generic { ident: u, bound: None }, Ty::Int] };
    assert!(same(&r, &want));

    let one = ty.subst_generic(t, &Ty::Bool);
    let want =
        Ty::Struct { ident: name(9), gen: vec![Ty::Bool, Ty::Generic { ident: u, bound: None }] };
    assert!(same(&one, &want));
}

#[test]
fn type_predicates() {
    let t = name(1);
    let g = Ty::Generic { ident: t, bound: None };
    let arr = Ty::Array { size: 2, ty: Box::new(Ty::Generic { ident: t, bound: None }) };
    assert!(g.has_generics());
    assert!(arr.has_generics());
    assert!(!Ty::Int.has_generics());
    assert!(arr.mentions(t));
    assert!(!arr.mentions(name(2)));
    assert!(arr.generics_within(&vec![t]));
    assert!(!arr.generics_within(&vec![name(2)]));

    let p = Ty::Path(Path { segs: vec![name(5)], span: Range { start: 0, end: 0, file_id: 0 } });
    assert!(p.has_path());
    assert!(!p.is_concrete());
    assert!(!g.is_concrete());
    assert!(Ty::Ptr(Box::new(Ty::Int)).is_concrete());
    assert!(Ty::Int.is_primitive());
    assert!(!arr.is_primitive());
}

#[test]
fn dereference_and_index() {
    let pp = Ty::Ptr(Box::new(Ty::Ptr(Box::new(Ty::Int))));
    assert!(matches!(pp.dereference(2), Some(Ty::Int)));
    assert!(matches!(pp.dereference(1), Some(Ty::Ptr(_))));
    assert!(pp.dereference(3).is_none());
    assert!(matches!(Ty::Ref(Box::new(Ty::Char)).dereference(1), Some(Ty::Char)));
    let arr = Ty::Array { size: 2, ty: Box::new(Ty::Array { size: 3, ty: Box::new(Ty::Char) }) };
    assert!(matches!(arr.index_dim(2), Some(Ty::Char)));
    assert!(arr.index_dim(3).is_none());
    assert!(arr.has_dim(2));
    assert!(!arr.has_dim(3));
    assert!(matches!(Ty::Ref(Box::new(Ty::Int)).resolve(), Ty::Int));
    assert!(matches!(Ty::Ref(Box::new(Ty::Ref(Box::new(Ty::Bool)))).resolve(), Ty::Ref(_)));
    assert!(matches!(Ty::Ptr(Box::new(Ty::Ref(Box::new(Ty::Bool)))).pointee(), Ty::Bool));
}

#[test]
fn ranges() {
    let outer = Range { start: 10, end: 20, file_id: 0 };
    let inner = Range { start: 12, end: 15, file_id: 0 };
    let other = Range { start: 21, end: 30, file_id: 0 };
    assert!(outer.contains(&inner));
    assert!(!inner.contains(&outer));
    assert!(outer.is_disjoint(&other));
    assert!(!outer.is_disjoint(&inner));
}
