use midend::ast::symbol::Interner;
use midend::ast::types::{
    Adt, Binding, Block, Enum, Func, Generic, Ident, Impl, Param, Pat, Path, Pattern, Range,
    TraitMethod, Ty, Val, Value, Variant,
};
use midend::ast::types::Trait;
use midend::error::{Error, ErrorKind, ErrorReport, Severity};
use midend::typeck::generic::{GenericResolver, Node, NodeMap};
use midend::typeck::pattern::{check_pattern_type, check_val_pat};
use midend::typeck::scope::VarInFunction;
use midend::typeck::trait_solver::{ImplError, Solved, TraitSolve};
use midend::typeck::TyCheckRes;

fn n(id: usize) -> Ident {
    Ident { id }
}

fn sp(start: usize, end: usize) -> Range {
    Range { start, end, file_id: 0 }
}

fn gen(id: usize) -> Ty {
    Ty::Generic { ident: n(id), bound: None }
}

fn empty_func(name: usize, params: Vec<Param>, ret: Ty, span: Range) -> Func {
    Func {
        ident: n(name),
        ret,
        generics: vec![],
        params,
        stmts: Block { stmts: vec![], span },
        span,
    }
}

#[test]
fn node_map_keeps_one_value_for_each_node() {
    let mut m: NodeMap<usize> = NodeMap::new();
    assert!(m.get(&Node::Func(n(1))).is_none());
    assert_eq!(m.insert(Node::Func(n(1)), 10), None);
    assert_eq!(m.insert(Node::Struct(n(1)), 20), None);
    assert_eq!(m.get(&Node::Func(n(1))), Some(&10));
    assert_eq!(m.get(&Node::Struct(n(1))), Some(&20));
    assert!(m.get(&Node::Enum(n(1))).is_none());
    assert!(m.contains(&Node::Func(n(1))));
    assert!(!m.contains(&Node::Func(n(2))));
    assert_eq!(m.insert(Node::Func(n(1)), 11), Some(10));
    assert_eq!(m.get(&Node::Func(n(1))), Some(&11));
    assert_eq!(m.remove(&Node::Func(n(1))), Some(11));
    assert_eq!(m.remove(&Node::Func(n(1))), None);
    assert!(!m.contains(&Node::Func(n(1))));
    assert_eq!(m.get(&Node::Struct(n(1))), Some(&20));
}

#[test]
fn resolver_declares_the_parameters_of_a_signature() {
    let mut res = GenericResolver::new();
    let f = Node::Func(n(1));
    assert!(!res.has_generics(&f));
    let sig = Ty::Func { ident: n(1), ret: Box::new(Ty::Void), params: vec![gen(5), gen(6)] };
    res.collect_generic_params(&f, &sig);
    assert!(res.has_generics(&f));
    let p = res.generic_dag().get(&f).expect("the function is a generic item");
    assert_eq!(p.generics.len(), 2);
    assert!(p.generics.contains_key(&5));
    assert!(p.generics.contains_key(&6));
    assert!(p.children.is_empty());
    assert!(!res.has_generics(&Node::Func(n(2))));
}

#[test]
fn resolver_records_a_concrete_use_for_each_enclosing_item() {
    let mut res = GenericResolver::new();
    let f = Node::Func(n(1));
    let g = Node::Func(n(2));
    let mut stack = vec![f, g];
    res.collect_generic_usage(&Ty::Int, 7, 0, &vec![40], &mut stack);
    for node in [f, g] {
        let uses = res.resolved(&node).expect("the use is recorded");
        assert_eq!(uses.len(), 1);
        assert!(matches!(uses[0].ty, Ty::Int));
        assert_eq!(uses[0].instance_id, 7);
        assert_eq!(uses[0].gen_idx, 0);
    }
    // The same use again is one use.
    res.collect_generic_usage(&Ty::Int, 7, 0, &vec![41], &mut stack);
    assert_eq!(res.resolved(&f).unwrap().len(), 1);
    // Another parameter of the same use is another entry.
    res.collect_generic_usage(&Ty::Bool, 7, 1, &vec![42], &mut stack);
    assert_eq!(res.resolved(&f).unwrap().len(), 2);
}

#[test]
fn resolver_records_no_type_that_is_not_concrete() {
    let mut res = GenericResolver::new();
    let f = Node::Func(n(1));
    let sig = Ty::Func { ident: n(1), ret: Box::new(Ty::Void), params: vec![gen(5)] };
    res.collect_generic_params(&f, &sig);

    let mut stack = vec![f, Node::Func(n(2))];
    res.collect_generic_usage(&gen(5), 0, 0, &vec![1], &mut stack);
    assert!(res.resolved(&f).map_or(true, |u| u.is_empty()));
    // The use of a parameter is a dependency of the inner item on the outer.
    let p = res.generic_dag().get(&f).unwrap();
    assert_eq!(p.children.len(), 1);
    assert_eq!(p.children[0].node, Node::Func(n(2)));
    assert_eq!(p.children[0].ident, n(5));

    let unresolved = Ty::Path(Path { segs: vec![n(9)], span: sp(0, 0) });
    let mut stack = vec![f];
    res.collect_generic_usage(&unresolved, 1, 0, &vec![2], &mut stack);
    res.collect_generic_usage(&Ty::Ptr(Box::new(gen(5))), 2, 0, &vec![3], &mut stack);
    assert!(res.resolved(&f).map_or(true, |u| u.is_empty()));
    for node in [f, Node::Func(n(2))] {
        if let Some(uses) = res.resolved(&node) {
            for u in uses {
                assert!(u.ty.is_concrete());
            }
        }
    }
}

#[test]
fn resolver_walks_into_the_arguments_of_a_generic_struct() {
    let mut res = GenericResolver::new();
    let f = Node::Func(n(1));
    let mut stack = vec![f];
    let whole = Ty::Struct { ident: n(3), gen: vec![Ty::Int] };
    res.collect_generic_usage(&whole, 0, 0, &vec![1], &mut stack);
    let uses = res.resolved(&f).expect("a concrete struct is recorded as it is");
    assert_eq!(uses.len(), 1);
    assert!(uses[0].ty.is_ty_eq(&Ty::Struct { ident: n(3), gen: vec![Ty::Int] }));
    assert_eq!(stack.len(), 1);
}

fn eq_trait(name: usize) -> Trait {
    Trait {
        ident: n(name),
        generics: vec![Generic { ident: n(50), bound: None, span: sp(0, 0) }],
        method: TraitMethod::NoBody(empty_func(
            name,
            vec![Param { ident: n(51), ty: gen(50), span: sp(0, 0) }],
            Ty::Bool,
            sp(1, 2),
        )),
        span: sp(0, 9),
    }
}

fn impl_for(name: usize, args: Vec<Ty>, at: usize) -> Impl {
    Impl {
        path: Path { segs: vec![n(name)], span: sp(at, at) },
        type_arguments: args,
        method: empty_func(name, vec![], Ty::Bool, sp(at, at + 5)),
        span: sp(at, at + 9),
    }
}

#[test]
fn trait_solver_answers_by_type_arguments() {
    let tr = eq_trait(1);
    let for_int = impl_for(1, vec![Ty::Int], 10);
    let for_bool = impl_for(1, vec![Ty::Bool], 20);
    let again = impl_for(1, vec![Ty::Int], 30);
    let stray = impl_for(2, vec![Ty::Int], 40);
    let other = eq_trait(1);

    let mut solver = TraitSolve::new();
    assert!(matches!(solver.solve(n(1), &vec![Ty::Int]), Solved::NoImpls));
    assert!(solver.add_trait(&tr).is_none());
    assert!(solver.add_trait(&other).is_some());
    assert_eq!(solver.add_impl(&stray), Err(ImplError::NoTrait));
    assert_eq!(solver.add_impl(&for_int), Ok(()));
    assert_eq!(solver.add_impl(&for_bool), Ok(()));
    assert_eq!(solver.add_impl(&again), Err(ImplError::Duplicate));

    match solver.solve(n(1), &vec![Ty::Bool]) {
        Solved::Impl(found) => assert_eq!(found.span, for_bool.span),
        _ => panic!("the implementation for bool answers"),
    }
    match solver.solve(n(1), &vec![Ty::Int]) {
        Solved::Impl(found) => assert_eq!(found.span, for_int.span),
        _ => panic!("the implementation for int answers"),
    }
    assert!(matches!(solver.solve(n(1), &vec![Ty::Char]), Solved::NotImplemented));
    assert!(matches!(solver.solve(n(1), &vec![gen(50)]), Solved::Dependent));
    assert!(matches!(solver.solve(n(2), &vec![Ty::Int]), Solved::NoImpls));

    solver.to_solve(n(1), &vec![gen(50)], vec![Node::Func(n(7))]);
    assert_eq!(solver.unsolved.len(), 1);
    assert_eq!(solver.unsolved[0].trait_, n(1));
    assert_eq!(solver.unsolved[0].stack, vec![Node::Func(n(7))]);
}

#[test]
fn function_regions_never_overlap() {
    let mut scopes = VarInFunction::new();
    assert_eq!(scopes.insert(sp(100, 200), n(2)), None);
    assert_eq!(scopes.insert(sp(0, 100), n(1)), None);
    assert_eq!(scopes.insert(sp(300, 400), n(3)), None);
    // A region that meets another is refused, and names the one it meets.
    assert_eq!(scopes.insert(sp(150, 250), n(4)), Some(n(2)));
    assert_eq!(scopes.insert(sp(50, 60), n(5)), Some(n(1)));
    assert_eq!(scopes.insert(sp(0, 1000), n(6)), Some(n(1)));
    assert_eq!(scopes.func_spans.len(), 3);
    // The regions are held in the order of their starts.
    let starts: Vec<usize> = scopes.func_spans.iter().map(|s| s.span.start).collect();
    assert_eq!(starts, vec![0, 100, 300]);
    for i in 0..scopes.func_spans.len() {
        for j in 0..scopes.func_spans.len() {
            if i != j {
                assert!(scopes.func_spans[i].span.is_disjoint(&scopes.func_spans[j].span));
            }
        }
    }
    assert_eq!(scopes.get_fn_by_span(sp(120, 130)), Some(n(2)));
    assert_eq!(scopes.get_fn_by_span(sp(10, 10)), Some(n(1)));
    assert_eq!(scopes.get_fn_by_span(sp(250, 260)), None);
    assert_eq!(scopes.get_fn_by_span(sp(90, 110)), None);
}

fn wild(id: usize) -> Pattern {
    Pattern { val: Pat::Bind(Binding::Wild(n(id))), span: sp(0, 0) }
}

fn literal(v: Val) -> Pattern {
    Pattern { val: Pat::Bind(Binding::Value(Value { val: v, span: sp(0, 0) })), span: sp(0, 0) }
}

#[test]
fn name_pattern_binds_the_type() {
    let mut bound = Vec::new();
    assert!(check_val_pat(&Binding::Wild(n(3)), &Ty::Char, &mut bound));
    assert_eq!(bound.len(), 1);
    assert_eq!(bound[0].ident, n(3));
    assert!(matches!(bound[0].ty, Ty::Char));
}

#[test]
fn literal_pattern_must_have_the_type() {
    let mut bound = Vec::new();
    let three = Binding::Value(Value { val: Val::Int(3), span: sp(0, 0) });
    assert!(check_val_pat(&three, &Ty::Int, &mut bound));
    assert!(bound.is_empty());
    assert!(!check_val_pat(&three, &Ty::Bool, &mut bound));
    assert!(bound.is_empty());
}

#[test]
fn array_pattern_binds_each_name_to_the_item_type() {
    let tcxt = TyCheckRes::new();
    let ty = Ty::Array { size: 3, ty: Box::new(Ty::Int) };
    let pat = Pat::Array { size: 3, items: vec![wild(1), literal(Val::Int(0)), wild(2)] };
    let mut bound = Vec::new();
    assert!(check_pattern_type(&tcxt, &pat, Some(&ty), &mut bound));
    let names: Vec<Ident> = bound.iter().map(|b| b.ident).collect();
    assert_eq!(names, vec![n(1), n(2)]);
    assert!(bound.iter().all(|b| matches!(b.ty, Ty::Int)));
}

#[test]
fn pattern_that_does_not_fit_binds_nothing() {
    let tcxt = TyCheckRes::new();
    let ty = Ty::Array { size: 3, ty: Box::new(Ty::Int) };
    let mut bound = Vec::new();
    // The wrong size.
    let short = Pat::Array { size: 2, items: vec![wild(1), wild(2)] };
    assert!(!check_pattern_type(&tcxt, &short, Some(&ty), &mut bound));
    assert!(bound.is_empty());
    // A literal of the wrong type behind a name.
    let mixed = Pat::Array { size: 3, items: vec![wild(1), literal(Val::Bool(true)), wild(2)] };
    assert!(!check_pattern_type(&tcxt, &mixed, Some(&ty), &mut bound));
    assert!(bound.is_empty());
    // An array pattern against what is no array.
    let arr = Pat::Array { size: 3, items: vec![wild(1), wild(2), wild(3)] };
    assert!(!check_pattern_type(&tcxt, &arr, Some(&Ty::Int), &mut bound));
    // An enum pattern against an array.
    let en = Pat::Enum { path: Path { segs: vec![n(9)], span: sp(0, 0) }, variant: n(8), items: vec![] };
    assert!(!check_pattern_type(&tcxt, &en, Some(&ty), &mut bound));
    // Nothing to match against.
    assert!(!check_pattern_type(&tcxt, &Pat::Bind(Binding::Wild(n(1))), None, &mut bound));
    assert!(bound.is_empty());
}

#[test]
fn enum_pattern_binds_payload_with_type_arguments_put_in() {
    // enum pair<T, U> { both(T, U), first(T), neither }
    let en = Adt::Enum(Enum {
        ident: n(10),
        variants: vec![
            Variant { ident: n(11), types: vec![gen(20), gen(21)], span: sp(1, 2) },
            Variant { ident: n(12), types: vec![Ty::Ptr(Box::new(gen(20)))], span: sp(3, 4) },
            Variant { ident: n(13), types: vec![], span: sp(5, 6) },
        ],
        generics: vec![
            Generic { ident: n(20), bound: None, span: sp(0, 0) },
            Generic { ident: n(21), bound: None, span: sp(0, 0) },
        ],
        span: sp(0, 9),
    });
    let mut tcxt = TyCheckRes::new();
    tcxt.visit_adt(&en);
    assert!(tcxt.errors.errors.is_empty());
    let ty = Ty::Enum { ident: n(10), gen: vec![Ty::Int, Ty::String] };
    let path = || Path { segs: vec![n(10)], span: sp(0, 0) };

    let both = Pat::Enum { path: path(), variant: n(11), items: vec![wild(1), wild(2)] };
    let mut bound = Vec::new();
    assert!(check_pattern_type(&tcxt, &both, Some(&ty), &mut bound));
    assert_eq!(bound.len(), 2);
    assert_eq!(bound[0].ident, n(1));
    assert!(matches!(bound[0].ty, Ty::Int));
    assert_eq!(bound[1].ident, n(2));
    assert!(matches!(bound[1].ty, Ty::String));

    let first = Pat::Enum { path: path(), variant: n(12), items: vec![wild(3)] };
    let mut bound = Vec::new();
    assert!(check_pattern_type(&tcxt, &first, Some(&ty), &mut bound));
    assert_eq!(bound.len(), 1);
    assert!(bound[0].ty.is_ty_eq(&Ty::Ptr(Box::new(Ty::Int))));

    let neither = Pat::Enum { path: path(), variant: n(13), items: vec![] };
    let mut bound = Vec::new();
    assert!(check_pattern_type(&tcxt, &neither, Some(&ty), &mut bound));
    assert!(bound.is_empty());

    // A variant that the enum does not have, and too many items.
    let unknown = Pat::Enum { path: path(), variant: n(99), items: vec![] };
    assert!(!check_pattern_type(&tcxt, &unknown, Some(&ty), &mut bound));
    let long = Pat::Enum { path: path(), variant: n(12), items: vec![wild(3), wild(4)] };
    assert!(!check_pattern_type(&tcxt, &long, Some(&ty), &mut bound));
    assert!(bound.is_empty());
}

#[test]
fn interner_holds_each_name_once() {
    let mut names = Interner::new();
    let a = names.intern("alpha".to_string());
    let b = names.intern("beta".to_string());
    let again = names.intern("alpha".to_string());
    assert_eq!(a, again);
    assert_ne!(a, b);
    assert_eq!(a.id, 0);
    assert_eq!(b.id, 1);
    assert_eq!(names.names.len(), 2);
    assert_eq!(names.name(b).map(|s| s.as_str()), Some("beta"));
    assert!(names.name(Ident { id: 5 }).is_none());
    let hidden = names.intern("_tmp".to_string());
    let empty = names.intern(String::new());
    assert!(names.starts_with_underscore(hidden));
    assert!(!names.starts_with_underscore(a));
    assert!(!names.starts_with_underscore(empty));
    assert!(!names.starts_with_underscore(Ident { id: 77 }));
    assert!(names.holds_each_once());
    names.names.push("beta".to_string());
    assert!(!names.holds_each_once());
}

#[test]
fn error_report_tells_errors_from_warnings() {
    let mut report = ErrorReport::new();
    assert!(!report.has_errors());
    assert!(!report.is_poisoned());
    report.push_error(Error::warning(sp(1, 2), ErrorKind::UnusedVariable, n(1)));
    assert!(!report.has_errors());
    report.push_error(Error::error_with_span(sp(3, 4), ErrorKind::TypeMismatch));
    assert!(report.has_errors());
    assert!(!report.is_poisoned());
    report.fatal(Error::error_with_ident(sp(5, 6), ErrorKind::UndeclaredVariable, n(2)));
    assert!(report.is_poisoned());
    assert_eq!(report.errors.len(), 3);
    assert_eq!(report.errors[0].severity, Severity::Warning);
    assert_eq!(report.errors[1].ident, None);
    assert_eq!(report.errors[2].ident, Some(n(2)));
    assert_eq!(report.errors[2].span, sp(5, 6));
    report.poisoned(false);
    assert!(!report.is_poisoned());
}

#[test]
fn context_reports_errors_as_a_result() {
    let mut tcxt = TyCheckRes::new();
    assert_eq!(tcxt.report_errors(), Ok(()));
    tcxt.errors.push_error(Error::warning(sp(1, 2), ErrorKind::UnusedVariable, n(1)));
    assert_eq!(tcxt.report_errors(), Ok(()));
    tcxt.errors.push_error(Error::error_with_span(sp(3, 4), ErrorKind::TypeMismatch));
    assert_eq!(tcxt.report_errors(), Err(()));
    assert_eq!(tcxt.unique_id(), 0);
    assert_eq!(tcxt.unique_id(), 1);
}
