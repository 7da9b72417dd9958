use midend::ast::symbol::Interner;
use midend::ast::types::{
    Adt, Binding, Block, Decl, Declaration, Enum, Expr, Expression, Func, Generic, Ident, Impl,
    MatchArm, Param, Pat, Path, Pattern, Range, Statement, Stmt, Trait, TraitMethod, Ty, Val, Value,
    Variant,
};
use midend::error::{ErrorKind, Severity};
use midend::lir::items::lower_program;
use midend::lir::lower::{Expr as IrExpr, Item, Stmt as IrStmt};
use midend::lir::lower_expr::LowerError;
use midend::typeck::TyCheckRes;

struct Build {
    syms: Interner,
    next: usize,
}

fn at(start: usize, end: usize) -> Range {
    Range { start, end, file_id: 0 }
}

impl Build {
    fn new() -> Self {
        Build { syms: Interner::new(), next: 0 }
    }

    fn id(&mut self, s: &str) -> Ident {
        self.syms.intern(s.to_string())
    }

    fn expr(&mut self, val: Expr, pos: usize) -> Expression {
        let id = self.next;
        self.next += 1;
        Expression { id, val, span: at(pos, pos) }
    }

    fn var(&mut self, name: &str, pos: usize) -> Expression {
        let x = self.id(name);
        self.expr(Expr::Ident(x), pos)
    }

    fn lit(&mut self, v: Val, pos: usize) -> Expression {
        self.expr(Expr::Value(Value { val: v, span: at(pos, pos) }), pos)
    }

    fn path(&mut self, name: &str, pos: usize) -> Path {
        let x = self.id(name);
        Path { segs: vec![x], span: at(pos, pos) }
    }

    fn let_stmt(&mut self, name: &str, rval: Expression, pos: usize) -> (Statement, usize) {
        let lval = self.var(name, pos);
        let id = lval.id;
        (
            Statement {
                val: Stmt::Assign { lval, rval, ty: None, is_let: true },
                span: at(pos, pos),
            },
            id,
        )
    }

    fn generic(&mut self, name: &str, pos: usize) -> Generic {
        let x = self.id(name);
        Generic { ident: x, bound: None, span: at(pos, pos) }
    }

    fn gen_ty(&mut self, name: &str) -> Ty {
        let x = self.id(name);
        Ty::Generic { ident: x, bound: None }
    }

    fn func(
        &mut self,
        name: &str,
        generics: Vec<Generic>,
        params: Vec<Param>,
        ret: Ty,
        stmts: Vec<Statement>,
        span: Range,
    ) -> Func {
        let ident = self.id(name);
        Func { ident, ret, generics, params, stmts: Block { stmts, span }, span }
    }

    fn name_of(&self, id: Ident) -> String {
        self.syms.name(id).cloned().unwrap_or_default()
    }
}

fn decl(val: Decl, span: Range) -> Declaration {
    Declaration { val, span }
}

fn stmt(val: Stmt, pos: usize) -> Statement {
    Statement { val, span: at(pos, pos) }
}

fn func_names(b: &Build, items: &Vec<Item>) -> Vec<String> {
    let mut out = Vec::new();
    for it in items {
        if let Item::Func(f) = it {
            out.push(b.name_of(f.ident));
        }
    }
    out
}

fn errors_of(tcxt: &TyCheckRes) -> Vec<ErrorKind> {
    tcxt.errors.errors.iter().filter(|e| e.severity == Severity::Error).map(|e| e.kind).collect()
}

fn warnings_of(tcxt: &TyCheckRes) -> Vec<(ErrorKind, Option<Ident>)> {
    tcxt.errors
        .errors
        .iter()
        .filter(|e| e.severity == Severity::Warning)
        .map(|e| (e.kind, e.ident))
        .collect()
}

/// `fn id<T>(x: T) -> T { return x; }`
fn identity(b: &mut Build) -> Func {
    let t = b.generic("T", 2);
    let x = b.id("x");
    let pty = b.gen_ty("T");
    let ret = b.gen_ty("T");
    let rx = b.var("x", 10);
    let body = vec![stmt(Stmt::Ret(rx), 10)];
    b.func("id", vec![t], vec![Param { ident: x, ty: pty, span: at(4, 5) }], ret, body, at(0, 99))
}

fn call(b: &mut Build, name: &str, args: Vec<Expression>, type_args: Vec<Ty>, pos: usize) -> Expression {
    let path = b.path(name, pos);
    b.expr(Expr::Call { path, args, type_args }, pos)
}

#[test]
fn generic_identity_is_copied_for_each_use() {
    let mut b = Build::new();
    let id = identity(&mut b);
    let three = b.lit(Val::Int(3), 110);
    let c1 = call(&mut b, "id", vec![three], vec![Ty::Int], 111);
    let (s1, a_id) = b.let_stmt("a", c1, 112);
    let yes = b.lit(Val::Bool(true), 120);
    let c2 = call(&mut b, "id", vec![yes], vec![Ty::Bool], 121);
    let (s2, b_id) = b.let_stmt("b", c2, 122);
    let main = b.func("main", vec![], vec![], Ty::Void, vec![s1, s2], at(100, 199));
    let decls = vec![decl(Decl::Func(id), at(0, 99)), decl(Decl::Func(main), at(100, 199))];

    let mut tcxt = TyCheckRes::new();
    let ok = tcxt.visit_prog(&decls, &b.syms);
    assert_eq!(errors_of(&tcxt), vec![]);
    assert!(ok);
    assert!(matches!(tcxt.expr_ty.get(&a_id), Some(Ty::Int)));
    assert!(matches!(tcxt.expr_ty.get(&b_id), Some(Ty::Bool)));

    let items = lower_program(&decls, &tcxt, &mut b.syms, 4, 4).expect("the program is lowered");
    let names = func_names(&b, &items);
    assert_eq!(names, vec!["id@int".to_string(), "id@bool".to_string(), "main".to_string()]);
    for it in &items {
        if let Item::Func(f) = it {
            assert!(f.generics.is_empty());
        }
    }
}

#[test]
fn unused_variable_is_a_warning() {
    let mut b = Build::new();
    let one = b.lit(Val::Int(1), 10);
    let (s1, _) = b.let_stmt("x", one, 11);
    let main = b.func("main", vec![], vec![], Ty::Void, vec![s1], at(0, 99));
    let decls = vec![decl(Decl::Func(main), at(0, 99))];
    let mut tcxt = TyCheckRes::new();
    let ok = tcxt.visit_prog(&decls, &b.syms);
    assert!(ok);
    assert_eq!(errors_of(&tcxt), vec![]);
    let x = b.id("x");
    assert_eq!(warnings_of(&tcxt), vec![(ErrorKind::UnusedVariable, Some(x))]);
    let items = lower_program(&decls, &tcxt, &mut b.syms, 4, 4).expect("the program is lowered");
    assert_eq!(func_names(&b, &items), vec!["main".to_string()]);
}

#[test]
fn underscore_variable_is_not_reported() {
    let mut b = Build::new();
    let one = b.lit(Val::Int(1), 10);
    let (s1, _) = b.let_stmt("_x", one, 11);
    let main = b.func("main", vec![], vec![], Ty::Void, vec![s1], at(0, 99));
    let decls = vec![decl(Decl::Func(main), at(0, 99))];
    let mut tcxt = TyCheckRes::new();
    let ok = tcxt.visit_prog(&decls, &b.syms);
    assert!(ok);
    assert_eq!(warnings_of(&tcxt), vec![]);
}

/// `trait eq<T> { fn eq(a: T, b: T) -> bool; }`
fn eq_trait(b: &mut Build) -> Trait {
    let t = b.generic("T", 1002);
    let pa = b.id("a");
    let pb = b.id("b");
    let ta = b.gen_ty("T");
    let tb = b.gen_ty("T");
    let m = b.func(
        "eq",
        vec![],
        vec![
            Param { ident: pa, ty: ta, span: at(1004, 1005) },
            Param { ident: pb, ty: tb, span: at(1006, 1007) },
        ],
        Ty::Bool,
        vec![],
        at(1003, 1090),
    );
    let ident = b.id("eq");
    Trait { ident, generics: vec![t], method: TraitMethod::NoBody(m), span: at(1000, 1099) }
}

/// `impl eq<int> { fn eq(a: int, b: int) -> bool { return a == b; } }`
fn eq_int_impl(b: &mut Build) -> Impl {
    let pa = b.id("a");
    let pb = b.id("b");
    let la = b.var("a", 2010);
    let lb = b.var("b", 2011);
    let cmp = b.expr(
        Expr::Binary { op: midend::ast::types::BinOp::Eq, lhs: Box::new(la), rhs: Box::new(lb) },
        2012,
    );
    let m = b.func(
        "eq",
        vec![],
        vec![
            Param { ident: pa, ty: Ty::Int, span: at(2004, 2005) },
            Param { ident: pb, ty: Ty::Int, span: at(2006, 2007) },
        ],
        Ty::Bool,
        vec![stmt(Stmt::Ret(cmp), 2013)],
        at(2003, 2090),
    );
    let path = b.path("eq", 2001);
    Impl { path, type_arguments: vec![Ty::Int], method: m, span: at(2000, 2099) }
}

/// `fn main() -> void { let r = <int as eq>::eq(1, 1); }`
fn eq_main(b: &mut Build) -> (Func, usize, Range) {
    let one = b.lit(Val::Int(1), 3010);
    let uno = b.lit(Val::Int(1), 3011);
    let trait_ = b.path("eq", 3012);
    let c = b.expr(Expr::TraitMeth { trait_, args: vec![one, uno], type_args: vec![Ty::Int] }, 3013);
    let span = c.span;
    let (s, r_id) = b.let_stmt("r", c, 3014);
    (b.func("main", vec![], vec![], Ty::Void, vec![s], at(3000, 3099)), r_id, span)
}

#[test]
fn trait_call_is_lowered_to_the_implementation() {
    let mut b = Build::new();
    let tr = eq_trait(&mut b);
    let imp = eq_int_impl(&mut b);
    let (main, r_id, _) = eq_main(&mut b);
    let decls = vec![
        decl(Decl::Trait(tr), at(1000, 1099)),
        decl(Decl::Impl(imp), at(2000, 2099)),
        decl(Decl::Func(main), at(3000, 3099)),
    ];
    let mut tcxt = TyCheckRes::new();
    let ok = tcxt.visit_prog(&decls, &b.syms);
    assert_eq!(errors_of(&tcxt), vec![]);
    assert!(ok);
    assert!(matches!(tcxt.expr_ty.get(&r_id), Some(Ty::Bool)));

    let items = lower_program(&decls, &tcxt, &mut b.syms, 4, 4).expect("the program is lowered");
    assert_eq!(func_names(&b, &items), vec!["eq@int".to_string(), "main".to_string()]);
    let main = items
        .iter()
        .find_map(|it| match it {
            Item::Func(f) if b.name_of(f.ident) == "main" => Some(f),
            _ => None,
        })
        .expect("main is lowered");
    match &main.stmts[0] {
        IrStmt::Assign { rval: IrExpr::Call { path, args, .. }, .. } => {
            assert_eq!(b.name_of(*path.segs.last().unwrap()), "eq@int");
            assert_eq!(args.len(), 2);
        },
        other => panic!("the trait call is a plain call, found {:?}", other),
    }
}

#[test]
fn missing_impl_is_one_diagnostic_at_the_call() {
    let mut b = Build::new();
    let tr = eq_trait(&mut b);
    let (main, _, call_span) = eq_main(&mut b);
    let decls = vec![decl(Decl::Trait(tr), at(1000, 1099)), decl(Decl::Func(main), at(3000, 3099))];
    let mut tcxt = TyCheckRes::new();
    let ok = tcxt.visit_prog(&decls, &b.syms);
    assert!(!ok);
    let errs: Vec<_> =
        tcxt.errors.errors.iter().filter(|e| e.severity == Severity::Error).collect();
    assert_eq!(errs.len(), 1);
    assert_eq!(errs[0].kind, ErrorKind::NotImplemented);
    assert_eq!(errs[0].span, call_span);
    assert!(tcxt.errors.is_poisoned());
    assert!(tcxt.report_errors().is_err());
}

/// `enum opt<T> { some(T), none }`
fn opt_enum(b: &mut Build) -> Enum {
    let t = b.generic("T", 4002);
    let some = b.id("some");
    let none = b.id("none");
    let tt = b.gen_ty("T");
    let ident = b.id("opt");
    Enum {
        ident,
        variants: vec![
            Variant { ident: some, types: vec![tt], span: at(4010, 4019) },
            Variant { ident: none, types: vec![], span: at(4020, 4029) },
        ],
        generics: vec![t],
        span: at(4000, 4099),
    }
}

fn opt_pattern(b: &mut Build, variant: &str, binds: Vec<&str>, pos: usize) -> Pattern {
    let path = b.path("opt", pos);
    let v = b.id(variant);
    let mut items = Vec::new();
    for name in binds {
        let x = b.id(name);
        items.push(Pattern { val: Pat::Bind(Binding::Wild(x)), span: at(pos, pos) });
    }
    Pattern { val: Pat::Enum { path, variant: v, items }, span: at(pos, pos) }
}

#[test]
fn enum_pattern_binds_the_payload_for_its_arm() {
    let mut b = Build::new();
    let en = opt_enum(&mut b);
    let opt = b.id("opt");
    let five = b.lit(Val::Int(5), 5010);
    let path = b.path("opt", 5011);
    let some = b.id("some");
    let init = b.expr(Expr::EnumInit { path, variant: some, items: vec![five] }, 5012);
    let lval = b.var("x", 5013);
    let x_id = lval.id;
    let s1 = stmt(
        Stmt::Assign {
            lval,
            rval: init,
            ty: Some(Ty::Enum { ident: opt, gen: vec![Ty::Int] }),
            is_let: true,
        },
        5014,
    );
    let scrut = b.var("x", 5020);
    let p1 = opt_pattern(&mut b, "some", vec!["v"], 5030);
    let p2 = opt_pattern(&mut b, "none", vec![], 5040);
    let arms = vec![
        MatchArm {
            pat: p1,
            blk: Block { stmts: vec![stmt(Stmt::Exit, 5031)], span: at(5031, 5035) },
            span: at(5030, 5035),
        },
        MatchArm {
            pat: p2,
            blk: Block { stmts: vec![stmt(Stmt::Exit, 5041)], span: at(5041, 5045) },
            span: at(5040, 5045),
        },
    ];
    let s2 = stmt(Stmt::Match { expr: scrut, arms }, 5021);
    let main = b.func("main", vec![], vec![], Ty::Void, vec![s1, s2], at(5000, 5099));
    let decls = vec![
        decl(Decl::Adt(Adt::Enum(en)), at(4000, 4099)),
        decl(Decl::Func(main), at(5000, 5099)),
    ];
    let mut tcxt = TyCheckRes::new();
    let ok = tcxt.visit_prog(&decls, &b.syms);
    assert_eq!(errors_of(&tcxt), vec![]);
    assert!(ok);
    match tcxt.expr_ty.get(&x_id) {
        Some(Ty::Enum { ident, gen }) => {
            assert_eq!(*ident, opt);
            assert!(matches!(gen.as_slice(), [Ty::Int]));
        },
        other => panic!("x is an opt<int>, found {:?}", other),
    }

    // The bindings of each arm, as the pattern checker finds them.
    let scrut_ty = Ty::Enum { ident: opt, gen: vec![Ty::Int] };
    let first = opt_pattern(&mut b, "some", vec!["v"], 5030);
    let mut bound = Vec::new();
    assert!(midend::typeck::pattern::check_pattern_type(
        &tcxt,
        &first.val,
        Some(&scrut_ty),
        &mut bound
    ));
    let v = b.id("v");
    assert_eq!(bound.len(), 1);
    assert_eq!(bound[0].ident, v);
    assert!(matches!(bound[0].ty, Ty::Int));
    let second = opt_pattern(&mut b, "none", vec![], 5040);
    let mut none_bound = Vec::new();
    assert!(midend::typeck::pattern::check_pattern_type(
        &tcxt,
        &second.val,
        Some(&scrut_ty),
        &mut none_bound
    ));
    assert!(none_bound.is_empty());

    // The bindings of the arms are gone after the check.
    let main_id = b.id("main");
    let locals = tcxt.var_func.func_refs.get(&main_id.id).expect("main has variables");
    assert!(locals.get(&v.id).is_none());
}

#[test]
fn enum_generics_are_filled_from_the_return_type() {
    let mut b = Build::new();
    let t = b.generic("T", 6002);
    let e = b.generic("E", 6003);
    let ok_v = b.id("ok");
    let err_v = b.id("err");
    let tt = b.gen_ty("T");
    let te = b.gen_ty("E");
    let result = b.id("result");
    let en = Enum {
        ident: result,
        variants: vec![
            Variant { ident: ok_v, types: vec![tt], span: at(6010, 6019) },
            Variant { ident: err_v, types: vec![te], span: at(6020, 6029) },
        ],
        generics: vec![t, e],
        span: at(6000, 6099),
    };
    let bad = b.id("bad");
    let text = b.lit(Val::Str(bad), 7010);
    let path = b.path("result", 7011);
    let init = b.expr(Expr::EnumInit { path, variant: err_v, items: vec![text] }, 7012);
    let init_id = init.id;
    let f = b.func(
        "f",
        vec![],
        vec![],
        Ty::Enum { ident: result, gen: vec![Ty::Int, Ty::String] },
        vec![stmt(Stmt::Ret(init), 7013)],
        at(7000, 7099),
    );
    let decls =
        vec![decl(Decl::Adt(Adt::Enum(en)), at(6000, 6099)), decl(Decl::Func(f), at(7000, 7099))];
    let mut tcxt = TyCheckRes::new();
    let ok = tcxt.visit_prog(&decls, &b.syms);
    assert_eq!(errors_of(&tcxt), vec![]);
    assert!(ok);
    match tcxt.expr_ty.get(&init_id) {
        Some(Ty::Enum { ident, gen }) => {
            assert_eq!(*ident, result);
            assert!(matches!(gen.as_slice(), [Ty::Int, Ty::String]));
        },
        other => panic!("the returned value is a result<int, string>, found {:?}", other),
    }
}

#[test]
fn function_without_return_is_reported() {
    let mut b = Build::new();
    let f = b.func("f", vec![], vec![], Ty::Int, vec![], at(0, 99));
    let decls = vec![decl(Decl::Func(f), at(0, 99))];
    let mut tcxt = TyCheckRes::new();
    let ok = tcxt.visit_prog(&decls, &b.syms);
    assert!(!ok);
    assert_eq!(errors_of(&tcxt), vec![ErrorKind::MissingReturn]);
    assert!(matches!(
        lower_program(&decls, &tcxt, &mut b.syms, 4, 4),
        Ok(_) | Err(LowerError::NoType)
    ));
}


/// `impl eq<bool> { fn eq(a: bool, b: bool) -> bool { return a == b; } }`
fn eq_bool_impl(b: &mut Build) -> Impl {
    let pa = b.id("a");
    let pb = b.id("b");
    let la = b.var("a", 2510);
    let lb = b.var("b", 2511);
    let cmp = b.expr(
        Expr::Binary { op: midend::ast::types::BinOp::Eq, lhs: Box::new(la), rhs: Box::new(lb) },
        2512,
    );
    let m = b.func(
        "eq",
        vec![],
        vec![
            Param { ident: pa, ty: Ty::Bool, span: at(2504, 2505) },
            Param { ident: pb, ty: Ty::Bool, span: at(2506, 2507) },
        ],
        Ty::Bool,
        vec![stmt(Stmt::Ret(cmp), 2513)],
        at(2503, 2590),
    );
    let path = b.path("eq", 2501);
    Impl { path, type_arguments: vec![Ty::Bool], method: m, span: at(2500, 2599) }
}

#[test]
fn implementations_of_one_trait_share_the_method_name() {
    let mut b = Build::new();
    let tr = eq_trait(&mut b);
    let for_int = eq_int_impl(&mut b);
    let for_bool = eq_bool_impl(&mut b);
    let (main, r_id, _) = eq_main(&mut b);
    let decls = vec![
        decl(Decl::Trait(tr), at(1000, 1099)),
        decl(Decl::Impl(for_int), at(2000, 2099)),
        decl(Decl::Impl(for_bool), at(2500, 2599)),
        decl(Decl::Func(main), at(3000, 3099)),
    ];
    let mut tcxt = TyCheckRes::new();
    let ok = tcxt.visit_prog(&decls, &b.syms);
    assert_eq!(errors_of(&tcxt), vec![]);
    assert!(ok);
    assert!(matches!(tcxt.expr_ty.get(&r_id), Some(Ty::Bool)));
    let items = lower_program(&decls, &tcxt, &mut b.syms, 4, 4).expect("the program is lowered");
    assert_eq!(
        func_names(&b, &items),
        vec!["eq@int".to_string(), "eq@bool".to_string(), "main".to_string()]
    );
}

#[test]
fn lowering_a_trait_call_without_implementation_says_so() {
    let mut b = Build::new();
    let tr = eq_trait(&mut b);
    let one = b.lit(Val::Int(1), 3010);
    let uno = b.lit(Val::Int(1), 3011);
    let trait_ = b.path("eq", 3012);
    let c = b.expr(Expr::TraitMeth { trait_, args: vec![one, uno], type_args: vec![Ty::Int] }, 3013);
    let main = b.func(
        "main",
        vec![],
        vec![],
        Ty::Void,
        vec![stmt(Stmt::TraitMeth(c), 3014)],
        at(3000, 3099),
    );
    let decls = vec![decl(Decl::Trait(tr), at(1000, 1099)), decl(Decl::Func(main), at(3000, 3099))];
    let mut tcxt = TyCheckRes::new();
    assert!(!tcxt.visit_prog(&decls, &b.syms));
    assert_eq!(
        lower_program(&decls, &tcxt, &mut b.syms, 4, 4).err(),
        Some(LowerError::NotImplemented)
    );
}
