use midend::ast::symbol::Interner;
use midend::ast::types::{
    Adt, BinOp, Binding, Block, Const, Decl, Declaration, Enum, Expr, Expression, Field, FieldInit,
    Func, Generic, Ident, Impl, MatchArm, Param, Pat, Path, Pattern, Range, Statement, Stmt, Struct,
    Trait, TraitMethod, Ty, Val, Value, Variant,
};
use midend::error::{ErrorKind, Severity, TyTag};
use midend::typeck::infer::TypeInfer;
use midend::typeck::TyCheckRes;

struct Src {
    syms: Interner,
    next: usize,
    pos: usize,
}

fn span(start: usize, end: usize) -> Range {
    Range { start, end, file_id: 0 }
}

impl Src {
    fn new() -> Self {
        Src { syms: Interner::new(), next: 0, pos: 1000 }
    }

    fn id(&mut self, s: &str) -> Ident {
        self.syms.intern(s.to_string())
    }

    /// A place inside the body of `main`, each call a new one.
    fn here(&mut self) -> Range {
        self.pos += 1;
        span(self.pos, self.pos)
    }

    fn e(&mut self, val: Expr) -> Expression {
        let id = self.next;
        self.next += 1;
        let span = self.here();
        Expression { id, val, span }
    }

    fn var(&mut self, name: &str) -> Expression {
        let x = self.id(name);
        self.e(Expr::Ident(x))
    }

    fn lit(&mut self, val: Val) -> Expression {
        let span = self.here();
        self.e(Expr::Value(Value { val, span }))
    }

    fn num(&mut self, v: isize) -> Expression {
        self.lit(Val::Int(v))
    }

    fn text(&mut self, s: &str) -> Expression {
        let x = self.id(s);
        self.lit(Val::Str(x))
    }

    fn path(&mut self, name: &str) -> Path {
        let x = self.id(name);
        Path { segs: vec![x], span: self.here() }
    }

    fn s(&mut self, val: Stmt) -> Statement {
        Statement { val, span: self.here() }
    }

    fn let_(&mut self, name: &str, rval: Expression) -> Statement {
        let lval = self.var(name);
        self.s(Stmt::Assign { lval, rval, ty: None, is_let: true })
    }

    fn set(&mut self, name: &str, rval: Expression) -> Statement {
        let lval = self.var(name);
        self.s(Stmt::Assign { lval, rval, ty: None, is_let: false })
    }

    fn call(&mut self, name: &str, args: Vec<Expression>, type_args: Vec<Ty>) -> Expression {
        let path = self.path(name);
        self.e(Expr::Call { path, args, type_args })
    }

    /// `fn main() -> void { stmts }` over the places that `here` hands out.
    fn main(&mut self, stmts: Vec<Statement>) -> Declaration {
        self.func_at("main", vec![], vec![], Ty::Void, stmts, span(1000, 1999))
    }

    fn func_at(
        &mut self,
        name: &str,
        generics: Vec<&str>,
        params: Vec<(&str, Ty)>,
        ret: Ty,
        stmts: Vec<Statement>,
        at: Range,
    ) -> Declaration {
        let ident = self.id(name);
        let mut gs = Vec::new();
        for g in generics {
            let x = self.id(g);
            gs.push(Generic { ident: x, bound: None, span: span(at.start, at.start) });
        }
        let mut ps = Vec::new();
        for (p, ty) in params {
            let x = self.id(p);
            ps.push(Param { ident: x, ty, span: span(at.start, at.start) });
        }
        Declaration {
            val: Decl::Func(Func {
                ident,
                ret,
                generics: gs,
                params: ps,
                stmts: Block { stmts, span: at },
                span: at,
            }),
            span: at,
        }
    }

    fn point(&mut self, at: Range) -> Declaration {
        let ident = self.id("point");
        let x = self.id("x");
        Declaration {
            val: Decl::Adt(Adt::Struct(Struct {
                ident,
                fields: vec![Field { ident: x, ty: Ty::Int, span: at }],
                generics: vec![],
                span: at,
            })),
            span: at,
        }
    }

    fn point_init(&mut self, field: &str) -> Expression {
        let path = self.path("point");
        let f = self.id(field);
        let one = self.num(1);
        let span = self.here();
        self.e(Expr::StructInit { path, fields: vec![FieldInit { ident: f, init: one, span }] })
    }

    fn opt(&mut self, at: Range) -> Declaration {
        let ident = self.id("opt");
        let some = self.id("some");
        let none = self.id("none");
        Declaration {
            val: Decl::Adt(Adt::Enum(Enum {
                ident,
                variants: vec![
                    Variant { ident: some, types: vec![Ty::Int], span: at },
                    Variant { ident: none, types: vec![], span: at },
                ],
                generics: vec![],
                span: at,
            })),
            span: at,
        }
    }

    fn shows(&mut self, at: Range) -> Trait {
        let ident = self.id("shows");
        let t = self.id("T");
        let m = self.id("show");
        let x = self.id("x");
        Trait {
            ident,
            generics: vec![Generic { ident: t, bound: None, span: at }],
            method: TraitMethod::NoBody(Func {
                ident: m,
                ret: Ty::Void,
                generics: vec![],
                params: vec![Param { ident: x, ty: Ty::Generic { ident: t, bound: None }, span: at }],
                stmts: Block { stmts: vec![], span: at },
                span: at,
            }),
            span: at,
        }
    }

    fn shows_impl(&mut self, trait_name: &str, method: &str, at: Range) -> Impl {
        let path = Path { segs: vec![self.id(trait_name)], span: at };
        let m = self.id(method);
        let x = self.id("x");
        Impl {
            path,
            type_arguments: vec![Ty::Int],
            method: Func {
                ident: m,
                ret: Ty::Void,
                generics: vec![],
                params: vec![Param { ident: x, ty: Ty::Int, span: at }],
                stmts: Block { stmts: vec![], span: at },
                span: at,
            },
            span: at,
        }
    }
}

fn errors_in(decls: &Vec<Declaration>, src: &Src) -> Vec<ErrorKind> {
    let mut tcxt = TyCheckRes::new();
    let ok = tcxt.visit_prog(decls, &src.syms);
    let kinds: Vec<ErrorKind> = tcxt
        .errors
        .errors
        .iter()
        .filter(|e| e.severity == Severity::Error)
        .map(|e| e.kind)
        .collect();
    assert_eq!(ok, kinds.is_empty() && !tcxt.errors.is_poisoned());
    kinds
}

fn wrap(d: Decl, at: Range) -> Declaration {
    Declaration { val: d, span: at }
}

#[test]
fn undeclared_variable() {
    let mut s = Src::new();
    let b = s.var("b");
    let st = s.let_("a", b);
    let decls = vec![s.main(vec![st])];
    assert_eq!(errors_in(&decls, &s), vec![ErrorKind::UndeclaredVariable]);
}

#[test]
fn unknown_function() {
    let mut s = Src::new();
    let one = s.num(1);
    let c = s.call("nope", vec![one], vec![]);
    let st = s.let_("a", c);
    let decls = vec![s.main(vec![st])];
    assert_eq!(errors_in(&decls, &s), vec![ErrorKind::UnknownFunction]);
}

#[test]
fn unknown_struct_and_field() {
    let mut s = Src::new();
    let init = s.point_init("x");
    let st = s.let_("p", init);
    let decls = vec![s.main(vec![st])];
    assert_eq!(errors_in(&decls, &s), vec![ErrorKind::UnknownStruct]);

    let mut s = Src::new();
    let point = s.point(span(0, 99));
    let init = s.point_init("z");
    let st = s.let_("p", init);
    let decls = vec![point, s.main(vec![st])];
    assert_eq!(errors_in(&decls, &s), vec![ErrorKind::UnknownField]);

    let mut s = Src::new();
    let point = s.point(span(0, 99));
    let init = s.point_init("x");
    let s1 = s.let_("p", init);
    let lhs = s.var("p");
    let rhs = s.var("z");
    let access = s.e(Expr::FieldAccess { lhs: Box::new(lhs), rhs: Box::new(rhs) });
    let s2 = s.let_("a", access);
    let decls = vec![point, s.main(vec![s1, s2])];
    assert_eq!(errors_in(&decls, &s), vec![ErrorKind::UnknownField]);
}

#[test]
fn invalid_field_access() {
    let mut s = Src::new();
    let one = s.num(1);
    let s1 = s.let_("a", one);
    let lhs = s.var("a");
    let rhs = s.var("x");
    let access = s.e(Expr::FieldAccess { lhs: Box::new(lhs), rhs: Box::new(rhs) });
    let s2 = s.let_("b", access);
    let decls = vec![s.main(vec![s1, s2])];
    assert_eq!(errors_in(&decls, &s), vec![ErrorKind::InvalidFieldAccess]);
}

#[test]
fn unknown_enum_and_variant() {
    let mut s = Src::new();
    let path = s.path("opt");
    let v = s.id("some");
    let one = s.num(1);
    let init = s.e(Expr::EnumInit { path, variant: v, items: vec![one] });
    let st = s.let_("a", init);
    let decls = vec![s.main(vec![st])];
    assert_eq!(errors_in(&decls, &s), vec![ErrorKind::UnknownEnum]);

    let mut s = Src::new();
    let opt = s.opt(span(0, 99));
    let path = s.path("opt");
    let v = s.id("other");
    let one = s.num(1);
    let init = s.e(Expr::EnumInit { path, variant: v, items: vec![one] });
    let st = s.let_("a", init);
    let decls = vec![opt, s.main(vec![st])];
    assert_eq!(errors_in(&decls, &s), vec![ErrorKind::UnknownVariant]);
}

#[test]
fn unknown_trait() {
    let mut s = Src::new();
    let trait_ = s.path("shows");
    let one = s.num(1);
    let c = s.e(Expr::TraitMeth { trait_, args: vec![one], type_args: vec![Ty::Int] });
    let st = s.s(Stmt::TraitMeth(c));
    let decls = vec![s.main(vec![st])];
    assert_eq!(errors_in(&decls, &s), vec![ErrorKind::UnknownTrait]);

    let mut s = Src::new();
    let imp = s.shows_impl("shows", "show", span(0, 99));
    let decls = vec![wrap(Decl::Impl(imp), span(0, 99))];
    assert_eq!(errors_in(&decls, &s), vec![ErrorKind::UnknownTrait]);
}

#[test]
fn duplicate_declarations() {
    let mut s = Src::new();
    let f1 = s.func_at("f", vec![], vec![], Ty::Void, vec![], span(0, 99));
    let f2 = s.func_at("f", vec![], vec![], Ty::Void, vec![], span(100, 199));
    assert_eq!(errors_in(&vec![f1, f2], &s), vec![ErrorKind::DuplicateFunction]);

    let mut s = Src::new();
    let p1 = s.point(span(0, 99));
    let p2 = s.point(span(100, 199));
    assert_eq!(errors_in(&vec![p1, p2], &s), vec![ErrorKind::DuplicateStruct]);

    let mut s = Src::new();
    let o1 = s.opt(span(0, 99));
    let o2 = s.opt(span(100, 199));
    assert_eq!(errors_in(&vec![o1, o2], &s), vec![ErrorKind::DuplicateEnum]);

    let mut s = Src::new();
    let t1 = s.shows(span(0, 99));
    let t2 = s.shows(span(100, 199));
    let decls = vec![wrap(Decl::Trait(t1), span(0, 99)), wrap(Decl::Trait(t2), span(100, 199))];
    assert_eq!(errors_in(&decls, &s), vec![ErrorKind::DuplicateTrait]);

    let mut s = Src::new();
    let t = s.shows(span(0, 99));
    let i1 = s.shows_impl("shows", "show", span(100, 199));
    let i2 = s.shows_impl("shows", "show", span(200, 299));
    let decls = vec![
        wrap(Decl::Trait(t), span(0, 99)),
        wrap(Decl::Impl(i1), span(100, 199)),
        wrap(Decl::Impl(i2), span(200, 299)),
    ];
    assert_eq!(errors_in(&decls, &s), vec![ErrorKind::DuplicateImpl]);

    let mut s = Src::new();
    let g = s.id("g");
    let i1 = s.num(1);
    let i2 = s.num(2);
    let decls = vec![
        wrap(Decl::Const(Const { ident: g, ty: Ty::Int, init: i1, span: span(0, 9) }), span(0, 9)),
        wrap(Decl::Const(Const { ident: g, ty: Ty::Int, init: i2, span: span(10, 19) }), span(10, 19)),
    ];
    assert_eq!(errors_in(&decls, &s), vec![ErrorKind::DuplicateGlobal]);
}

#[test]
fn duplicate_parameter_and_variable() {
    let mut s = Src::new();
    let f = s.func_at("f", vec![], vec![("a", Ty::Int), ("a", Ty::Int)], Ty::Void, vec![], span(0, 99));
    assert_eq!(errors_in(&vec![f], &s), vec![ErrorKind::DuplicateParam]);

    let mut s = Src::new();
    let one = s.num(1);
    let two = s.num(2);
    let s1 = s.let_("a", one);
    let s2 = s.let_("a", two);
    let decls = vec![s.main(vec![s1, s2])];
    assert_eq!(errors_in(&decls, &s), vec![ErrorKind::DuplicateVariable]);
}

#[test]
fn let_that_shadows_a_global() {
    let mut s = Src::new();
    let g = s.id("g");
    let init = s.e(Expr::Value(Value { val: Val::Int(1), span: span(1, 1) }));
    let k = wrap(Decl::Const(Const { ident: g, ty: Ty::Int, init, span: span(0, 9) }), span(0, 9));
    let two = s.num(2);
    let st = s.let_("g", two);
    let decls = vec![k, s.main(vec![st])];
    assert_eq!(errors_in(&decls, &s), vec![ErrorKind::ShadowsGlobal]);
}

#[test]
fn functions_whose_regions_meet() {
    let mut s = Src::new();
    let f = s.func_at("f", vec![], vec![], Ty::Void, vec![], span(0, 100));
    let g = s.func_at("g", vec![], vec![], Ty::Void, vec![], span(50, 150));
    assert_eq!(errors_in(&vec![f, g], &s), vec![ErrorKind::SpanClash]);
}

#[test]
fn assignment_of_the_wrong_type() {
    let mut s = Src::new();
    let one = s.num(1);
    let s1 = s.let_("a", one);
    let t = s.text("bad");
    let s2 = s.set("a", t);
    let decls = vec![s.main(vec![s1, s2])];
    assert_eq!(errors_in(&decls, &s), vec![ErrorKind::TypeMismatch]);
}

#[test]
fn assignment_with_a_conversion_is_accepted() {
    let mut s = Src::new();
    let one = s.num(1);
    let s1 = s.let_("a", one);
    let yes = s.lit(Val::Bool(true));
    let s2 = s.set("a", yes);
    let half = s.lit(Val::Float(0.5f64.to_bits()));
    let s3 = s.set("a", half);
    let decls = vec![s.main(vec![s1, s2, s3])];
    assert_eq!(errors_in(&decls, &s), vec![]);
}

#[test]
fn argument_of_the_wrong_type_and_wrong_number() {
    let mut s = Src::new();
    let f = s.func_at("f", vec![], vec![("x", Ty::Int)], Ty::Void, vec![], span(0, 99));
    let t = s.text("bad");
    let c = s.call("f", vec![t], vec![]);
    let st = s.s(Stmt::Call(c));
    let decls = vec![f, s.main(vec![st])];
    assert_eq!(errors_in(&decls, &s), vec![ErrorKind::ArgumentMismatch]);

    let mut s = Src::new();
    let f = s.func_at("f", vec![], vec![("x", Ty::Int)], Ty::Void, vec![], span(0, 99));
    let one = s.num(1);
    let two = s.num(2);
    let c = s.call("f", vec![one, two], vec![]);
    let st = s.s(Stmt::Call(c));
    let decls = vec![f, s.main(vec![st])];
    assert_eq!(errors_in(&decls, &s), vec![ErrorKind::WrongArity]);
}

#[test]
fn return_of_the_wrong_type() {
    let mut s = Src::new();
    let t = s.text("bad");
    let st = s.s(Stmt::Ret(t));
    let f = s.func_at("f", vec![], vec![], Ty::Int, vec![st], span(1000, 1999));
    assert_eq!(errors_in(&vec![f], &s), vec![ErrorKind::ReturnMismatch]);
}

#[test]
fn exit_in_a_function_with_a_result() {
    let mut s = Src::new();
    let one = s.num(1);
    let r = s.s(Stmt::Ret(one));
    let x = s.s(Stmt::Exit);
    let f = s.func_at("f", vec![], vec![], Ty::Int, vec![x, r], span(1000, 1999));
    assert_eq!(errors_in(&vec![f], &s), vec![ErrorKind::ExitWithValue]);
}

#[test]
fn let_of_what_is_no_name() {
    let mut s = Src::new();
    let lval = s.num(3);
    let rval = s.num(1);
    let st = s.s(Stmt::Assign { lval, rval, ty: None, is_let: true });
    let decls = vec![s.main(vec![st])];
    assert_eq!(errors_in(&decls, &s), vec![ErrorKind::InvalidLValue]);
}

#[test]
fn declaration_outside_any_function() {
    let mut s = Src::new();
    let one = s.num(1);
    let st = s.let_("a", one);
    let mut tcxt = TyCheckRes::new();
    TypeInfer::visit_stmt(&mut tcxt, &st);
    let kinds: Vec<ErrorKind> = tcxt.errors.errors.iter().map(|e| e.kind).collect();
    assert!(kinds.contains(&ErrorKind::OutsideFunction));
    assert!(tcxt.errors.is_poisoned());
}

#[test]
fn match_on_what_cannot_be_matched() {
    let mut s = Src::new();
    let point = s.point(span(0, 99));
    let init = s.point_init("x");
    let s1 = s.let_("p", init);
    let scrut = s.var("p");
    let st = s.s(Stmt::Match { expr: scrut, arms: vec![] });
    let decls = vec![point, s.main(vec![s1, st])];
    assert_eq!(errors_in(&decls, &s), vec![ErrorKind::InvalidMatchType]);
}

#[test]
fn pattern_that_does_not_fit_the_scrutinee() {
    let mut s = Src::new();
    let opt = s.opt(span(0, 99));
    let one = s.num(1);
    let s1 = s.let_("a", one);
    let scrut = s.var("a");
    let path = s.path("opt");
    let none = s.id("none");
    let at = s.here();
    let arm = MatchArm {
        pat: Pattern { val: Pat::Enum { path, variant: none, items: vec![] }, span: at },
        blk: Block { stmts: vec![], span: at },
        span: at,
    };
    let st = s.s(Stmt::Match { expr: scrut, arms: vec![arm] });
    let decls = vec![opt, s.main(vec![s1, st])];
    assert_eq!(errors_in(&decls, &s), vec![ErrorKind::PatternMismatch]);
}

#[test]
fn literal_pattern_of_the_right_type_is_accepted() {
    let mut s = Src::new();
    let one = s.num(1);
    let s1 = s.let_("a", one);
    let scrut = s.var("a");
    let at = s.here();
    let arm = MatchArm {
        pat: Pattern {
            val: Pat::Bind(Binding::Value(Value { val: Val::Int(1), span: at })),
            span: at,
        },
        blk: Block { stmts: vec![], span: at },
        span: at,
    };
    let st = s.s(Stmt::Match { expr: scrut, arms: vec![arm] });
    let decls = vec![s.main(vec![s1, st])];
    assert_eq!(errors_in(&decls, &s), vec![]);
}

#[test]
fn condition_that_is_not_truthy() {
    let mut s = Src::new();
    let point = s.point(span(0, 99));
    let init = s.point_init("x");
    let s1 = s.let_("p", init);
    let cond = s.var("p");
    let at = s.here();
    let st = s.s(Stmt::If { cond, blk: Block { stmts: vec![], span: at }, els: None });
    let decls = vec![point, s.main(vec![s1, st])];
    assert_eq!(errors_in(&decls, &s), vec![ErrorKind::NonTruthyCondition]);

    let mut s = Src::new();
    let cond = s.num(1);
    let at = s.here();
    let st = s.s(Stmt::While { cond, blk: Block { stmts: vec![], span: at } });
    let decls = vec![s.main(vec![st])];
    assert_eq!(errors_in(&decls, &s), vec![]);
}

#[test]
fn dereference_and_index_of_the_wrong_type() {
    let mut s = Src::new();
    let one = s.num(1);
    let s1 = s.let_("a", one);
    let a = s.var("a");
    let d = s.e(Expr::Deref { indir: 1, expr: Box::new(a) });
    let s2 = s.let_("b", d);
    let decls = vec![s.main(vec![s1, s2])];
    assert_eq!(errors_in(&decls, &s), vec![ErrorKind::DerefNonPointer]);

    let mut s = Src::new();
    let one = s.num(1);
    let s1 = s.let_("a", one);
    let zero = s.num(0);
    let a = s.id("a");
    let ix = s.e(Expr::Array { ident: a, exprs: vec![zero] });
    let s2 = s.let_("b", ix);
    let decls = vec![s.main(vec![s1, s2])];
    assert_eq!(errors_in(&decls, &s), vec![ErrorKind::IndexNonArray]);

    let mut s = Src::new();
    let one = s.num(1);
    let two = s.num(2);
    let arr = s.e(Expr::ArrayInit { items: vec![one, two] });
    let s1 = s.let_("a", arr);
    let t = s.text("zero");
    let a = s.id("a");
    let ix = s.e(Expr::Array { ident: a, exprs: vec![t] });
    let s2 = s.let_("b", ix);
    let decls = vec![s.main(vec![s1, s2])];
    assert_eq!(errors_in(&decls, &s), vec![ErrorKind::IndexNonInt]);
}

#[test]
fn operator_that_does_not_apply() {
    let mut s = Src::new();
    let yes = s.lit(Val::Bool(true));
    let one = s.num(1);
    let sum = s.e(Expr::Binary { op: BinOp::Add, lhs: Box::new(yes), rhs: Box::new(one) });
    let st = s.let_("a", sum);
    let decls = vec![s.main(vec![st])];
    assert_eq!(errors_in(&decls, &s), vec![ErrorKind::InvalidOperands]);
}

#[test]
fn signature_faults() {
    let mut s = Src::new();
    let t = Ty::Generic { ident: s.id("T"), bound: None };
    let f = s.func_at("f", vec![], vec![("x", t)], Ty::Void, vec![], span(0, 99));
    assert_eq!(errors_in(&vec![f], &s), vec![ErrorKind::UndeclaredGeneric]);

    let mut s = Src::new();
    let p = Ty::Path(s.path("somewhere"));
    let f = s.func_at("f", vec![], vec![("x", p)], Ty::Void, vec![], span(0, 99));
    assert_eq!(errors_in(&vec![f], &s), vec![ErrorKind::UnresolvedPath]);
}

#[test]
fn type_parameter_that_nothing_determines() {
    let mut s = Src::new();
    let one = s.e(Expr::Value(Value { val: Val::Int(1), span: span(10, 10) }));
    let r = Statement { val: Stmt::Ret(one), span: span(11, 11) };
    let f = s.func_at("f", vec!["T"], vec![], Ty::Int, vec![r], span(0, 99));
    let c = s.call("f", vec![], vec![]);
    let st = s.let_("a", c);
    let decls = vec![f, s.main(vec![st])];
    assert_eq!(errors_in(&decls, &s), vec![ErrorKind::UnusedGeneric]);
}

#[test]
fn ids_of_uses_run_out() {
    let mut tcxt = TyCheckRes::new();
    tcxt.uniq_generic_instance_id = usize::MAX;
    assert_eq!(tcxt.unique_id(), usize::MAX);
    assert!(tcxt.errors.is_poisoned());
    assert_eq!(tcxt.errors.errors.len(), 1);
    assert_eq!(tcxt.errors.errors[0].kind, ErrorKind::TooManyInstances);
    assert_eq!(tcxt.uniq_generic_instance_id, usize::MAX);
}

#[test]
fn assignment_to_places() {
    // let a = [1, 2]; a[0] = 3; a[1] = "s";
    let mut s = Src::new();
    let one = s.num(1);
    let two = s.num(2);
    let arr = s.e(Expr::ArrayInit { items: vec![one, two] });
    let s1 = s.let_("a", arr);
    let a = s.id("a");
    let zero = s.num(0);
    let place = s.e(Expr::Array { ident: a, exprs: vec![zero] });
    let three = s.num(3);
    let s2 = s.s(Stmt::Assign { lval: place, rval: three, ty: None, is_let: false });
    let decls = vec![s.main(vec![s1, s2])];
    assert_eq!(errors_in(&decls, &s), vec![]);

    let mut s = Src::new();
    let one = s.num(1);
    let two = s.num(2);
    let arr = s.e(Expr::ArrayInit { items: vec![one, two] });
    let s1 = s.let_("a", arr);
    let a = s.id("a");
    let zero = s.num(0);
    let place = s.e(Expr::Array { ident: a, exprs: vec![zero] });
    let t = s.text("bad");
    let s2 = s.s(Stmt::Assign { lval: place, rval: t, ty: None, is_let: false });
    let decls = vec![s.main(vec![s1, s2])];
    assert_eq!(errors_in(&decls, &s), vec![ErrorKind::TypeMismatch]);
}

#[test]
fn assignment_to_a_field_and_through_a_pointer() {
    // let p = point { x: 1 }; p.x = 2; let q = &p.x ... ; let r = &n; *r = 5;
    let mut s = Src::new();
    let point = s.point(span(0, 99));
    let init = s.point_init("x");
    let s1 = s.let_("p", init);
    let lhs = s.var("p");
    let rhs = s.var("x");
    let place = s.e(Expr::FieldAccess { lhs: Box::new(lhs), rhs: Box::new(rhs) });
    let two = s.num(2);
    let s2 = s.s(Stmt::Assign { lval: place, rval: two, ty: None, is_let: false });
    let n = s.num(4);
    let s3 = s.let_("n", n);
    let nv = s.var("n");
    let addr = s.e(Expr::AddrOf(Box::new(nv)));
    let s4 = s.let_("r", addr);
    let r = s.var("r");
    let through = s.e(Expr::Deref { indir: 1, expr: Box::new(r) });
    let five = s.num(5);
    let s5 = s.s(Stmt::Assign { lval: through, rval: five, ty: None, is_let: false });
    let decls = vec![point, s.main(vec![s1, s2, s3, s4, s5])];
    assert_eq!(errors_in(&decls, &s), vec![]);

    let mut s = Src::new();
    let point = s.point(span(0, 99));
    let init = s.point_init("x");
    let s1 = s.let_("p", init);
    let lhs = s.var("p");
    let rhs = s.var("x");
    let place = s.e(Expr::FieldAccess { lhs: Box::new(lhs), rhs: Box::new(rhs) });
    let t = s.text("bad");
    let s2 = s.s(Stmt::Assign { lval: place, rval: t, ty: None, is_let: false });
    let decls = vec![point, s.main(vec![s1, s2])];
    assert_eq!(errors_in(&decls, &s), vec![ErrorKind::TypeMismatch]);
}

#[test]
fn compound_assignment() {
    let mut s = Src::new();
    let one = s.num(1);
    let s1 = s.let_("a", one);
    let lval = s.var("a");
    let two = s.num(2);
    let s2 = s.s(Stmt::AssignOp { lval, rval: two, op: BinOp::AddAssign });
    let decls = vec![s.main(vec![s1, s2])];
    assert_eq!(errors_in(&decls, &s), vec![]);

    let mut s = Src::new();
    let one = s.num(1);
    let s1 = s.let_("a", one);
    let lval = s.var("a");
    let t = s.text("bad");
    let s2 = s.s(Stmt::AssignOp { lval, rval: t, op: BinOp::SubAssign });
    let decls = vec![s.main(vec![s1, s2])];
    assert_eq!(errors_in(&decls, &s), vec![ErrorKind::TypeMismatch]);
}

#[test]
fn nested_blocks_are_checked() {
    // if 1 { while true { a = "s"; } } else { { exit; } }
    let mut s = Src::new();
    let one = s.num(1);
    let s1 = s.let_("a", one);
    let t = s.text("bad");
    let wrong = s.set("a", t);
    let yes = s.lit(Val::Bool(true));
    let at = s.here();
    let inner = s.s(Stmt::While { cond: yes, blk: Block { stmts: vec![wrong], span: at } });
    let exit = s.s(Stmt::Exit);
    let blk = s.s(Stmt::Block(Block { stmts: vec![exit], span: at }));
    let cond = s.num(1);
    let outer = s.s(Stmt::If {
        cond,
        blk: Block { stmts: vec![inner], span: at },
        els: Some(Block { stmts: vec![blk], span: at }),
    });
    let decls = vec![s.main(vec![s1, outer])];
    assert_eq!(errors_in(&decls, &s), vec![ErrorKind::TypeMismatch]);
}

#[test]
fn many_faults_are_reported_in_one_run() {
    let mut s = Src::new();
    let one = s.num(1);
    let s1 = s.let_("a", one);
    let t = s.text("bad");
    let s2 = s.set("a", t);
    let point = s.point(span(0, 99));
    let init = s.point_init("x");
    let s3 = s.let_("p", init);
    let cond = s.var("p");
    let at = s.here();
    let s4 = s.s(Stmt::If { cond, blk: Block { stmts: vec![], span: at }, els: None });
    let decls = vec![point, s.main(vec![s1, s2, s3, s4])];
    assert_eq!(
        errors_in(&decls, &s),
        vec![ErrorKind::TypeMismatch, ErrorKind::NonTruthyCondition]
    );
}


#[test]
fn diagnostics_name_what_they_are_about() {
    let mut s = Src::new();
    let b = s.var("b");
    let at = b.span;
    let st = s.let_("a", b);
    let decls = vec![s.main(vec![st])];
    let mut tcxt = TyCheckRes::new();
    tcxt.visit_prog(&decls, &s.syms);
    assert_eq!(tcxt.errors.errors.len(), 1);
    assert_eq!(tcxt.errors.errors[0].kind, ErrorKind::UndeclaredVariable);
    assert_eq!(tcxt.errors.errors[0].ident, Some(s.id("b")));
    assert_eq!(tcxt.errors.errors[0].span, at);

    let mut s = Src::new();
    let point = s.point(span(0, 99));
    let init = s.point_init("x");
    let s1 = s.let_("p", init);
    let lhs = s.var("p");
    let rhs = s.var("z");
    let at = rhs.span;
    let access = s.e(Expr::FieldAccess { lhs: Box::new(lhs), rhs: Box::new(rhs) });
    let s2 = s.let_("a", access);
    let decls = vec![point, s.main(vec![s1, s2])];
    let mut tcxt = TyCheckRes::new();
    tcxt.visit_prog(&decls, &s.syms);
    let errs: Vec<_> =
        tcxt.errors.errors.iter().filter(|e| e.severity == Severity::Error).collect();
    assert_eq!(errs.len(), 1);
    assert_eq!(errs[0].kind, ErrorKind::UnknownField);
    assert_eq!(errs[0].ident, Some(s.id("z")));
    assert_eq!(errs[0].span, at);

    let mut s = Src::new();
    let f = s.func_at("f", vec![], vec![("x", Ty::Int)], Ty::Void, vec![], span(0, 99));
    let t = s.text("bad");
    let c = s.call("f", vec![t], vec![]);
    let at = c.span;
    let st = s.s(Stmt::Call(c));
    let decls = vec![f, s.main(vec![st])];
    let mut tcxt = TyCheckRes::new();
    tcxt.visit_prog(&decls, &s.syms);
    let errs: Vec<_> =
        tcxt.errors.errors.iter().filter(|e| e.severity == Severity::Error).collect();
    assert_eq!(errs.len(), 1);
    assert_eq!(errs[0].kind, ErrorKind::ArgumentMismatch);
    assert_eq!(errs[0].ident, Some(s.id("f")));
    assert_eq!(errs[0].span, at);
}

#[test]
fn a_fault_in_an_index_is_reported_once() {
    let mut s = Src::new();
    let one = s.num(1);
    let two = s.num(2);
    let arr = s.e(Expr::ArrayInit { items: vec![one, two] });
    let s1 = s.let_("a", arr);
    let missing = s.var("nowhere");
    let a = s.id("a");
    let ix = s.e(Expr::Array { ident: a, exprs: vec![missing] });
    let s2 = s.let_("b", ix);
    let decls = vec![s.main(vec![s1, s2])];
    assert_eq!(errors_in(&decls, &s), vec![ErrorKind::UndeclaredVariable]);

    let mut s = Src::new();
    let missing = s.var("nowhere");
    let one = s.num(1);
    let arr = s.e(Expr::ArrayInit { items: vec![missing, one] });
    let s1 = s.let_("a", arr);
    let decls = vec![s.main(vec![s1])];
    assert_eq!(errors_in(&decls, &s), vec![ErrorKind::UndeclaredVariable]);
}

#[test]
fn enum_initializer_with_an_open_type_argument() {
    // enum opt<T> { some(T), none }
    let build = |s: &mut Src| {
        let ident = s.id("gopt");
        let some = s.id("some");
        let none = s.id("none");
        let t = s.id("T");
        Declaration {
            val: Decl::Adt(Adt::Enum(Enum {
                ident,
                variants: vec![
                    Variant {
                        ident: some,
                        types: vec![Ty::Generic { ident: t, bound: None }],
                        span: span(1, 2),
                    },
                    Variant { ident: none, types: vec![], span: span(3, 4) },
                ],
                generics: vec![Generic { ident: t, bound: None, span: span(0, 0) }],
                span: span(0, 99),
            })),
            span: span(0, 99),
        }
    };
    // let x = gopt::none;  -- nothing says what T is.
    let mut s = Src::new();
    let en = build(&mut s);
    let path = s.path("gopt");
    let none = s.id("none");
    let init = s.e(Expr::EnumInit { path, variant: none, items: vec![] });
    let at = init.span;
    let st = s.let_("x", init);
    let decls = vec![en, s.main(vec![st])];
    let mut tcxt = TyCheckRes::new();
    let ok = tcxt.visit_prog(&decls, &s.syms);
    assert!(!ok);
    let errs: Vec<_> =
        tcxt.errors.errors.iter().filter(|e| e.severity == Severity::Error).collect();
    assert_eq!(errs.len(), 1);
    assert_eq!(errs[0].kind, ErrorKind::UnusedGeneric);
    assert_eq!(errs[0].span, at);
    // Lowering refuses a type that holds a type parameter.
    assert!(midend::lir::items::lower_program(&decls, &tcxt, &mut s.syms, 4, 4).is_err());

    // let x: gopt<int> = gopt::none;  -- the written type says it.
    let mut s = Src::new();
    let en = build(&mut s);
    let gopt = s.id("gopt");
    let path = s.path("gopt");
    let none = s.id("none");
    let init = s.e(Expr::EnumInit { path, variant: none, items: vec![] });
    let init_id = init.id;
    let lval = s.var("x");
    let x_id = lval.id;
    let st = s.s(Stmt::Assign {
        lval,
        rval: init,
        ty: Some(Ty::Enum { ident: gopt, gen: vec![Ty::Int] }),
        is_let: true,
    });
    let decls = vec![en, s.main(vec![st])];
    let mut tcxt = TyCheckRes::new();
    let ok = tcxt.visit_prog(&decls, &s.syms);
    assert_eq!(
        tcxt.errors.errors.iter().filter(|e| e.severity == Severity::Error).count(),
        0
    );
    assert!(ok);
    let want = Ty::Enum { ident: gopt, gen: vec![Ty::Int] };
    assert!(tcxt.expr_ty.get(&x_id).unwrap().is_ty_eq(&want));
    assert!(tcxt.expr_ty.get(&init_id).unwrap().is_ty_eq(&want));
    let items = midend::lir::items::lower_program(&decls, &tcxt, &mut s.syms, 4, 4)
        .expect("the program is lowered");
    assert_eq!(items.len(), 1);
}

#[test]
fn literal_assigned_to_a_name_is_noted() {
    let mut s = Src::new();
    let one = s.num(1);
    let s1 = s.let_("a", one);
    let t = s.text("bad");
    let s2 = s.set("a", t);
    let yes = s.lit(Val::Bool(true));
    let s3 = s.let_("b", yes);
    let a = s.id("a");
    let b = s.id("b");
    let decls = vec![s.main(vec![s1, s2, s3])];
    let mut tcxt = TyCheckRes::new();
    tcxt.visit_prog(&decls, &s.syms);
    // The assignment that does not fit notes nothing and is reported at
    // its span.
    assert_eq!(tcxt.consts.get(&a.id), Some(&Val::Int(1)));
    assert_eq!(tcxt.consts.get(&b.id), Some(&Val::Bool(true)));
    let errs: Vec<_> =
        tcxt.errors.errors.iter().filter(|e| e.severity == Severity::Error).collect();
    assert_eq!(errs.len(), 1);
    assert_eq!(errs[0].kind, ErrorKind::TypeMismatch);
}

#[test]
fn typing_and_checking_an_expression() {
    // !5 on a fresh context.
    let mut s = Src::new();
    let five = s.num(5);
    let five_id = five.id;
    let e = s.e(Expr::Urnary { op: midend::ast::types::UnOp::Not, expr: Box::new(five) });
    let mut tcxt = TyCheckRes::new();
    let t = tcxt.visit_expr(&e);
    assert!(matches!(t, Some(Ty::Bool)));
    assert!(matches!(tcxt.expr_ty.get(&e.id), Some(Ty::Bool)));
    assert!(matches!(tcxt.expr_ty.get(&five_id), Some(Ty::Int)));
    assert!(tcxt.errors.errors.is_empty());
    assert!(!tcxt.errors.is_poisoned());

    // A name that nothing declares: one diagnostic, no type, nothing checked.
    let missing = s.var("missing");
    let at = missing.span;
    let wrapped = s.e(Expr::Parens(Box::new(missing)));
    let mut tcxt = TyCheckRes::new();
    assert!(tcxt.visit_expr(&wrapped).is_none());
    assert!(tcxt.expr_ty.is_empty());
    assert_eq!(tcxt.errors.errors.len(), 1);
    assert_eq!(tcxt.errors.errors[0].kind, ErrorKind::UndeclaredVariable);
    assert_eq!(tcxt.errors.errors[0].span, at);
    assert!(tcxt.errors.is_poisoned());
}

fn errors_with_spans(decls: &Vec<Declaration>, src: &Src) -> Vec<(ErrorKind, Range)> {
    let mut tcxt = TyCheckRes::new();
    tcxt.visit_prog(decls, &src.syms);
    tcxt.errors
        .errors
        .iter()
        .filter(|e| e.severity == Severity::Error)
        .map(|e| (e.kind, e.span))
        .collect()
}

#[test]
fn check_faults_stand_at_the_span_of_what_is_at_fault() {
    // A pattern that does not fit: at the pattern's span.
    let mut s = Src::new();
    let opt = s.opt(span(0, 99));
    let one = s.num(1);
    let s1 = s.let_("a", one);
    let scrut = s.var("a");
    let path = s.path("opt");
    let none = s.id("none");
    let pat_at = s.here();
    let body_at = s.here();
    let arm = MatchArm {
        pat: Pattern { val: Pat::Enum { path, variant: none, items: vec![] }, span: pat_at },
        blk: Block { stmts: vec![], span: body_at },
        span: pat_at,
    };
    let st = s.s(Stmt::Match { expr: scrut, arms: vec![arm] });
    let decls = vec![opt, s.main(vec![s1, st])];
    assert_eq!(errors_with_spans(&decls, &s), vec![(ErrorKind::PatternMismatch, pat_at)]);

    // `exit` in a function with a result: one error at the statement.
    let mut s = Src::new();
    let one = s.num(1);
    let r = s.s(Stmt::Ret(one));
    let x = s.s(Stmt::Exit);
    let x_at = x.span;
    let f = s.func_at("f", vec![], vec![], Ty::Int, vec![x, r], span(1000, 1999));
    assert_eq!(errors_with_spans(&vec![f], &s), vec![(ErrorKind::ExitWithValue, x_at)]);

    // `exit` in a function without a result: none.
    let mut s = Src::new();
    let x = s.s(Stmt::Exit);
    let decls = vec![s.main(vec![x])];
    assert_eq!(errors_with_spans(&decls, &s), vec![]);

    // A condition that is not truthy: at the statement.
    let mut s = Src::new();
    let point = s.point(span(0, 99));
    let init = s.point_init("x");
    let s1 = s.let_("p", init);
    let cond = s.var("p");
    let at = s.here();
    let st = s.s(Stmt::If { cond, blk: Block { stmts: vec![], span: at }, els: None });
    let st_at = st.span;
    let decls = vec![point, s.main(vec![s1, st])];
    assert_eq!(errors_with_spans(&decls, &s), vec![(ErrorKind::NonTruthyCondition, st_at)]);

    // Two chars under an operator that is no comparison: at the operation.
    let mut s = Src::new();
    let a = s.lit(Val::Char('a'));
    let b = s.lit(Val::Char('b'));
    let sum = s.e(Expr::Binary { op: BinOp::Add, lhs: Box::new(a), rhs: Box::new(b) });
    let sum_at = sum.span;
    let st = s.let_("c", sum);
    let decls = vec![s.main(vec![st])];
    assert_eq!(errors_with_spans(&decls, &s), vec![(ErrorKind::InvalidOperands, sum_at)]);
}

#[test]
fn enum_type_arguments_that_disagree_are_a_mismatch() {
    // enum pair<T, U> { left(T), right(U) }
    let mut s = Src::new();
    let pair = s.id("pair");
    let t = s.id("T");
    let u = s.id("U");
    let left = s.id("left");
    let right = s.id("right");
    let en = Declaration {
        val: Decl::Adt(Adt::Enum(Enum {
            ident: pair,
            variants: vec![
                Variant {
                    ident: left,
                    types: vec![Ty::Generic { ident: t, bound: None }],
                    span: span(1, 2),
                },
                Variant {
                    ident: right,
                    types: vec![Ty::Generic { ident: u, bound: None }],
                    span: span(3, 4),
                },
            ],
            generics: vec![
                Generic { ident: t, bound: None, span: span(0, 0) },
                Generic { ident: u, bound: None, span: span(0, 0) },
            ],
            span: span(0, 99),
        })),
        span: span(0, 99),
    };
    // fn f() -> pair<int, string> { return pair::left(true); }
    let yes = s.lit(Val::Bool(true));
    let path = s.path("pair");
    let init = s.e(Expr::EnumInit { path, variant: left, items: vec![yes] });
    let st = s.s(Stmt::Ret(init));
    let st_at = st.span;
    let f = s.func_at(
        "f",
        vec![],
        vec![],
        Ty::Enum { ident: pair, gen: vec![Ty::Int, Ty::String] },
        vec![st],
        span(1000, 1999),
    );
    let decls = vec![en, f];
    assert_eq!(errors_with_spans(&decls, &s), vec![(ErrorKind::ReturnMismatch, st_at)]);
}


#[test]
fn a_mismatch_says_what_was_found_and_what_was_asked_for() {
    let mut s = Src::new();
    let one = s.num(1);
    let s1 = s.let_("a", one);
    let t = s.text("bad");
    let s2 = s.set("a", t);
    let decls = vec![s.main(vec![s1, s2])];
    let mut tcxt = TyCheckRes::new();
    tcxt.visit_prog(&decls, &s.syms);
    let errs: Vec<_> =
        tcxt.errors.errors.iter().filter(|e| e.severity == Severity::Error).collect();
    assert_eq!(errs.len(), 1);
    assert_eq!(errs[0].kind, ErrorKind::TypeMismatch);
    assert_eq!(errs[0].found, Some(TyTag::String));
    assert_eq!(errs[0].expected, Some(TyTag::Int));

    let mut s = Src::new();
    let t = s.text("bad");
    let st = s.s(Stmt::Ret(t));
    let f = s.func_at("f", vec![], vec![], Ty::Int, vec![st], span(1000, 1999));
    let decls = vec![f];
    let mut tcxt = TyCheckRes::new();
    tcxt.visit_prog(&decls, &s.syms);
    assert_eq!(tcxt.errors.errors.len(), 1);
    assert_eq!(tcxt.errors.errors[0].kind, ErrorKind::ReturnMismatch);
    assert_eq!(tcxt.errors.errors[0].found, Some(TyTag::String));
    assert_eq!(tcxt.errors.errors[0].expected, Some(TyTag::Int));
}
