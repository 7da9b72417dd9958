use midend::ast::symbol::Interner;
use midend::ast::types as ast;
use midend::ast::types::{Ident, Range};
use midend::lir::instances::{Instance, MonoNames};
use midend::lir::items::lower_program;
use midend::lir::lower::{BinOp, Expr, Item, Pat, Stmt, Ty, UnOp, Val};
use midend::lir::mangle::{mangle, push_decimal, push_type_text};
use midend::lir::mono::{build_names, candidates, Candidate};
use midend::typeck::generic::Node;
use midend::typeck::TyCheckRes;

struct Prog {
    syms: Interner,
    next: usize,
}

fn rng(start: usize, end: usize) -> Range {
    Range { start, end, file_id: 0 }
}

impl Prog {
    fn new() -> Self {
        Prog { syms: Interner::new(), next: 0 }
    }

    fn id(&mut self, s: &str) -> Ident {
        self.syms.intern(s.to_string())
    }

    fn e(&mut self, val: ast::Expr, pos: usize) -> ast::Expression {
        let id = self.next;
        self.next += 1;
        ast::Expression { id, val, span: rng(pos, pos) }
    }

    fn var(&mut self, name: &str, pos: usize) -> ast::Expression {
        let x = self.id(name);
        self.e(ast::Expr::Ident(x), pos)
    }

    fn num(&mut self, v: isize, pos: usize) -> ast::Expression {
        self.e(ast::Expr::Value(ast::Value { val: ast::Val::Int(v), span: rng(pos, pos) }), pos)
    }

    fn path(&mut self, name: &str, pos: usize) -> ast::Path {
        let x = self.id(name);
        ast::Path { segs: vec![x], span: rng(pos, pos) }
    }

    fn let_(&mut self, name: &str, rval: ast::Expression, pos: usize) -> ast::Statement {
        let lval = self.var(name, pos);
        ast::Statement {
            val: ast::Stmt::Assign { lval, rval, ty: None, is_let: true },
            span: rng(pos, pos),
        }
    }

    fn call(
        &mut self,
        name: &str,
        args: Vec<ast::Expression>,
        type_args: Vec<ast::Ty>,
        pos: usize,
    ) -> ast::Expression {
        let path = self.path(name, pos);
        self.e(ast::Expr::Call { path, args, type_args }, pos)
    }

    fn func(
        &mut self,
        name: &str,
        generics: Vec<&str>,
        params: Vec<(&str, ast::Ty)>,
        ret: ast::Ty,
        stmts: Vec<ast::Statement>,
        span: Range,
    ) -> ast::Declaration {
        let ident = self.id(name);
        let mut gs = Vec::new();
        for g in generics {
            let x = self.id(g);
            gs.push(ast::Generic { ident: x, bound: None, span: rng(span.start, span.start) });
        }
        let mut ps = Vec::new();
        for (p, ty) in params {
            let x = self.id(p);
            ps.push(ast::Param { ident: x, ty, span: rng(span.start, span.start) });
        }
        ast::Declaration {
            val: ast::Decl::Func(ast::Func {
                ident,
                ret,
                generics: gs,
                params: ps,
                stmts: ast::Block { stmts, span },
                span,
            }),
            span,
        }
    }

    fn param_ty(&mut self, name: &str) -> ast::Ty {
        let x = self.id(name);
        ast::Ty::Generic { ident: x, bound: None }
    }

    fn text(&self, id: Ident) -> String {
        self.syms.name(id).cloned().unwrap_or_default()
    }
}

fn ret(e: ast::Expression, pos: usize) -> ast::Statement {
    ast::Statement { val: ast::Stmt::Ret(e), span: rng(pos, pos) }
}

fn names_of_funcs(p: &Prog, items: &Vec<Item>) -> Vec<String> {
    items
        .iter()
        .filter_map(|it| match it {
            Item::Func(f) => Some(p.text(f.ident)),
            _ => None,
        })
        .collect()
}

fn checked<'a>(decls: &'a Vec<ast::Declaration>, p: &Prog) -> TyCheckRes<'a> {
    let mut tcxt = TyCheckRes::new();
    let ok = tcxt.visit_prog(decls, &p.syms);
    let errors: Vec<_> = tcxt
        .errors
        .errors
        .iter()
        .filter(|e| e.severity == midend::error::Severity::Error)
        .map(|e| e.kind)
        .collect();
    assert_eq!(errors, vec![]);
    assert!(ok);
    tcxt
}

#[test]
fn mangled_names() {
    let mut names = Interner::new();
    let id = names.intern("id".to_string());
    let point = names.intern("point".to_string());
    let opt = names.intern("opt".to_string());
    assert_eq!(mangle(id, &vec![ast::Ty::Int], &names), "id@int");
    assert_eq!(mangle(id, &vec![ast::Ty::Bool], &names), "id@bool");
    assert_eq!(mangle(id, &vec![], &names), "id");
    assert_eq!(mangle(id, &vec![ast::Ty::Int, ast::Ty::Float], &names), "id@int@float");
    assert_eq!(
        mangle(id, &vec![ast::Ty::Array { size: 12, ty: Box::new(ast::Ty::Char) }], &names),
        "id@[12;char]"
    );
    assert_eq!(
        mangle(id, &vec![ast::Ty::Ptr(Box::new(ast::Ty::Ref(Box::new(ast::Ty::String))))], &names),
        "id@&*string"
    );
    assert_eq!(
        mangle(
            id,
            &vec![ast::Ty::Struct { ident: point, gen: vec![ast::Ty::Int, ast::Ty::Bool] }],
            &names
        ),
        "id@structpoint<int,bool>"
    );
    assert_eq!(
        mangle(id, &vec![ast::Ty::Enum { ident: opt, gen: vec![ast::Ty::Void] }], &names),
        "id@enumopt<void>"
    );
    assert_eq!(
        mangle(id, &vec![ast::Ty::Struct { ident: point, gen: vec![] }], &names),
        "id@structpoint<>"
    );
}

#[test]
fn mangled_names_of_distinct_arguments_differ() {
    let mut names = Interner::new();
    let f = names.intern("f".to_string());
    let tuples: Vec<Vec<ast::Ty>> = vec![
        vec![ast::Ty::Int],
        vec![ast::Ty::Bool],
        vec![ast::Ty::Int, ast::Ty::Int],
        vec![ast::Ty::Ptr(Box::new(ast::Ty::Int))],
        vec![ast::Ty::Ref(Box::new(ast::Ty::Int))],
        vec![ast::Ty::Array { size: 1, ty: Box::new(ast::Ty::Int) }],
        vec![ast::Ty::Array { size: 11, ty: Box::new(ast::Ty::Int) }],
    ];
    let texts: Vec<String> = tuples.iter().map(|t| mangle(f, t, &names)).collect();
    for i in 0..texts.len() {
        assert!(!texts[i].contains(' '));
        for j in 0..i {
            assert_ne!(texts[i], texts[j]);
        }
    }
}

#[test]
fn canonical_type_text_and_decimal() {
    let names = Interner::new();
    let mut out = String::new();
    push_decimal(0, &mut out);
    assert_eq!(out, "0");
    let mut out = String::from("n=");
    push_decimal(40961, &mut out);
    assert_eq!(out, "n=40961");
    let mut out = String::new();
    push_type_text(
        &ast::Ty::Array { size: 2, ty: Box::new(ast::Ty::Array { size: 3, ty: Box::new(ast::Ty::Float) }) },
        &names,
        &mut out,
    );
    assert_eq!(out, "[2;[3;float]]");
}

#[test]
fn copies_are_named_and_found_again() {
    let mut names = Interner::new();
    let id = names.intern("id".to_string());
    let other = names.intern("other".to_string());
    let cands = vec![
        Candidate { base: id, targs: vec![ast::Ty::Int] },
        Candidate { base: id, targs: vec![ast::Ty::Bool] },
        Candidate { base: other, targs: vec![ast::Ty::Int] },
    ];
    let table = build_names(&cands, &mut names);
    assert_eq!(table.entries.len(), 3);
    let a = table.lookup(id, &vec![ast::Ty::Int]).expect("id for int has a copy");
    let b = table.lookup(id, &vec![ast::Ty::Bool]).expect("id for bool has a copy");
    let c = table.lookup(other, &vec![ast::Ty::Int]).expect("other for int has a copy");
    assert_eq!(names.name(a).map(|s| s.as_str()), Some("id@int"));
    assert_eq!(names.name(b).map(|s| s.as_str()), Some("id@bool"));
    assert_eq!(names.name(c).map(|s| s.as_str()), Some("other@int"));
    assert!(a != b && b != c && a != c);
    assert!(table.lookup(id, &vec![ast::Ty::Char]).is_none());
    assert!(table.lookup(other, &vec![ast::Ty::Bool]).is_none());
    assert_eq!(table.position(id, &vec![ast::Ty::Bool]), 1);
    assert_eq!(table.position(id, &vec![ast::Ty::Char]), 3);
}

#[test]
fn a_name_that_is_taken_gets_no_copy() {
    let mut names = Interner::new();
    let id = names.intern("id".to_string());
    let taken = names.intern("id@int".to_string());
    let cands = vec![
        Candidate { base: id, targs: vec![ast::Ty::Int] },
        Candidate { base: id, targs: vec![ast::Ty::Bool] },
    ];
    let table = build_names(&cands, &mut names);
    assert_eq!(table.entries.len(), 1);
    assert!(table.lookup(id, &vec![ast::Ty::Int]).is_none());
    let b = table.lookup(id, &vec![ast::Ty::Bool]).expect("id for bool has a copy");
    assert_ne!(b, taken);
    assert_eq!(names.name(b).map(|s| s.as_str()), Some("id@bool"));
}

#[test]
fn empty_table_of_copies() {
    let table = MonoNames::new();
    assert!(table.entries.is_empty());
    assert!(table.lookup(Ident { id: 0 }, &vec![]).is_none());
    let one = MonoNames {
        entries: vec![Instance { base: Ident { id: 0 }, targs: vec![], name: Ident { id: 9 } }],
    };
    assert_eq!(one.lookup(Ident { id: 0 }, &vec![]), Some(Ident { id: 9 }));
}

#[test]
fn operators_and_literals_are_lowered_one_for_one() {
    assert_eq!(BinOp::lower(ast::BinOp::Add), BinOp::Add);
    assert_eq!(BinOp::lower(ast::BinOp::Ne), BinOp::Ne);
    assert_eq!(BinOp::lower(ast::BinOp::SubAssign), BinOp::SubAssign);
    assert_eq!(UnOp::lower(ast::UnOp::Not), UnOp::Not);
    assert_eq!(UnOp::lower(ast::UnOp::OnesComp), UnOp::OnesComp);
    assert_eq!(Val::lower(ast::Val::Int(-4)), Val::Int(-4));
    assert_eq!(Val::lower(ast::Val::Char('x')), Val::Char('x'));
    assert_eq!(Val::lower(ast::Val::Float(2.5f64.to_bits())), Val::Float(2.5f64.to_bits()));
    assert_eq!(BinOp::Mul.as_instruction(), "imul");
    assert_eq!(BinOp::Add.as_instruction(), "add");
    assert_eq!(BinOp::Sub.as_instruction(), "sub");
    assert_eq!(BinOp::Div.as_instruction(), "div");
    assert_eq!(BinOp::Rem.as_instruction(), "div");
    assert_eq!(BinOp::LeftShift.as_instruction(), "shl");
    assert_eq!(BinOp::BitXor.as_instruction(), "xor");
    assert!(BinOp::Le.is_cmp());
    assert!(!BinOp::Add.is_cmp());
}

#[test]
fn sizes_of_types_and_literals() {
    assert_eq!(Ty::Int.size(), 8);
    assert_eq!(Ty::Float.size(), 8);
    assert_eq!(Ty::Char.size(), 8);
    assert_eq!(Ty::String.size(), 8);
    assert_eq!(Ty::Bool.size(), 4);
    assert_eq!(Ty::Void.size(), 0);
    assert_eq!(Ty::Ptr(Box::new(Ty::Bool)).size(), 8);
    assert_eq!(Ty::Array { size: 3, ty: Box::new(Ty::Int) }.size(), 24);
    assert_eq!(
        Ty::Array { size: 2, ty: Box::new(Ty::Array { size: 5, ty: Box::new(Ty::Bool) }) }.size(),
        40
    );
    assert_eq!(Ty::Array { size: 0, ty: Box::new(Ty::Int) }.size(), 0);
    assert_eq!(Val::Int(1).size_of(), 8);
    assert_eq!(Val::Char('a').size_of(), 4);
    assert_eq!(Val::Bool(true).size_of(), 1);
    assert_eq!(Ty::Int.null_val(), Val::Int(1));
    assert!(matches!(Val::Bool(true).type_of(), Ty::Bool));
}

#[test]
fn field_access_is_lowered_to_the_place_of_the_field() {
    let mut p = Prog::new();
    let point = p.id("point");
    let x = p.id("x");
    let y = p.id("y");
    let st = ast::Declaration {
        val: ast::Decl::Adt(ast::Adt::Struct(ast::Struct {
            ident: point,
            fields: vec![
                ast::Field { ident: x, ty: ast::Ty::Int, span: rng(1, 2) },
                ast::Field { ident: y, ty: ast::Ty::Bool, span: rng(3, 4) },
            ],
            generics: vec![],
            span: rng(0, 9),
        })),
        span: rng(0, 9),
    };
    let one = p.num(1, 110);
    let yes = p.e(
        ast::Expr::Value(ast::Value { val: ast::Val::Bool(true), span: rng(111, 111) }),
        111,
    );
    let path = p.path("point", 112);
    let init = p.e(
        ast::Expr::StructInit {
            path,
            fields: vec![
                ast::FieldInit { ident: x, init: one, span: rng(110, 110) },
                ast::FieldInit { ident: y, init: yes, span: rng(111, 111) },
            ],
        },
        113,
    );
    let s1 = p.let_("p", init, 114);
    let lhs = p.var("p", 120);
    let rhs = p.var("y", 121);
    let access = p.e(ast::Expr::FieldAccess { lhs: Box::new(lhs), rhs: Box::new(rhs) }, 122);
    let access_id = access.id;
    let s2 = p.let_("a", access, 123);
    let main = p.func("main", vec![], vec![], ast::Ty::Void, vec![s1, s2], rng(100, 199));
    let decls = vec![st, main];
    let tcxt = checked(&decls, &p);
    assert!(matches!(tcxt.expr_ty.get(&access_id), Some(ast::Ty::Bool)));

    let items = lower_program(&decls, &tcxt, &mut p.syms, 4, 4).expect("the program is lowered");
    assert_eq!(names_of_funcs(&p, &items), vec!["main".to_string()]);
    let main = match &items[0] {
        Item::Func(f) => f,
        other => panic!("a function, found {:?}", other),
    };
    match &main.stmts[1] {
        Stmt::Assign { rval: Expr::FieldAccess { field_idx, def, .. }, .. } => {
            assert_eq!(*field_idx, 1);
            assert_eq!(def.ident, point);
            assert_eq!(def.fields.len(), 2);
        },
        other => panic!("a field access, found {:?}", other),
    }
    match &main.stmts[0] {
        Stmt::Assign { rval: Expr::StructInit { fields, def, .. }, .. } => {
            assert_eq!(fields.len(), 2);
            assert_eq!(def.ident, point);
        },
        other => panic!("a struct initializer, found {:?}", other),
    }
}

#[test]
fn match_arms_carry_the_place_of_the_variant() {
    let mut p = Prog::new();
    let t = p.param_ty("T");
    let tg = p.id("T");
    let opt = p.id("opt");
    let some = p.id("some");
    let none = p.id("none");
    let en = ast::Declaration {
        val: ast::Decl::Adt(ast::Adt::Enum(ast::Enum {
            ident: opt,
            variants: vec![
                ast::Variant { ident: none, types: vec![], span: rng(1, 2) },
                ast::Variant { ident: some, types: vec![t], span: rng(3, 4) },
            ],
            generics: vec![ast::Generic { ident: tg, bound: None, span: rng(0, 0) }],
            span: rng(0, 9),
        })),
        span: rng(0, 9),
    };
    let five = p.num(5, 110);
    let path = p.path("opt", 111);
    let init = p.e(ast::Expr::EnumInit { path, variant: some, items: vec![five] }, 112);
    let lval = p.var("x", 113);
    let s1 = ast::Statement {
        val: ast::Stmt::Assign {
            lval,
            rval: init,
            ty: Some(ast::Ty::Enum { ident: opt, gen: vec![ast::Ty::Int] }),
            is_let: true,
        },
        span: rng(114, 114),
    };
    let scrut = p.var("x", 120);
    let v = p.id("v");
    let arm = |variant: Ident, items: Vec<ast::Pattern>, pos: usize, p: &mut Prog| ast::MatchArm {
        pat: ast::Pattern {
            val: ast::Pat::Enum { path: p.path("opt", pos), variant, items },
            span: rng(pos, pos),
        },
        blk: ast::Block {
            stmts: vec![ast::Statement { val: ast::Stmt::Exit, span: rng(pos + 1, pos + 1) }],
            span: rng(pos + 1, pos + 2),
        },
        span: rng(pos, pos + 2),
    };
    let a1 = arm(
        some,
        vec![ast::Pattern { val: ast::Pat::Bind(ast::Binding::Wild(v)), span: rng(130, 130) }],
        130,
        &mut p,
    );
    let a2 = arm(none, vec![], 140, &mut p);
    let s2 = ast::Statement {
        val: ast::Stmt::Match { expr: scrut, arms: vec![a1, a2] },
        span: rng(121, 121),
    };
    let main = p.func("main", vec![], vec![], ast::Ty::Void, vec![s1, s2], rng(100, 199));
    let decls = vec![en, main];
    let tcxt = checked(&decls, &p);
    let items = lower_program(&decls, &tcxt, &mut p.syms, 4, 4).expect("the program is lowered");
    let main = match &items[0] {
        Item::Func(f) => f,
        other => panic!("a function, found {:?}", other),
    };
    match &main.stmts[1] {
        Stmt::Match { arms, ty, .. } => {
            assert!(matches!(ty, Ty::Enum { .. }));
            assert_eq!(arms.len(), 2);
            assert!(matches!(&arms[0].pat, Pat::Enum { idx: 1, items, .. } if items.len() == 1));
            assert!(matches!(&arms[1].pat, Pat::Enum { idx: 0, items, .. } if items.is_empty()));
        },
        other => panic!("a match, found {:?}", other),
    }
}

#[test]
fn a_generic_function_that_is_never_used_has_no_copy() {
    let mut p = Prog::new();
    let t1 = p.param_ty("T");
    let t2 = p.param_ty("T");
    let x = p.var("x", 10);
    let id = p.func("id", vec!["T"], vec![("x", t1)], t2, vec![ret(x, 11)], rng(0, 99));
    let main = p.func("main", vec![], vec![], ast::Ty::Void, vec![], rng(100, 199));
    let decls = vec![id, main];
    let tcxt = checked(&decls, &p);
    assert!(candidates(&tcxt, &decls, 4).is_empty());
    let items = lower_program(&decls, &tcxt, &mut p.syms, 4, 4).expect("the program is lowered");
    assert_eq!(names_of_funcs(&p, &items), vec!["main".to_string()]);
}

#[test]
fn one_copy_for_each_tuple_of_type_arguments() {
    let mut p = Prog::new();
    let t1 = p.param_ty("T");
    let t2 = p.param_ty("T");
    let x = p.var("x", 10);
    let id = p.func("id", vec!["T"], vec![("x", t1)], t2, vec![ret(x, 11)], rng(0, 99));
    let mut stmts = Vec::new();
    // Three calls for int, one for bool: two copies.
    for (i, name) in ["a", "b", "c"].iter().enumerate() {
        let arg = p.num(i as isize, 110 + 10 * i);
        let c = p.call("id", vec![arg], vec![ast::Ty::Int], 111 + 10 * i);
        stmts.push(p.let_(name, c, 112 + 10 * i));
    }
    let yes = p.e(
        ast::Expr::Value(ast::Value { val: ast::Val::Bool(true), span: rng(150, 150) }),
        150,
    );
    let c = p.call("id", vec![yes], vec![ast::Ty::Bool], 151);
    stmts.push(p.let_("d", c, 152));
    let main = p.func("main", vec![], vec![], ast::Ty::Void, stmts, rng(100, 199));
    let decls = vec![id, main];
    let tcxt = checked(&decls, &p);
    let cands = candidates(&tcxt, &decls, 4);
    assert_eq!(cands.len(), 2);
    let items = lower_program(&decls, &tcxt, &mut p.syms, 4, 4).expect("the program is lowered");
    let names = names_of_funcs(&p, &items);
    assert_eq!(names, vec!["id@int".to_string(), "id@bool".to_string(), "main".to_string()]);
    // The calls name the copies.
    let main = items
        .iter()
        .find_map(|it| match it {
            Item::Func(f) if p.text(f.ident) == "main" => Some(f),
            _ => None,
        })
        .unwrap();
    let mut targets = Vec::new();
    for s in &main.stmts {
        if let Stmt::Assign { rval: Expr::Call { path, .. }, .. } = s {
            targets.push(p.text(*path.segs.last().unwrap()));
        }
    }
    assert_eq!(targets, vec!["id@int", "id@int", "id@int", "id@bool"]);
    // The copy for int takes and gives an int.
    match &items[0] {
        Item::Func(f) => {
            assert!(matches!(f.ret, Ty::Int));
            assert_eq!(f.params.len(), 1);
            assert!(matches!(f.params[0].ty, Ty::Int));
            assert!(matches!(&f.stmts[0], Stmt::Ret(Expr::Ident { ty: Ty::Int, .. }, Ty::Int)));
        },
        other => panic!("a function, found {:?}", other),
    }
}

#[test]
fn type_arguments_are_inferred_from_the_arguments_of_a_call() {
    let mut p = Prog::new();
    let t1 = p.param_ty("T");
    let t2 = p.param_ty("T");
    let x = p.var("x", 10);
    let id = p.func("id", vec!["T"], vec![("x", t1)], t2, vec![ret(x, 11)], rng(0, 99));
    let arg = p.num(3, 110);
    let c = p.call("id", vec![arg], vec![], 111);
    let call_id = c.id;
    let s = p.let_("a", c, 112);
    let main = p.func("main", vec![], vec![], ast::Ty::Void, vec![s], rng(100, 199));
    let decls = vec![id, main];
    let tcxt = checked(&decls, &p);
    assert!(matches!(tcxt.expr_ty.get(&call_id), Some(ast::Ty::Int)));
    let items = lower_program(&decls, &tcxt, &mut p.syms, 4, 4).expect("the program is lowered");
    assert_eq!(names_of_funcs(&p, &items), vec!["id@int".to_string(), "main".to_string()]);
}

#[test]
fn global_constant_is_lowered_as_global() {
    let mut p = Prog::new();
    let limit = p.id("limit");
    let init = p.num(10, 5);
    let k = ast::Declaration {
        val: ast::Decl::Const(ast::Const { ident: limit, ty: ast::Ty::Int, init, span: rng(0, 9) }),
        span: rng(0, 9),
    };
    let use_ = p.var("limit", 110);
    let s = p.let_("a", use_, 111);
    let main = p.func("main", vec![], vec![], ast::Ty::Void, vec![s], rng(100, 199));
    let decls = vec![k, main];
    let mut tcxt = TyCheckRes::new();
    tcxt.visit_prog(&decls, &p.syms);
    match lower_program(&decls, &tcxt, &mut p.syms, 4, 4) {
        Ok(items) => {
            assert_eq!(items.len(), 2);
            match &items[0] {
                Item::Const(c) => {
                    assert!(c.is_global);
                    assert_eq!(c.ident, limit);
                    assert!(matches!(c.ty, Ty::Int));
                    assert!(matches!(c.init, Expr::Value(Val::Int(10))));
                },
                other => panic!("a constant, found {:?}", other),
            }
        },
        Err(e) => panic!("the program is lowered, found {:?}", e),
    }
}

#[test]
fn a_generic_function_is_copied_with_what_it_calls() {
    let mut p = Prog::new();
    // fn inner<T>(x: T) -> T { return x; }
    let t1 = p.param_ty("T");
    let t2 = p.param_ty("T");
    let x = p.var("x", 10);
    let inner = p.func("inner", vec!["T"], vec![("x", t1)], t2, vec![ret(x, 11)], rng(0, 99));
    // fn outer<U>(y: U) -> U { return inner::<U>(y); }
    let u1 = p.param_ty("U");
    let u2 = p.param_ty("U");
    let u3 = p.param_ty("U");
    let y = p.var("y", 110);
    let c = p.call("inner", vec![y], vec![u3], 111);
    let outer = p.func("outer", vec!["U"], vec![("y", u1)], u2, vec![ret(c, 112)], rng(100, 199));
    // fn main() -> void { let a = outer::<int>(1); }
    let one = p.num(1, 210);
    let c = p.call("outer", vec![one], vec![ast::Ty::Int], 211);
    let s = p.let_("a", c, 212);
    let main = p.func("main", vec![], vec![], ast::Ty::Void, vec![s], rng(200, 299));
    let decls = vec![inner, outer, main];
    let tcxt = checked(&decls, &p);

    let items = lower_program(&decls, &tcxt, &mut p.syms, 4, 4).expect("the program is lowered");
    let names = names_of_funcs(&p, &items);
    assert_eq!(
        names,
        vec!["inner@int".to_string(), "outer@int".to_string(), "main".to_string()]
    );
    let outer = match &items[1] {
        Item::Func(f) => f,
        other => panic!("a function, found {:?}", other),
    };
    match &outer.stmts[0] {
        Stmt::Ret(Expr::Call { path, type_args, .. }, Ty::Int) => {
            assert_eq!(p.text(*path.segs.last().unwrap()), "inner@int");
            assert!(matches!(type_args.as_slice(), [Ty::Int]));
        },
        other => panic!("a return of a call, found {:?}", other),
    }
    // No name is given twice.
    for i in 0..names.len() {
        for j in 0..i {
            assert_ne!(names[i], names[j]);
        }
    }
}

#[test]
fn functions_are_walked_in_the_order_of_their_regions() {
    let mut p = Prog::new();
    let late = p.func("late", vec![], vec![], ast::Ty::Void, vec![], rng(500, 599));
    let early = p.func("early", vec![], vec![], ast::Ty::Void, vec![], rng(0, 99));
    let middle = p.func("middle", vec![], vec![], ast::Ty::Void, vec![], rng(200, 299));
    let decls = vec![late, early, middle];
    let mut tcxt = TyCheckRes::new();
    tcxt.collect_decls(&decls);
    let order: Vec<String> = tcxt.funcs_in_order().iter().map(|f| p.text(f.func.ident)).collect();
    assert_eq!(order, vec!["early", "middle", "late"]);
}

#[test]
fn enum_type_of_an_assigned_place_is_recorded_as_a_use() {
    let opt = Ident { id: 3 };
    let mut tcxt = TyCheckRes::new();
    let lty = ast::Ty::Enum { ident: opt, gen: vec![ast::Ty::Int, ast::Ty::Bool] };
    tcxt.collect_enum_generics(Some(&lty), 17);
    let uses = tcxt.generic_res.resolved(&Node::Enum(opt)).expect("the use is recorded");
    assert_eq!(uses.len(), 2);
    assert!(matches!(uses[0].ty, ast::Ty::Int));
    assert_eq!(uses[0].gen_idx, 0);
    assert!(matches!(uses[1].ty, ast::Ty::Bool));
    assert_eq!(uses[1].gen_idx, 1);
    assert_eq!(uses[0].instance_id, uses[1].instance_id);
    assert_eq!(tcxt.uniq_generic_instance_id, 1);

    let mut other = TyCheckRes::new();
    other.collect_enum_generics(Some(&ast::Ty::Int), 17);
    other.collect_enum_generics(None, 17);
    assert!(other.generic_res.resolved(&Node::Enum(opt)).is_none());
    assert_eq!(other.uniq_generic_instance_id, 0);
}

#[test]
fn variables_are_marked_as_read() {
    let mut p = Prog::new();
    let one = p.num(1, 110);
    let s1 = p.let_("used", one, 111);
    let two = p.num(2, 120);
    let s2 = p.let_("unused", two, 121);
    let three = p.num(3, 130);
    let s3 = p.let_("_hidden", three, 131);
    let used = p.var("used", 140);
    let s4 = p.let_("last", used, 141);
    let main = p.func("main", vec![], vec![], ast::Ty::Void, vec![s1, s2, s3, s4], rng(100, 199));
    let decls = vec![main];
    let mut tcxt = TyCheckRes::new();
    assert!(tcxt.visit_prog(&decls, &p.syms));
    let flags: Vec<(String, bool)> =
        tcxt.var_func.unsed_vars.iter().map(|v| (p.text(v.ident), v.used)).collect();
    assert_eq!(
        flags,
        vec![
            ("used".to_string(), true),
            ("unused".to_string(), false),
            ("_hidden".to_string(), false),
            ("last".to_string(), false),
        ]
    );
    let warned: Vec<String> = tcxt
        .errors
        .errors
        .iter()
        .filter(|e| e.kind == midend::error::ErrorKind::UnusedVariable)
        .map(|e| p.text(e.ident.unwrap()))
        .collect();
    assert_eq!(warned, vec!["unused", "last"]);
}

#[test]
fn lowering_folds_operators_on_literals() {
    let mut p = Prog::new();
    let two = p.num(2, 110);
    let three = p.num(3, 111);
    let product = p.e(
        ast::Expr::Binary { op: ast::BinOp::Mul, lhs: Box::new(two), rhs: Box::new(three) },
        112,
    );
    let s1 = p.let_("a", product, 113);
    let a = p.var("a", 120);
    let one = p.num(1, 121);
    let four = p.num(4, 122);
    let sum = p.e(
        ast::Expr::Binary { op: ast::BinOp::Add, lhs: Box::new(one), rhs: Box::new(four) },
        123,
    );
    let mixed = p.e(
        ast::Expr::Binary { op: ast::BinOp::Sub, lhs: Box::new(a), rhs: Box::new(sum) },
        124,
    );
    let s2 = p.let_("b", mixed, 125);
    let main = p.func("main", vec![], vec![], ast::Ty::Void, vec![s1, s2], rng(100, 199));
    let decls = vec![main];
    let tcxt = checked(&decls, &p);
    let mut plain_names = Interner::new();
    for name in &p.syms.names {
        plain_names.intern(name.clone());
    }
    let plain = lower_program(&decls, &tcxt, &mut plain_names, 4, 4).expect("is lowered");
    match &plain[0] {
        Item::Func(f) => {
            assert!(matches!(&f.stmts[0], Stmt::Assign { rval: Expr::Binary { .. }, .. }));
        },
        other => panic!("a function, found {:?}", other),
    }
    let folded = midend::lir::items::lower_folded(&decls, &tcxt, &mut p.syms, 4, 4)
        .expect("is lowered and folded");
    match &folded[0] {
        Item::Func(f) => {
            assert!(matches!(&f.stmts[0], Stmt::Assign { rval: Expr::Value(Val::Int(6)), .. }));
            match &f.stmts[1] {
                Stmt::Assign { rval: Expr::Binary { op: BinOp::Sub, lhs, rhs, .. }, .. } => {
                    assert!(matches!(**lhs, Expr::Ident { .. }));
                    assert!(matches!(**rhs, Expr::Value(Val::Int(5))));
                },
                other => panic!("a difference, found {:?}", other),
            }
        },
        other => panic!("a function, found {:?}", other),
    }
}

#[test]
fn field_types_of_a_generic_struct_are_put_in() {
    // struct boxed<T> { inside: T }  fn main() -> void { let b = boxed { inside: 1 }; }
    let mut p = Prog::new();
    let boxed = p.id("boxed");
    let inside = p.id("inside");
    let t = p.id("T");
    let st = ast::Declaration {
        val: ast::Decl::Adt(ast::Adt::Struct(ast::Struct {
            ident: boxed,
            fields: vec![ast::Field {
                ident: inside,
                ty: ast::Ty::Generic { ident: t, bound: None },
                span: rng(1, 2),
            }],
            generics: vec![ast::Generic { ident: t, bound: None, span: rng(0, 0) }],
            span: rng(0, 9),
        })),
        span: rng(0, 9),
    };
    let one = p.num(1, 110);
    let path = p.path("boxed", 111);
    let init = p.e(
        ast::Expr::StructInit {
            path,
            fields: vec![ast::FieldInit { ident: inside, init: one, span: rng(110, 110) }],
        },
        112,
    );
    let s1 = p.let_("b", init, 113);
    let main = p.func("main", vec![], vec![], ast::Ty::Void, vec![s1], rng(100, 199));
    let decls = vec![st, main];
    let tcxt = checked(&decls, &p);
    let items = lower_program(&decls, &tcxt, &mut p.syms, 4, 4).expect("the program is lowered");
    let main = match &items[0] {
        Item::Func(f) => f,
        other => panic!("a function, found {:?}", other),
    };
    match &main.stmts[0] {
        Stmt::Assign { lval, rval: Expr::StructInit { fields, .. } } => {
            assert_eq!(fields.len(), 1);
            assert!(matches!(fields[0].ty, Ty::Int));
            assert!(matches!(lval.type_of(), Ty::Struct { gen, .. } if matches!(gen.as_slice(), [Ty::Int])));
        },
        other => panic!("a struct initializer, found {:?}", other),
    }
}
