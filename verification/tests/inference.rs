use midend::ast::symbol::Interner;
use midend::ast::types::{
    Adt, BinOp, Block, Decl, Declaration, Expr, Expression, Field, FieldInit, Func, Generic, Ident,
    Param, Path, Range, Statement, Stmt, Struct, Ty, UnOp, Val, Value,
};
use midend::error::Severity;
use midend::typeck::infer::TypeInfer;
use midend::typeck::usage::{expr_reads, stmt_has_return, stmt_is_read, stmts_read, stmts_return};
use midend::typeck::TyCheckRes;

struct Unit {
    syms: Interner,
    next: usize,
    pos: usize,
}

fn place(start: usize, end: usize) -> Range {
    Range { start, end, file_id: 0 }
}

impl Unit {
    fn new() -> Self {
        Unit { syms: Interner::new(), next: 0, pos: 1000 }
    }

    fn id(&mut self, s: &str) -> Ident {
        self.syms.intern(s.to_string())
    }

    fn here(&mut self) -> Range {
        self.pos += 1;
        place(self.pos, self.pos)
    }

    fn e(&mut self, val: Expr) -> Expression {
        let id = self.next;
        self.next += 1;
        let span = self.here();
        Expression { id, val, span }
    }

    fn var(&mut self, name: &str) -> Expression {
        let x = self.id(name);
        self.e(Expr::Ident(x))
    }

    fn lit(&mut self, val: Val) -> Expression {
        let span = self.here();
        self.e(Expr::Value(Value { val, span }))
    }

    fn num(&mut self, v: isize) -> Expression {
        self.lit(Val::Int(v))
    }

    fn bin(&mut self, op: BinOp, l: Expression, r: Expression) -> Expression {
        self.e(Expr::Binary { op, lhs: Box::new(l), rhs: Box::new(r) })
    }

    fn s(&mut self, val: Stmt) -> Statement {
        Statement { val, span: self.here() }
    }

    fn let_(&mut self, name: &str, rval: Expression) -> (Statement, usize) {
        let lval = self.var(name);
        let id = lval.id;
        (self.s(Stmt::Assign { lval, rval, ty: None, is_let: true }), id)
    }

    fn main(&mut self, stmts: Vec<Statement>) -> Declaration {
        let ident = self.id("main");
        let at = place(1000, 1999);
        Declaration {
            val: Decl::Func(Func {
                ident,
                ret: Ty::Void,
                generics: vec![],
                params: vec![],
                stmts: Block { stmts, span: at },
                span: at,
            }),
            span: at,
        }
    }
}

/// The type that inference gives to `e` as the right side of a `let` in an
/// otherwise empty `main`, after the statements `before`.
fn type_in_main(u: &mut Unit, before: Vec<Statement>, e: Expression) -> Option<String> {
    let id = e.id;
    let (st, _) = u.let_("result", e);
    let mut stmts = before;
    stmts.push(st);
    let decls = vec![u.main(stmts)];
    let mut tcxt = TyCheckRes::new();
    tcxt.visit_prog(&decls, &u.syms);
    tcxt.expr_ty.get(&id).map(|t| format!("{:?}", t))
}

fn shown(t: Ty) -> Option<String> {
    Some(format!("{:?}", t))
}

#[test]
fn literals_have_their_own_type() {
    let mut u = Unit::new();
    let e = u.num(1);
    assert_eq!(type_in_main(&mut u, vec![], e), shown(Ty::Int));
    let mut u = Unit::new();
    let e = u.lit(Val::Float(1.5f64.to_bits()));
    assert_eq!(type_in_main(&mut u, vec![], e), shown(Ty::Float));
    let mut u = Unit::new();
    let e = u.lit(Val::Char('a'));
    assert_eq!(type_in_main(&mut u, vec![], e), shown(Ty::Char));
    let mut u = Unit::new();
    let e = u.lit(Val::Bool(false));
    assert_eq!(type_in_main(&mut u, vec![], e), shown(Ty::Bool));
    let mut u = Unit::new();
    let t = u.id("text");
    let e = u.lit(Val::Str(t));
    assert_eq!(type_in_main(&mut u, vec![], e), shown(Ty::String));
}

#[test]
fn address_of_and_dereference() {
    let mut u = Unit::new();
    let one = u.num(1);
    let (s1, _) = u.let_("a", one);
    let a = u.var("a");
    let addr = u.e(Expr::AddrOf(Box::new(a)));
    assert_eq!(type_in_main(&mut u, vec![s1], addr), shown(Ty::Ptr(Box::new(Ty::Int))));

    let mut u = Unit::new();
    let one = u.num(1);
    let (s1, _) = u.let_("a", one);
    let a = u.var("a");
    let addr = u.e(Expr::AddrOf(Box::new(a)));
    let (s2, _) = u.let_("p", addr);
    let p = u.var("p");
    let d = u.e(Expr::Deref { indir: 1, expr: Box::new(p) });
    assert_eq!(type_in_main(&mut u, vec![s1, s2], d), shown(Ty::Int));
}

#[test]
fn index_peels_one_array_layer_for_each_index() {
    let mut u = Unit::new();
    let i1 = u.num(1);
    let i2 = u.num(2);
    let i3 = u.num(3);
    let i4 = u.num(4);
    let row1 = u.e(Expr::ArrayInit { items: vec![i1, i2] });
    let row2 = u.e(Expr::ArrayInit { items: vec![i3, i4] });
    let grid = u.e(Expr::ArrayInit { items: vec![row1, row2] });
    let grid_id = grid.id;
    let (s1, _) = u.let_("g", grid);
    let g = u.id("g");
    let zero = u.num(0);
    let one = u.num(1);
    let cell = u.e(Expr::Array { ident: g, exprs: vec![zero, one] });
    let cell_id = cell.id;
    let (s2, _) = u.let_("c", cell);
    let zero = u.num(0);
    let row = u.e(Expr::Array { ident: g, exprs: vec![zero] });
    let row_id = row.id;
    let (s3, _) = u.let_("r", row);
    let decls = vec![u.main(vec![s1, s2, s3])];
    let mut tcxt = TyCheckRes::new();
    tcxt.visit_prog(&decls, &u.syms);
    let want = Ty::Array { size: 2, ty: Box::new(Ty::Array { size: 2, ty: Box::new(Ty::Int) }) };
    assert!(tcxt.expr_ty.get(&grid_id).unwrap().is_ty_eq(&want));
    assert!(matches!(tcxt.expr_ty.get(&cell_id), Some(Ty::Int)));
    assert!(tcxt
        .expr_ty
        .get(&row_id)
        .unwrap()
        .is_ty_eq(&Ty::Array { size: 2, ty: Box::new(Ty::Int) }));
}

#[test]
fn unary_operators() {
    let mut u = Unit::new();
    let one = u.num(1);
    let e = u.e(Expr::Urnary { op: UnOp::Not, expr: Box::new(one) });
    assert_eq!(type_in_main(&mut u, vec![], e), shown(Ty::Bool));
    let mut u = Unit::new();
    let one = u.num(1);
    let e = u.e(Expr::Urnary { op: UnOp::OnesComp, expr: Box::new(one) });
    assert_eq!(type_in_main(&mut u, vec![], e), shown(Ty::Int));
    let mut u = Unit::new();
    let yes = u.lit(Val::Bool(true));
    let e = u.e(Expr::Urnary { op: UnOp::OnesComp, expr: Box::new(yes) });
    assert_eq!(type_in_main(&mut u, vec![], e), None);
}

#[test]
fn binary_operators() {
    let mut u = Unit::new();
    let a = u.num(1);
    let b = u.lit(Val::Float(2.0f64.to_bits()));
    let e = u.bin(BinOp::Add, a, b);
    assert_eq!(type_in_main(&mut u, vec![], e), shown(Ty::Float));
    let mut u = Unit::new();
    let a = u.num(1);
    let b = u.num(2);
    let e = u.bin(BinOp::Lt, a, b);
    assert_eq!(type_in_main(&mut u, vec![], e), shown(Ty::Bool));
    let mut u = Unit::new();
    let a = u.lit(Val::Bool(true));
    let b = u.lit(Val::Bool(false));
    let e = u.bin(BinOp::Or, a, b);
    assert_eq!(type_in_main(&mut u, vec![], e), shown(Ty::Bool));
    let mut u = Unit::new();
    let a = u.num(1);
    let b = u.num(2);
    let sum = u.bin(BinOp::Mul, a, b);
    let e = u.e(Expr::Parens(Box::new(sum)));
    assert_eq!(type_in_main(&mut u, vec![], e), shown(Ty::Int));
    let mut u = Unit::new();
    let a = u.num(1);
    let b = u.num(2);
    let e = u.bin(BinOp::AddAssign, a, b);
    assert_eq!(type_in_main(&mut u, vec![], e), None);
    // A comparison wants two sides of one primitive type.
    let mut u = Unit::new();
    let a = u.num(1);
    let b = u.lit(Val::Char('c'));
    let e = u.bin(BinOp::Eq, a, b);
    assert_eq!(type_in_main(&mut u, vec![], e), None);
}

#[test]
fn array_initializer_unifies_its_items() {
    let mut u = Unit::new();
    let a = u.num(1);
    let b = u.num(2);
    let c = u.num(3);
    let e = u.e(Expr::ArrayInit { items: vec![a, b, c] });
    assert_eq!(
        type_in_main(&mut u, vec![], e),
        shown(Ty::Array { size: 3, ty: Box::new(Ty::Int) })
    );
    let mut u = Unit::new();
    let a = u.num(1);
    let b = u.lit(Val::Bool(true));
    let e = u.e(Expr::ArrayInit { items: vec![a, b] });
    assert_eq!(type_in_main(&mut u, vec![], e), None);
}

/// A program in which every form of expression stands, with the number of
/// its expressions.
fn many_forms(u: &mut Unit) -> Vec<Declaration> {
    let pair = u.id("pair");
    let t = u.id("T");
    let first = u.id("first");
    let second = u.id("second");
    let st = Declaration {
        val: Decl::Adt(Adt::Struct(Struct {
            ident: pair,
            fields: vec![
                Field { ident: first, ty: Ty::Generic { ident: t, bound: None }, span: place(1, 2) },
                Field {
                    ident: second,
                    ty: Ty::Array { size: 2, ty: Box::new(Ty::Int) },
                    span: place(3, 4),
                },
            ],
            generics: vec![Generic { ident: t, bound: None, span: place(0, 0) }],
            span: place(0, 9),
        })),
        span: place(0, 9),
    };
    let x = u.id("x");
    let px = Expression { id: 900, val: Expr::Ident(x), span: place(110, 110) };
    let twice = Declaration {
        val: Decl::Func(Func {
            ident: u.id("twice"),
            ret: Ty::Int,
            generics: vec![],
            params: vec![Param { ident: x, ty: Ty::Int, span: place(101, 102) }],
            stmts: Block {
                stmts: vec![Statement { val: Stmt::Ret(px), span: place(111, 111) }],
                span: place(100, 199),
            },
            span: place(100, 199),
        }),
        span: place(100, 199),
    };
    let yes = u.lit(Val::Bool(true));
    let a = u.num(1);
    let b = u.num(2);
    let arr = u.e(Expr::ArrayInit { items: vec![a, b] });
    let path = Path { segs: vec![pair], span: u.here() };
    let sp1 = u.here();
    let sp2 = u.here();
    let init = u.e(Expr::StructInit {
        path,
        fields: vec![
            FieldInit { ident: first, init: yes, span: sp1 },
            FieldInit { ident: second, init: arr, span: sp2 },
        ],
    });
    let (s1, _) = u.let_("p", init);
    let lhs = u.var("p");
    let zero = u.num(0);
    let rhs = u.e(Expr::Array { ident: second, exprs: vec![zero] });
    let access = u.e(Expr::FieldAccess { lhs: Box::new(lhs), rhs: Box::new(rhs) });
    let three = u.num(3);
    let path = Path { segs: vec![u.id("twice")], span: u.here() };
    let call = u.e(Expr::Call { path, args: vec![three], type_args: vec![] });
    let sum = u.bin(BinOp::Add, access, call);
    let wrapped = u.e(Expr::Parens(Box::new(sum)));
    let (s2, _) = u.let_("n", wrapped);
    let n = u.var("n");
    let addr = u.e(Expr::AddrOf(Box::new(n)));
    let (s3, _) = u.let_("q", addr);
    let q = u.var("q");
    let deref = u.e(Expr::Deref { indir: 1, expr: Box::new(q) });
    let not = u.e(Expr::Urnary { op: UnOp::Not, expr: Box::new(deref) });
    let (s4, _) = u.let_("f", not);
    vec![st, twice, u.main(vec![s1, s2, s3, s4])]
}

#[test]
fn every_expression_of_a_well_typed_program_has_a_type() {
    let mut u = Unit::new();
    let decls = many_forms(&mut u);
    let mut tcxt = TyCheckRes::new();
    let ok = tcxt.visit_prog(&decls, &u.syms);
    let errors: Vec<_> =
        tcxt.errors.errors.iter().filter(|e| e.severity == Severity::Error).collect();
    assert!(errors.is_empty(), "{:?}", errors);
    assert!(ok);
    assert!(!tcxt.errors.is_poisoned());
    for id in 0..u.next {
        assert!(tcxt.expr_ty.contains_key(&id), "expression {} has no type", id);
    }
    assert!(tcxt.expr_ty.contains_key(&900));
    assert_eq!(tcxt.expr_ty.len(), u.next + 1);
}

#[test]
fn no_inferred_type_holds_an_unresolved_path() {
    let mut u = Unit::new();
    let decls = many_forms(&mut u);
    let mut tcxt = TyCheckRes::new();
    tcxt.visit_prog(&decls, &u.syms);
    assert!(!tcxt.expr_ty.is_empty());
    for ty in tcxt.expr_ty.values() {
        assert!(!ty.has_path(), "{:?}", ty);
    }
}

#[test]
fn a_let_with_an_unresolved_type_binds_nothing() {
    let mut u = Unit::new();
    let nowhere = Path { segs: vec![u.id("nowhere")], span: u.here() };
    let missing = u.var("missing");
    let lval = u.var("a");
    let st = u.s(Stmt::Assign { lval, rval: missing, ty: Some(Ty::Path(nowhere)), is_let: true });
    let decls = vec![u.main(vec![st])];
    let mut tcxt = TyCheckRes::new();
    let ok = tcxt.visit_prog(&decls, &u.syms);
    assert!(!ok);
    assert!(tcxt.errors.is_poisoned());
    for ty in tcxt.expr_ty.values() {
        assert!(!ty.has_path(), "{:?}", ty);
    }
}

fn table_of(tcxt: &TyCheckRes) -> Vec<(usize, String)> {
    let mut rows: Vec<(usize, String)> =
        tcxt.expr_ty.iter().map(|(k, v)| (*k, format!("{:?}", v))).collect();
    rows.sort();
    rows
}

#[test]
fn inference_done_again_changes_nothing() {
    let mut u = Unit::new();
    let a = u.num(1);
    let b = u.lit(Val::Float(2.0f64.to_bits()));
    let sum = u.bin(BinOp::Add, a, b);
    let c = u.lit(Val::Float(3.0f64.to_bits()));
    let e = u.bin(BinOp::Lt, sum, c);
    let mut tcxt = TyCheckRes::new();
    let first = TypeInfer::visit_expr(&mut tcxt, &e);
    assert!(matches!(first, Some(Ty::Bool)));
    let once = table_of(&tcxt);
    assert_eq!(once.len(), 5);
    let errors = tcxt.errors.errors.len();
    let second = TypeInfer::visit_expr(&mut tcxt, &e);
    assert!(matches!(second, Some(Ty::Bool)));
    assert_eq!(table_of(&tcxt), once);
    assert_eq!(tcxt.errors.errors.len(), errors);
    assert!(!tcxt.errors.is_poisoned());
}

#[test]
fn inference_of_a_statement_that_declares_nothing_done_again_changes_nothing() {
    let mut u = Unit::new();
    let one = u.num(1);
    let (s1, _) = u.let_("a", one);
    let two = u.num(2);
    let lval = u.var("a");
    let s2 = u.s(Stmt::Assign { lval, rval: two, ty: None, is_let: false });
    let main = u.id("main");
    let mut tcxt = TyCheckRes::new();
    tcxt.curr_fn = Some(main);
    let f = Func {
        ident: main,
        ret: Ty::Void,
        generics: vec![],
        params: vec![],
        stmts: Block { stmts: vec![], span: place(1000, 1999) },
        span: place(1000, 1999),
    };
    tcxt.visit_func(&f);
    TypeInfer::visit_stmt(&mut tcxt, &s1);
    TypeInfer::visit_stmt(&mut tcxt, &s2);
    assert!(!tcxt.errors.is_poisoned());
    let once = table_of(&tcxt);
    TypeInfer::visit_stmt(&mut tcxt, &s2);
    assert_eq!(table_of(&tcxt), once);
    assert!(!tcxt.errors.is_poisoned());
    // A `let` done again declares its variable twice.
    TypeInfer::visit_stmt(&mut tcxt, &s1);
    assert_eq!(table_of(&tcxt), once);
    assert!(tcxt.errors.is_poisoned());
}

#[test]
fn what_a_body_reads_and_returns() {
    let mut u = Unit::new();
    let a = u.id("a");
    let b = u.id("b");
    let x = u.id("x");
    let va = u.var("a");
    let one = u.num(1);
    let sum = u.bin(BinOp::Add, va, one);
    assert!(expr_reads(&sum, a, false));
    assert!(!expr_reads(&sum, b, false));

    // In `a.x` the name `x` is a field, not a variable.
    let lhs = u.var("a");
    let rhs = u.var("x");
    let access = u.e(Expr::FieldAccess { lhs: Box::new(lhs), rhs: Box::new(rhs) });
    assert!(expr_reads(&access, a, false));
    assert!(!expr_reads(&access, x, false));

    // `let b = a;` reads a and declares b; `b = 1;` counts as a use of b.
    let va = u.var("a");
    let (decl, _) = u.let_("b", va);
    assert!(stmt_is_read(&decl, a));
    assert!(!stmt_is_read(&decl, b));
    let one = u.num(1);
    let lval = u.var("b");
    let assign = u.s(Stmt::Assign { lval, rval: one, ty: None, is_let: false });
    assert!(stmt_is_read(&assign, b));

    let vb = u.var("b");
    let ret = u.s(Stmt::Ret(vb));
    assert!(stmt_has_return(&ret));
    assert!(!stmt_has_return(&decl));
    let cond = u.num(1);
    let at = u.here();
    let nested = u.s(Stmt::If {
        cond,
        blk: Block { stmts: vec![], span: at },
        els: Some(Block { stmts: vec![ret], span: at }),
    });
    assert!(stmt_has_return(&nested));
    assert!(stmt_is_read(&nested, b));
    let exit = u.s(Stmt::Exit);
    let body = vec![exit, nested];
    assert!(stmts_return(&body));
    assert!(stmts_read(&body, b));
    assert!(!stmts_read(&body, a));
    assert!(!stmts_return(&vec![]));
}
