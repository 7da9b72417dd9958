use midend::ast::types::{Ident, Path, Range};
use midend::ast::types as ast;
use midend::lir::fold::{
    binary_value, fold_expr, fold_items, fold_stmt, known_table, propagate_func, unary_value,
};
use midend::lir::known::{known_value, stmt_changes};
use midend::lir::lower::{MatchArm, Param, Pat};
use std::collections::HashMap;
use midend::lir::lower::{
    BinOp, Block, CallExpr, Const, Expr, Func, Item, LValue, Stmt, Ty, UnOp, Val,
};

fn num(v: isize) -> Expr {
    Expr::Value(Val::Int(v))
}

fn flag(v: bool) -> Expr {
    Expr::Value(Val::Bool(v))
}

fn var(id: usize) -> Expr {
    Expr::Ident { ident: Ident { id }, ty: Ty::Int }
}

fn bin(op: BinOp, l: Expr, r: Expr, ty: Ty) -> Expr {
    Expr::Binary { op, lhs: Box::new(l), rhs: Box::new(r), ty }
}

fn sig(id: usize) -> Func {
    Func { ret: Ty::Void, ident: Ident { id }, generics: vec![], params: vec![], stmts: vec![] }
}

fn path(id: usize) -> Path {
    Path { segs: vec![Ident { id }], span: Range { start: 0, end: 0, file_id: 0 } }
}

#[test]
fn operators_on_two_ints() {
    assert_eq!(binary_value(BinOp::Add, Val::Int(2), Val::Int(3)), Some(Val::Int(5)));
    assert_eq!(binary_value(BinOp::Sub, Val::Int(2), Val::Int(3)), Some(Val::Int(-1)));
    assert_eq!(binary_value(BinOp::Mul, Val::Int(-4), Val::Int(3)), Some(Val::Int(-12)));
    assert_eq!(binary_value(BinOp::Div, Val::Int(7), Val::Int(2)), Some(Val::Int(3)));
    assert_eq!(binary_value(BinOp::Rem, Val::Int(7), Val::Int(2)), Some(Val::Int(1)));
    assert_eq!(binary_value(BinOp::Lt, Val::Int(1), Val::Int(2)), Some(Val::Bool(true)));
    assert_eq!(binary_value(BinOp::Ge, Val::Int(1), Val::Int(2)), Some(Val::Bool(false)));
    assert_eq!(binary_value(BinOp::Eq, Val::Int(2), Val::Int(2)), Some(Val::Bool(true)));
    assert_eq!(binary_value(BinOp::Ne, Val::Int(2), Val::Int(2)), Some(Val::Bool(false)));
}

#[test]
fn what_would_overflow_or_divide_by_zero_is_not_folded() {
    assert_eq!(binary_value(BinOp::Add, Val::Int(isize::MAX), Val::Int(1)), None);
    assert_eq!(binary_value(BinOp::Sub, Val::Int(isize::MIN), Val::Int(1)), None);
    assert_eq!(binary_value(BinOp::Mul, Val::Int(isize::MAX), Val::Int(2)), None);
    assert_eq!(binary_value(BinOp::Div, Val::Int(1), Val::Int(0)), None);
    assert_eq!(binary_value(BinOp::Rem, Val::Int(1), Val::Int(0)), None);
    assert_eq!(binary_value(BinOp::Div, Val::Int(-7), Val::Int(2)), None);
    assert_eq!(binary_value(BinOp::Div, Val::Int(isize::MIN), Val::Int(-1)), None);
    assert_eq!(binary_value(BinOp::LeftShift, Val::Int(1), Val::Int(2)), None);
    assert_eq!(
        binary_value(BinOp::Add, Val::Int(isize::MAX - 1), Val::Int(1)),
        Some(Val::Int(isize::MAX))
    );
}

#[test]
fn operators_on_other_literals() {
    assert_eq!(binary_value(BinOp::And, Val::Bool(true), Val::Bool(false)), Some(Val::Bool(false)));
    assert_eq!(binary_value(BinOp::Or, Val::Bool(true), Val::Bool(false)), Some(Val::Bool(true)));
    assert_eq!(binary_value(BinOp::Add, Val::Bool(true), Val::Bool(false)), None);
    assert_eq!(binary_value(BinOp::Eq, Val::Char('a'), Val::Char('a')), Some(Val::Bool(true)));
    assert_eq!(binary_value(BinOp::Ne, Val::Char('a'), Val::Char('a')), Some(Val::Bool(false)));
    assert_eq!(binary_value(BinOp::Lt, Val::Char('a'), Val::Char('b')), None);
    assert_eq!(binary_value(BinOp::Add, Val::Int(1), Val::Bool(true)), None);
    let half = Val::Float(0.5f64.to_bits());
    assert_eq!(binary_value(BinOp::Add, half, half), None);
    assert_eq!(unary_value(UnOp::Not, Val::Bool(true)), Some(Val::Bool(false)));
    assert_eq!(unary_value(UnOp::Not, Val::Int(0)), Some(Val::Bool(true)));
    assert_eq!(unary_value(UnOp::Not, Val::Int(5)), Some(Val::Bool(false)));
    assert_eq!(unary_value(UnOp::OnesComp, Val::Int(0)), Some(Val::Int(-1)));
    assert_eq!(unary_value(UnOp::OnesComp, Val::Int(5)), Some(Val::Int(!5)));
    assert_eq!(unary_value(UnOp::OnesComp, Val::Int(isize::MIN)), Some(Val::Int(isize::MAX)));
    assert_eq!(unary_value(UnOp::OnesComp, Val::Bool(true)), None);
}

#[test]
fn expressions_fold_from_the_leaves_up() {
    // (1 + 2) * 3 < 10
    let sum = Expr::Parens(Box::new(bin(BinOp::Add, num(1), num(2), Ty::Int)));
    let product = bin(BinOp::Mul, sum, num(3), Ty::Int);
    let e = bin(BinOp::Lt, product, num(10), Ty::Bool);
    assert!(matches!(fold_expr(e, &vec![]), Expr::Value(Val::Bool(true))));

    // x + (2 * 3): the right side folds, the sum stays.
    let e = bin(BinOp::Add, var(7), bin(BinOp::Mul, num(2), num(3), Ty::Int), Ty::Int);
    match fold_expr(e, &vec![]) {
        Expr::Binary { op: BinOp::Add, lhs, rhs, ty: Ty::Int } => {
            assert!(matches!(*lhs, Expr::Ident { ident: Ident { id: 7 }, .. }));
            assert!(matches!(*rhs, Expr::Value(Val::Int(6))));
        },
        other => panic!("a sum, found {:?}", other),
    }

    // An operator that is not folded keeps its folded operands.
    let e = bin(BinOp::Div, bin(BinOp::Add, num(1), num(1), Ty::Int), num(0), Ty::Int);
    match fold_expr(e, &vec![]) {
        Expr::Binary { op: BinOp::Div, lhs, rhs, .. } => {
            assert!(matches!(*lhs, Expr::Value(Val::Int(2))));
            assert!(matches!(*rhs, Expr::Value(Val::Int(0))));
        },
        other => panic!("a division, found {:?}", other),
    }

    let e = Expr::Urnary {
        op: UnOp::Not,
        expr: Box::new(bin(BinOp::Eq, num(1), num(2), Ty::Bool)),
        ty: Ty::Bool,
    };
    assert!(matches!(fold_expr(e, &vec![]), Expr::Value(Val::Bool(true))));
    assert!(matches!(fold_expr(num(4), &vec![]), Expr::Value(Val::Int(4))));
    assert!(matches!(fold_expr(var(1), &vec![]), Expr::Ident { .. }));
}

#[test]
fn arguments_indices_and_items_are_folded_and_places_are_not() {
    let call = Expr::Call {
        path: path(1),
        args: vec![bin(BinOp::Add, num(1), num(2), Ty::Int), var(3)],
        type_args: vec![],
        def: sig(1),
    };
    match fold_expr(call, &vec![]) {
        Expr::Call { args, path, .. } => {
            assert_eq!(path.segs, vec![Ident { id: 1 }]);
            assert_eq!(args.len(), 2);
            assert!(matches!(args[0], Expr::Value(Val::Int(3))));
            assert!(matches!(args[1], Expr::Ident { .. }));
        },
        other => panic!("a call, found {:?}", other),
    }
    let index = Expr::Array {
        ident: Ident { id: 2 },
        exprs: vec![bin(BinOp::Sub, num(3), num(1), Ty::Int)],
        ty: Ty::Int,
    };
    match fold_expr(index, &vec![]) {
        Expr::Array { exprs, .. } => assert!(matches!(exprs[0], Expr::Value(Val::Int(2)))),
        other => panic!("an index, found {:?}", other),
    }
    let items = Expr::ArrayInit {
        items: vec![flag(true), bin(BinOp::And, flag(true), flag(false), Ty::Bool)],
        ty: Ty::Array { size: 2, ty: Box::new(Ty::Bool) },
    };
    match fold_expr(items, &vec![]) {
        Expr::ArrayInit { items, .. } => {
            assert!(matches!(items[0], Expr::Value(Val::Bool(true))));
            assert!(matches!(items[1], Expr::Value(Val::Bool(false))));
        },
        other => panic!("an array, found {:?}", other),
    }
    // What stands under `&` is a place.
    let addr = Expr::AddrOf(Box::new(Expr::Parens(Box::new(num(1)))));
    match fold_expr(addr, &vec![]) {
        Expr::AddrOf(inner) => assert!(matches!(*inner, Expr::Parens(_))),
        other => panic!("an address, found {:?}", other),
    }
}

#[test]
fn statements_and_items_are_folded() {
    let body = vec![
        Stmt::Assign {
            lval: LValue::Ident { ident: Ident { id: 1 }, ty: Ty::Int },
            rval: bin(BinOp::Add, num(40), num(2), Ty::Int),
        },
        Stmt::If {
            cond: bin(BinOp::Lt, num(1), num(2), Ty::Bool),
            blk: Block { stmts: vec![Stmt::Ret(bin(BinOp::Mul, num(2), num(2), Ty::Int), Ty::Int)] },
            els: Some(Block { stmts: vec![Stmt::Exit] }),
        },
        Stmt::Call {
            expr: CallExpr {
                path: path(5),
                args: vec![bin(BinOp::Sub, num(2), num(2), Ty::Int)],
                type_args: vec![],
            },
            def: sig(5),
        },
        Stmt::Read(Expr::Parens(Box::new(num(1)))),
    ];
    let f = Func { ret: Ty::Int, ident: Ident { id: 9 }, generics: vec![], params: vec![], stmts: body };
    let k = Const {
        ty: Ty::Int,
        ident: Ident { id: 8 },
        init: bin(BinOp::Add, num(1), num(1), Ty::Int),
        is_global: true,
    };
    let out = fold_items(vec![Item::Const(k), Item::Func(f)], &HashMap::new());
    assert_eq!(out.len(), 2);
    match &out[0] {
        Item::Const(k) => {
            assert!(k.is_global);
            assert_eq!(k.ident, Ident { id: 8 });
            assert!(matches!(k.init, Expr::Value(Val::Int(2))));
        },
        other => panic!("a constant, found {:?}", other),
    }
    let f = match &out[1] {
        Item::Func(f) => f,
        other => panic!("a function, found {:?}", other),
    };
    assert_eq!(f.ident, Ident { id: 9 });
    assert_eq!(f.stmts.len(), 4);
    assert!(matches!(&f.stmts[0], Stmt::Assign { rval: Expr::Value(Val::Int(42)), .. }));
    match &f.stmts[1] {
        Stmt::If { cond, blk, els } => {
            assert!(matches!(cond, Expr::Value(Val::Bool(true))));
            assert!(matches!(&blk.stmts[0], Stmt::Ret(Expr::Value(Val::Int(4)), Ty::Int)));
            assert!(matches!(els, Some(b) if matches!(b.stmts[0], Stmt::Exit)));
        },
        other => panic!("an if, found {:?}", other),
    }
    match &f.stmts[2] {
        Stmt::Call { expr, .. } => assert!(matches!(expr.args[0], Expr::Value(Val::Int(0)))),
        other => panic!("a call, found {:?}", other),
    }
    // What is read into is a place.
    assert!(matches!(&f.stmts[3], Stmt::Read(Expr::Parens(_))));
    assert!(matches!(fold_stmt(Stmt::Exit, &vec![]), Stmt::Exit));
}


fn set(id: usize, v: Expr) -> Stmt {
    Stmt::Assign { lval: LValue::Ident { ident: Ident { id }, ty: Ty::Int }, rval: v }
}

fn body_of(stmts: Vec<Stmt>, params: Vec<usize>) -> Func {
    Func {
        ret: Ty::Void,
        ident: Ident { id: 100 },
        generics: vec![],
        params: params.into_iter().map(|id| Param { ty: Ty::Int, ident: Ident { id } }).collect(),
        stmts,
    }
}

fn noted(pairs: &[(usize, isize)]) -> HashMap<usize, ast::Val> {
    pairs.iter().map(|(k, v)| (*k, ast::Val::Int(*v))).collect()
}

#[test]
fn a_name_set_once_by_a_literal_is_replaced_where_it_is_read() {
    // x = 2; y = x * 3; write(x + y);
    let f = body_of(
        vec![
            set(1, num(2)),
            set(2, bin(BinOp::Mul, var(1), num(3), Ty::Int)),
            Stmt::Write { expr: bin(BinOp::Add, var(1), var(2), Ty::Int) },
        ],
        vec![],
    );
    let consts = noted(&[(1, 2)]);
    assert_eq!(known_value(&consts, &f.params, &f.stmts, Ident { id: 1 }), Some(Val::Int(2)));
    assert_eq!(known_value(&consts, &f.params, &f.stmts, Ident { id: 2 }), None);
    assert_eq!(known_table(&consts, &f.params, &f.stmts), vec![(Ident { id: 1 }, Val::Int(2))]);
    let r = propagate_func(f, &consts);
    assert!(matches!(&r.stmts[0], Stmt::Assign { lval: LValue::Ident { .. }, rval: Expr::Value(Val::Int(2)) }));
    assert!(matches!(&r.stmts[1], Stmt::Assign { rval: Expr::Value(Val::Int(6)), .. }));
    match &r.stmts[2] {
        Stmt::Write { expr: Expr::Binary { lhs, rhs, .. } } => {
            assert!(matches!(**lhs, Expr::Value(Val::Int(2))));
            assert!(matches!(**rhs, Expr::Ident { ident: Ident { id: 2 }, .. }));
        },
        other => panic!("a sum, found {:?}", other),
    }
}

#[test]
fn a_name_that_can_change_is_not_replaced() {
    let consts = noted(&[(1, 0)]);
    // i = 0; while i < 10 { i = i + 1; }
    let looped = body_of(
        vec![
            set(1, num(0)),
            Stmt::While {
                cond: bin(BinOp::Lt, var(1), num(10), Ty::Bool),
                stmts: Block { stmts: vec![set(1, bin(BinOp::Add, var(1), num(1), Ty::Int))] },
            },
        ],
        vec![],
    );
    assert_eq!(known_value(&consts, &looped.params, &looped.stmts, Ident { id: 1 }), None);
    let r = propagate_func(looped, &consts);
    match &r.stmts[1] {
        Stmt::While { cond: Expr::Binary { lhs, .. }, .. } => {
            assert!(matches!(**lhs, Expr::Ident { .. }))
        },
        other => panic!("a loop, found {:?}", other),
    }

    // Set twice.
    let twice = body_of(vec![set(1, num(0)), set(1, num(0))], vec![]);
    assert_eq!(known_value(&consts, &twice.params, &twice.stmts, Ident { id: 1 }), None);
    // A parameter of the name.
    let param = body_of(vec![set(1, num(0))], vec![1]);
    assert_eq!(known_value(&consts, &param.params, &param.stmts, Ident { id: 1 }), None);
    // An address is taken somewhere in the function.
    let addr = body_of(
        vec![set(1, num(0)), set(2, Expr::AddrOf(Box::new(var(3))))],
        vec![],
    );
    assert_eq!(known_value(&consts, &addr.params, &addr.stmts, Ident { id: 1 }), None);
    // Something is read into a place.
    let read = body_of(vec![set(1, num(0)), Stmt::Read(var(4))], vec![]);
    assert_eq!(known_value(&consts, &read.params, &read.stmts, Ident { id: 1 }), None);
    // A pattern binds the name.
    let bound = body_of(
        vec![
            set(1, num(0)),
            Stmt::Match {
                expr: var(5),
                arms: vec![MatchArm {
                    pat: Pat::Bind(midend::lir::lower::Binding::Wild(Ident { id: 1 })),
                    blk: Block { stmts: vec![] },
                }],
                ty: Ty::Int,
            },
        ],
        vec![],
    );
    assert_eq!(known_value(&consts, &bound.params, &bound.stmts, Ident { id: 1 }), None);
    // The literal in the function is not the one that was noted.
    let other = body_of(vec![set(1, num(7))], vec![]);
    assert_eq!(known_value(&consts, &other.params, &other.stmts, Ident { id: 1 }), None);
    // Nothing was noted for the name.
    let plain = body_of(vec![set(9, num(0))], vec![]);
    assert_eq!(known_value(&consts, &plain.params, &plain.stmts, Ident { id: 9 }), None);
    // Set in a nested block only.
    let nested = body_of(vec![Stmt::Block(Block { stmts: vec![set(1, num(0))] })], vec![]);
    assert_eq!(known_value(&consts, &nested.params, &nested.stmts, Ident { id: 1 }), None);
    assert!(stmt_changes(&set(1, num(0)), Ident { id: 1 }));
    assert!(!stmt_changes(&set(1, num(0)), Ident { id: 2 }));
    assert!(stmt_changes(&Stmt::Read(var(4)), Ident { id: 2 }));
}

#[test]
fn folding_items_reads_the_noted_literals() {
    let f = body_of(vec![set(1, num(4)), Stmt::Ret(bin(BinOp::Add, var(1), num(1), Ty::Int), Ty::Int)], vec![]);
    let out = fold_items(vec![Item::Func(f)], &noted(&[(1, 4)]));
    match &out[0] {
        Item::Func(f) => {
            assert!(matches!(&f.stmts[1], Stmt::Ret(Expr::Value(Val::Int(5)), Ty::Int)));
        },
        other => panic!("a function, found {:?}", other),
    }
    let f = body_of(vec![set(1, num(4)), Stmt::Ret(bin(BinOp::Add, var(1), num(1), Ty::Int), Ty::Int)], vec![]);
    let out = fold_items(vec![Item::Func(f)], &HashMap::new());
    match &out[0] {
        Item::Func(f) => {
            assert!(matches!(&f.stmts[1], Stmt::Ret(Expr::Binary { .. }, Ty::Int)));
        },
        other => panic!("a function, found {:?}", other),
    }
}
