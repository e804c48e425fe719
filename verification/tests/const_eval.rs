use shader_compiler::ast::{BinOp, ConstDecl, Expr, ExprKind, MacroCallAnalysis, ShaderAst, UnOp};
use shader_compiler::const_eval::ConstEvaluator;
use shader_compiler::env::VarKind;
use shader_compiler::ident::Ident;
use shader_compiler::lit::Lit;
use shader_compiler::math::Vec4;
use shader_compiler::span::Span;
use shader_compiler::ty::Ty;
use shader_compiler::val::Val;

fn sp(n: usize) -> Span {
    Span { start: n, end: n + 1 }
}

fn node(n: usize, ty: Ty, kind: ExprKind) -> Expr {
    Expr { span: sp(n), ty: Some(ty), kind }
}

fn lit_int(n: usize, v: i64) -> Expr {
    node(n, Ty::Int, ExprKind::Lit { lit: Lit::Int(v) })
}

fn lit_bool(n: usize, v: bool) -> Expr {
    node(n, Ty::Bool, ExprKind::Lit { lit: Lit::Bool(v) })
}

fn lit_float(n: usize, v: f32) -> Expr {
    node(n, Ty::Float, ExprKind::Lit { lit: Lit::Float(v.to_bits()) })
}

fn bin(n: usize, ty: Ty, op: BinOp, l: usize, r: usize) -> Expr {
    node(n, ty, ExprKind::Bin { op, left_expr: l, right_expr: r })
}

fn ast_of(exprs: Vec<Expr>) -> ShaderAst {
    ShaderAst { exprs, const_decls: Vec::new() }
}

/// Folds a two-literal binary expression and returns the outcome.
fn fold_bin_lits(op: BinOp, l: Lit, r: Lit) -> Option<Val> {
    let ast = ast_of(vec![
        node(0, Ty::Int, ExprKind::Lit { lit: l }),
        node(1, Ty::Int, ExprKind::Lit { lit: r }),
        node(2, Ty::Int, ExprKind::Bin { op, left_expr: 0, right_expr: 1 }),
    ]);
    let mut ev = ConstEvaluator::new(&ast);
    ev.try_const_eval_expr(2)
}

#[test]
fn int_add_mul_tree() {
    // 1 + 2 * 3 folds to 7: the evaluator trusts the tree shape the parser built.
    let ast = ast_of(vec![
        lit_int(0, 1),
        lit_int(1, 2),
        lit_int(2, 3),
        bin(3, Ty::Int, BinOp::Mul, 1, 2),
        bin(4, Ty::Int, BinOp::Add, 0, 3),
    ]);
    let mut ev = ConstEvaluator::new(&ast);
    assert_eq!(ev.try_const_eval_expr(4), Some(Val::Int(7)));
    for k in 0..5 {
        assert!(ev.const_vals[k].is_some());
        assert!(ev.const_index[k].is_none());
    }
}

#[test]
fn bool_and_eq_tree() {
    // true && (1 == 1) folds to true.
    let ast = ast_of(vec![
        lit_bool(0, true),
        lit_int(1, 1),
        lit_int(2, 1),
        bin(3, Ty::Bool, BinOp::Eq, 1, 2),
        bin(4, Ty::Bool, BinOp::And, 0, 3),
    ]);
    let mut ev = ConstEvaluator::new(&ast);
    assert_eq!(ev.try_const_eval_expr(4), Some(Val::Bool(true)));
}

#[test]
fn folding_is_idempotent() {
    let ast = ast_of(vec![
        lit_int(0, 6),
        lit_int(1, 7),
        bin(2, Ty::Int, BinOp::Mul, 0, 1),
    ]);
    let mut ev = ConstEvaluator::new(&ast);
    let first = ev.try_const_eval_expr(2);
    let vals_first = ev.const_vals.clone();
    let second = ev.try_const_eval_expr(2);
    assert_eq!(first, second);
    assert_eq!(ev.const_vals, vals_first);
    assert!(ev.const_index.iter().all(|s| s.is_none()));
}

#[test]
fn cond_annotates_unselected_branch() {
    // true ? 1 : (2 + 2): the else branch is folded and annotated even
    // though the then branch is selected.
    let ast = ast_of(vec![
        lit_bool(0, true),
        lit_int(1, 1),
        lit_int(2, 2),
        lit_int(3, 2),
        bin(4, Ty::Int, BinOp::Add, 2, 3),
        node(5, Ty::Int, ExprKind::Cond { expr: 0, expr_if_true: 1, expr_if_false: 4 }),
    ]);
    let mut ev = ConstEvaluator::new(&ast);
    assert_eq!(ev.try_const_eval_expr(5), Some(Val::Int(1)));
    assert_eq!(ev.const_vals[4], Some(Some(Val::Int(4))));
}

#[test]
fn cond_annotates_branches_when_condition_is_runtime() {
    // u ? 1 : 2 with a uniform condition: the conditional is not constant,
    // but both branches still end annotated with their own values.
    let ast = ast_of(vec![
        node(0, Ty::Bool, ExprKind::Var { kind: Some(VarKind::Uniform), ident: Ident(5) }),
        lit_int(1, 1),
        lit_int(2, 2),
        node(3, Ty::Int, ExprKind::Cond { expr: 0, expr_if_true: 1, expr_if_false: 2 }),
    ]);
    let mut ev = ConstEvaluator::new(&ast);
    assert_eq!(ev.try_const_eval_expr(3), None);
    assert_eq!(ev.const_vals[1], Some(Some(Val::Int(1))));
    assert_eq!(ev.const_vals[2], Some(Some(Val::Int(2))));
}

#[test]
fn cond_selects_else_branch() {
    let ast = ast_of(vec![
        lit_bool(0, false),
        lit_int(1, 1),
        lit_int(2, 9),
        node(3, Ty::Int, ExprKind::Cond { expr: 0, expr_if_true: 1, expr_if_false: 2 }),
    ]);
    let mut ev = ConstEvaluator::new(&ast);
    assert_eq!(ev.try_const_eval_expr(3), Some(Val::Int(9)));
}

#[test]
fn var_const_folds_to_declared_value() {
    // const PI = 3.5; a Const-kind reference folds to the declaration's
    // already-folded value.
    let pi = Ident(1);
    let ast = ShaderAst {
        exprs: vec![
            lit_float(0, 3.5),
            node(1, Ty::Float, ExprKind::Var { kind: Some(VarKind::Const), ident: pi }),
        ],
        const_decls: vec![ConstDecl { span: sp(9), ident: pi, expr: 0 }],
    };
    let mut ev = ConstEvaluator::new(&ast);
    ev.try_const_eval_expr(0);
    assert_eq!(ev.try_const_eval_expr(1), Some(Val::Float(3.5f32.to_bits())));
}

#[test]
fn var_runtime_kinds_never_fold() {
    for kind in [VarKind::Uniform, VarKind::Instance, VarKind::Varying, VarKind::Local] {
        let ast = ast_of(vec![node(
            0,
            Ty::Float,
            ExprKind::Var { kind: Some(kind), ident: Ident(4) },
        )]);
        let mut ev = ConstEvaluator::new(&ast);
        assert_eq!(ev.try_const_eval_expr(0), None);
        assert_eq!(ev.const_vals[0], Some(None));
    }
}

#[test]
fn field_access_never_folds() {
    // (1 + 2).x folds to None, but the base is annotated with its value.
    let ast = ast_of(vec![
        lit_int(0, 1),
        lit_int(1, 2),
        bin(2, Ty::Int, BinOp::Add, 0, 1),
        node(3, Ty::Float, ExprKind::Field { expr: 2, field_ident: Ident(7) }),
    ]);
    let mut ev = ConstEvaluator::new(&ast);
    assert_eq!(ev.try_const_eval_expr(3), None);
    assert_eq!(ev.const_vals[2], Some(Some(Val::Int(3))));
}

#[test]
fn index_access_never_folds() {
    // a[0]: the base is annotated, the index expression is left untouched.
    let ast = ast_of(vec![
        lit_int(0, 5),
        lit_int(1, 0),
        node(2, Ty::Float, ExprKind::Index { expr: 0, index_expr: 1 }),
    ]);
    let mut ev = ConstEvaluator::new(&ast);
    assert_eq!(ev.try_const_eval_expr(2), None);
    assert_eq!(ev.const_vals[0], Some(Some(Val::Int(5))));
    assert_eq!(ev.const_vals[1], None);
}

#[test]
fn macro_pick_folds_to_vec4() {
    let analysis = MacroCallAnalysis::Pick {
        r: 1.0f32.to_bits(),
        g: 0.0f32.to_bits(),
        b: 0.0f32.to_bits(),
        a: 1.0f32.to_bits(),
    };
    let ast = ast_of(vec![node(
        0,
        Ty::Vec4,
        ExprKind::MacroCall { analysis: Some(analysis), ident: Ident(2), arg_exprs: vec![] },
    )]);
    let mut ev = ConstEvaluator::new(&ast);
    assert_eq!(
        ev.try_const_eval_expr(0),
        Some(Val::Vec4(Vec4 {
            x: 1.0f32.to_bits(),
            y: 0.0f32.to_bits(),
            z: 0.0f32.to_bits(),
            w: 1.0f32.to_bits(),
        }))
    );
}

#[test]
fn macro_slide_folds_to_float() {
    let analysis = MacroCallAnalysis::Slide { v: 0.75f32.to_bits() };
    let ast = ast_of(vec![node(
        0,
        Ty::Float,
        ExprKind::MacroCall { analysis: Some(analysis), ident: Ident(3), arg_exprs: vec![] },
    )]);
    let mut ev = ConstEvaluator::new(&ast);
    assert_eq!(ev.try_const_eval_expr(0), Some(Val::Float(0.75f32.to_bits())));
}

#[test]
fn const_eval_expr_error_carries_span() {
    let ast = ast_of(vec![
        lit_int(0, 1),
        node(1, Ty::Float, ExprKind::Field { expr: 0, field_ident: Ident(7) }),
    ]);
    let mut ev = ConstEvaluator::new(&ast);
    let err = ev.const_eval_expr(1).unwrap_err();
    assert_eq!(err.span, sp(1));
    assert_eq!(err.message, "expression is not const");
}

#[test]
fn const_eval_expr_ok_on_constant() {
    let ast = ast_of(vec![lit_int(0, 2), lit_int(1, 3), bin(2, Ty::Int, BinOp::Add, 0, 1)]);
    let mut ev = ConstEvaluator::new(&ast);
    assert_eq!(ev.const_eval_expr(2), Ok(Val::Int(5)));
}

#[test]
fn call_never_folds_but_annotates_args() {
    let ast = ast_of(vec![
        lit_int(0, 1),
        lit_float(1, 2.0),
        node(2, Ty::Float, ExprKind::Call { ident: Ident(11), arg_exprs: vec![0, 1] }),
    ]);
    let mut ev = ConstEvaluator::new(&ast);
    assert_eq!(ev.try_const_eval_expr(2), None);
    assert_eq!(ev.const_vals[0], Some(Some(Val::Int(1))));
    assert_eq!(ev.const_vals[1], Some(Some(Val::Float(2.0f32.to_bits()))));
}

#[test]
fn method_call_never_folds() {
    // s.area() on a struct-typed receiver: handled as a plain call.
    let s = Ident(20);
    let ast = ast_of(vec![
        node(0, Ty::Struct { ident: s }, ExprKind::Var { kind: Some(VarKind::Local), ident: Ident(21) }),
        lit_int(1, 4),
        node(2, Ty::Float, ExprKind::MethodCall { ident: Ident(22), arg_exprs: vec![0, 1] }),
    ]);
    let mut ev = ConstEvaluator::new(&ast);
    assert_eq!(ev.try_const_eval_expr(2), None);
    assert_eq!(ev.const_vals[1], Some(Some(Val::Int(4))));
}

#[test]
fn cons_call_never_folds_but_annotates_args() {
    let ast = ast_of(vec![
        lit_float(0, 1.0),
        lit_float(1, 0.5),
        node(
            2,
            Ty::Vec2,
            ExprKind::ConsCall { ty_lit: shader_compiler::lit::TyLit::Vec2, arg_exprs: vec![0, 1] },
        ),
    ]);
    let mut ev = ConstEvaluator::new(&ast);
    assert_eq!(ev.try_const_eval_expr(2), None);
    assert_eq!(ev.const_vals[0], Some(Some(Val::Float(1.0f32.to_bits()))));
    assert_eq!(ev.const_vals[1], Some(Some(Val::Float(0.5f32.to_bits()))));
}

#[test]
fn int_comparisons() {
    let cases = [
        (BinOp::Eq, 2i64, 2i64, true),
        (BinOp::Ne, 2, 3, true),
        (BinOp::Lt, 2, 3, true),
        (BinOp::Le, 3, 3, true),
        (BinOp::Gt, 3, 2, true),
        (BinOp::Ge, 2, 3, false),
    ];
    for (op, x, y, expect) in cases {
        assert_eq!(fold_bin_lits(op, Lit::Int(x), Lit::Int(y)), Some(Val::Bool(expect)));
    }
}

#[test]
fn int_arithmetic_exact() {
    assert_eq!(fold_bin_lits(BinOp::Sub, Lit::Int(2), Lit::Int(5)), Some(Val::Int(-3)));
    assert_eq!(fold_bin_lits(BinOp::Div, Lit::Int(7), Lit::Int(2)), Some(Val::Int(3)));
    assert_eq!(fold_bin_lits(BinOp::Div, Lit::Int(-7), Lit::Int(2)), Some(Val::Int(-3)));
}

#[test]
fn int_arithmetic_undefined_is_not_const() {
    assert_eq!(fold_bin_lits(BinOp::Add, Lit::Int(i64::MAX), Lit::Int(1)), None);
    assert_eq!(fold_bin_lits(BinOp::Mul, Lit::Int(i64::MAX), Lit::Int(2)), None);
    assert_eq!(fold_bin_lits(BinOp::Div, Lit::Int(1), Lit::Int(0)), None);
    assert_eq!(fold_bin_lits(BinOp::Div, Lit::Int(i64::MIN), Lit::Int(-1)), None);
}

#[test]
fn float_arithmetic_matches_ieee() {
    let cases = [
        (BinOp::Add, 1.5f32, 2.25f32),
        (BinOp::Sub, 1.5, 2.25),
        (BinOp::Mul, 1.5, 2.25),
        (BinOp::Div, 1.0, 3.0),
    ];
    for (op, x, y) in cases {
        let expect = match op {
            BinOp::Add => x + y,
            BinOp::Sub => x - y,
            BinOp::Mul => x * y,
            _ => x / y,
        };
        assert_eq!(
            fold_bin_lits(op, Lit::Float(x.to_bits()), Lit::Float(y.to_bits())),
            Some(Val::Float(expect.to_bits()))
        );
    }
}

#[test]
fn float_division_by_zero_folds_to_infinity() {
    assert_eq!(
        fold_bin_lits(BinOp::Div, Lit::Float(1.0f32.to_bits()), Lit::Float(0.0f32.to_bits())),
        Some(Val::Float(f32::INFINITY.to_bits()))
    );
}

#[test]
fn float_comparisons() {
    let one = Lit::Float(1.0f32.to_bits());
    let two = Lit::Float(2.0f32.to_bits());
    let nan = Lit::Float(f32::NAN.to_bits());
    let neg_zero = Lit::Float((-0.0f32).to_bits());
    let pos_zero = Lit::Float(0.0f32.to_bits());
    assert_eq!(fold_bin_lits(BinOp::Lt, one, two), Some(Val::Bool(true)));
    assert_eq!(fold_bin_lits(BinOp::Ge, two, one), Some(Val::Bool(true)));
    assert_eq!(fold_bin_lits(BinOp::Le, one, one), Some(Val::Bool(true)));
    assert_eq!(fold_bin_lits(BinOp::Gt, one, two), Some(Val::Bool(false)));
    // IEEE: NaN compares unequal to everything, and the two zeros are equal.
    assert_eq!(fold_bin_lits(BinOp::Eq, nan, nan), Some(Val::Bool(false)));
    assert_eq!(fold_bin_lits(BinOp::Ne, nan, one), Some(Val::Bool(true)));
    assert_eq!(fold_bin_lits(BinOp::Eq, neg_zero, pos_zero), Some(Val::Bool(true)));
}

#[test]
fn mismatched_or_unsupported_pairs_never_fold() {
    assert_eq!(fold_bin_lits(BinOp::Add, Lit::Int(1), Lit::Float(1.0f32.to_bits())), None);
    assert_eq!(fold_bin_lits(BinOp::Lt, Lit::Bool(true), Lit::Bool(false)), None);
    assert_eq!(fold_bin_lits(BinOp::Or, Lit::Int(1), Lit::Int(1)), None);
    assert_eq!(fold_bin_lits(BinOp::Assign, Lit::Int(1), Lit::Int(1)), None);
    assert_eq!(fold_bin_lits(BinOp::AddAssign, Lit::Int(1), Lit::Int(1)), None);
}

#[test]
fn unary_operators() {
    let ast = ast_of(vec![
        lit_int(0, 5),
        node(1, Ty::Int, ExprKind::Un { op: UnOp::Neg, expr: 0 }),
    ]);
    let mut ev = ConstEvaluator::new(&ast);
    assert_eq!(ev.try_const_eval_expr(1), Some(Val::Int(-5)));

    let ast = ast_of(vec![
        lit_bool(0, true),
        node(1, Ty::Bool, ExprKind::Un { op: UnOp::Not, expr: 0 }),
    ]);
    let mut ev = ConstEvaluator::new(&ast);
    assert_eq!(ev.try_const_eval_expr(1), Some(Val::Bool(false)));

    let ast = ast_of(vec![
        lit_float(0, 2.5),
        node(1, Ty::Float, ExprKind::Un { op: UnOp::Neg, expr: 0 }),
    ]);
    let mut ev = ConstEvaluator::new(&ast);
    assert_eq!(ev.try_const_eval_expr(1), Some(Val::Float((-2.5f32).to_bits())));

    let ast = ast_of(vec![
        lit_int(0, i64::MIN),
        node(1, Ty::Int, ExprKind::Un { op: UnOp::Neg, expr: 0 }),
    ]);
    let mut ev = ConstEvaluator::new(&ast);
    assert_eq!(ev.try_const_eval_expr(1), None);
}

#[test]
fn const_decls_fold_in_declaration_order() {
    // const a = 2; const b = a * 3; b + 1
    let a = Ident(1);
    let b = Ident(2);
    let ast = ShaderAst {
        exprs: vec![
            lit_int(0, 2),
            node(1, Ty::Int, ExprKind::Var { kind: Some(VarKind::Const), ident: a }),
            lit_int(2, 3),
            bin(3, Ty::Int, BinOp::Mul, 1, 2),
            node(4, Ty::Int, ExprKind::Var { kind: Some(VarKind::Const), ident: b }),
            lit_int(5, 1),
            bin(6, Ty::Int, BinOp::Add, 4, 5),
        ],
        const_decls: vec![
            ConstDecl { span: sp(0), ident: a, expr: 0 },
            ConstDecl { span: sp(3), ident: b, expr: 3 },
        ],
    };
    let mut ev = ConstEvaluator::new(&ast);
    assert_eq!(ev.const_eval_const_decls(), Ok(()));
    assert_eq!(ev.try_const_eval_expr(6), Some(Val::Int(7)));
}

#[test]
fn const_decl_with_nonconstant_initializer_errors() {
    let a = Ident(1);
    let ast = ShaderAst {
        exprs: vec![
            lit_int(0, 2),
            node(1, Ty::Float, ExprKind::Call { ident: Ident(9), arg_exprs: vec![0] }),
        ],
        const_decls: vec![ConstDecl { span: sp(7), ident: a, expr: 1 }],
    };
    let mut ev = ConstEvaluator::new(&ast);
    let err = ev.const_eval_const_decls().unwrap_err();
    assert_eq!(err.span, sp(1));
    assert_eq!(err.message, "expression is not const");
}

#[test]
fn find_const_decl_first_match_wins() {
    let name = Ident(30);
    let ast = ShaderAst {
        exprs: vec![lit_int(0, 1), lit_int(1, 2)],
        const_decls: vec![
            ConstDecl { span: sp(0), ident: name, expr: 0 },
            ConstDecl { span: sp(1), ident: name, expr: 1 },
        ],
    };
    assert_eq!(ast.find_const_decl(name), Some(0));
    assert_eq!(ast.find_const_decl(Ident(31)), None);
}
