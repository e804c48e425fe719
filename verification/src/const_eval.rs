use vstd::prelude::*;

use crate::ast::{BinOp, ExprKind, MacroCallAnalysis, ShaderAst, UnOp};
use crate::env::VarKind;
use crate::error::Error;
use crate::float32::{
    float_add, float_add_of, float_cmp, float_cmp_of, float_div, float_div_of, float_mul,
    float_mul_of, float_neg, float_neg_spec, float_sub, float_sub_of, FloatOrder,
};
use crate::ident::Ident;
use crate::lit::{Lit, TyLit};
use crate::math::Vec4;
use crate::span::Span;
use crate::ty::Ty;
use crate::val::Val;

verus! {

// ---------------------------------------------------------------------------
// Value-level folding tables
// ---------------------------------------------------------------------------

/// What a binary operator yields on two already-folded values. Only
/// type-matched pairs under a supported operator fold; integer arithmetic
/// folds only when the exact result is representable, and integer division
/// only when it is defined.
pub open spec fn fold_bin(op: BinOp, a: Val, b: Val) -> Option<Val> {
    match op {
        BinOp::Or => match (a, b) {
            (Val::Bool(x), Val::Bool(y)) => Some(Val::Bool(x || y)),
            _ => None,
        },
        BinOp::And => match (a, b) {
            (Val::Bool(x), Val::Bool(y)) => Some(Val::Bool(x && y)),
            _ => None,
        },
        BinOp::Eq => match (a, b) {
            (Val::Bool(x), Val::Bool(y)) => Some(Val::Bool(x == y)),
            (Val::Int(x), Val::Int(y)) => Some(Val::Bool(x == y)),
            (Val::Float(x), Val::Float(y)) => Some(
                Val::Bool(float_cmp_of(x, y) == FloatOrder::Equal),
            ),
            _ => None,
        },
        BinOp::Ne => match (a, b) {
            (Val::Bool(x), Val::Bool(y)) => Some(Val::Bool(x != y)),
            (Val::Int(x), Val::Int(y)) => Some(Val::Bool(x != y)),
            (Val::Float(x), Val::Float(y)) => Some(
                Val::Bool(float_cmp_of(x, y) != FloatOrder::Equal),
            ),
            _ => None,
        },
        BinOp::Lt => match (a, b) {
            (Val::Int(x), Val::Int(y)) => Some(Val::Bool(x < y)),
            (Val::Float(x), Val::Float(y)) => Some(
                Val::Bool(float_cmp_of(x, y) == FloatOrder::Less),
            ),
            _ => None,
        },
        BinOp::Le => match (a, b) {
            (Val::Int(x), Val::Int(y)) => Some(Val::Bool(x <= y)),
            (Val::Float(x), Val::Float(y)) => Some(
                Val::Bool(
                    float_cmp_of(x, y) == FloatOrder::Less || float_cmp_of(x, y)
                        == FloatOrder::Equal,
                ),
            ),
            _ => None,
        },
        BinOp::Gt => match (a, b) {
            (Val::Int(x), Val::Int(y)) => Some(Val::Bool(x > y)),
            (Val::Float(x), Val::Float(y)) => Some(
                Val::Bool(float_cmp_of(x, y) == FloatOrder::Greater),
            ),
            _ => None,
        },
        BinOp::Ge => match (a, b) {
            (Val::Int(x), Val::Int(y)) => Some(Val::Bool(x >= y)),
            (Val::Float(x), Val::Float(y)) => Some(
                Val::Bool(
                    float_cmp_of(x, y) == FloatOrder::Greater || float_cmp_of(x, y)
                        == FloatOrder::Equal,
                ),
            ),
            _ => None,
        },
        BinOp::Add => match (a, b) {
            (Val::Int(x), Val::Int(y)) => match x.checked_add(y) {
                Some(z) => Some(Val::Int(z)),
                None => None,
            },
            (Val::Float(x), Val::Float(y)) => Some(Val::Float(float_add_of(x, y))),
            _ => None,
        },
        BinOp::Sub => match (a, b) {
            (Val::Int(x), Val::Int(y)) => match x.checked_sub(y) {
                Some(z) => Some(Val::Int(z)),
                None => None,
            },
            (Val::Float(x), Val::Float(y)) => Some(Val::Float(float_sub_of(x, y))),
            _ => None,
        },
        BinOp::Mul => match (a, b) {
            (Val::Int(x), Val::Int(y)) => match x.checked_mul(y) {
                Some(z) => Some(Val::Int(z)),
                None => None,
            },
            (Val::Float(x), Val::Float(y)) => Some(Val::Float(float_mul_of(x, y))),
            _ => None,
        },
        BinOp::Div => match (a, b) {
            (Val::Int(x), Val::Int(y)) => match x.checked_div(y) {
                Some(z) => Some(Val::Int(z)),
                None => None,
            },
            (Val::Float(x), Val::Float(y)) => Some(Val::Float(float_div_of(x, y))),
            _ => None,
        },
        BinOp::Assign => None,
        BinOp::AddAssign => None,
        BinOp::SubAssign => None,
        BinOp::MulAssign => None,
        BinOp::DivAssign => None,
    }
}

/// What a unary operator yields on an already-folded value.
pub open spec fn fold_un(op: UnOp, v: Val) -> Option<Val> {
    match op {
        UnOp::Not => match v {
            Val::Bool(x) => Some(Val::Bool(!x)),
            _ => None,
        },
        UnOp::Neg => match v {
            Val::Int(x) => if x == i64::MIN {
                None
            } else {
                Some(Val::Int((-x) as i64))
            },
            Val::Float(x) => Some(Val::Float(float_neg_spec(x))),
            _ => None,
        },
    }
}

/// What a macro call folds to, given the analyzer's finding on it.
pub open spec fn fold_macro(analysis: Option<MacroCallAnalysis>) -> Option<Val> {
    match analysis {
        Some(MacroCallAnalysis::Pick { r, g, b, a }) => Some(
            Val::Vec4(Vec4 { x: r, y: g, z: b, w: a }),
        ),
        Some(MacroCallAnalysis::Slide { v }) => Some(Val::Float(v)),
        None => None,
    }
}

/// Lifts `fold_bin` over operands that may not have folded.
pub open spec fn bin_result(op: BinOp, l: Option<Val>, r: Option<Val>) -> Option<Val> {
    match (l, r) {
        (Some(a), Some(b)) => fold_bin(op, a, b),
        _ => None,
    }
}

/// Lifts `fold_un` over an operand that may not have folded.
pub open spec fn un_result(op: UnOp, v: Option<Val>) -> Option<Val> {
    match v {
        Some(a) => fold_un(op, a),
        _ => None,
    }
}

/// A conditional folds when its condition and both branches fold and the
/// condition is a boolean; the already-folded branch value is then selected.
pub open spec fn select_cond(c: Option<Val>, t: Option<Val>, f: Option<Val>) -> Option<Val> {
    match (c, t, f) {
        (Some(cv), Some(tv), Some(fv)) => match cv {
            Val::Bool(b) => Some(if b { tv } else { fv }),
            _ => None,
        },
        _ => None,
    }
}

// ---------------------------------------------------------------------------
// The meaning of constant folding over the tree
// ---------------------------------------------------------------------------

/// The constant value of the expression at arena index `i`, or `None` where
/// it is not a compile-time constant. Field and index accesses, ordinary
/// calls, method calls and constructor calls never fold; a `Const`-kind
/// variable folds to the value of the declaration it names.
pub open spec fn fold(ast: ShaderAst, i: int) -> Option<Val>
    decreases i, 1int,
        when 0 <= i < ast.exprs@.len() && ast.wf()
{
    {
        proof {
            assert(ast.wf_expr_at(i));
        }
        match ast.exprs@[i].kind {
            ExprKind::Cond { expr: c, expr_if_true: t, expr_if_false: f } => select_cond(
                fold(ast, c as int),
                fold(ast, t as int),
                fold(ast, f as int),
            ),
            ExprKind::Bin { op, left_expr, right_expr } => bin_result(
                op,
                fold(ast, left_expr as int),
                fold(ast, right_expr as int),
            ),
            ExprKind::Un { op, expr: a } => un_result(op, fold(ast, a as int)),
            ExprKind::MethodCall { .. } => None,
            ExprKind::Field { .. } => None,
            ExprKind::Index { .. } => None,
            ExprKind::Call { .. } => None,
            ExprKind::MacroCall { analysis, .. } => fold_macro(analysis),
            ExprKind::ConsCall { .. } => None,
            ExprKind::Var { kind, ident } => fold_var(ast, kind, ident, i),
            ExprKind::Lit { lit } => Some(lit.to_val_spec()),
        }
    }
}

/// The constant value of a variable reference standing at arena index `i`:
/// only a resolved `Const` reference to an earlier declaration folds, and it
/// folds to the value of that declaration's initializer.
pub open spec fn fold_var(ast: ShaderAst, kind: Option<VarKind>, ident: Ident, i: int) -> Option<
    Val,
>
    decreases i, 0int,
        when ast.wf()
{
    match kind {
        Some(VarKind::Const) => match ast.find_const_decl_spec(ident) {
            Some(d) => {
                let e = ast.const_decls@[d].expr as int;
                if 0 <= e < ast.exprs@.len() && e < i {
                    fold(ast, e)
                } else {
                    None
                }
            },
            None => None,
        },
        _ => None,
    }
}

// ---------------------------------------------------------------------------
// What evaluation relies on, and what it leaves behind
// ---------------------------------------------------------------------------

/// What a `Const`-kind variable reference at index `i` relies on: the named
/// declaration exists, its initializer stands earlier in the arena, and that
/// initializer has already been folded — to a value — in the slot table.
pub open spec fn var_ready(
    ast: ShaderAst,
    vals: Seq<Option<Option<Val>>>,
    ident: Ident,
    i: int,
) -> bool {
    match ast.find_const_decl_spec(ident) {
        Some(d) => {
            let e = ast.const_decls@[d].expr as int;
            &&& e < i
            &&& vals[e] is Some
            &&& fold(ast, e) is Some
        },
        None => false,
    }
}

/// What the evaluator relies on below index `i`: the analyzer has resolved
/// every variable's kind and every macro call, method receivers are structs,
/// a folding condition can only be a boolean, and every `Const` reference is
/// ready. This is the analyzer's postcondition, restated as far as constant
/// evaluation reads it.
pub open spec fn eval_pre(ast: ShaderAst, vals: Seq<Option<Option<Val>>>, i: int) -> bool
    decreases i,
        when 0 <= i < ast.exprs@.len() && ast.wf()
{
    {
        proof {
            assert(ast.wf_expr_at(i));
        }
        match ast.exprs@[i].kind {
            ExprKind::Cond { expr: c, expr_if_true: t, expr_if_false: f } => {
                &&& eval_pre(ast, vals, c as int)
                &&& eval_pre(ast, vals, t as int)
                &&& eval_pre(ast, vals, f as int)
                &&& (fold(ast, c as int) matches Some(v) ==> v is Bool)
            },
            ExprKind::Bin { left_expr, right_expr, .. } => {
                &&& eval_pre(ast, vals, left_expr as int)
                &&& eval_pre(ast, vals, right_expr as int)
            },
            ExprKind::Un { expr: a, .. } => eval_pre(ast, vals, a as int),
            ExprKind::MethodCall { arg_exprs, .. } => {
                &&& ast.exprs@[arg_exprs@[0] as int].ty matches Some(Ty::Struct { .. })
                &&& forall|j: int|
                    0 <= j < arg_exprs@.len() ==> eval_pre(ast, vals, arg_exprs@[j] as int)
            },
            ExprKind::Field { expr: a, .. } => eval_pre(ast, vals, a as int),
            ExprKind::Index { expr: a, .. } => eval_pre(ast, vals, a as int),
            ExprKind::Call { arg_exprs, .. } => {
                forall|j: int|
                    0 <= j < arg_exprs@.len() ==> eval_pre(ast, vals, arg_exprs@[j] as int)
            },
            ExprKind::MacroCall { analysis, .. } => analysis is Some,
            ExprKind::ConsCall { arg_exprs, .. } => {
                forall|j: int|
                    0 <= j < arg_exprs@.len() ==> eval_pre(ast, vals, arg_exprs@[j] as int)
            },
            ExprKind::Var { kind, ident } => {
                &&& kind is Some
                &&& (kind == Some(VarKind::Const) ==> var_ready(ast, vals, ident, i))
            },
            ExprKind::Lit { .. } => true,
        }
    }
}

/// What the analyzer guarantees of the tree itself, before any folding:
/// kinds and macro findings resolved, method receivers struct-typed, a
/// foldable condition a boolean, and every `Const` reference naming a
/// declaration whose initializer stands earlier in the arena — which rules
/// out cyclic and forward references outright.
pub open spec fn analyzed(ast: ShaderAst, i: int) -> bool
    decreases i,
        when 0 <= i < ast.exprs@.len() && ast.wf()
{
    {
        proof {
            assert(ast.wf_expr_at(i));
        }
        match ast.exprs@[i].kind {
            ExprKind::Cond { expr: c, expr_if_true: t, expr_if_false: f } => {
                &&& analyzed(ast, c as int)
                &&& analyzed(ast, t as int)
                &&& analyzed(ast, f as int)
                &&& (fold(ast, c as int) matches Some(v) ==> v is Bool)
            },
            ExprKind::Bin { left_expr, right_expr, .. } => {
                &&& analyzed(ast, left_expr as int)
                &&& analyzed(ast, right_expr as int)
            },
            ExprKind::Un { expr: a, .. } => analyzed(ast, a as int),
            ExprKind::MethodCall { arg_exprs, .. } => {
                &&& ast.exprs@[arg_exprs@[0] as int].ty matches Some(Ty::Struct { .. })
                &&& forall|j: int|
                    0 <= j < arg_exprs@.len() ==> analyzed(ast, arg_exprs@[j] as int)
            },
            ExprKind::Field { expr: a, .. } => analyzed(ast, a as int),
            ExprKind::Index { expr: a, .. } => analyzed(ast, a as int),
            ExprKind::Call { arg_exprs, .. } => {
                forall|j: int| 0 <= j < arg_exprs@.len() ==> analyzed(ast, arg_exprs@[j] as int)
            },
            ExprKind::MacroCall { analysis, .. } => analysis is Some,
            ExprKind::ConsCall { arg_exprs, .. } => {
                forall|j: int| 0 <= j < arg_exprs@.len() ==> analyzed(ast, arg_exprs@[j] as int)
            },
            ExprKind::Var { kind, ident } => {
                &&& kind is Some
                &&& (kind == Some(VarKind::Const) ==> match ast.find_const_decl_spec(ident) {
                    Some(d) => (ast.const_decls@[d].expr as int) < i,
                    None => false,
                })
            },
            ExprKind::Lit { .. } => true,
        }
    }
}

/// What evaluation of the expression at index `i` leaves behind: its own
/// slot holds the recorded outcome, its constant-index slot is cleared, and
/// the same holds of every sub-expression evaluation visits. An index
/// access's index expression and a macro call's arguments are not visited.
pub open spec fn annotated(
    ast: ShaderAst,
    vals: Seq<Option<Option<Val>>>,
    idx: Seq<Option<usize>>,
    i: int,
) -> bool
    decreases i, 1int,
        when 0 <= i < ast.exprs@.len() && ast.wf()
{
    &&& vals[i] == Some(fold(ast, i))
    &&& idx[i] is None
    &&& annotated_children(ast, vals, idx, i)
}

/// The sub-expression part of `annotated`, by expression kind.
pub open spec fn annotated_children(
    ast: ShaderAst,
    vals: Seq<Option<Option<Val>>>,
    idx: Seq<Option<usize>>,
    i: int,
) -> bool
    decreases i, 0int,
        when 0 <= i < ast.exprs@.len() && ast.wf()
{
    {
        proof {
            assert(ast.wf_expr_at(i));
        }
        match ast.exprs@[i].kind {
            ExprKind::Cond { expr: c, expr_if_true: t, expr_if_false: f } => {
                &&& annotated(ast, vals, idx, c as int)
                &&& annotated(ast, vals, idx, t as int)
                &&& annotated(ast, vals, idx, f as int)
            },
            ExprKind::Bin { left_expr, right_expr, .. } => {
                &&& annotated(ast, vals, idx, left_expr as int)
                &&& annotated(ast, vals, idx, right_expr as int)
            },
            ExprKind::Un { expr: a, .. } => annotated(ast, vals, idx, a as int),
            ExprKind::MethodCall { arg_exprs, .. } => {
                forall|j: int|
                    0 <= j < arg_exprs@.len() ==> annotated(ast, vals, idx, arg_exprs@[j] as int)
            },
            ExprKind::Field { expr: a, .. } => annotated(ast, vals, idx, a as int),
            ExprKind::Index { expr: a, .. } => annotated(ast, vals, idx, a as int),
            ExprKind::Call { arg_exprs, .. } => {
                forall|j: int|
                    0 <= j < arg_exprs@.len() ==> annotated(ast, vals, idx, arg_exprs@[j] as int)
            },
            ExprKind::MacroCall { .. } => true,
            ExprKind::ConsCall { arg_exprs, .. } => {
                forall|j: int|
                    0 <= j < arg_exprs@.len() ==> annotated(ast, vals, idx, arg_exprs@[j] as int)
            },
            ExprKind::Var { .. } => true,
            ExprKind::Lit { .. } => true,
        }
    }
}

/// Slot writes made by evaluation only ever record a value; a slot already
/// holding one keeps it, bit for bit.
pub open spec fn vals_extended(
    a: Seq<Option<Option<Val>>>,
    b: Seq<Option<Option<Val>>>,
) -> bool {
    &&& b.len() == a.len()
    &&& forall|j: int| 0 <= j < a.len() && a[j] is Some ==> b[j] == a[j]
}

/// Evaluation only ever clears constant-index slots, never sets one.
pub open spec fn index_only_cleared(a: Seq<Option<usize>>, b: Seq<Option<usize>>) -> bool {
    &&& b.len() == a.len()
    &&& forall|j: int| 0 <= j < a.len() ==> b[j] == a[j] || b[j] is None
}

// ---------------------------------------------------------------------------
// Preservation lemmas
// ---------------------------------------------------------------------------

/// `eval_pre` survives any slot writes that only add values: it reads slots
/// only to ask that a constant declaration's result is present.
pub proof fn lemma_eval_pre_preserved(
    ast: ShaderAst,
    vals1: Seq<Option<Option<Val>>>,
    vals2: Seq<Option<Option<Val>>>,
    i: int,
)
    requires
        ast.wf(),
        0 <= i < ast.exprs@.len(),
        eval_pre(ast, vals1, i),
        forall|j: int| 0 <= j < ast.exprs@.len() && vals1[j] is Some ==> vals2[j] is Some,
    ensures
        eval_pre(ast, vals2, i),
    decreases i,
{
    assert(ast.wf_expr_at(i));
    match ast.exprs@[i].kind {
        ExprKind::Cond { expr: c, expr_if_true: t, expr_if_false: f } => {
            lemma_eval_pre_preserved(ast, vals1, vals2, c as int);
            lemma_eval_pre_preserved(ast, vals1, vals2, t as int);
            lemma_eval_pre_preserved(ast, vals1, vals2, f as int);
        },
        ExprKind::Bin { left_expr, right_expr, .. } => {
            lemma_eval_pre_preserved(ast, vals1, vals2, left_expr as int);
            lemma_eval_pre_preserved(ast, vals1, vals2, right_expr as int);
        },
        ExprKind::Un { expr: a, .. } => {
            lemma_eval_pre_preserved(ast, vals1, vals2, a as int);
        },
        ExprKind::MethodCall { arg_exprs, .. } => {
            assert forall|j: int| 0 <= j < arg_exprs@.len() implies eval_pre(
                ast,
                vals2,
                arg_exprs@[j] as int,
            ) by {
                lemma_eval_pre_preserved(ast, vals1, vals2, arg_exprs@[j] as int);
            }
        },
        ExprKind::Field { expr: a, .. } => {
            lemma_eval_pre_preserved(ast, vals1, vals2, a as int);
        },
        ExprKind::Index { expr: a, .. } => {
            lemma_eval_pre_preserved(ast, vals1, vals2, a as int);
        },
        ExprKind::Call { arg_exprs, .. } => {
            assert forall|j: int| 0 <= j < arg_exprs@.len() implies eval_pre(
                ast,
                vals2,
                arg_exprs@[j] as int,
            ) by {
                lemma_eval_pre_preserved(ast, vals1, vals2, arg_exprs@[j] as int);
            }
        },
        ExprKind::MacroCall { .. } => {},
        ExprKind::ConsCall { arg_exprs, .. } => {
            assert forall|j: int| 0 <= j < arg_exprs@.len() implies eval_pre(
                ast,
                vals2,
                arg_exprs@[j] as int,
            ) by {
                lemma_eval_pre_preserved(ast, vals1, vals2, arg_exprs@[j] as int);
            }
        },
        ExprKind::Var { kind, ident } => {
            if kind == Some(VarKind::Const) {
                match ast.find_const_decl_spec(ident) {
                    Some(d) => {
                        lemma_find_const_decl_in_range(ast, ident);
                        assert((ast.const_decls@[d].expr as int) < ast.exprs@.len());
                    },
                    None => {},
                }
            }
        },
        ExprKind::Lit { .. } => {},
    }
}

/// Once every constant declaration whose initializer stands below `i` has
/// been folded — to a value — an analyzed expression at `i` is ready to
/// evaluate.
pub proof fn lemma_analyzed_eval_pre(ast: ShaderAst, vals: Seq<Option<Option<Val>>>, i: int)
    requires
        ast.wf(),
        0 <= i < ast.exprs@.len(),
        analyzed(ast, i),
        forall|p: int|
            0 <= p < ast.const_decls@.len() && (#[trigger] ast.const_decls@[p].expr as int) < i
                ==> vals[ast.const_decls@[p].expr as int] is Some && fold(
                ast,
                ast.const_decls@[p].expr as int,
            ) is Some,
    ensures
        eval_pre(ast, vals, i),
    decreases i,
{
    assert(ast.wf_expr_at(i));
    match ast.exprs@[i].kind {
        ExprKind::Cond { expr: c, expr_if_true: t, expr_if_false: f } => {
            lemma_analyzed_eval_pre(ast, vals, c as int);
            lemma_analyzed_eval_pre(ast, vals, t as int);
            lemma_analyzed_eval_pre(ast, vals, f as int);
        },
        ExprKind::Bin { left_expr, right_expr, .. } => {
            lemma_analyzed_eval_pre(ast, vals, left_expr as int);
            lemma_analyzed_eval_pre(ast, vals, right_expr as int);
        },
        ExprKind::Un { expr: a, .. } => {
            lemma_analyzed_eval_pre(ast, vals, a as int);
        },
        ExprKind::MethodCall { arg_exprs, .. } => {
            assert forall|j: int| 0 <= j < arg_exprs@.len() implies eval_pre(
                ast,
                vals,
                arg_exprs@[j] as int,
            ) by {
                lemma_analyzed_eval_pre(ast, vals, arg_exprs@[j] as int);
            }
        },
        ExprKind::Field { expr: a, .. } => {
            lemma_analyzed_eval_pre(ast, vals, a as int);
        },
        ExprKind::Index { expr: a, .. } => {
            lemma_analyzed_eval_pre(ast, vals, a as int);
        },
        ExprKind::Call { arg_exprs, .. } => {
            assert forall|j: int| 0 <= j < arg_exprs@.len() implies eval_pre(
                ast,
                vals,
                arg_exprs@[j] as int,
            ) by {
                lemma_analyzed_eval_pre(ast, vals, arg_exprs@[j] as int);
            }
        },
        ExprKind::MacroCall { .. } => {},
        ExprKind::ConsCall { arg_exprs, .. } => {
            assert forall|j: int| 0 <= j < arg_exprs@.len() implies eval_pre(
                ast,
                vals,
                arg_exprs@[j] as int,
            ) by {
                lemma_analyzed_eval_pre(ast, vals, arg_exprs@[j] as int);
            }
        },
        ExprKind::Var { kind, ident } => {
            if kind == Some(VarKind::Const) {
                lemma_find_const_decl_in_range(ast, ident);
                match ast.find_const_decl_spec(ident) {
                    Some(d) => {
                        assert(vals[ast.const_decls@[d].expr as int] is Some);
                        assert(var_ready(ast, vals, ident, i));
                    },
                    None => {},
                }
            }
        },
        ExprKind::Lit { .. } => {},
    }
}

/// A found declaration index lies inside the declaration list.
pub proof fn lemma_find_const_decl_in_range(ast: ShaderAst, ident: Ident)
    ensures
        ast.find_const_decl_spec(ident) matches Some(d) ==> 0 <= d
            < ast.const_decls@.len(),
{
    lemma_find_const_decl_from_in_range(ast, ident, 0);
}

proof fn lemma_find_const_decl_from_in_range(ast: ShaderAst, ident: Ident, k: int)
    ensures
        ast.find_const_decl_from(ident, k) matches Some(d) ==> k <= d
            < ast.const_decls@.len(),
    decreases ast.const_decls@.len() - k,
{
    if 0 <= k < ast.const_decls@.len() {
        lemma_find_const_decl_from_in_range(ast, ident, k + 1);
    }
}

/// `annotated` survives slot writes that keep every recorded value and every
/// cleared constant-index slot.
pub proof fn lemma_annotated_preserved(
    ast: ShaderAst,
    vals1: Seq<Option<Option<Val>>>,
    idx1: Seq<Option<usize>>,
    vals2: Seq<Option<Option<Val>>>,
    idx2: Seq<Option<usize>>,
    i: int,
)
    requires
        ast.wf(),
        0 <= i < ast.exprs@.len(),
        annotated(ast, vals1, idx1, i),
        forall|j: int| 0 <= j < ast.exprs@.len() && vals1[j] is Some ==> vals2[j] == vals1[j],
        forall|j: int| 0 <= j < ast.exprs@.len() && idx1[j] is None ==> idx2[j] is None,
    ensures
        annotated(ast, vals2, idx2, i),
    decreases i, 1int,
{
    lemma_annotated_children_preserved(ast, vals1, idx1, vals2, idx2, i);
}

/// The sub-expression half of `lemma_annotated_preserved`.
pub proof fn lemma_annotated_children_preserved(
    ast: ShaderAst,
    vals1: Seq<Option<Option<Val>>>,
    idx1: Seq<Option<usize>>,
    vals2: Seq<Option<Option<Val>>>,
    idx2: Seq<Option<usize>>,
    i: int,
)
    requires
        ast.wf(),
        0 <= i < ast.exprs@.len(),
        annotated_children(ast, vals1, idx1, i),
        forall|j: int| 0 <= j < ast.exprs@.len() && vals1[j] is Some ==> vals2[j] == vals1[j],
        forall|j: int| 0 <= j < ast.exprs@.len() && idx1[j] is None ==> idx2[j] is None,
    ensures
        annotated_children(ast, vals2, idx2, i),
    decreases i, 0int,
{
    assert(ast.wf_expr_at(i));
    match ast.exprs@[i].kind {
        ExprKind::Cond { expr: c, expr_if_true: t, expr_if_false: f } => {
            lemma_annotated_preserved(ast, vals1, idx1, vals2, idx2, c as int);
            lemma_annotated_preserved(ast, vals1, idx1, vals2, idx2, t as int);
            lemma_annotated_preserved(ast, vals1, idx1, vals2, idx2, f as int);
        },
        ExprKind::Bin { left_expr, right_expr, .. } => {
            lemma_annotated_preserved(ast, vals1, idx1, vals2, idx2, left_expr as int);
            lemma_annotated_preserved(ast, vals1, idx1, vals2, idx2, right_expr as int);
        },
        ExprKind::Un { expr: a, .. } => {
            lemma_annotated_preserved(ast, vals1, idx1, vals2, idx2, a as int);
        },
        ExprKind::MethodCall { arg_exprs, .. } => {
            assert forall|j: int| 0 <= j < arg_exprs@.len() implies annotated(
                ast,
                vals2,
                idx2,
                arg_exprs@[j] as int,
            ) by {
                lemma_annotated_preserved(ast, vals1, idx1, vals2, idx2, arg_exprs@[j] as int);
            }
        },
        ExprKind::Field { expr: a, .. } => {
            lemma_annotated_preserved(ast, vals1, idx1, vals2, idx2, a as int);
        },
        ExprKind::Index { expr: a, .. } => {
            lemma_annotated_preserved(ast, vals1, idx1, vals2, idx2, a as int);
        },
        ExprKind::Call { arg_exprs, .. } => {
            assert forall|j: int| 0 <= j < arg_exprs@.len() implies annotated(
                ast,
                vals2,
                idx2,
                arg_exprs@[j] as int,
            ) by {
                lemma_annotated_preserved(ast, vals1, idx1, vals2, idx2, arg_exprs@[j] as int);
            }
        },
        ExprKind::MacroCall { .. } => {},
        ExprKind::ConsCall { arg_exprs, .. } => {
            assert forall|j: int| 0 <= j < arg_exprs@.len() implies annotated(
                ast,
                vals2,
                idx2,
                arg_exprs@[j] as int,
            ) by {
                lemma_annotated_preserved(ast, vals1, idx1, vals2, idx2, arg_exprs@[j] as int);
            }
        },
        ExprKind::Var { .. } => {},
        ExprKind::Lit { .. } => {},
    }
}

// ---------------------------------------------------------------------------
// The evaluator
// ---------------------------------------------------------------------------

/// The constant-evaluation pass over one shader: a read-only view of the
/// tree, and the two slot tables it owns, indexed in parallel with the
/// expression arena — the recorded fold outcome of every visited expression,
/// and the constant-table index the generator may later assign.
#[derive(Clone, Debug)]
pub struct ConstEvaluator<'a> {
    pub shader: &'a ShaderAst,
    pub const_vals: Vec<Option<Option<Val>>>,
    pub const_index: Vec<Option<usize>>,
}

impl<'a> ConstEvaluator<'a> {
    /// The tables run in parallel with the arena and every recorded outcome
    /// is the true fold of its expression.
    pub open spec fn wf(&self) -> bool {
        &&& self.shader.wf()
        &&& self.const_vals@.len() == self.shader.exprs@.len()
        &&& self.const_index@.len() == self.shader.exprs@.len()
        &&& forall|j: int|
            0 <= j < self.const_vals@.len() ==> (#[trigger] self.const_vals@[j] matches Some(v)
                ==> v == fold(*self.shader, j))
    }

    /// A fresh pass over `shader`: nothing recorded yet.
    pub fn new(shader: &'a ShaderAst) -> (r: ConstEvaluator<'a>)
        requires
            shader.wf(),
        ensures
            r.wf(),
            r.shader == shader,
            forall|j: int| 0 <= j < r.const_vals@.len() ==> r.const_vals@[j] is None,
            forall|j: int| 0 <= j < r.const_index@.len() ==> r.const_index@[j] is None,
    {
        let n = shader.exprs.len();
        let mut const_vals: Vec<Option<Option<Val>>> = Vec::new();
        let mut const_index: Vec<Option<usize>> = Vec::new();
        while const_vals.len() < n
            invariant
                const_vals@.len() == const_index@.len(),
                const_vals@.len() <= n,
                forall|j: int| 0 <= j < const_vals@.len() ==> const_vals@[j] is None,
                forall|j: int| 0 <= j < const_index@.len() ==> const_index@[j] is None,
            decreases n - const_vals.len(),
        {
            const_vals.push(None);
            const_index.push(None);
        }
        ConstEvaluator { shader, const_vals, const_index }
    }

    /// Requires the expression to be constant: the fold outcome as a value,
    /// or the span-tagged "not const" diagnostic where there is none.
    pub fn const_eval_expr(&mut self, expr: usize) -> (r: Result<Val, Error>)
        requires
            old(self).wf(),
            expr < old(self).shader.exprs@.len(),
            eval_pre(*old(self).shader, old(self).const_vals@, expr as int),
        ensures
            final(self).wf(),
            final(self).shader == old(self).shader,
            annotated(
                *old(self).shader,
                final(self).const_vals@,
                final(self).const_index@,
                expr as int,
            ),
            vals_extended(old(self).const_vals@, final(self).const_vals@),
            index_only_cleared(old(self).const_index@, final(self).const_index@),
            match r {
                Ok(v) => fold(*old(self).shader, expr as int) == Some(v),
                Err(e) => {
                    &&& fold(*old(self).shader, expr as int) is None
                    &&& e.span == old(self).shader.exprs@[expr as int].span
                    &&& e.message@ == "expression is not const"@
                },
            },
    {
        let span = self.shader.exprs[expr].span;
        match self.try_const_eval_expr(expr) {
            Some(v) => Ok(v),
            None => Err(
                Error { span, message: String::from_str("expression is not const") },
            ),
        }
    }

    /// Folds every constant declaration's initializer, in declaration
    /// order, requiring each to be constant. This is the explicit check
    /// that constant declarations are acyclic and already in dependency
    /// order; after it succeeds, every `Const` reference finds its
    /// declaration's value recorded, so any expression of the shader may be
    /// folded.
    pub fn const_eval_const_decls(&mut self) -> (r: Result<(), Error>)
        requires
            old(self).wf(),
            forall|p: int|
                0 <= p < old(self).shader.const_decls@.len() ==> analyzed(
                    *old(self).shader,
                    #[trigger] old(self).shader.const_decls@[p].expr as int,
                ),
        ensures
            final(self).wf(),
            final(self).shader == old(self).shader,
            vals_extended(old(self).const_vals@, final(self).const_vals@),
            index_only_cleared(old(self).const_index@, final(self).const_index@),
            r is Ok ==> forall|p: int|
                0 <= p < old(self).shader.const_decls@.len() ==> final(self).const_vals@[#[trigger] old(
                    self,
                ).shader.const_decls@[p].expr as int] is Some && fold(
                    *old(self).shader,
                    old(self).shader.const_decls@[p].expr as int,
                ) is Some,
            r matches Err(e) ==> exists|p: int|
                0 <= p < old(self).shader.const_decls@.len() && fold(
                    *old(self).shader,
                    #[trigger] old(self).shader.const_decls@[p].expr as int,
                ) is None && e.span == old(self).shader.exprs@[old(
                    self,
                ).shader.const_decls@[p].expr as int].span && e.message@
                == "expression is not const"@,
    {
        let ghost ast = *self.shader;
        let n = self.shader.const_decls.len();
        let mut k: usize = 0;
        while k < n
            invariant
                self.wf(),
                self.shader == old(self).shader,
                ast == *old(self).shader,
                k <= n,
                n == ast.const_decls@.len(),
                forall|p: int|
                    0 <= p < n ==> analyzed(ast, #[trigger] ast.const_decls@[p].expr as int),
                forall|p: int|
                    0 <= p < k ==> self.const_vals@[#[trigger] ast.const_decls@[p].expr as int]
                        is Some && fold(ast, ast.const_decls@[p].expr as int) is Some,
                vals_extended(old(self).const_vals@, self.const_vals@),
                index_only_cleared(old(self).const_index@, self.const_index@),
            decreases n - k,
        {
            let e = self.shader.const_decls[k].expr;
            proof {
                assert forall|p: int|
                    0 <= p < ast.const_decls@.len() && (#[trigger] ast.const_decls@[p].expr
                        as int) < e as int implies self.const_vals@[ast.const_decls@[p].expr
                    as int] is Some && fold(ast, ast.const_decls@[p].expr as int) is Some by {
                    assert(p < k);
                }
                lemma_analyzed_eval_pre(ast, self.const_vals@, e as int);
            }
            match self.const_eval_expr(e) {
                Ok(_) => {},
                Err(err) => {
                    proof {
                        assert(fold(ast, ast.const_decls@[k as int].expr as int) is None);
                    }
                    return Err(err);
                },
            }
            k = k + 1;
        }
        Ok(())
    }

    /// Best-effort folding: the expression's constant value where it has
    /// one. Every visited sub-expression ends annotated, whichever way the
    /// fold went, and the outcome depends on the shader alone — never on
    /// what earlier passes over other expressions recorded.
    pub fn try_const_eval_expr(&mut self, expr: usize) -> (r: Option<Val>)
        requires
            old(self).wf(),
            expr < old(self).shader.exprs@.len(),
            eval_pre(*old(self).shader, old(self).const_vals@, expr as int),
        ensures
            final(self).wf(),
            final(self).shader == old(self).shader,
            r == fold(*old(self).shader, expr as int),
            annotated(
                *old(self).shader,
                final(self).const_vals@,
                final(self).const_index@,
                expr as int,
            ),
            vals_extended(old(self).const_vals@, final(self).const_vals@),
            index_only_cleared(old(self).const_index@, final(self).const_index@),
        decreases expr as int, 3int,
    {
        let ghost ast = *self.shader;
        let ghost i = expr as int;
        proof {
            assert(ast.wf_expr_at(i));
        }
        let shader = self.shader;
        let span = shader.exprs[expr].span;
        let const_val: Option<Val> = match &shader.exprs[expr].kind {
            ExprKind::Cond { expr: c, expr_if_true, expr_if_false } => self
                .try_const_eval_cond_expr(Ghost(i), span, *c, *expr_if_true, *expr_if_false),
            ExprKind::Bin { op, left_expr, right_expr } => self.try_const_eval_bin_expr(
                Ghost(i),
                span,
                *op,
                *left_expr,
                *right_expr,
            ),
            ExprKind::Un { op, expr: a } => self.try_const_eval_un_expr(Ghost(i), span, *op, *a),
            ExprKind::MethodCall { ident, arg_exprs } => self.try_const_eval_method_call_expr(
                Ghost(i),
                span,
                *ident,
                arg_exprs,
            ),
            ExprKind::Field { expr: a, field_ident } => self.try_const_eval_field_expr(
                Ghost(i),
                span,
                *a,
                *field_ident,
            ),
            ExprKind::Index { expr: a, index_expr } => self.try_const_eval_index_expr(
                Ghost(i),
                span,
                *a,
                *index_expr,
            ),
            ExprKind::Call { ident, arg_exprs } => self.try_const_eval_call_expr(
                Ghost(i),
                span,
                *ident,
                arg_exprs,
            ),
            ExprKind::MacroCall { analysis, ident, arg_exprs } => self
                .try_const_eval_macro_call_expr(span, *analysis, *ident, arg_exprs),
            ExprKind::ConsCall { ty_lit, arg_exprs } => self.try_const_eval_cons_call_expr(
                Ghost(i),
                span,
                *ty_lit,
                arg_exprs,
            ),
            ExprKind::Var { kind, ident } => self.try_const_eval_var_expr(
                Ghost(i),
                span,
                *kind,
                *ident,
            ),
            ExprKind::Lit { lit } => self.try_const_eval_lit_expr(span, *lit),
        };
        proof {
            assert(const_val == fold(ast, i));
            assert(annotated_children(ast, self.const_vals@, self.const_index@, i));
        }
        let ghost vals1 = self.const_vals@;
        let ghost idx1 = self.const_index@;
        self.const_vals.set(expr, Some(const_val));
        self.const_index.set(expr, None);
        proof {
            lemma_annotated_children_preserved(
                ast,
                vals1,
                idx1,
                self.const_vals@,
                self.const_index@,
                i,
            );
        }
        const_val
    }

    /// Folds the condition and, always, both branches; selects by the
    /// condition's boolean.
    fn try_const_eval_cond_expr(
        &mut self,
        at: Ghost<int>,
        _span: Span,
        expr: usize,
        expr_if_true: usize,
        expr_if_false: usize,
    ) -> (r: Option<Val>)
        requires
            old(self).wf(),
            at@ <= old(self).shader.exprs@.len(),
            (expr as int) < at@,
            (expr_if_true as int) < at@,
            (expr_if_false as int) < at@,
            eval_pre(*old(self).shader, old(self).const_vals@, expr as int),
            eval_pre(*old(self).shader, old(self).const_vals@, expr_if_true as int),
            eval_pre(*old(self).shader, old(self).const_vals@, expr_if_false as int),
            fold(*old(self).shader, expr as int) matches Some(v) ==> v is Bool,
        ensures
            final(self).wf(),
            final(self).shader == old(self).shader,
            r == select_cond(
                fold(*old(self).shader, expr as int),
                fold(*old(self).shader, expr_if_true as int),
                fold(*old(self).shader, expr_if_false as int),
            ),
            annotated(
                *old(self).shader,
                final(self).const_vals@,
                final(self).const_index@,
                expr as int,
            ),
            annotated(
                *old(self).shader,
                final(self).const_vals@,
                final(self).const_index@,
                expr_if_true as int,
            ),
            annotated(
                *old(self).shader,
                final(self).const_vals@,
                final(self).const_index@,
                expr_if_false as int,
            ),
            vals_extended(old(self).const_vals@, final(self).const_vals@),
            index_only_cleared(old(self).const_index@, final(self).const_index@),
        decreases at@, 1int,
    {
        let ghost ast = *self.shader;
        let val = self.try_const_eval_expr(expr);
        proof {
            lemma_eval_pre_preserved(
                ast,
                old(self).const_vals@,
                self.const_vals@,
                expr_if_true as int,
            );
            lemma_eval_pre_preserved(
                ast,
                old(self).const_vals@,
                self.const_vals@,
                expr_if_false as int,
            );
        }
        let ghost vals1 = self.const_vals@;
        let ghost idx1 = self.const_index@;
        let val_if_true = self.try_const_eval_expr(expr_if_true);
        proof {
            lemma_annotated_preserved(
                ast,
                vals1,
                idx1,
                self.const_vals@,
                self.const_index@,
                expr as int,
            );
            lemma_eval_pre_preserved(ast, vals1, self.const_vals@, expr_if_false as int);
        }
        let ghost vals2 = self.const_vals@;
        let ghost idx2 = self.const_index@;
        let val_if_false = self.try_const_eval_expr(expr_if_false);
        proof {
            lemma_annotated_preserved(
                ast,
                vals2,
                idx2,
                self.const_vals@,
                self.const_index@,
                expr as int,
            );
            lemma_annotated_preserved(
                ast,
                vals2,
                idx2,
                self.const_vals@,
                self.const_index@,
                expr_if_true as int,
            );
        }
        match (val, val_if_true, val_if_false) {
            (Some(v), Some(val_if_true), Some(val_if_false)) => match v.to_bool() {
                Some(b) => Some(if b { val_if_true } else { val_if_false }),
                None => unreached(),
            },
            _ => None,
        }
    }

    /// Folds both operands unconditionally, then applies the operator table.
    fn try_const_eval_bin_expr(
        &mut self,
        at: Ghost<int>,
        _span: Span,
        op: BinOp,
        left_expr: usize,
        right_expr: usize,
    ) -> (r: Option<Val>)
        requires
            old(self).wf(),
            at@ <= old(self).shader.exprs@.len(),
            (left_expr as int) < at@,
            (right_expr as int) < at@,
            eval_pre(*old(self).shader, old(self).const_vals@, left_expr as int),
            eval_pre(*old(self).shader, old(self).const_vals@, right_expr as int),
        ensures
            final(self).wf(),
            final(self).shader == old(self).shader,
            r == bin_result(
                op,
                fold(*old(self).shader, left_expr as int),
                fold(*old(self).shader, right_expr as int),
            ),
            annotated(
                *old(self).shader,
                final(self).const_vals@,
                final(self).const_index@,
                left_expr as int,
            ),
            annotated(
                *old(self).shader,
                final(self).const_vals@,
                final(self).const_index@,
                right_expr as int,
            ),
            vals_extended(old(self).const_vals@, final(self).const_vals@),
            index_only_cleared(old(self).const_index@, final(self).const_index@),
        decreases at@, 1int,
    {
        let ghost ast = *self.shader;
        let left_val = self.try_const_eval_expr(left_expr);
        proof {
            lemma_eval_pre_preserved(
                ast,
                old(self).const_vals@,
                self.const_vals@,
                right_expr as int,
            );
        }
        let ghost vals1 = self.const_vals@;
        let ghost idx1 = self.const_index@;
        let right_val = self.try_const_eval_expr(right_expr);
        proof {
            lemma_annotated_preserved(
                ast,
                vals1,
                idx1,
                self.const_vals@,
                self.const_index@,
                left_expr as int,
            );
        }
        let (a, b) = match (left_val, right_val) {
            (Some(a), Some(b)) => (a, b),
            _ => {
                return None;
            },
        };
        match op {
            BinOp::Or => match (a, b) {
                (Val::Bool(x), Val::Bool(y)) => Some(Val::Bool(x || y)),
                _ => None,
            },
            BinOp::And => match (a, b) {
                (Val::Bool(x), Val::Bool(y)) => Some(Val::Bool(x && y)),
                _ => None,
            },
            BinOp::Eq => match (a, b) {
                (Val::Bool(x), Val::Bool(y)) => Some(Val::Bool(x == y)),
                (Val::Int(x), Val::Int(y)) => Some(Val::Bool(x == y)),
                (Val::Float(x), Val::Float(y)) => Some(
                    Val::Bool(float_cmp(x, y) == FloatOrder::Equal),
                ),
                _ => None,
            },
            BinOp::Ne => match (a, b) {
                (Val::Bool(x), Val::Bool(y)) => Some(Val::Bool(x != y)),
                (Val::Int(x), Val::Int(y)) => Some(Val::Bool(x != y)),
                (Val::Float(x), Val::Float(y)) => Some(
                    Val::Bool(float_cmp(x, y) != FloatOrder::Equal),
                ),
                _ => None,
            },
            BinOp::Lt => match (a, b) {
                (Val::Int(x), Val::Int(y)) => Some(Val::Bool(x < y)),
                (Val::Float(x), Val::Float(y)) => Some(
                    Val::Bool(float_cmp(x, y) == FloatOrder::Less),
                ),
                _ => None,
            },
            BinOp::Le => match (a, b) {
                (Val::Int(x), Val::Int(y)) => Some(Val::Bool(x <= y)),
                (Val::Float(x), Val::Float(y)) => {
                    let c = float_cmp(x, y);
                    Some(Val::Bool(c == FloatOrder::Less || c == FloatOrder::Equal))
                },
                _ => None,
            },
            BinOp::Gt => match (a, b) {
                (Val::Int(x), Val::Int(y)) => Some(Val::Bool(x > y)),
                (Val::Float(x), Val::Float(y)) => Some(
                    Val::Bool(float_cmp(x, y) == FloatOrder::Greater),
                ),
                _ => None,
            },
            BinOp::Ge => match (a, b) {
                (Val::Int(x), Val::Int(y)) => Some(Val::Bool(x >= y)),
                (Val::Float(x), Val::Float(y)) => {
                    let c = float_cmp(x, y);
                    Some(Val::Bool(c == FloatOrder::Greater || c == FloatOrder::Equal))
                },
                _ => None,
            },
            BinOp::Add => match (a, b) {
                (Val::Int(x), Val::Int(y)) => match x.checked_add(y) {
                    Some(z) => Some(Val::Int(z)),
                    None => None,
                },
                (Val::Float(x), Val::Float(y)) => Some(Val::Float(float_add(x, y))),
                _ => None,
            },
            BinOp::Sub => match (a, b) {
                (Val::Int(x), Val::Int(y)) => match x.checked_sub(y) {
                    Some(z) => Some(Val::Int(z)),
                    None => None,
                },
                (Val::Float(x), Val::Float(y)) => Some(Val::Float(float_sub(x, y))),
                _ => None,
            },
            BinOp::Mul => match (a, b) {
                (Val::Int(x), Val::Int(y)) => match x.checked_mul(y) {
                    Some(z) => Some(Val::Int(z)),
                    None => None,
                },
                (Val::Float(x), Val::Float(y)) => Some(Val::Float(float_mul(x, y))),
                _ => None,
            },
            BinOp::Div => match (a, b) {
                (Val::Int(x), Val::Int(y)) => match x.checked_div(y) {
                    Some(z) => Some(Val::Int(z)),
                    None => None,
                },
                (Val::Float(x), Val::Float(y)) => Some(Val::Float(float_div(x, y))),
                _ => None,
            },
            BinOp::Assign => None,
            BinOp::AddAssign => None,
            BinOp::SubAssign => None,
            BinOp::MulAssign => None,
            BinOp::DivAssign => None,
        }
    }

    /// Folds the operand, then applies the unary operator.
    fn try_const_eval_un_expr(&mut self, at: Ghost<int>, _span: Span, op: UnOp, expr: usize) -> (r:
        Option<Val>)
        requires
            old(self).wf(),
            at@ <= old(self).shader.exprs@.len(),
            (expr as int) < at@,
            eval_pre(*old(self).shader, old(self).const_vals@, expr as int),
        ensures
            final(self).wf(),
            final(self).shader == old(self).shader,
            r == un_result(op, fold(*old(self).shader, expr as int)),
            annotated(
                *old(self).shader,
                final(self).const_vals@,
                final(self).const_index@,
                expr as int,
            ),
            vals_extended(old(self).const_vals@, final(self).const_vals@),
            index_only_cleared(old(self).const_index@, final(self).const_index@),
        decreases at@, 1int,
    {
        let val = self.try_const_eval_expr(expr);
        let v = match val {
            Some(v) => v,
            None => {
                return None;
            },
        };
        match op {
            UnOp::Not => match v {
                Val::Bool(x) => Some(Val::Bool(!x)),
                _ => None,
            },
            UnOp::Neg => match v {
                Val::Int(x) => if x == i64::MIN {
                    None
                } else {
                    Some(Val::Int(-x))
                },
                Val::Float(x) => Some(Val::Float(float_neg(x))),
                _ => None,
            },
        }
    }

    /// A method call is a plain call on the receiver's struct; the receiver
    /// stands first among the arguments, and like every call it never folds.
    fn try_const_eval_method_call_expr(
        &mut self,
        at: Ghost<int>,
        span: Span,
        ident: Ident,
        arg_exprs: &Vec<usize>,
    ) -> (r: Option<Val>)
        requires
            old(self).wf(),
            at@ <= old(self).shader.exprs@.len(),
            arg_exprs@.len() > 0,
            old(self).shader.exprs@[arg_exprs@[0] as int].ty matches Some(Ty::Struct { .. }),
            forall|j: int| 0 <= j < arg_exprs@.len() ==> (arg_exprs@[j] as int) < at@,
            forall|j: int|
                0 <= j < arg_exprs@.len() ==> eval_pre(
                    *old(self).shader,
                    old(self).const_vals@,
                    arg_exprs@[j] as int,
                ),
        ensures
            final(self).wf(),
            final(self).shader == old(self).shader,
            r is None,
            forall|j: int|
                0 <= j < arg_exprs@.len() ==> annotated(
                    *old(self).shader,
                    final(self).const_vals@,
                    final(self).const_index@,
                    arg_exprs@[j] as int,
                ),
            vals_extended(old(self).const_vals@, final(self).const_vals@),
            index_only_cleared(old(self).const_index@, final(self).const_index@),
        decreases at@, 2int,
    {
        self.try_const_eval_call_expr(at, span, ident, arg_exprs)
    }

    /// Folds the base expression for annotation; a field access itself is
    /// never constant.
    fn try_const_eval_field_expr(
        &mut self,
        at: Ghost<int>,
        _span: Span,
        expr: usize,
        _field_ident: Ident,
    ) -> (r: Option<Val>)
        requires
            old(self).wf(),
            at@ <= old(self).shader.exprs@.len(),
            (expr as int) < at@,
            eval_pre(*old(self).shader, old(self).const_vals@, expr as int),
        ensures
            final(self).wf(),
            final(self).shader == old(self).shader,
            r is None,
            annotated(
                *old(self).shader,
                final(self).const_vals@,
                final(self).const_index@,
                expr as int,
            ),
            vals_extended(old(self).const_vals@, final(self).const_vals@),
            index_only_cleared(old(self).const_index@, final(self).const_index@),
        decreases at@, 1int,
    {
        self.try_const_eval_expr(expr);
        None
    }

    /// Folds the base expression for annotation; an index access itself is
    /// never constant, and the index expression is left untouched.
    fn try_const_eval_index_expr(
        &mut self,
        at: Ghost<int>,
        _span: Span,
        expr: usize,
        _index_expr: usize,
    ) -> (r: Option<Val>)
        requires
            old(self).wf(),
            at@ <= old(self).shader.exprs@.len(),
            (expr as int) < at@,
            eval_pre(*old(self).shader, old(self).const_vals@, expr as int),
        ensures
            final(self).wf(),
            final(self).shader == old(self).shader,
            r is None,
            annotated(
                *old(self).shader,
                final(self).const_vals@,
                final(self).const_index@,
                expr as int,
            ),
            vals_extended(old(self).const_vals@, final(self).const_vals@),
            index_only_cleared(old(self).const_index@, final(self).const_index@),
        decreases at@, 1int,
    {
        self.try_const_eval_expr(expr);
        None
    }

    /// Folds every argument for annotation; a call never folds, whatever its
    /// arguments are.
    fn try_const_eval_call_expr(
        &mut self,
        at: Ghost<int>,
        _span: Span,
        _ident: Ident,
        arg_exprs: &Vec<usize>,
    ) -> (r: Option<Val>)
        requires
            old(self).wf(),
            at@ <= old(self).shader.exprs@.len(),
            forall|j: int| 0 <= j < arg_exprs@.len() ==> (arg_exprs@[j] as int) < at@,
            forall|j: int|
                0 <= j < arg_exprs@.len() ==> eval_pre(
                    *old(self).shader,
                    old(self).const_vals@,
                    arg_exprs@[j] as int,
                ),
        ensures
            final(self).wf(),
            final(self).shader == old(self).shader,
            r is None,
            forall|j: int|
                0 <= j < arg_exprs@.len() ==> annotated(
                    *old(self).shader,
                    final(self).const_vals@,
                    final(self).const_index@,
                    arg_exprs@[j] as int,
                ),
            vals_extended(old(self).const_vals@, final(self).const_vals@),
            index_only_cleared(old(self).const_index@, final(self).const_index@),
        decreases at@, 1int,
    {
        self.try_const_eval_arg_exprs(at, arg_exprs);
        None
    }

    /// The argument sweep shared by call-like expressions: folds each
    /// argument in order, for annotation alone.
    fn try_const_eval_arg_exprs(&mut self, at: Ghost<int>, arg_exprs: &Vec<usize>)
        requires
            old(self).wf(),
            at@ <= old(self).shader.exprs@.len(),
            forall|j: int| 0 <= j < arg_exprs@.len() ==> (arg_exprs@[j] as int) < at@,
            forall|j: int|
                0 <= j < arg_exprs@.len() ==> eval_pre(
                    *old(self).shader,
                    old(self).const_vals@,
                    arg_exprs@[j] as int,
                ),
        ensures
            final(self).wf(),
            final(self).shader == old(self).shader,
            forall|j: int|
                0 <= j < arg_exprs@.len() ==> annotated(
                    *old(self).shader,
                    final(self).const_vals@,
                    final(self).const_index@,
                    arg_exprs@[j] as int,
                ),
            vals_extended(old(self).const_vals@, final(self).const_vals@),
            index_only_cleared(old(self).const_index@, final(self).const_index@),
        decreases at@, 0int,
    {
        let ghost ast = *self.shader;
        let n = arg_exprs.len();
        let mut k: usize = 0;
        while k < n
            invariant
                self.wf(),
                self.shader == old(self).shader,
                k <= n,
                n == arg_exprs@.len(),
                at@ <= ast.exprs@.len(),
                ast == *old(self).shader,
                forall|j: int| 0 <= j < arg_exprs@.len() ==> (arg_exprs@[j] as int) < at@,
                forall|j: int|
                    k <= j < arg_exprs@.len() ==> eval_pre(
                        ast,
                        self.const_vals@,
                        arg_exprs@[j] as int,
                    ),
                forall|j: int|
                    0 <= j < k ==> annotated(
                        ast,
                        self.const_vals@,
                        self.const_index@,
                        arg_exprs@[j] as int,
                    ),
                vals_extended(old(self).const_vals@, self.const_vals@),
                index_only_cleared(old(self).const_index@, self.const_index@),
            decreases n - k,
        {
            let e = arg_exprs[k];
            let ghost vals1 = self.const_vals@;
            let ghost idx1 = self.const_index@;
            self.try_const_eval_expr(e);
            proof {
                assert forall|j: int| 0 <= j < k implies annotated(
                    ast,
                    self.const_vals@,
                    self.const_index@,
                    arg_exprs@[j] as int,
                ) by {
                    lemma_annotated_preserved(
                        ast,
                        vals1,
                        idx1,
                        self.const_vals@,
                        self.const_index@,
                        arg_exprs@[j] as int,
                    );
                }
                assert forall|j: int| k + 1 <= j < arg_exprs@.len() implies eval_pre(
                    ast,
                    self.const_vals@,
                    arg_exprs@[j] as int,
                ) by {
                    lemma_eval_pre_preserved(ast, vals1, self.const_vals@, arg_exprs@[j] as int);
                }
            }
            k = k + 1;
        }
    }

    /// Reads the analyzer's finding on the macro call — never its arguments —
    /// and returns the colour vector or slider scalar it resolved.
    fn try_const_eval_macro_call_expr(
        &self,
        _span: Span,
        analysis: Option<MacroCallAnalysis>,
        _ident: Ident,
        _arg_exprs: &Vec<usize>,
    ) -> (r: Option<Val>)
        requires
            analysis is Some,
        ensures
            r == fold_macro(analysis),
    {
        match analysis {
            Some(MacroCallAnalysis::Pick { r: cr, g: cg, b: cb, a: ca }) => Some(
                Val::Vec4(Vec4 { x: cr, y: cg, z: cb, w: ca }),
            ),
            Some(MacroCallAnalysis::Slide { v }) => Some(Val::Float(v)),
            None => unreached(),
        }
    }

    /// Folds every constructor argument for annotation; the constructor call
    /// itself never folds.
    fn try_const_eval_cons_call_expr(
        &mut self,
        at: Ghost<int>,
        _span: Span,
        _ty_lit: TyLit,
        arg_exprs: &Vec<usize>,
    ) -> (r: Option<Val>)
        requires
            old(self).wf(),
            at@ <= old(self).shader.exprs@.len(),
            forall|j: int| 0 <= j < arg_exprs@.len() ==> (arg_exprs@[j] as int) < at@,
            forall|j: int|
                0 <= j < arg_exprs@.len() ==> eval_pre(
                    *old(self).shader,
                    old(self).const_vals@,
                    arg_exprs@[j] as int,
                ),
        ensures
            final(self).wf(),
            final(self).shader == old(self).shader,
            r is None,
            forall|j: int|
                0 <= j < arg_exprs@.len() ==> annotated(
                    *old(self).shader,
                    final(self).const_vals@,
                    final(self).const_index@,
                    arg_exprs@[j] as int,
                ),
            vals_extended(old(self).const_vals@, final(self).const_vals@),
            index_only_cleared(old(self).const_index@, final(self).const_index@),
        decreases at@, 1int,
    {
        self.try_const_eval_arg_exprs(at, arg_exprs);
        None
    }

    /// A resolved `Const` reference returns the value already recorded for
    /// the named declaration's initializer; every other kind is a run-time
    /// value and never constant.
    fn try_const_eval_var_expr(
        &self,
        at: Ghost<int>,
        _span: Span,
        kind: Option<VarKind>,
        ident: Ident,
    ) -> (r: Option<Val>)
        requires
            self.wf(),
            at@ <= self.shader.exprs@.len(),
            kind is Some,
            kind == Some(VarKind::Const) ==> var_ready(
                *self.shader,
                self.const_vals@,
                ident,
                at@,
            ),
        ensures
            r == fold_var(*self.shader, kind, ident, at@),
    {
        match kind {
            Some(VarKind::Const) => {
                proof {
                    lemma_find_const_decl_in_range(*self.shader, ident);
                }
                match self.shader.find_const_decl(ident) {
                    Some(d) => {
                        let e = self.shader.const_decls[d].expr;
                        match self.const_vals[e] {
                            Some(Some(v)) => Some(v),
                            _ => unreached(),
                        }
                    },
                    None => unreached(),
                }
            },
            Some(_) => None,
            None => unreached(),
        }
    }

    /// A literal folds to its own value — the base case.
    fn try_const_eval_lit_expr(&self, _span: Span, lit: Lit) -> (r: Option<Val>)
        ensures
            r == Some(lit.to_val_spec()),
    {
        Some(lit.to_val())
    }
}

// ---------------------------------------------------------------------------
// Stated properties
// ---------------------------------------------------------------------------

/// Which operand pairings each binary operator accepts: the logical
/// operators take booleans, equality any matched scalar pair, ordering and
/// arithmetic matched numeric pairs, and the assignment forms nothing.
pub open spec fn bin_op_applies(op: BinOp, a: Val, b: Val) -> bool {
    match op {
        BinOp::Or | BinOp::And => a is Bool && b is Bool,
        BinOp::Eq | BinOp::Ne => (a is Bool && b is Bool) || (a is Int && b is Int) || (a is Float
            && b is Float),
        BinOp::Lt | BinOp::Le | BinOp::Gt | BinOp::Ge => (a is Int && b is Int) || (a is Float
            && b is Float),
        BinOp::Add | BinOp::Sub | BinOp::Mul | BinOp::Div => (a is Int && b is Int) || (a is Float
            && b is Float),
        BinOp::Assign | BinOp::AddAssign | BinOp::SubAssign | BinOp::MulAssign
        | BinOp::DivAssign => false,
    }
}

/// When an accepted integer pairing actually yields a value: arithmetic when
/// the exact result is representable, division also needing a nonzero
/// divisor; every other accepted pairing always yields one.
pub open spec fn bin_int_defined(op: BinOp, x: i64, y: i64) -> bool {
    match op {
        BinOp::Add => i64::MIN <= x + y <= i64::MAX,
        BinOp::Sub => i64::MIN <= x - y <= i64::MAX,
        BinOp::Mul => i64::MIN <= x * y <= i64::MAX,
        BinOp::Div => y != 0 && !(x == i64::MIN && y == -1),
        _ => true,
    }
}

proof fn lemma_nonneg_div_bounds(n: int, d: int)
    requires
        0 <= n,
        1 <= d,
    ensures
        0 <= n / d <= n,
{
    vstd::arithmetic::div_mod::lemma_div_pos_is_pos(n, d);
    vstd::arithmetic::div_mod::lemma_div_is_ordered_by_denominator(n, 1, d);
    vstd::arithmetic::div_mod::lemma_div_basics(n);
}

/// Folding a pair of boolean literals: each logical and equality operator
/// yields its truth-table result.
pub proof fn lemma_fold_bin_bool(x: bool, y: bool)
    ensures
        fold_bin(BinOp::Or, Val::Bool(x), Val::Bool(y)) == Some(Val::Bool(x || y)),
        fold_bin(BinOp::And, Val::Bool(x), Val::Bool(y)) == Some(Val::Bool(x && y)),
        fold_bin(BinOp::Eq, Val::Bool(x), Val::Bool(y)) == Some(Val::Bool(x == y)),
        fold_bin(BinOp::Ne, Val::Bool(x), Val::Bool(y)) == Some(Val::Bool(x != y)),
{
}

/// Folding a pair of integer literals: comparisons yield the exact relation,
/// arithmetic the exact result whenever it is representable and defined, and
/// nothing otherwise.
pub proof fn lemma_fold_bin_int(op: BinOp, x: i64, y: i64)
    ensures
        fold_bin(BinOp::Eq, Val::Int(x), Val::Int(y)) == Some(Val::Bool(x == y)),
        fold_bin(BinOp::Ne, Val::Int(x), Val::Int(y)) == Some(Val::Bool(x != y)),
        fold_bin(BinOp::Lt, Val::Int(x), Val::Int(y)) == Some(Val::Bool(x < y)),
        fold_bin(BinOp::Le, Val::Int(x), Val::Int(y)) == Some(Val::Bool(x <= y)),
        fold_bin(BinOp::Gt, Val::Int(x), Val::Int(y)) == Some(Val::Bool(x > y)),
        fold_bin(BinOp::Ge, Val::Int(x), Val::Int(y)) == Some(Val::Bool(x >= y)),
        bin_int_defined(BinOp::Add, x, y) ==> fold_bin(BinOp::Add, Val::Int(x), Val::Int(y))
            == Some(Val::Int((x + y) as i64)),
        bin_int_defined(BinOp::Sub, x, y) ==> fold_bin(BinOp::Sub, Val::Int(x), Val::Int(y))
            == Some(Val::Int((x - y) as i64)),
        bin_int_defined(BinOp::Mul, x, y) ==> fold_bin(BinOp::Mul, Val::Int(x), Val::Int(y))
            == Some(Val::Int((x * y) as i64)),
        (op == BinOp::Add || op == BinOp::Sub || op == BinOp::Mul || op == BinOp::Div)
            && !bin_int_defined(op, x, y) ==> fold_bin(op, Val::Int(x), Val::Int(y)) is None,
        bin_int_defined(BinOp::Div, x, y) ==> fold_bin(BinOp::Div, Val::Int(x), Val::Int(y))
            is Some,
{
    if y != 0 {
        lemma_checked_div_in_range(x, y);
    }
}

/// For a nonzero divisor, `i64` division overflows only at the most negative
/// value divided by minus one; everywhere else the truncated quotient is
/// representable.
proof fn lemma_checked_div_in_range(x: i64, y: i64)
    requires
        y != 0,
    ensures
        !(x == i64::MIN && y == -1) ==> x.checked_div(y) is Some,
        x == i64::MIN && y == -1 ==> x.checked_div(y) is None,
{
    let xi = x as int;
    let yi = y as int;
    if x == i64::MIN && y == -1 {
        vstd::arithmetic::div_mod::lemma_div_basics(-xi);
    } else if xi == 0 {
    } else if xi > 0 && yi > 0 {
        lemma_nonneg_div_bounds(xi, yi);
    } else if xi < 0 && yi < 0 {
        lemma_nonneg_div_bounds(-xi, -yi);
        if yi <= -2 {
            vstd::arithmetic::div_mod::lemma_div_is_ordered_by_denominator(-xi, 2, -yi);
        } else {
            vstd::arithmetic::div_mod::lemma_div_basics(-xi);
        }
    } else if xi > 0 {
        lemma_nonneg_div_bounds(xi, -yi);
    } else {
        lemma_nonneg_div_bounds(-xi, yi);
    }
}

/// Folding a pair of single-precision literals: every comparison goes by the
/// one IEEE ordering, and arithmetic yields the IEEE rounded result, each as
/// the trusted software implementation computes it.
pub proof fn lemma_fold_bin_float(x: u32, y: u32)
    ensures
        fold_bin(BinOp::Eq, Val::Float(x), Val::Float(y)) == Some(
            Val::Bool(float_cmp_of(x, y) == FloatOrder::Equal),
        ),
        fold_bin(BinOp::Ne, Val::Float(x), Val::Float(y)) == Some(
            Val::Bool(float_cmp_of(x, y) != FloatOrder::Equal),
        ),
        fold_bin(BinOp::Lt, Val::Float(x), Val::Float(y)) == Some(
            Val::Bool(float_cmp_of(x, y) == FloatOrder::Less),
        ),
        fold_bin(BinOp::Gt, Val::Float(x), Val::Float(y)) == Some(
            Val::Bool(float_cmp_of(x, y) == FloatOrder::Greater),
        ),
        fold_bin(BinOp::Add, Val::Float(x), Val::Float(y)) == Some(
            Val::Float(float_add_of(x, y)),
        ),
        fold_bin(BinOp::Sub, Val::Float(x), Val::Float(y)) == Some(
            Val::Float(float_sub_of(x, y)),
        ),
        fold_bin(BinOp::Mul, Val::Float(x), Val::Float(y)) == Some(
            Val::Float(float_mul_of(x, y)),
        ),
        fold_bin(BinOp::Div, Val::Float(x), Val::Float(y)) == Some(
            Val::Float(float_div_of(x, y)),
        ),
{
}

/// A type-mismatched pair, an operand pairing an operator does not accept,
/// or an assignment operator never folds — and, with integer arithmetic
/// definedness, these are the only ways a pair fails to fold.
pub proof fn lemma_fold_bin_applies(op: BinOp, a: Val, b: Val)
    ensures
        !bin_op_applies(op, a, b) ==> fold_bin(op, a, b) is None,
        fold_bin(op, a, b) is Some <==> bin_op_applies(op, a, b) && (match (a, b) {
            (Val::Int(x), Val::Int(y)) => bin_int_defined(op, x, y),
            _ => true,
        }),
{
    match (a, b) {
        (Val::Int(x), Val::Int(y)) => {
            lemma_fold_bin_int(op, x, y);
        },
        _ => {},
    }
}

/// Folding a unary operator: logical not on a boolean, exact negation on a
/// representable integer, sign flip on a single-precision value; nothing
/// otherwise.
pub proof fn lemma_fold_un(op: UnOp, v: Val)
    ensures
        fold_un(UnOp::Not, Val::Bool(true)) == Some(Val::Bool(false)),
        fold_un(UnOp::Not, Val::Bool(false)) == Some(Val::Bool(true)),
        v matches Val::Int(x) ==> (x != i64::MIN ==> fold_un(UnOp::Neg, v) == Some(
            Val::Int((-x) as i64),
        )),
        fold_un(UnOp::Neg, Val::Int(i64::MIN)) is None,
        v matches Val::Float(x) ==> fold_un(UnOp::Neg, v) == Some(Val::Float(float_neg_spec(x))),
        v is Vec4 ==> fold_un(op, v) is None,
        v is Int ==> fold_un(UnOp::Not, v) is None,
        v is Bool ==> fold_un(UnOp::Neg, v) is None,
{
}

/// Re-running the evaluator over an already-annotated expression recomputes
/// the same outcome — folding is a function of the shader alone — so the
/// slots keep exactly the values they hold, and the constant-index slot is
/// empty both times.
pub proof fn lemma_fold_idempotent(
    ast: ShaderAst,
    vals: Seq<Option<Option<Val>>>,
    idx: Seq<Option<usize>>,
    i: int,
)
    requires
        ast.wf(),
        0 <= i < ast.exprs@.len(),
        vals.len() == ast.exprs@.len(),
        idx.len() == ast.exprs@.len(),
        annotated(ast, vals, idx, i),
    ensures
        vals[i] == Some(fold(ast, i)),
        idx[i] is None,
        annotated(ast, vals.update(i, Some(fold(ast, i))), idx.update(i, None), i),
{
    assert(vals[i] == Some(fold(ast, i)));
    assert(vals.update(i, Some(fold(ast, i))) =~= vals);
    assert(idx.update(i, None) =~= idx);
}

/// A conditional that was folded has both branches annotated, whichever one
/// the condition selected.
pub proof fn lemma_cond_annotates_both_branches(
    ast: ShaderAst,
    vals: Seq<Option<Option<Val>>>,
    idx: Seq<Option<usize>>,
    i: int,
)
    requires
        ast.wf(),
        0 <= i < ast.exprs@.len(),
        annotated(ast, vals, idx, i),
        ast.exprs@[i].kind is Cond,
    ensures
        ast.exprs@[i].kind matches ExprKind::Cond { expr_if_true: t, expr_if_false: f, .. }
            ==> vals[t as int] == Some(fold(ast, t as int)) && vals[f as int] == Some(
            fold(ast, f as int),
        ),
{
    assert(ast.wf_expr_at(i));
    assert(annotated_children(ast, vals, idx, i));
    match ast.exprs@[i].kind {
        ExprKind::Cond { expr_if_true: t, expr_if_false: f, .. } => {
            assert(annotated(ast, vals, idx, t as int));
            assert(annotated(ast, vals, idx, f as int));
        },
        _ => {},
    }
}

/// A resolved `Const` reference folds to the value of the declaration it
/// names; a reference of any other kind never folds.
pub proof fn lemma_fold_var(ast: ShaderAst, i: int)
    requires
        ast.wf(),
        0 <= i < ast.exprs@.len(),
        ast.exprs@[i].kind is Var,
    ensures
        ast.exprs@[i].kind matches ExprKind::Var { kind: Some(VarKind::Const), ident } ==> (
        ast.find_const_decl_spec(ident) matches Some(d) ==> ((ast.const_decls@[d].expr as int) < i
            ==> fold(ast, i) == fold(ast, ast.const_decls@[d].expr as int))),
        ast.exprs@[i].kind matches ExprKind::Var { kind, .. } ==> (kind != Some(VarKind::Const)
            ==> fold(ast, i) is None),
{
    match ast.exprs@[i].kind {
        ExprKind::Var { kind, ident } => {
            lemma_find_const_decl_in_range(ast, ident);
            assert(fold(ast, i) == fold_var(ast, kind, ident, i));
        },
        _ => {},
    }
}

/// A field access or an index access never folds, whatever its base does;
/// once folded, its base's own slot is still populated.
pub proof fn lemma_fold_field_index(
    ast: ShaderAst,
    vals: Seq<Option<Option<Val>>>,
    idx: Seq<Option<usize>>,
    i: int,
)
    requires
        ast.wf(),
        0 <= i < ast.exprs@.len(),
        ast.exprs@[i].kind is Field || ast.exprs@[i].kind is Index,
        annotated(ast, vals, idx, i),
    ensures
        fold(ast, i) is None,
        ast.exprs@[i].kind matches ExprKind::Field { expr: a, .. } ==> vals[a as int] == Some(
            fold(ast, a as int),
        ),
        ast.exprs@[i].kind matches ExprKind::Index { expr: a, .. } ==> vals[a as int] == Some(
            fold(ast, a as int),
        ),
{
    assert(ast.wf_expr_at(i));
    match ast.exprs@[i].kind {
        ExprKind::Field { expr: a, .. } => {
            assert(annotated(ast, vals, idx, a as int));
        },
        ExprKind::Index { expr: a, .. } => {
            assert(annotated(ast, vals, idx, a as int));
        },
        _ => {},
    }
}

/// A call — plain, method or constructor — never folds, whatever its
/// arguments are; once folded, every argument's own slot is populated.
pub proof fn lemma_fold_call_never(
    ast: ShaderAst,
    vals: Seq<Option<Option<Val>>>,
    idx: Seq<Option<usize>>,
    i: int,
)
    requires
        ast.wf(),
        0 <= i < ast.exprs@.len(),
        ast.exprs@[i].kind is Call || ast.exprs@[i].kind is MethodCall || ast.exprs@[i].kind
            is ConsCall,
        annotated(ast, vals, idx, i),
    ensures
        fold(ast, i) is None,
        ast.exprs@[i].kind matches ExprKind::Call { arg_exprs, .. } ==> forall|j: int|
            0 <= j < arg_exprs@.len() ==> vals[arg_exprs@[j] as int] == Some(
                fold(ast, arg_exprs@[j] as int),
            ),
{
    match ast.exprs@[i].kind {
        ExprKind::Call { arg_exprs, .. } => {
            assert(ast.wf_expr_at(i));
            assert forall|j: int| 0 <= j < arg_exprs@.len() implies vals[arg_exprs@[j] as int]
                == Some(fold(ast, arg_exprs@[j] as int)) by {
                assert(annotated(ast, vals, idx, arg_exprs@[j] as int));
            }
        },
        _ => {},
    }
}

/// A macro call the analyzer resolved as a colour literal folds to the
/// four-channel vector, one resolved as a slider to its scalar.
pub proof fn lemma_fold_macro_call(r: u32, g: u32, b: u32, a: u32, v: u32)
    ensures
        fold_macro(Some(MacroCallAnalysis::Pick { r, g, b, a })) == Some(
            Val::Vec4(Vec4 { x: r, y: g, z: b, w: a }),
        ),
        fold_macro(Some(MacroCallAnalysis::Slide { v })) == Some(Val::Float(v)),
{
}

} // verus!
