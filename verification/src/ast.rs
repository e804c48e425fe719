use vstd::prelude::*;

use crate::env::VarKind;
use crate::ident::Ident;
use crate::lit::{Lit, TyLit};
use crate::span::Span;
use crate::ty::Ty;

verus! {

/// A binary operator of the shader language. The assignment forms appear in
/// statement position only; no value of theirs is ever constant.
#[derive(Clone, Copy, Debug, PartialEq, Eq, Structural)]
pub enum BinOp {
    Assign,
    AddAssign,
    SubAssign,
    MulAssign,
    DivAssign,
    Or,
    And,
    Eq,
    Ne,
    Lt,
    Le,
    Gt,
    Ge,
    Add,
    Sub,
    Mul,
    Div,
}

/// A unary operator of the shader language.
#[derive(Clone, Copy, Debug, PartialEq, Eq, Structural)]
pub enum UnOp {
    Not,
    Neg,
}

/// The analyzer's finding on a macro call: a color literal resolved to four
/// channels, or a debug slider resolved to one scalar, every component a
/// single-precision bit pattern. The constant evaluator reads this finding
/// and never recomputes it.
#[derive(Clone, Copy, Debug, PartialEq, Eq, Structural)]
pub enum MacroCallAnalysis {
    Pick { r: u32, g: u32, b: u32, a: u32 },
    Slide { v: u32 },
}

/// One expression kind. Expressions live in the arena owned by `ShaderAst`;
/// a child is named by its arena index, and every child of a node stands
/// earlier in the arena than the node itself.
///
/// `Var` carries the storage kind the analyzer resolved (`None` until it has
/// run), and `MacroCall` carries the analyzer's finding in the same way. A
/// method call's receiver is the first of its argument expressions.
#[derive(Clone, Debug)]
pub enum ExprKind {
    Cond { expr: usize, expr_if_true: usize, expr_if_false: usize },
    Bin { op: BinOp, left_expr: usize, right_expr: usize },
    Un { op: UnOp, expr: usize },
    MethodCall { ident: Ident, arg_exprs: Vec<usize> },
    Field { expr: usize, field_ident: Ident },
    Index { expr: usize, index_expr: usize },
    Call { ident: Ident, arg_exprs: Vec<usize> },
    MacroCall { analysis: Option<MacroCallAnalysis>, ident: Ident, arg_exprs: Vec<usize> },
    ConsCall { ty_lit: TyLit, arg_exprs: Vec<usize> },
    Var { kind: Option<VarKind>, ident: Ident },
    Lit { lit: Lit },
}

/// An expression node: its source span, the type the checker assigned
/// (`None` until it has run), and its kind.
#[derive(Clone, Debug)]
pub struct Expr {
    pub span: Span,
    pub ty: Option<Ty>,
    pub kind: ExprKind,
}

/// A top-level constant declaration: its name and the arena index of its
/// initializer expression.
#[derive(Clone, Debug)]
pub struct ConstDecl {
    pub span: Span,
    pub ident: Ident,
    pub expr: usize,
}

/// The root compilation unit seen by the constant evaluator: the expression
/// arena shared by every declaration and function body, and the constant
/// declarations that `Const`-kind variable references resolve to. Children
/// are allocated before their parents, so an arena index is also a bound on
/// the whole subtree under it.
#[derive(Clone, Debug)]
pub struct ShaderAst {
    pub exprs: Vec<Expr>,
    pub const_decls: Vec<ConstDecl>,
}

impl ShaderAst {
    /// A node's children all stand earlier in the arena, and a method call
    /// has its receiver as a first argument.
    pub open spec fn wf_expr_at(&self, i: int) -> bool {
        match self.exprs@[i].kind {
            ExprKind::Cond { expr, expr_if_true, expr_if_false } => {
                (expr as int) < i && (expr_if_true as int) < i && (expr_if_false as int) < i
            },
            ExprKind::Bin { left_expr, right_expr, .. } => {
                (left_expr as int) < i && (right_expr as int) < i
            },
            ExprKind::Un { expr, .. } => (expr as int) < i,
            ExprKind::MethodCall { arg_exprs, .. } => {
                arg_exprs@.len() > 0 && forall|j: int|
                    0 <= j < arg_exprs@.len() ==> (arg_exprs@[j] as int) < i
            },
            ExprKind::Field { expr, .. } => (expr as int) < i,
            ExprKind::Index { expr, index_expr } => {
                (expr as int) < i && (index_expr as int) < i
            },
            ExprKind::Call { arg_exprs, .. } => {
                forall|j: int| 0 <= j < arg_exprs@.len() ==> (arg_exprs@[j] as int) < i
            },
            ExprKind::MacroCall { arg_exprs, .. } => {
                forall|j: int| 0 <= j < arg_exprs@.len() ==> (arg_exprs@[j] as int) < i
            },
            ExprKind::ConsCall { arg_exprs, .. } => {
                forall|j: int| 0 <= j < arg_exprs@.len() ==> (arg_exprs@[j] as int) < i
            },
            ExprKind::Var { .. } => true,
            ExprKind::Lit { .. } => true,
        }
    }

    /// The arena is in child-before-parent order, every constant
    /// declaration's initializer lies inside it, and declarations appear in
    /// the order their initializers were built — so a reference standing
    /// after an initializer can only name an earlier declaration.
    pub open spec fn wf(&self) -> bool {
        &&& forall|i: int| 0 <= i < self.exprs@.len() ==> self.wf_expr_at(i)
        &&& forall|d: int|
            0 <= d < self.const_decls@.len() ==> (self.const_decls@[d].expr as int)
                < self.exprs@.len()
        &&& forall|d1: int, d2: int|
            0 <= d1 < d2 < self.const_decls@.len() ==> (#[trigger] self.const_decls@[d1].expr
                as int) < (#[trigger] self.const_decls@[d2].expr as int)
    }

    /// The index of the first constant declaration named `ident` at or after
    /// position `k`.
    pub open spec fn find_const_decl_from(&self, ident: Ident, k: int) -> Option<int>
        decreases self.const_decls@.len() - k,
    {
        if k < 0 || k >= self.const_decls@.len() {
            None
        } else if self.const_decls@[k].ident == ident {
            Some(k)
        } else {
            self.find_const_decl_from(ident, k + 1)
        }
    }

    /// The index of the first constant declaration named `ident`.
    pub open spec fn find_const_decl_spec(&self, ident: Ident) -> Option<int> {
        self.find_const_decl_from(ident, 0)
    }

    /// Looks a constant declaration up by name; the first declaration wins.
    pub fn find_const_decl(&self, ident: Ident) -> (r: Option<usize>)
        ensures
            match r {
                Some(d) => self.find_const_decl_spec(ident) == Some(d as int),
                None => self.find_const_decl_spec(ident) is None,
            },
    {
        let n = self.const_decls.len();
        let mut k: usize = 0;
        while k < n
            invariant
                k <= n,
                n == self.const_decls@.len(),
                self.find_const_decl_spec(ident) == self.find_const_decl_from(ident, k as int),
            decreases n - k,
        {
            if self.const_decls[k].ident == ident {
                return Some(k);
            }
            k = k + 1;
        }
        None
    }
}

} // verus!
