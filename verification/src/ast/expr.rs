//! Expressions: a closed set of tree nodes, each owning its children.

use vstd::prelude::*;
use crate::token::{LiteralView, Token, TokenLiteral, TokenView};
use super::visitor::Visitor;

verus! {

/// An expression. Every node owns its operands and its operator token.
#[derive(Debug)]
pub enum Expr {
    Binary { left: Box<Expr>, right: Box<Expr>, operator: Token },
    Grouping { expression: Box<Expr> },
    Literal { value: Option<TokenLiteral> },
    Unary { operator: Token, right: Box<Expr> },
}

/// An expression as mathematics sees it.
pub enum ExprView {
    Binary { left: Box<ExprView>, right: Box<ExprView>, operator: TokenView },
    Grouping { expression: Box<ExprView> },
    Literal { value: Option<LiteralView> },
    Unary { operator: TokenView, right: Box<ExprView> },
}

/// What `e` is as a tree of views.
pub open spec fn expr_view(e: Expr) -> ExprView
    decreases e,
{
    match e {
        Expr::Binary { left, right, operator } => ExprView::Binary {
            left: Box::new(expr_view(*left)),
            right: Box::new(expr_view(*right)),
            operator: operator@,
        },
        Expr::Grouping { expression } => ExprView::Grouping {
            expression: Box::new(expr_view(*expression)),
        },
        Expr::Literal { value } => ExprView::Literal {
            value: match value {
                Some(l) => Some(l@),
                None => None,
            },
        },
        Expr::Unary { operator, right } => ExprView::Unary {
            operator: operator@,
            right: Box::new(expr_view(*right)),
        },
    }
}

impl View for Expr {
    type V = ExprView;

    open spec fn view(&self) -> ExprView {
        expr_view(*self)
    }
}

impl Expr {
    /// Hands the node's parts to the method of `visitor` that is made for
    /// this kind of node, and returns what that method returns.
    pub fn accept<R>(&self, visitor: &impl Visitor<R>) -> (r: R)
        ensures
            match self@ {
                ExprView::Binary { left, right, operator } => visitor.binary_result(
                    *left,
                    *right,
                    operator,
                    r,
                ),
                ExprView::Grouping { expression } => visitor.grouping_result(*expression, r),
                ExprView::Literal { value } => visitor.literal_result(value, r),
                ExprView::Unary { operator, right } => visitor.unary_result(operator, *right, r),
            },
    {
        match self {
            Expr::Binary { left, right, operator } => visitor.visit_binary_expr(
                left,
                right,
                operator,
            ),
            Expr::Grouping { expression } => visitor.visit_grouping(expression),
            Expr::Literal { value } => visitor.visit_literal_expr(value),
            Expr::Unary { operator, right } => visitor.visit_unary_expr(operator, right),
        }
    }
}

} // verus!
