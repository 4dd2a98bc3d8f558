//! The traversal interface: one method for each kind of expression.

use vstd::prelude::*;
use crate::token::{LiteralView, Token, TokenLiteral, TokenView};
use super::expr::{Expr, ExprView};

verus! {

/// View of an optional literal.
pub open spec fn literal_view(value: Option<TokenLiteral>) -> Option<LiteralView> {
    match value {
        Some(l) => Some(l@),
        None => None,
    }
}

/// A traversal that yields an `R` for every node. Each method comes with a
/// relation that says which results it may give for which node; a visitor
/// reads the tree and never changes it.
pub trait Visitor<R> {
    /// Whether `r` may be the result for a binary node of these parts.
    /// A visitor that states nothing admits every result.
    open spec fn binary_result(
        &self,
        left: ExprView,
        right: ExprView,
        operator: TokenView,
        r: R,
    ) -> bool {
        true
    }

    /// Whether `r` may be the result for a grouping of this expression.
    open spec fn grouping_result(&self, expression: ExprView, r: R) -> bool {
        true
    }

    /// Whether `r` may be the result for a literal of this value.
    open spec fn literal_result(&self, value: Option<LiteralView>, r: R) -> bool {
        true
    }

    /// Whether `r` may be the result for a unary node of these parts.
    open spec fn unary_result(&self, operator: TokenView, right: ExprView, r: R) -> bool {
        true
    }

    fn visit_binary_expr(&self, left: &Box<Expr>, right: &Box<Expr>, operator: &Token) -> (r: R)
        ensures
            self.binary_result((**left)@, (**right)@, operator@, r),
    ;

    fn visit_grouping(&self, expression: &Box<Expr>) -> (r: R)
        ensures
            self.grouping_result((**expression)@, r),
    ;

    fn visit_literal_expr(&self, value: &Option<TokenLiteral>) -> (r: R)
        ensures
            self.literal_result(literal_view(*value), r),
    ;

    fn visit_unary_expr(&self, operator: &Token, right: &Box<Expr>) -> (r: R)
        ensures
            self.unary_result(operator@, (**right)@, r),
    ;
}

} // verus!
