//! A traversal that writes an expression in parenthesised prefix notation.

use vstd::prelude::*;
use vstd::string::*;
use crate::token::{LiteralView, Token, TokenLiteral, TokenView};
use super::expr::{Expr, ExprView};
use super::visitor::{literal_view, Visitor};

verus! {

/// Each part with a space before it.
pub open spec fn spaced(parts: Seq<Seq<char>>) -> Seq<char>
    decreases parts.len(),
{
    if parts.len() == 0 {
        Seq::empty()
    } else {
        spaced(parts.drop_last()) + seq![' '] + parts.last()
    }
}

/// The texts of `parts`, in their order.
pub open spec fn texts_of(parts: Seq<String>) -> Seq<Seq<char>> {
    Seq::new(parts.len(), |i: int| parts[i]@)
}

/// `(name part part ..)`.
pub open spec fn parenthesized(name: Seq<char>, parts: Seq<Seq<char>>) -> Seq<char> {
    seq!['('] + name + spaced(parts) + seq![')']
}

/// A literal's text, or `nil` where there is none.
pub open spec fn literal_text(value: Option<LiteralView>) -> Seq<char> {
    match value {
        Some(l) => l.text_form(),
        None => seq!['n', 'i', 'l'],
    }
}

/// The expression in prefix notation.
pub open spec fn printed(e: ExprView) -> Seq<char>
    decreases e,
{
    match e {
        ExprView::Binary { left, right, operator } => parenthesized(
            operator.lexeme,
            seq![printed(*left), printed(*right)],
        ),
        ExprView::Grouping { expression } => parenthesized(
            seq!['g', 'r', 'o', 'u', 'p'],
            seq![printed(*expression)],
        ),
        ExprView::Literal { value } => literal_text(value),
        ExprView::Unary { operator, right } => parenthesized(
            operator.lexeme,
            seq![printed(*right)],
        ),
    }
}

/// The printer. It has no state: the same tree always gives the same text.
pub struct AstPrinter {}

impl AstPrinter {
    pub fn print(&self, expr: Expr) -> (s: String)
        ensures
            s@ == printed(expr@),
    {
        expr.accept::<String>(self)
    }

    /// The text of `expr`, by recursion on the tree.
    fn render(&self, expr: &Expr) -> (s: String)
        ensures
            s@ == printed(expr@),
        decreases expr,
    {
        match expr {
            Expr::Binary { left, right, operator } => {
                let l = self.render(left);
                let r = self.render(right);
                let parts = vec![l, r];
                assert(texts_of(parts@) =~= seq![printed(left@), printed(right@)]);
                self.parenthesize(operator.lexeme.as_str(), &parts)
            },
            Expr::Grouping { expression } => {
                let e = self.render(expression);
                proof {
                    reveal_strlit("group");
                    assert("group"@ =~= seq!['g', 'r', 'o', 'u', 'p']);
                }
                let parts = vec![e];
        assert(texts_of(parts@) =~= seq![printed(expression@)]);
        self.parenthesize("group", &parts)
            },
            Expr::Literal { value } => self.visit_literal_expr(value),
            Expr::Unary { operator, right } => {
                let r = self.render(right);
                let parts = vec![r];
                assert(texts_of(parts@) =~= seq![printed(right@)]);
                self.parenthesize(operator.lexeme.as_str(), &parts)
            },
        }
    }

    fn parenthesize(&self, name: &str, parts: &Vec<String>) -> (s: String)
        ensures
            s@ == parenthesized(name@, texts_of(parts@)),
    {
        let ghost texts = texts_of(parts@);
        let mut sb = String::new();
        proof {
            reveal_strlit("(");
            reveal_strlit(")");
            reveal_strlit(" ");
            assert("("@ =~= seq!['(']);
            assert(")"@ =~= seq![')']);
            assert(" "@ =~= seq![' ']);
        }
        sb.append("(");
        sb.append(name);
        let mut i: usize = 0;
        assert(texts.subrange(0, 0) =~= Seq::<Seq<char>>::empty());
        assert(sb@ =~= seq!['('] + name@ + spaced(texts.subrange(0, 0)));
        while i < parts.len()
            invariant
                i <= parts.len(),
                texts == texts_of(parts@),
                " "@ == seq![' '],
                sb@ == seq!['('] + name@ + spaced(texts.subrange(0, i as int)),
            decreases parts.len() - i,
        {
            sb.append(" ");
            sb.append(parts[i].as_str());
            proof {
                let next = texts.subrange(0, i + 1);
                assert(next.drop_last() =~= texts.subrange(0, i as int));
                assert(next.last() == parts@[i as int]@);
                assert(sb@ =~= seq!['('] + name@ + spaced(next));
            }
            i += 1;
        }
        assert(texts.subrange(0, i as int) =~= texts);
        sb.append(")");
        sb
    }
}

impl Visitor<String> for AstPrinter {
    open spec fn binary_result(
        &self,
        left: ExprView,
        right: ExprView,
        operator: TokenView,
        r: String,
    ) -> bool {
        r@ == printed(ExprView::Binary { left: Box::new(left), right: Box::new(right), operator })
    }

    open spec fn grouping_result(&self, expression: ExprView, r: String) -> bool {
        r@ == printed(ExprView::Grouping { expression: Box::new(expression) })
    }

    open spec fn literal_result(&self, value: Option<LiteralView>, r: String) -> bool {
        r@ == printed(ExprView::Literal { value })
    }

    open spec fn unary_result(&self, operator: TokenView, right: ExprView, r: String) -> bool {
        r@ == printed(ExprView::Unary { operator, right: Box::new(right) })
    }

    fn visit_binary_expr(&self, left: &Box<Expr>, right: &Box<Expr>, operator: &Token) -> (r:
        String) {
        let l = self.render(left);
        let r = self.render(right);
        let parts = vec![l, r];
        assert(texts_of(parts@) =~= seq![printed(left@), printed(right@)]);
        self.parenthesize(operator.lexeme.as_str(), &parts)
    }

    fn visit_grouping(&self, expression: &Box<Expr>) -> (r: String) {
        let e = self.render(expression);
        proof {
            reveal_strlit("group");
            assert("group"@ =~= seq!['g', 'r', 'o', 'u', 'p']);
        }
        let parts = vec![e];
        assert(texts_of(parts@) =~= seq![printed(expression@)]);
        self.parenthesize("group", &parts)
    }

    fn visit_literal_expr(&self, value: &Option<TokenLiteral>) -> (r: String) {
        match value {
            Some(literal) => literal.to_text(),
            None => {
                proof {
                    reveal_strlit("nil");
                    assert("nil"@ =~= seq!['n', 'i', 'l']);
                }
                String::from_str("nil")
            },
        }
    }

    fn visit_unary_expr(&self, operator: &Token, right: &Box<Expr>) -> (r: String) {
        let r = self.render(right);
        let parts = vec![r];
        assert(texts_of(parts@) =~= seq![printed(right@)]);
        self.parenthesize(operator.lexeme.as_str(), &parts)
    }
}

} // verus!
