//! The parser: a token sequence to one expression, by recursive descent
//! over six levels of precedence.

use vstd::prelude::*;
use crate::ast::expr::{Expr, ExprView};
use crate::token::{LiteralView, Token, TokenLiteral, TokenType, TokenView};

verus! {

/// Why a parse stopped. The line is that of the token at which it stopped,
/// or of the last token where the tokens ran out, or 0 where there is none.
#[derive(Debug, Clone, Copy, PartialEq, Eq, Structural)]
pub enum ParseError {
    /// A token that starts no expression.
    ExpectedExpression { line: usize },
    /// A group without its closing parenthesis.
    UnclosedGroup { line: usize },
}

/// A parse error as mathematics sees it.
pub enum ParseErrorView {
    ExpectedExpression { line: int },
    UnclosedGroup { line: int },
}

impl View for ParseError {
    type V = ParseErrorView;

    open spec fn view(&self) -> ParseErrorView {
        match *self {
            ParseError::ExpectedExpression { line } => ParseErrorView::ExpectedExpression {
                line: line as int,
            },
            ParseError::UnclosedGroup { line } => ParseErrorView::UnclosedGroup {
                line: line as int,
            },
        }
    }
}

/// The four levels of binary operators, from the loosest to the tightest.
#[derive(Debug, Clone, Copy, PartialEq, Eq, Structural)]
pub enum Level {
    Equality,
    Comparison,
    Term,
    Factor,
}

impl Level {
    /// Whether `t` is an operator of this level.
    pub open spec fn has(self, t: TokenType) -> bool {
        match self {
            Level::Equality => t == TokenType::BangEqual || t == TokenType::EqualEqual,
            Level::Comparison => t == TokenType::Greater || t == TokenType::GreaterEqual || t
                == TokenType::Less || t == TokenType::LessEqual,
            Level::Term => t == TokenType::Minus || t == TokenType::Plus,
            Level::Factor => t == TokenType::Slash || t == TokenType::Star,
        }
    }

    /// How loosely the level binds: the tightest has rank 1.
    pub open spec fn rank(self) -> nat {
        match self {
            Level::Equality => 4,
            Level::Comparison => 3,
            Level::Term => 2,
            Level::Factor => 1,
        }
    }

    /// The operators of this level.
    fn operators(self) -> (v: Vec<TokenType>)
        ensures
            forall|t: TokenType| v@.contains(t) == self.has(t),
    {
        let v = match self {
            Level::Equality => vec![TokenType::BangEqual, TokenType::EqualEqual],
            Level::Comparison => vec![
                TokenType::Greater,
                TokenType::GreaterEqual,
                TokenType::Less,
                TokenType::LessEqual,
            ],
            Level::Term => vec![TokenType::Minus, TokenType::Plus],
            Level::Factor => vec![TokenType::Slash, TokenType::Star],
        };
        assert forall|t: TokenType| v@.contains(t) == self.has(t) by {
            if self.has(t) {
                assert(v@[0] == t || v@[1] == t || (v@.len() == 4 && (v@[2] == t || v@[3] == t)));
            }
        }
        v
    }
}

/// What parsing from some position gives: an expression or an error, and
/// the position behind what was consumed.
pub struct Parsed {
    pub result: Result<ExprView, ParseErrorView>,
    pub end: int,
}

/// Whether nothing is left to parse at `pos`: the tokens have run out, or
/// the token there is the end-of-file token.
pub open spec fn at_end(tokens: Seq<TokenView>, pos: int) -> bool {
    pos < 0 || pos >= tokens.len() || tokens[pos].token_type == TokenType::Eof
}

/// The line that an error at `pos` reports.
pub open spec fn line_of(tokens: Seq<TokenView>, pos: int) -> int {
    if 0 <= pos < tokens.len() {
        tokens[pos].line
    } else if tokens.len() > 0 {
        tokens.last().line
    } else {
        0
    }
}

/// The text literal that stands for the words `true` and `false`.
pub open spec fn word_literal(t: TokenView) -> LiteralView {
    LiteralView { text: Some(t.lexeme), number: None }
}

/// primary -> NUMBER | STRING | "true" | "false" | "nil" | "(" expression ")"
pub open spec fn parse_primary(tokens: Seq<TokenView>, pos: int) -> Parsed
    decreases tokens.len() - pos, 0nat,
{
    if at_end(tokens, pos) {
        Parsed {
            result: Err(ParseErrorView::ExpectedExpression { line: line_of(tokens, pos) }),
            end: pos,
        }
    } else {
        let t = tokens[pos];
        if t.token_type == TokenType::Number || t.token_type == TokenType::String {
            Parsed { result: Ok(ExprView::Literal { value: t.literal }), end: pos + 1 }
        } else if t.token_type == TokenType::True || t.token_type == TokenType::False {
            Parsed { result: Ok(ExprView::Literal { value: Some(word_literal(t)) }), end: pos + 1 }
        } else if t.token_type == TokenType::Nil {
            Parsed { result: Ok(ExprView::Literal { value: None }), end: pos + 1 }
        } else if t.token_type == TokenType::LeftParen {
            let inner = parse_level(tokens, pos + 1, Level::Equality);
            match inner.result {
                Ok(e) => if !at_end(tokens, inner.end) && tokens[inner.end].token_type
                    == TokenType::RightParen {
                    Parsed {
                        result: Ok(ExprView::Grouping { expression: Box::new(e) }),
                        end: inner.end + 1,
                    }
                } else {
                    Parsed {
                        result: Err(
                            ParseErrorView::UnclosedGroup { line: line_of(tokens, inner.end) },
                        ),
                        end: inner.end,
                    }
                },
                Err(e) => inner,
            }
        } else {
            Parsed {
                result: Err(ParseErrorView::ExpectedExpression { line: line_of(tokens, pos) }),
                end: pos,
            }
        }
    }
}

/// unary -> ("!" | "-") unary | primary
pub open spec fn parse_unary(tokens: Seq<TokenView>, pos: int) -> Parsed
    decreases tokens.len() - pos, 1nat,
{
    if !at_end(tokens, pos) && (tokens[pos].token_type == TokenType::Bang || tokens[pos].token_type
        == TokenType::Minus) {
        let right = parse_unary(tokens, pos + 1);
        match right.result {
            Ok(e) => Parsed {
                result: Ok(ExprView::Unary { operator: tokens[pos], right: Box::new(e) }),
                end: right.end,
            },
            Err(e) => right,
        }
    } else {
        parse_primary(tokens, pos)
    }
}

/// An operand of `level`: an expression of the next tighter level.
pub open spec fn parse_operand(tokens: Seq<TokenView>, pos: int, level: Level) -> Parsed
    decreases tokens.len() - pos, 3 * level.rank() - 1,
{
    match level {
        Level::Equality => parse_level(tokens, pos, Level::Comparison),
        Level::Comparison => parse_level(tokens, pos, Level::Term),
        Level::Term => parse_level(tokens, pos, Level::Factor),
        Level::Factor => parse_unary(tokens, pos),
    }
}

/// level -> operand ( operator operand )*, folded to the left.
pub open spec fn parse_level(tokens: Seq<TokenView>, pos: int, level: Level) -> Parsed
    decreases tokens.len() - pos, 3 * level.rank(),
{
    let first = parse_operand(tokens, pos, level);
    match first.result {
        Ok(e) => if pos < first.end <= tokens.len() {
            fold_level(tokens, first.end, level, e)
        } else {
            first
        },
        Err(e) => first,
    }
}

/// ( operator operand )* behind the expression `left`: while an operator
/// of `level` stands at `pos`, the expression so far becomes the left
/// operand of a new binary node.
pub open spec fn fold_level(tokens: Seq<TokenView>, pos: int, level: Level, left: ExprView) -> Parsed
    decreases tokens.len() - pos, 3 * level.rank(),
{
    if !at_end(tokens, pos) && level.has(tokens[pos].token_type) {
        let right = parse_operand(tokens, pos + 1, level);
        match right.result {
            Ok(e) => {
                let both = ExprView::Binary {
                    left: Box::new(left),
                    right: Box::new(e),
                    operator: tokens[pos],
                };
                if pos + 1 < right.end <= tokens.len() {
                    fold_level(tokens, right.end, level, both)
                } else {
                    Parsed { result: Ok(both), end: right.end }
                }
            },
            Err(e) => right,
        }
    } else {
        Parsed { result: Ok(left), end: pos }
    }
}

/// expression -> equality
pub open spec fn parse_expression(tokens: Seq<TokenView>, pos: int) -> Parsed {
    parse_level(tokens, pos, Level::Equality)
}

/// A primary expression that parses consumes at least one token and ends
/// within the tokens.
pub proof fn lemma_primary_advances(tokens: Seq<TokenView>, pos: int)
    requires
        0 <= pos,
    ensures
        parse_primary(tokens, pos).result.is_ok() ==> pos < parse_primary(tokens, pos).end
            <= tokens.len(),
    decreases tokens.len() - pos, 0nat,
{
    if !at_end(tokens, pos) && tokens[pos].token_type == TokenType::LeftParen {
        lemma_level_advances(tokens, pos + 1, Level::Equality);
    }
}

/// A unary expression that parses consumes at least one token and ends
/// within the tokens.
pub proof fn lemma_unary_advances(tokens: Seq<TokenView>, pos: int)
    requires
        0 <= pos,
    ensures
        parse_unary(tokens, pos).result.is_ok() ==> pos < parse_unary(tokens, pos).end
            <= tokens.len(),
    decreases tokens.len() - pos, 1nat,
{
    if !at_end(tokens, pos) && (tokens[pos].token_type == TokenType::Bang || tokens[pos].token_type
        == TokenType::Minus) {
        lemma_unary_advances(tokens, pos + 1);
    } else {
        lemma_primary_advances(tokens, pos);
    }
}

/// An operand that parses consumes at least one token and ends within the
/// tokens.
pub proof fn lemma_operand_advances(tokens: Seq<TokenView>, pos: int, level: Level)
    requires
        0 <= pos,
    ensures
        parse_operand(tokens, pos, level).result.is_ok() ==> pos < parse_operand(
            tokens,
            pos,
            level,
        ).end <= tokens.len(),
    decreases tokens.len() - pos, 3 * level.rank() - 1,
{
    match level {
        Level::Equality => lemma_level_advances(tokens, pos, Level::Comparison),
        Level::Comparison => lemma_level_advances(tokens, pos, Level::Term),
        Level::Term => lemma_level_advances(tokens, pos, Level::Factor),
        Level::Factor => lemma_unary_advances(tokens, pos),
    }
}

/// An expression of a binary level that parses consumes at least one token
/// and ends within the tokens.
pub proof fn lemma_level_advances(tokens: Seq<TokenView>, pos: int, level: Level)
    requires
        0 <= pos,
    ensures
        parse_level(tokens, pos, level).result.is_ok() ==> pos < parse_level(
            tokens,
            pos,
            level,
        ).end <= tokens.len(),
    decreases tokens.len() - pos, 3 * level.rank(),
{
    lemma_operand_advances(tokens, pos, level);
    let first = parse_operand(tokens, pos, level);
    match first.result {
        Ok(e) => {
            lemma_fold_advances(tokens, first.end, level, e);
        },
        Err(e) => {},
    }
}

/// Folding operators and operands onto an expression never moves back and
/// ends within the tokens.
pub proof fn lemma_fold_advances(tokens: Seq<TokenView>, pos: int, level: Level, left: ExprView)
    requires
        0 <= pos <= tokens.len(),
    ensures
        fold_level(tokens, pos, level, left).result.is_ok() ==> pos <= fold_level(
            tokens,
            pos,
            level,
            left,
        ).end <= tokens.len(),
    decreases tokens.len() - pos, 3 * level.rank(),
{
    if !at_end(tokens, pos) && level.has(tokens[pos].token_type) {
        lemma_operand_advances(tokens, pos + 1, level);
        let right = parse_operand(tokens, pos + 1, level);
        match right.result {
            Ok(e) => {
                let both = ExprView::Binary {
                    left: Box::new(left),
                    right: Box::new(e),
                    operator: tokens[pos],
                };
                lemma_fold_advances(tokens, right.end, level, both);
            },
            Err(e) => {},
        }
    }
}

/// Operators of one level group to the left: behind an expression, an
/// operator of the level and an operand make a binary node with the
/// expression so far as its left operand, and what follows is folded onto
/// that node.
pub proof fn lemma_left_associative(tokens: Seq<TokenView>, pos: int, level: Level, left: ExprView)
    requires
        0 <= pos < tokens.len(),
        !at_end(tokens, pos),
        level.has(tokens[pos].token_type),
        parse_operand(tokens, pos + 1, level).result.is_ok(),
    ensures
        fold_level(tokens, pos, level, left) == fold_level(
            tokens,
            parse_operand(tokens, pos + 1, level).end,
            level,
            ExprView::Binary {
                left: Box::new(left),
                right: Box::new(parse_operand(tokens, pos + 1, level).result->Ok_0),
                operator: tokens[pos],
            },
        ),
{
    lemma_operand_advances(tokens, pos + 1, level);
}

/// How loosely an operator binds: 4 for equality down to 1 for factors,
/// and 0 for a token that is no binary operator.
pub open spec fn looseness_of(t: TokenType) -> nat {
    if Level::Equality.has(t) {
        4
    } else if Level::Comparison.has(t) {
        3
    } else if Level::Term.has(t) {
        2
    } else if Level::Factor.has(t) {
        1
    } else {
        0
    }
}

/// How loosely the root of `e` binds: the looseness of its operator for a
/// binary node, 0 for every other node.
pub open spec fn looseness(e: ExprView) -> nat {
    match e {
        ExprView::Binary { left, right, operator } => looseness_of(operator.token_type),
        _ => 0,
    }
}

/// Whether `e` is nested as precedence and associativity ask: in every
/// binary node the left operand binds no looser than the node and the right
/// operand binds tighter; the operand of a unary node is a unary node, a
/// literal or a group.
pub open spec fn well_nested(e: ExprView) -> bool
    decreases e,
{
    match e {
        ExprView::Binary { left, right, operator } => {
            &&& looseness_of(operator.token_type) > 0
            &&& looseness(*left) <= looseness_of(operator.token_type)
            &&& looseness(*right) < looseness_of(operator.token_type)
            &&& well_nested(*left)
            &&& well_nested(*right)
        },
        ExprView::Grouping { expression } => well_nested(*expression),
        ExprView::Literal { value } => true,
        ExprView::Unary { operator, right } => {
            &&& operator.token_type == TokenType::Bang || operator.token_type == TokenType::Minus
            &&& looseness(*right) == 0
            &&& well_nested(*right)
        },
    }
}

/// How many tokens `e` is written with.
pub open spec fn token_count(e: ExprView) -> nat
    decreases e,
{
    match e {
        ExprView::Binary { left, right, operator } => token_count(*left) + 1 + token_count(*right),
        ExprView::Grouping { expression } => token_count(*expression) + 2,
        ExprView::Literal { value } => 1,
        ExprView::Unary { operator, right } => 1 + token_count(*right),
    }
}

/// What holds of every expression parsed from `pos` to `end` that binds no
/// looser than `bound`: it is well nested, and it is written with exactly
/// the tokens consumed.
pub open spec fn sound(parsed: Parsed, pos: int, bound: nat) -> bool {
    match parsed.result {
        Ok(e) => well_nested(e) && looseness(e) <= bound && parsed.end == pos + token_count(e),
        Err(e) => true,
    }
}

/// A primary expression that parses is well nested and written with the
/// tokens consumed.
pub proof fn lemma_primary_sound(tokens: Seq<TokenView>, pos: int)
    requires
        0 <= pos,
    ensures
        sound(parse_primary(tokens, pos), pos, 0),
    decreases tokens.len() - pos, 0nat,
{
    if !at_end(tokens, pos) && tokens[pos].token_type == TokenType::LeftParen {
        lemma_level_sound(tokens, pos + 1, Level::Equality);
    }
}

/// A unary expression that parses is well nested and written with the
/// tokens consumed.
pub proof fn lemma_unary_sound(tokens: Seq<TokenView>, pos: int)
    requires
        0 <= pos,
    ensures
        sound(parse_unary(tokens, pos), pos, 0),
    decreases tokens.len() - pos, 1nat,
{
    if !at_end(tokens, pos) && (tokens[pos].token_type == TokenType::Bang || tokens[pos].token_type
        == TokenType::Minus) {
        lemma_unary_sound(tokens, pos + 1);
    } else {
        lemma_primary_sound(tokens, pos);
    }
}

/// An operand of a level binds tighter than the level.
pub proof fn lemma_operand_sound(tokens: Seq<TokenView>, pos: int, level: Level)
    requires
        0 <= pos,
    ensures
        sound(parse_operand(tokens, pos, level), pos, (level.rank() - 1) as nat),
    decreases tokens.len() - pos, 3 * level.rank() - 1,
{
    match level {
        Level::Equality => lemma_level_sound(tokens, pos, Level::Comparison),
        Level::Comparison => lemma_level_sound(tokens, pos, Level::Term),
        Level::Term => lemma_level_sound(tokens, pos, Level::Factor),
        Level::Factor => lemma_unary_sound(tokens, pos),
    }
}

/// Precedence and associativity: an expression of a binary level that
/// parses binds no looser than the level, is well nested, and is written
/// with the tokens consumed.
pub proof fn lemma_level_sound(tokens: Seq<TokenView>, pos: int, level: Level)
    requires
        0 <= pos,
    ensures
        sound(parse_level(tokens, pos, level), pos, level.rank()),
    decreases tokens.len() - pos, 3 * level.rank(),
{
    lemma_operand_sound(tokens, pos, level);
    lemma_operand_advances(tokens, pos, level);
    let first = parse_operand(tokens, pos, level);
    match first.result {
        Ok(e) => {
            lemma_fold_sound(tokens, pos, first.end, level, e);
        },
        Err(e) => {},
    }
}

/// Folding operators and operands of a level onto a sound expression that
/// began at `start` gives a sound expression.
pub proof fn lemma_fold_sound(
    tokens: Seq<TokenView>,
    start: int,
    pos: int,
    level: Level,
    left: ExprView,
)
    requires
        0 <= start <= pos <= tokens.len(),
        sound(Parsed { result: Ok(left), end: pos }, start, level.rank()),
    ensures
        sound(fold_level(tokens, pos, level, left), start, level.rank()),
    decreases tokens.len() - pos, 3 * level.rank(),
{
    if !at_end(tokens, pos) && level.has(tokens[pos].token_type) {
        lemma_operand_sound(tokens, pos + 1, level);
        lemma_operand_advances(tokens, pos + 1, level);
        let right = parse_operand(tokens, pos + 1, level);
        match right.result {
            Ok(e) => {
                let both = ExprView::Binary {
                    left: Box::new(left),
                    right: Box::new(e),
                    operator: tokens[pos],
                };
                assert(looseness_of(tokens[pos].token_type) == level.rank());
                lemma_fold_sound(tokens, start, right.end, level, both);
            },
            Err(e) => {},
        }
    }
}

/// The views of `tokens`, in their order.
pub open spec fn views_of(tokens: Seq<Token>) -> Seq<TokenView> {
    Seq::new(tokens.len(), |i: int| tokens[i]@)
}

/// View of a parser's result.
pub open spec fn parse_result_view(r: Result<Expr, ParseError>) -> Result<ExprView, ParseErrorView> {
    match r {
        Ok(e) => Ok(e@),
        Err(e) => Err(e@),
    }
}

/// A parser over one token sequence. It owns the tokens and moves only its
/// cursor.
pub struct Parser {
    tokens: Vec<Token>,
    current: usize,
}

impl Parser {
    /// The tokens, as views.
    pub closed spec fn tokens_spec(&self) -> Seq<TokenView> {
        views_of(self.tokens@)
    }

    /// The cursor.
    pub closed spec fn position(&self) -> int {
        self.current as int
    }

    /// The cursor lies within the tokens or just behind them.
    pub closed spec fn wf(&self) -> bool {
        self.current <= self.tokens.len()
    }

    pub fn new(tokens: Vec<Token>) -> (p: Self)
        ensures
            p.wf(),
            p.tokens_spec() == views_of(tokens@),
            p.position() == 0,
    {
        Parser { tokens, current: 0 }
    }

    /// Parses one expression from the cursor on. On success the cursor
    /// stands behind the expression; what follows it is left alone.
    pub fn parse(&mut self) -> (r: Result<Expr, ParseError>)
        requires
            old(self).wf(),
        ensures
            final(self).wf(),
            final(self).tokens_spec() == old(self).tokens_spec(),
            parse_result_view(r) == parse_expression(
                old(self).tokens_spec(),
                old(self).position(),
            ).result,
            r.is_ok() ==> final(self).position() == parse_expression(
                old(self).tokens_spec(),
                old(self).position(),
            ).end,
    {
        self.expression()
    }

    fn expression(&mut self) -> (r: Result<Expr, ParseError>)
        requires
            old(self).wf(),
        ensures
            final(self).wf(),
            final(self).tokens == old(self).tokens,
            parse_result_view(r) == parse_expression(
                old(self).tokens_spec(),
                old(self).position(),
            ).result,
            r.is_ok() ==> old(self).current < final(self).current == parse_expression(
                old(self).tokens_spec(),
                old(self).position(),
            ).end,
        decreases old(self).tokens.len() - old(self).current, 14nat,
    {
        self.equality()
    }

    /// equality -> comparison ( ( "!=" | "==" ) comparison )*
    fn equality(&mut self) -> (r: Result<Expr, ParseError>)
        requires
            old(self).wf(),
        ensures
            final(self).wf(),
            final(self).tokens == old(self).tokens,
            parse_result_view(r) == parse_level(
                old(self).tokens_spec(),
                old(self).position(),
                Level::Equality,
            ).result,
            r.is_ok() ==> old(self).current < final(self).current == parse_level(
                old(self).tokens_spec(),
                old(self).position(),
                Level::Equality,
            ).end,
        decreases old(self).tokens.len() - old(self).current, 13nat,
    {
        self.binary(Level::Equality)
    }

    /// comparison -> term ( ( ">" | ">=" | "<" | "<=" ) term )*
    fn comparison(&mut self) -> (r: Result<Expr, ParseError>)
        requires
            old(self).wf(),
        ensures
            final(self).wf(),
            final(self).tokens == old(self).tokens,
            parse_result_view(r) == parse_level(
                old(self).tokens_spec(),
                old(self).position(),
                Level::Comparison,
            ).result,
            r.is_ok() ==> old(self).current < final(self).current == parse_level(
                old(self).tokens_spec(),
                old(self).position(),
                Level::Comparison,
            ).end,
        decreases old(self).tokens.len() - old(self).current, 10nat,
    {
        self.binary(Level::Comparison)
    }

    /// term -> factor ( ( "-" | "+" ) factor )*
    fn term(&mut self) -> (r: Result<Expr, ParseError>)
        requires
            old(self).wf(),
        ensures
            final(self).wf(),
            final(self).tokens == old(self).tokens,
            parse_result_view(r) == parse_level(
                old(self).tokens_spec(),
                old(self).position(),
                Level::Term,
            ).result,
            r.is_ok() ==> old(self).current < final(self).current == parse_level(
                old(self).tokens_spec(),
                old(self).position(),
                Level::Term,
            ).end,
        decreases old(self).tokens.len() - old(self).current, 7nat,
    {
        self.binary(Level::Term)
    }

    /// factor -> unary ( ( "/" | "*" ) unary )*
    fn factor(&mut self) -> (r: Result<Expr, ParseError>)
        requires
            old(self).wf(),
        ensures
            final(self).wf(),
            final(self).tokens == old(self).tokens,
            parse_result_view(r) == parse_level(
                old(self).tokens_spec(),
                old(self).position(),
                Level::Factor,
            ).result,
            r.is_ok() ==> old(self).current < final(self).current == parse_level(
                old(self).tokens_spec(),
                old(self).position(),
                Level::Factor,
            ).end,
        decreases old(self).tokens.len() - old(self).current, 4nat,
    {
        self.binary(Level::Factor)
    }

    /// An operand of `level`.
    fn operand(&mut self, level: Level) -> (r: Result<Expr, ParseError>)
        requires
            old(self).wf(),
        ensures
            final(self).wf(),
            final(self).tokens == old(self).tokens,
            parse_result_view(r) == parse_operand(
                old(self).tokens_spec(),
                old(self).position(),
                level,
            ).result,
            r.is_ok() ==> old(self).current < final(self).current == parse_operand(
                old(self).tokens_spec(),
                old(self).position(),
                level,
            ).end,
        decreases old(self).tokens.len() - old(self).current, 3 * level.rank() - 1,
    {
        match level {
            Level::Equality => self.comparison(),
            Level::Comparison => self.term(),
            Level::Term => self.factor(),
            Level::Factor => self.unary(),
        }
    }

    /// One level of binary operators: an operand, then operators of the
    /// level with an operand each, folded to the left.
    fn binary(&mut self, level: Level) -> (r: Result<Expr, ParseError>)
        requires
            old(self).wf(),
        ensures
            final(self).wf(),
            final(self).tokens == old(self).tokens,
            parse_result_view(r) == parse_level(
                old(self).tokens_spec(),
                old(self).position(),
                level,
            ).result,
            r.is_ok() ==> old(self).current < final(self).current == parse_level(
                old(self).tokens_spec(),
                old(self).position(),
                level,
            ).end,
        decreases old(self).tokens.len() - old(self).current, 3 * level.rank(),
    {
        let ghost tokens = self.tokens_spec();
        let ghost goal = parse_level(tokens, self.position(), level);
        let mut expr = match self.operand(level) {
            Ok(e) => e,
            Err(e) => {
                return Err(e);
            },
        };
        let operators = level.operators();
        while self.match_terminals(operators.as_slice())
            invariant
                self.wf(),
                self.tokens == old(self).tokens,
                tokens == self.tokens_spec(),
                old(self).current < self.current,
                forall|t: TokenType| operators@.contains(t) == level.has(t),
                goal == parse_level(old(self).tokens_spec(), old(self).position(), level),
                goal == fold_level(tokens, self.current as int, level, expr@),
            decreases self.tokens.len() - self.current,
        {
            let operator = self.tokens[self.current - 1].clone();
            let right = match self.operand(level) {
                Ok(e) => e,
                Err(e) => {
                    return Err(e);
                },
            };
            expr = Expr::Binary { left: Box::new(expr), right: Box::new(right), operator };
        }
        Ok(expr)
    }

    /// unary -> ( "!" | "-" ) unary | primary
    fn unary(&mut self) -> (r: Result<Expr, ParseError>)
        requires
            old(self).wf(),
        ensures
            final(self).wf(),
            final(self).tokens == old(self).tokens,
            parse_result_view(r) == parse_unary(
                old(self).tokens_spec(),
                old(self).position(),
            ).result,
            r.is_ok() ==> old(self).current < final(self).current == parse_unary(
                old(self).tokens_spec(),
                old(self).position(),
            ).end,
        decreases old(self).tokens.len() - old(self).current, 1nat,
    {
        let operators = [TokenType::Bang, TokenType::Minus];
        if self.match_terminals(operators.as_slice()) {
            let operator = self.tokens[self.current - 1].clone();
            let right = self.unary()?;
            return Ok(Expr::Unary { operator, right: Box::new(right) });
        }
        self.primary()
    }

    /// primary -> NUMBER | STRING | "true" | "false" | "nil" | "(" expression ")"
    fn primary(&mut self) -> (r: Result<Expr, ParseError>)
        requires
            old(self).wf(),
        ensures
            final(self).wf(),
            final(self).tokens == old(self).tokens,
            parse_result_view(r) == parse_primary(
                old(self).tokens_spec(),
                old(self).position(),
            ).result,
            r.is_ok() ==> old(self).current < final(self).current == parse_primary(
                old(self).tokens_spec(),
                old(self).position(),
            ).end,
        decreases old(self).tokens.len() - old(self).current, 0nat,
    {
        if self.is_at_end() {
            return Err(ParseError::ExpectedExpression { line: self.line() });
        }
        let token_type = self.tokens[self.current].token_type;
        if token_type == TokenType::Number || token_type == TokenType::String {
            let value = match &self.tokens[self.current].literal {
                Some(l) => Some(l.clone()),
                None => None,
            };
            self.advance();
            Ok(Expr::Literal { value })
        } else if token_type == TokenType::True || token_type == TokenType::False {
            let value = TokenLiteral::from_string(self.tokens[self.current].lexeme.as_str());
            self.advance();
            Ok(Expr::Literal { value: Some(value) })
        } else if token_type == TokenType::Nil {
            self.advance();
            Ok(Expr::Literal { value: None })
        } else if token_type == TokenType::LeftParen {
            self.advance();
            let inner = match self.expression() {
                Ok(e) => e,
                Err(e) => {
                    return Err(e);
                },
            };
            if self.check(TokenType::RightParen) {
                self.advance();
                Ok(Expr::Grouping { expression: Box::new(inner) })
            } else {
                Err(ParseError::UnclosedGroup { line: self.line() })
            }
        } else {
            Err(ParseError::ExpectedExpression { line: self.line() })
        }
    }

    /// The line that an error at the cursor reports.
    fn line(&self) -> (n: usize)
        requires
            self.wf(),
        ensures
            n == line_of(self.tokens_spec(), self.position()),
    {
        if self.current < self.tokens.len() {
            self.tokens[self.current].line
        } else if self.tokens.len() > 0 {
            self.tokens[self.tokens.len() - 1].line
        } else {
            0
        }
    }

    /// Consumes the token at the cursor if its category is one of `types`.
    fn match_terminals(&mut self, types: &[TokenType]) -> (b: bool)
        requires
            old(self).wf(),
        ensures
            final(self).wf(),
            final(self).tokens == old(self).tokens,
            b == (!at_end(old(self).tokens_spec(), old(self).position()) && types@.contains(
                old(self).tokens_spec()[old(self).position()].token_type,
            )),
            final(self).current == if b {
                old(self).current + 1
            } else {
                old(self).current as int
            },
    {
        let mut i: usize = 0;
        while i < types.len()
            invariant
                self.wf(),
                *self == *old(self),
                i <= types.len(),
                forall|k: int| 0 <= k < i ==> !self.spec_check(types@[k]),
            decreases types.len() - i,
        {
            if self.check(types[i]) {
                self.advance();
                return true;
            }
            i += 1;
        }
        false
    }

    /// Whether the token at the cursor is of category `token_type`.
    pub closed spec fn spec_check(&self, token_type: TokenType) -> bool {
        !at_end(self.tokens_spec(), self.position()) && self.tokens_spec()[self.position()].token_type
            == token_type
    }

    fn check(&self, token_type: TokenType) -> (b: bool)
        requires
            self.wf(),
        ensures
            b == self.spec_check(token_type),
    {
        if self.is_at_end() {
            return false;
        }
        self.tokens[self.current].token_type == token_type
    }

    fn previous(&self) -> (t: Option<&Token>)
        requires
            self.wf(),
        ensures
            t.is_some() == (self.current > 0),
            t.is_some() ==> *t.unwrap() == self.tokens[self.current - 1],
    {
        if self.current > 0 {
            Some(&self.tokens[self.current - 1])
        } else {
            None
        }
    }

    /// Moves the cursor on by one token, unless nothing is left.
    fn advance(&mut self) -> (t: Option<&Token>)
        requires
            old(self).wf(),
        ensures
            final(self).wf(),
            final(self).tokens == old(self).tokens,
            final(self).current == if at_end(old(self).tokens_spec(), old(self).position()) {
                old(self).current as int
            } else {
                old(self).current + 1
            },
            t.is_some() == (final(self).current > 0),
            t.is_some() ==> *t.unwrap() == final(self).tokens[final(self).current - 1],
    {
        if !self.is_at_end() {
            self.current += 1;
        }
        self.previous()
    }

    fn is_at_end(&self) -> (b: bool)
        requires
            self.wf(),
        ensures
            b == at_end(self.tokens_spec(), self.position()),
    {
        match self.peek() {
            Some(token) => token.token_type == TokenType::Eof,
            None => true,
        }
    }

    fn peek(&self) -> (t: Option<&Token>)
        requires
            self.wf(),
        ensures
            t.is_some() == (self.current < self.tokens.len()),
            t.is_some() ==> *t.unwrap() == self.tokens[self.current as int],
    {
        if self.current < self.tokens.len() {
            Some(&self.tokens[self.current])
        } else {
            None
        }
    }
}

} // verus!
