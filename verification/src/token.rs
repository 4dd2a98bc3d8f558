//! Tokens: the category of a lexeme, its literal value, and where it stood.

use vstd::prelude::*;
use vstd::string::*;

verus! {

/// The category of a lexeme.
#[derive(Debug, Clone, Copy, PartialEq, Eq, Structural)]
pub enum TokenType {
    // Single char tokens
    LeftParen,
    RightParen,
    LeftBrace,
    RightBrace,
    Comma,
    Dot,
    Minus,
    Plus,
    Semicolon,
    Slash,
    Star,
    // One or two char tokens
    Bang,
    BangEqual,
    Equal,
    EqualEqual,
    Greater,
    GreaterEqual,
    Less,
    LessEqual,
    // Literals
    Identifier,
    String,
    Number,
    // Keywords
    And,
    Class,
    Else,
    False,
    Fun,
    For,
    If,
    Nil,
    Or,
    Print,
    Return,
    Super,
    This,
    True,
    Var,
    While,
    // end of file
    Eof,
}

impl TokenType {
    /// The name of the category, as diagnostics show it.
    pub open spec fn name_spec(self) -> Seq<char> {
        match self {
            TokenType::LeftParen => "LeftParen"@,
            TokenType::RightParen => "RightParen"@,
            TokenType::LeftBrace => "LeftBrace"@,
            TokenType::RightBrace => "RightBrace"@,
            TokenType::Comma => "Comma"@,
            TokenType::Dot => "Dot"@,
            TokenType::Minus => "Minus"@,
            TokenType::Plus => "Plus"@,
            TokenType::Semicolon => "Semicolon"@,
            TokenType::Slash => "Slash"@,
            TokenType::Star => "Star"@,
            TokenType::Bang => "Bang"@,
            TokenType::BangEqual => "BangEqual"@,
            TokenType::Equal => "Equal"@,
            TokenType::EqualEqual => "EqualEqual"@,
            TokenType::Greater => "Greater"@,
            TokenType::GreaterEqual => "GreaterEqual"@,
            TokenType::Less => "Less"@,
            TokenType::LessEqual => "LessEqual"@,
            TokenType::Identifier => "Identifier"@,
            TokenType::String => "String"@,
            TokenType::Number => "Number"@,
            TokenType::And => "And"@,
            TokenType::Class => "Class"@,
            TokenType::Else => "Else"@,
            TokenType::False => "False"@,
            TokenType::Fun => "Fun"@,
            TokenType::For => "For"@,
            TokenType::If => "If"@,
            TokenType::Nil => "Nil"@,
            TokenType::Or => "Or"@,
            TokenType::Print => "Print"@,
            TokenType::Return => "Return"@,
            TokenType::Super => "Super"@,
            TokenType::This => "This"@,
            TokenType::True => "True"@,
            TokenType::Var => "Var"@,
            TokenType::While => "While"@,
            TokenType::Eof => "Eof"@,
        }
    }

    /// Whether tokens of this category carry a literal value.
    pub open spec fn has_literal(self) -> bool {
        self == TokenType::String || self == TokenType::Number
    }

    pub fn name(&self) -> (s: &'static str)
        ensures
            s@ == self.name_spec(),
    {
        match self {
            TokenType::LeftParen => "LeftParen",
            TokenType::RightParen => "RightParen",
            TokenType::LeftBrace => "LeftBrace",
            TokenType::RightBrace => "RightBrace",
            TokenType::Comma => "Comma",
            TokenType::Dot => "Dot",
            TokenType::Minus => "Minus",
            TokenType::Plus => "Plus",
            TokenType::Semicolon => "Semicolon",
            TokenType::Slash => "Slash",
            TokenType::Star => "Star",
            TokenType::Bang => "Bang",
            TokenType::BangEqual => "BangEqual",
            TokenType::Equal => "Equal",
            TokenType::EqualEqual => "EqualEqual",
            TokenType::Greater => "Greater",
            TokenType::GreaterEqual => "GreaterEqual",
            TokenType::Less => "Less",
            TokenType::LessEqual => "LessEqual",
            TokenType::Identifier => "Identifier",
            TokenType::String => "String",
            TokenType::Number => "Number",
            TokenType::And => "And",
            TokenType::Class => "Class",
            TokenType::Else => "Else",
            TokenType::False => "False",
            TokenType::Fun => "Fun",
            TokenType::For => "For",
            TokenType::If => "If",
            TokenType::Nil => "Nil",
            TokenType::Or => "Or",
            TokenType::Print => "Print",
            TokenType::Return => "Return",
            TokenType::Super => "Super",
            TokenType::This => "This",
            TokenType::True => "True",
            TokenType::Var => "Var",
            TokenType::While => "While",
            TokenType::Eof => "Eof",
        }
    }
}

/// `s` without its leading zeros; the last character always stays.
pub open spec fn strip_leading_zeros(s: Seq<char>) -> Seq<char>
    decreases s.len(),
{
    if s.len() > 1 && s[0] == '0' {
        strip_leading_zeros(s.skip(1))
    } else {
        s
    }
}

/// `s` without its trailing zeros.
pub open spec fn strip_trailing_zeros(s: Seq<char>) -> Seq<char>
    decreases s.len(),
{
    if s.len() > 0 && s.last() == '0' {
        strip_trailing_zeros(s.drop_last())
    } else {
        s
    }
}

/// A decimal number as mathematics sees it: the digits before the point and
/// the digits after it.
pub struct DecimalView {
    pub whole: Seq<char>,
    pub frac: Seq<char>,
}

impl DecimalView {
    /// The number read from a digit run and the digit run after its point.
    pub open spec fn of_digits(whole: Seq<char>, frac: Seq<char>) -> DecimalView {
        DecimalView { whole: strip_leading_zeros(whole), frac: strip_trailing_zeros(frac) }
    }

    /// No zero that could be dropped without changing the value is kept.
    pub open spec fn canonical(self) -> bool {
        &&& !(self.whole.len() > 1 && self.whole[0] == '0')
        &&& !(self.frac.len() > 0 && self.frac.last() == '0')
    }

    /// Natural decimal form: the whole part, then a point and the
    /// fractional digits where there are any.
    pub open spec fn text(self) -> Seq<char> {
        if self.frac.len() == 0 {
            self.whole
        } else {
            self.whole + seq!['.'] + self.frac
        }
    }
}

/// Stripping zeros leaves none that could be stripped.
pub proof fn lemma_of_digits_canonical(whole: Seq<char>, frac: Seq<char>)
    ensures
        DecimalView::of_digits(whole, frac).canonical(),
{
    lemma_leading_stripped(whole);
    lemma_trailing_stripped(frac);
}

proof fn lemma_leading_stripped(s: Seq<char>)
    ensures
        !(strip_leading_zeros(s).len() > 1 && strip_leading_zeros(s)[0] == '0'),
    decreases s.len(),
{
    if s.len() > 1 && s[0] == '0' {
        lemma_leading_stripped(s.skip(1));
    }
}

proof fn lemma_trailing_stripped(s: Seq<char>)
    ensures
        !(strip_trailing_zeros(s).len() > 0 && strip_trailing_zeros(s).last() == '0'),
    decreases s.len(),
{
    if s.len() > 0 && s.last() == '0' {
        lemma_trailing_stripped(s.drop_last());
    }
}

/// An exact decimal value: what a numeric literal denotes.
#[derive(Debug)]
pub struct Number {
    whole: String,
    frac: String,
}

impl View for Number {
    type V = DecimalView;

    closed spec fn view(&self) -> DecimalView {
        DecimalView { whole: self.whole@, frac: self.frac@ }
    }
}

impl Clone for Number {
    fn clone(&self) -> (r: Self)
        ensures
            r@ == self@,
    {
        Number { whole: self.whole.clone(), frac: self.frac.clone() }
    }
}

impl Number {
    /// The number written as `whole`, a point, `frac`: zeros that do not
    /// change the value are dropped.
    pub fn from_digits(whole: &str, frac: &str) -> (n: Number)
        ensures
            n@ == DecimalView::of_digits(whole@, frac@),
            n@.canonical(),
    {
        let wlen: usize = whole.unicode_len();
        let mut i: usize = 0;
        assert(whole@.subrange(0, wlen as int) =~= whole@);
        while wlen - i > 1 && whole.get_char(i) == '0'
            invariant
                wlen == whole@.len(),
                i <= wlen,
                strip_leading_zeros(whole@) == strip_leading_zeros(whole@.subrange(i as int, wlen as int)),
            decreases wlen - i,
        {
            assert(whole@.subrange(i as int, wlen as int).skip(1) =~= whole@.subrange(i + 1, wlen as int));
            i += 1;
        }
        let flen: usize = frac.unicode_len();
        let mut j: usize = flen;
        assert(frac@.subrange(0, flen as int) =~= frac@);
        while j > 0 && frac.get_char(j - 1) == '0'
            invariant
                flen == frac@.len(),
                j <= flen,
                strip_trailing_zeros(frac@) == strip_trailing_zeros(frac@.subrange(0, j as int)),
            decreases j,
        {
            assert(frac@.subrange(0, j as int).drop_last() =~= frac@.subrange(0, j - 1));
            j -= 1;
        }
        proof {
            lemma_of_digits_canonical(whole@, frac@);
        }
        Number {
            whole: String::from_str(whole.substring_char(i, wlen)),
            frac: String::from_str(frac.substring_char(0, j)),
        }
    }

    /// The number in natural decimal form.
    pub fn to_text(&self) -> (s: String)
        ensures
            s@ == self@.text(),
    {
        let mut s = self.whole.clone();
        if self.frac.as_str().unicode_len() > 0 {
            s.append(".");
            s.append(self.frac.as_str());
            proof {
                reveal_strlit(".");
                assert("."@ =~= seq!['.']);
            }
        }
        s
    }
}

/// What a literal holds, as mathematics sees it.
pub struct LiteralView {
    pub text: Option<Seq<char>>,
    pub number: Option<DecimalView>,
}

impl LiteralView {
    /// Exactly one of the two values is there.
    pub open spec fn wf(self) -> bool {
        self.text.is_some() != self.number.is_some()
    }

    /// The text stored, or the number in natural decimal form.
    pub open spec fn text_form(self) -> Seq<char> {
        match (self.text, self.number) {
            (Some(t), _) => t,
            (None, Some(n)) => n.text(),
            (None, None) => Seq::empty(),
        }
    }
}

/// The value of a string or number token.
#[derive(Debug)]
pub struct TokenLiteral {
    string_val: Option<String>,
    numeric_val: Option<Number>,
}

impl View for TokenLiteral {
    type V = LiteralView;

    closed spec fn view(&self) -> LiteralView {
        LiteralView {
            text: match self.string_val {
                Some(s) => Some(s@),
                None => None,
            },
            number: match self.numeric_val {
                Some(n) => Some(n@),
                None => None,
            },
        }
    }
}

impl Clone for TokenLiteral {
    fn clone(&self) -> (r: Self)
        ensures
            r@ == self@,
    {
        TokenLiteral {
            string_val: match &self.string_val {
                Some(s) => Some(s.clone()),
                None => None,
            },
            numeric_val: match &self.numeric_val {
                Some(n) => Some(n.clone()),
                None => None,
            },
        }
    }
}

impl TokenLiteral {
    pub fn from_string(val: &str) -> (r: Self)
        ensures
            r@ == (LiteralView { text: Some(val@), number: None }),
            r@.wf(),
    {
        TokenLiteral { string_val: Some(String::from_str(val)), numeric_val: None }
    }

    pub fn from_number(val: Number) -> (r: Self)
        ensures
            r@ == (LiteralView { text: None, number: Some(val@) }),
            r@.wf(),
    {
        TokenLiteral { string_val: None, numeric_val: Some(val) }
    }

    pub fn string_val(&self) -> (r: Option<&String>)
        ensures
            r.is_some() == self@.text.is_some(),
            r.is_some() ==> r.unwrap()@ == self@.text.unwrap(),
    {
        self.string_val.as_ref()
    }

    pub fn num_val(&self) -> (r: Option<&Number>)
        ensures
            r.is_some() == self@.number.is_some(),
            r.is_some() ==> r.unwrap()@ == self@.number.unwrap(),
    {
        self.numeric_val.as_ref()
    }

    /// The stored text verbatim, or the number in natural decimal form.
    pub fn to_text(&self) -> (s: String)
        ensures
            s@ == self@.text_form(),
    {
        match &self.string_val {
            Some(t) => t.clone(),
            None => match &self.numeric_val {
                Some(n) => n.to_text(),
                None => String::new(),
            },
        }
    }
}

/// A token as mathematics sees it.
pub struct TokenView {
    pub token_type: TokenType,
    pub lexeme: Seq<char>,
    pub literal: Option<LiteralView>,
    pub line: int,
}

impl TokenView {
    /// A literal is there exactly on string and number tokens, and is of
    /// the token's kind.
    pub open spec fn wf(self) -> bool {
        &&& self.literal.is_some() == self.token_type.has_literal()
        &&& self.token_type == TokenType::String ==> self.literal.unwrap().text.is_some()
            && self.literal.unwrap().number.is_none()
        &&& self.token_type == TokenType::Number ==> self.literal.unwrap().number.is_some()
            && self.literal.unwrap().text.is_none()
    }

    /// The literal's text, or nothing where there is no literal.
    pub open spec fn literal_text(self) -> Seq<char> {
        match self.literal {
            Some(l) => l.text_form(),
            None => Seq::empty(),
        }
    }

    /// The token as diagnostics show it: category, lexeme and literal,
    /// each followed by a space but the last.
    pub open spec fn text(self) -> Seq<char> {
        self.token_type.name_spec() + seq![' '] + self.lexeme + seq![' '] + self.literal_text()
    }
}

/// One classified lexeme: its category, the source text it was read from,
/// its literal value where it has one, and the line it ended on.
#[derive(Debug)]
pub struct Token {
    pub token_type: TokenType,
    pub lexeme: String,
    pub literal: Option<TokenLiteral>,
    pub line: usize,
}

impl View for Token {
    type V = TokenView;

    open spec fn view(&self) -> TokenView {
        TokenView {
            token_type: self.token_type,
            lexeme: self.lexeme@,
            literal: match self.literal {
                Some(l) => Some(l@),
                None => None,
            },
            line: self.line as int,
        }
    }
}

impl Clone for Token {
    fn clone(&self) -> (r: Self)
        ensures
            r@ == self@,
    {
        Token {
            token_type: self.token_type,
            lexeme: self.lexeme.clone(),
            literal: match &self.literal {
                Some(l) => Some(l.clone()),
                None => None,
            },
            line: self.line,
        }
    }
}

impl Token {
    pub fn new(token_type: TokenType, lexeme: String, literal: Option<TokenLiteral>, line: usize) -> (t: Self)
        ensures
            t.token_type == token_type,
            t.lexeme == lexeme,
            t.literal == literal,
            t.line == line,
    {
        Token { token_type, lexeme, literal, line }
    }

    /// The token as diagnostics show it.
    pub fn to_text(&self) -> (s: String)
        ensures
            s@ == self@.text(),
    {
        let mut s = String::from_str(self.token_type.name());
        s.append(" ");
        s.append(self.lexeme.as_str());
        s.append(" ");
        proof {
            reveal_strlit(" ");
            assert(" "@ =~= seq![' ']);
        }
        match &self.literal {
            Some(l) => {
                let t = l.to_text();
                s.append(t.as_str());
            },
            None => {
                assert(s@ + Seq::<char>::empty() =~= s@);
            },
        }
        s
    }
}

} // verus!
