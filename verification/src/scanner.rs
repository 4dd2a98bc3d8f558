//! The scanner: source text to tokens, one at a time.

use vstd::prelude::*;
use vstd::string::*;
use crate::token::{DecimalView, LiteralView, Number, Token, TokenLiteral, TokenType, TokenView};

verus! {

/// Why a scan stopped.
#[derive(Debug, Clone, Copy, PartialEq, Eq, Structural)]
pub enum ScanError {
    UnexpectedCharacter { line: usize, ch: char },
    UnterminatedString { line: usize },
}

/// A scan error as mathematics sees it.
pub enum ScanErrorView {
    UnexpectedCharacter { line: int, ch: char },
    UnterminatedString { line: int },
}

impl View for ScanError {
    type V = ScanErrorView;

    open spec fn view(&self) -> ScanErrorView {
        match *self {
            ScanError::UnexpectedCharacter { line, ch } => ScanErrorView::UnexpectedCharacter {
                line: line as int,
                ch,
            },
            ScanError::UnterminatedString { line } => ScanErrorView::UnterminatedString {
                line: line as int,
            },
        }
    }
}

/// One output of the scanner as mathematics sees it.
pub open spec fn result_view(r: Result<Token, ScanError>) -> Result<TokenView, ScanErrorView> {
    match r {
        Ok(t) => Ok(t@),
        Err(e) => Err(e@),
    }
}

pub open spec fn is_digit(c: char) -> bool {
    '0' <= c <= '9'
}

pub open spec fn is_alpha(c: char) -> bool {
    'a' <= c <= 'z' || 'A' <= c <= 'Z' || c == '_'
}

/// The runs of characters that the scanner consumes as a whole.
#[derive(Debug, Clone, Copy, PartialEq, Eq, Structural)]
pub enum Run {
    /// Decimal digits.
    Digits,
    /// Letters, digits and underscores.
    Word,
    /// Anything but a double quote.
    StringBody,
    /// Anything but a line feed.
    LineRest,
}

impl Run {
    /// Whether `c` belongs to the run.
    pub open spec fn keeps(self, c: char) -> bool {
        match self {
            Run::Digits => is_digit(c),
            Run::Word => is_alpha(c) || is_digit(c),
            Run::StringBody => c != '"',
            Run::LineRest => c != '\n',
        }
    }

    fn has(self, c: char) -> (b: bool)
        ensures
            b == self.keeps(c),
    {
        match self {
            Run::Digits => c >= '0' && c <= '9',
            Run::Word => (c >= 'a' && c <= 'z') || (c >= 'A' && c <= 'Z') || c == '_' || (c >= '0'
                && c <= '9'),
            Run::StringBody => c != '"',
            Run::LineRest => c != '\n',
        }
    }
}

/// Where the run that starts at `from` ends: the first position at or after
/// `from` whose character is not of the run, or the end of the text.
pub open spec fn run_end(s: Seq<char>, from: int, run: Run) -> int
    decreases s.len() - from,
{
    if 0 <= from < s.len() && run.keeps(s[from]) {
        run_end(s, from + 1, run)
    } else {
        from
    }
}

/// Where a block comment whose body starts at `from` ends: just behind the
/// first `*/` at or after `from`, or at the end of the text where none is.
pub open spec fn comment_end(s: Seq<char>, from: int) -> int
    decreases s.len() - from,
{
    if 0 <= from && from + 1 < s.len() {
        if s[from] == '*' && s[from + 1] == '/' {
            from + 2
        } else {
            comment_end(s, from + 1)
        }
    } else {
        s.len() as int
    }
}

/// How many line feeds `s` holds.
pub open spec fn count_newlines(s: Seq<char>) -> nat
    decreases s.len(),
{
    if s.len() == 0 {
        0
    } else {
        count_newlines(s.drop_last()) + if s.last() == '\n' {
            1nat
        } else {
            0nat
        }
    }
}

/// The line that position `pos` of `src` is on; the first line is 1.
pub open spec fn line_at(src: Seq<char>, pos: int) -> int {
    1 + count_newlines(src.subrange(0, pos)) as int
}

/// The reserved words.
pub open spec fn keyword(text: Seq<char>) -> Option<TokenType> {
    if text == "and"@ {
        Some(TokenType::And)
    } else if text == "class"@ {
        Some(TokenType::Class)
    } else if text == "else"@ {
        Some(TokenType::Else)
    } else if text == "false"@ {
        Some(TokenType::False)
    } else if text == "for"@ {
        Some(TokenType::For)
    } else if text == "fun"@ {
        Some(TokenType::Fun)
    } else if text == "if"@ {
        Some(TokenType::If)
    } else if text == "nil"@ {
        Some(TokenType::Nil)
    } else if text == "or"@ {
        Some(TokenType::Or)
    } else if text == "print"@ {
        Some(TokenType::Print)
    } else if text == "return"@ {
        Some(TokenType::Return)
    } else if text == "super"@ {
        Some(TokenType::Super)
    } else if text == "this"@ {
        Some(TokenType::This)
    } else if text == "true"@ {
        Some(TokenType::True)
    } else if text == "var"@ {
        Some(TokenType::Var)
    } else if text == "while"@ {
        Some(TokenType::While)
    } else {
        None
    }
}

/// The category of a word: that of the reserved word it is, else an
/// identifier.
pub open spec fn word_type(text: Seq<char>) -> TokenType {
    match keyword(text) {
        Some(t) => t,
        None => TokenType::Identifier,
    }
}

/// What one step of the scanner finds.
pub enum Lexed {
    /// A token of this category, with this literal.
    Token(TokenType, Option<LiteralView>),
    /// White space or a comment.
    Nothing,
    /// A character that starts no lexeme.
    Unexpected(char),
    /// A string without its closing quote.
    Unterminated,
}

/// One step of the scanner: what it finds and where it stops.
pub struct Step {
    pub what: Lexed,
    pub end: int,
}

/// The lexeme that follows `c` where an `=` directly behind `c` makes a
/// two-character operator.
pub open spec fn one_or_two(src: Seq<char>, pos: int, one: TokenType, two: TokenType) -> Step {
    if pos + 1 < src.len() && src[pos + 1] == '=' {
        Step { what: Lexed::Token(two, None), end: pos + 2 }
    } else {
        Step { what: Lexed::Token(one, None), end: pos + 1 }
    }
}

pub open spec fn single(pos: int, t: TokenType) -> Step {
    Step { what: Lexed::Token(t, None), end: pos + 1 }
}

/// The step that starts at `pos`, a position inside `src`.
pub open spec fn scan_step(src: Seq<char>, pos: int) -> Step
    recommends
        0 <= pos < src.len(),
{
    let c = src[pos];
    let len = src.len() as int;
    if c == '(' {
        single(pos, TokenType::LeftParen)
    } else if c == ')' {
        single(pos, TokenType::RightParen)
    } else if c == '{' {
        single(pos, TokenType::LeftBrace)
    } else if c == '}' {
        single(pos, TokenType::RightBrace)
    } else if c == ',' {
        single(pos, TokenType::Comma)
    } else if c == '.' {
        single(pos, TokenType::Dot)
    } else if c == '-' {
        single(pos, TokenType::Minus)
    } else if c == '+' {
        single(pos, TokenType::Plus)
    } else if c == ';' {
        single(pos, TokenType::Semicolon)
    } else if c == '*' {
        single(pos, TokenType::Star)
    } else if c == '!' {
        one_or_two(src, pos, TokenType::Bang, TokenType::BangEqual)
    } else if c == '=' {
        one_or_two(src, pos, TokenType::Equal, TokenType::EqualEqual)
    } else if c == '<' {
        one_or_two(src, pos, TokenType::Less, TokenType::LessEqual)
    } else if c == '>' {
        one_or_two(src, pos, TokenType::Greater, TokenType::GreaterEqual)
    } else if c == '/' {
        if pos + 1 < len && src[pos + 1] == '/' {
            Step { what: Lexed::Nothing, end: run_end(src, pos + 2, Run::LineRest) }
        } else if pos + 1 < len && src[pos + 1] == '*' {
            Step { what: Lexed::Nothing, end: comment_end(src, pos + 2) }
        } else {
            single(pos, TokenType::Slash)
        }
    } else if c == '"' {
        let close = run_end(src, pos + 1, Run::StringBody);
        if close < len {
            Step {
                what: Lexed::Token(
                    TokenType::String,
                    Some(LiteralView { text: Some(src.subrange(pos + 1, close)), number: None }),
                ),
                end: close + 1,
            }
        } else {
            Step { what: Lexed::Unterminated, end: len }
        }
    } else if c == ' ' || c == '\r' || c == '\t' || c == '\n' {
        Step { what: Lexed::Nothing, end: pos + 1 }
    } else if is_digit(c) {
        let point = run_end(src, pos, Run::Digits);
        if point + 1 < len && src[point] == '.' && is_digit(src[point + 1]) {
            let end = run_end(src, point + 1, Run::Digits);
            Step {
                what: Lexed::Token(
                    TokenType::Number,
                    Some(
                        LiteralView {
                            text: None,
                            number: Some(
                                DecimalView::of_digits(
                                    src.subrange(pos, point),
                                    src.subrange(point + 1, end),
                                ),
                            ),
                        },
                    ),
                ),
                end,
            }
        } else {
            Step {
                what: Lexed::Token(
                    TokenType::Number,
                    Some(
                        LiteralView {
                            text: None,
                            number: Some(
                                DecimalView::of_digits(src.subrange(pos, point), Seq::empty()),
                            ),
                        },
                    ),
                ),
                end: point,
            }
        }
    } else if is_alpha(c) {
        let end = run_end(src, pos, Run::Word);
        Step { what: Lexed::Token(word_type(src.subrange(pos, end)), None), end }
    } else {
        Step { what: Lexed::Unexpected(c), end: pos + 1 }
    }
}

/// What the step at `pos` hands out: nothing for white space and comments,
/// else a token or an error. A token's lexeme is the text that the step
/// consumed, and its line, like an error's, the line on which the step ends.
pub open spec fn step_result(src: Seq<char>, pos: int) -> Option<Result<TokenView, ScanErrorView>> {
    let step = scan_step(src, pos);
    match step.what {
        Lexed::Token(token_type, literal) => Some(
            Ok(
                TokenView {
                    token_type,
                    lexeme: src.subrange(pos, step.end),
                    literal,
                    line: line_at(src, step.end),
                },
            ),
        ),
        Lexed::Nothing => None,
        Lexed::Unexpected(ch) => Some(
            Err(ScanErrorView::UnexpectedCharacter { line: line_at(src, step.end), ch }),
        ),
        Lexed::Unterminated => Some(
            Err(ScanErrorView::UnterminatedString { line: line_at(src, step.end) }),
        ),
    }
}

/// The token that ends every scan without an error.
pub open spec fn eof_token(src: Seq<char>) -> TokenView {
    TokenView {
        token_type: TokenType::Eof,
        lexeme: Seq::empty(),
        literal: None,
        line: line_at(src, src.len() as int),
    }
}

/// What a scanner at `pos` still hands out: the tokens from there on, then
/// the end-of-file token, or the tokens up to the first error and that
/// error.
pub open spec fn scan_from(src: Seq<char>, pos: int) -> Seq<Result<TokenView, ScanErrorView>>
    decreases src.len() - pos,
{
    if pos < 0 || pos >= src.len() {
        seq![Ok(eof_token(src))]
    } else {
        let end = scan_step(src, pos).end;
        if end <= pos || end > src.len() {
            Seq::empty()
        } else {
            match step_result(src, pos) {
                None => scan_from(src, end),
                Some(Ok(t)) => seq![Ok(t)] + scan_from(src, end),
                Some(Err(e)) => seq![Err(e)],
            }
        }
    }
}

/// Everything a scanner of `src` hands out.
pub open spec fn scan_all(src: Seq<char>) -> Seq<Result<TokenView, ScanErrorView>> {
    scan_from(src, 0)
}

pub proof fn lemma_count_newlines_bound(s: Seq<char>)
    ensures
        count_newlines(s) <= s.len(),
    decreases s.len(),
{
    if s.len() > 0 {
        lemma_count_newlines_bound(s.drop_last());
    }
}

/// Whether two texts are the same.
fn same_text(a: &str, b: &str) -> (r: bool)
    ensures
        r == (a@ == b@),
{
    let n: usize = a.unicode_len();
    if n != b.unicode_len() {
        return false;
    }
    let mut i: usize = 0;
    while i < n
        invariant
            n == a@.len(),
            n == b@.len(),
            i <= n,
            a@.subrange(0, i as int) == b@.subrange(0, i as int),
        decreases n - i,
    {
        if a.get_char(i) != b.get_char(i) {
            return false;
        }
        assert(a@.subrange(0, i + 1) =~= a@.subrange(0, i as int).push(a@[i as int]));
        assert(b@.subrange(0, i + 1) =~= b@.subrange(0, i as int).push(b@[i as int]));
        i += 1;
    }
    assert(a@.subrange(0, n as int) =~= a@);
    assert(b@.subrange(0, n as int) =~= b@);
    true
}

/// Looks a word up among the reserved words.
pub fn keyword_type(text: &str) -> (r: Option<TokenType>)
    ensures
        r == keyword(text@),
{
    if same_text(text, "and") {
        Some(TokenType::And)
    } else if same_text(text, "class") {
        Some(TokenType::Class)
    } else if same_text(text, "else") {
        Some(TokenType::Else)
    } else if same_text(text, "false") {
        Some(TokenType::False)
    } else if same_text(text, "for") {
        Some(TokenType::For)
    } else if same_text(text, "fun") {
        Some(TokenType::Fun)
    } else if same_text(text, "if") {
        Some(TokenType::If)
    } else if same_text(text, "nil") {
        Some(TokenType::Nil)
    } else if same_text(text, "or") {
        Some(TokenType::Or)
    } else if same_text(text, "print") {
        Some(TokenType::Print)
    } else if same_text(text, "return") {
        Some(TokenType::Return)
    } else if same_text(text, "super") {
        Some(TokenType::Super)
    } else if same_text(text, "this") {
        Some(TokenType::This)
    } else if same_text(text, "true") {
        Some(TokenType::True)
    } else if same_text(text, "var") {
        Some(TokenType::Var)
    } else if same_text(text, "while") {
        Some(TokenType::While)
    } else {
        None
    }
}

/// A forward-only, single-pass scanner over one source text.
pub struct Scanner<'a> {
    source: &'a str,
    len: usize,
    start: usize,
    current: usize,
    line: usize,
    done: bool,
}

impl<'a> Scanner<'a> {
    /// The text being scanned.
    pub closed spec fn source_spec(&self) -> Seq<char> {
        self.source@
    }

    /// The cursors lie inside the text, and the line counter is the line of
    /// the cursor.
    pub closed spec fn wf(&self) -> bool {
        &&& self.len == self.source@.len()
        &&& self.len < usize::MAX
        &&& self.start <= self.current <= self.len
        &&& self.line == line_at(self.source@, self.current as int)
    }

    /// The cursor.
    pub closed spec fn position(&self) -> int {
        self.current as int
    }

    /// Whether the end-of-file token or an error has been handed out.
    pub closed spec fn finished(&self) -> bool {
        self.done
    }

    /// What the scanner has yet to hand out.
    pub closed spec fn remaining(&self) -> Seq<Result<TokenView, ScanErrorView>> {
        if self.done {
            Seq::empty()
        } else {
            scan_from(self.source@, self.current as int)
        }
    }

    pub fn new(source: &'a str) -> (sc: Self)
        requires
            source@.len() < usize::MAX,
        ensures
            sc.wf(),
            sc.source_spec() == source@,
            sc.position() == 0,
            !sc.finished(),
            sc.remaining() == scan_all(source@),
    {
        let len: usize = source.unicode_len();
        assert(source@.subrange(0, 0) =~= Seq::<char>::empty());
        Scanner { source, len, start: 0, current: 0, line: 1, done: false }
    }

    /// A scanner of `source`, unless `source` is so long that its lines
    /// could not be counted.
    pub fn try_new(source: &'a str) -> (r: Option<Self>)
        ensures
            r.is_some() == (source@.len() < usize::MAX),
            match r {
                Some(sc) => {
                    &&& sc.wf()
                    &&& sc.source_spec() == source@
                    &&& sc.position() == 0
                    &&& !sc.finished()
                    &&& sc.remaining() == scan_all(source@)
                },
                None => true,
            },
    {
        if source.unicode_len() < usize::MAX {
            Some(Scanner::new(source))
        } else {
            None
        }
    }

    fn is_at_end(&self) -> (b: bool)
        requires
            self.wf(),
        ensures
            b == (self.current >= self.len),
    {
        self.current >= self.len
    }

    /// Consumes one character, counting the line it ends.
    fn advance(&mut self) -> (c: char)
        requires
            old(self).wf(),
            old(self).current < old(self).len,
        ensures
            final(self).wf(),
            final(self).source == old(self).source,
            final(self).start == old(self).start,
            final(self).done == old(self).done,
            final(self).current == old(self).current + 1,
            c == old(self).source@[old(self).current as int],
    {
        let c = self.source.get_char(self.current);
        proof {
            let src = self.source@;
            let cur = self.current as int;
            assert(src.subrange(0, cur + 1).drop_last() =~= src.subrange(0, cur));
            lemma_count_newlines_bound(src.subrange(0, cur));
        }
        if c == '\n' {
            self.line += 1;
        }
        self.current += 1;
        c
    }

    fn peek(&self) -> (c: char)
        requires
            self.wf(),
        ensures
            c == if self.current < self.len {
                self.source@[self.current as int]
            } else {
                '\0'
            },
    {
        if self.is_at_end() {
            return '\0';
        }
        self.source.get_char(self.current)
    }

    fn peek_next(&self) -> (c: char)
        requires
            self.wf(),
        ensures
            c == if self.current + 1 < self.len {
                self.source@[self.current + 1]
            } else {
                '\0'
            },
    {
        if self.len - self.current <= 1 {
            return '\0';
        }
        self.source.get_char(self.current + 1)
    }

    fn match_next(&mut self, expected: char) -> (b: bool)
        requires
            old(self).wf(),
        ensures
            final(self).wf(),
            final(self).source == old(self).source,
            final(self).start == old(self).start,
            final(self).done == old(self).done,
            b == (old(self).current < old(self).len && old(self).source@[old(self).current as int]
                == expected),
            final(self).current == if b {
                old(self).current + 1
            } else {
                old(self).current as int
            },
    {
        if self.is_at_end() {
            return false;
        }
        if self.source.get_char(self.current) != expected {
            return false;
        }
        self.advance();
        true
    }

    /// Consumes the run that starts at the cursor.
    fn consume(&mut self, run: Run)
        requires
            old(self).wf(),
        ensures
            final(self).wf(),
            final(self).source == old(self).source,
            final(self).start == old(self).start,
            final(self).done == old(self).done,
            final(self).current == run_end(old(self).source@, old(self).current as int, run),
            final(self).current >= old(self).current,
    {
        while !self.is_at_end() && run.has(self.peek())
            invariant
                self.wf(),
                self.source == old(self).source,
                self.start == old(self).start,
                self.done == old(self).done,
                self.current >= old(self).current,
                run_end(self.source@, self.current as int, run) == run_end(
                    old(self).source@,
                    old(self).current as int,
                    run,
                ),
            decreases self.len - self.current,
        {
            self.advance();
        }
    }

    /// Consumes a string's body and closing quote; the cursor stands behind
    /// the opening quote.
    fn string(&mut self) -> (r: Result<String, ScanError>)
        requires
            old(self).wf(),
            old(self).start + 1 == old(self).current,
        ensures
            final(self).wf(),
            final(self).source == old(self).source,
            final(self).start == old(self).start,
            final(self).done == old(self).done,
            final(self).current >= old(self).current,
            ({
                let src = old(self).source@;
                let close = run_end(src, old(self).current as int, Run::StringBody);
                match r {
                    Ok(s) => close < src.len() && final(self).current == close + 1 && s@
                        == src.subrange(old(self).current as int, close),
                    Err(e) => close >= src.len() && final(self).current == src.len() && e
                        == (ScanError::UnterminatedString { line: final(self).line }),
                }
            }),
    {
        self.consume(Run::StringBody);
        if self.is_at_end() {
            return Err(ScanError::UnterminatedString { line: self.line });
        }
        // the closing quote
        self.advance();
        let value = self.source.substring_char(self.start + 1, self.current - 1);
        Ok(String::from_str(value))
    }

    /// Consumes the rest of a number; the cursor stands behind its first
    /// digit.
    fn number(&mut self) -> (n: Number)
        requires
            old(self).wf(),
            old(self).start + 1 == old(self).current,
            is_digit(old(self).source@[old(self).start as int]),
        ensures
            final(self).wf(),
            final(self).source == old(self).source,
            final(self).start == old(self).start,
            final(self).done == old(self).done,
            final(self).current > old(self).start,
            scan_step(old(self).source@, old(self).start as int) == (Step {
                what: Lexed::Token(
                    TokenType::Number,
                    Some(LiteralView { text: None, number: Some(n@) }),
                ),
                end: final(self).current as int,
            }),
    {
        let ghost src = self.source@;
        let ghost pos = self.start as int;
        assert(run_end(src, pos, Run::Digits) == run_end(src, pos + 1, Run::Digits));
        self.consume(Run::Digits);
        let point: usize = self.current;
        proof {
            reveal_strlit("");
            assert(""@ =~= Seq::<char>::empty());
        }
        let whole = self.source.substring_char(self.start, point);
        // look for the fractional part
        if self.peek() == '.' && Run::Digits.has(self.peek_next()) {
            // consume the "."
            self.advance();
            self.consume(Run::Digits);
            let frac = self.source.substring_char(point + 1, self.current);
            Number::from_digits(whole, frac)
        } else {
            Number::from_digits(whole, "")
        }
    }

    /// Consumes the rest of a word and classifies it; the cursor stands
    /// behind its first character.
    fn identifier(&mut self) -> (t: Token)
        requires
            old(self).wf(),
            old(self).start + 1 == old(self).current,
            is_alpha(old(self).source@[old(self).start as int]),
        ensures
            final(self).wf(),
            final(self).source == old(self).source,
            final(self).start == old(self).start,
            final(self).done == old(self).done,
            final(self).current > old(self).start,
            final(self).current == run_end(old(self).source@, old(self).start as int, Run::Word),
            t@ == (TokenView {
                token_type: word_type(
                    old(self).source@.subrange(old(self).start as int, final(self).current as int),
                ),
                lexeme: old(self).source@.subrange(
                    old(self).start as int,
                    final(self).current as int,
                ),
                literal: None,
                line: final(self).line as int,
            }),
    {
        self.consume(Run::Word);
        let text = self.source.substring_char(self.start, self.current);
        match keyword_type(text) {
            Some(keyword) => self.add_token(keyword),
            None => self.add_token(TokenType::Identifier),
        }
    }

    fn is_alpha(&self, ch: char) -> (b: bool)
        ensures
            b == is_alpha(ch),
    {
        (ch >= 'a' && ch <= 'z') || (ch >= 'A' && ch <= 'Z') || ch == '_'
    }

    /// Consumes a block comment's body and its end; the cursor stands
    /// behind the comment's opening.
    fn block_comment(&mut self)
        requires
            old(self).wf(),
        ensures
            final(self).wf(),
            final(self).source == old(self).source,
            final(self).start == old(self).start,
            final(self).done == old(self).done,
            final(self).current == comment_end(old(self).source@, old(self).current as int),
            final(self).current >= old(self).current,
    {
        while !self.is_at_end()
            invariant
                self.wf(),
                self.source == old(self).source,
                self.start == old(self).start,
                self.done == old(self).done,
                self.current >= old(self).current,
                self.current < self.len ==> comment_end(self.source@, self.current as int)
                    == comment_end(old(self).source@, old(self).current as int),
                self.current == self.len ==> self.current == comment_end(
                    old(self).source@,
                    old(self).current as int,
                ),
            decreases self.len - self.current,
        {
            let c = self.advance();
            if c == '*' && self.peek() == '/' {
                self.advance();
                return ;
            }
        }
    }

    /// One step: the token it finds, if any.
    fn scan_token(&mut self) -> (r: Result<Option<Token>, ScanError>)
        requires
            old(self).wf(),
            old(self).start == old(self).current,
            old(self).current < old(self).len,
        ensures
            final(self).wf(),
            final(self).source == old(self).source,
            final(self).done == old(self).done,
            final(self).current > old(self).current,
            final(self).current == scan_step(old(self).source@, old(self).current as int).end,
            step_result(old(self).source@, old(self).current as int) == match r {
                Ok(Some(t)) => Some(Ok(t@)),
                Ok(None) => None,
                Err(e) => Some(Err(e@)),
            },
    {
        let c = self.advance();
        if c == '(' {
            Ok(Some(self.add_token(TokenType::LeftParen)))
        } else if c == ')' {
            Ok(Some(self.add_token(TokenType::RightParen)))
        } else if c == '{' {
            Ok(Some(self.add_token(TokenType::LeftBrace)))
        } else if c == '}' {
            Ok(Some(self.add_token(TokenType::RightBrace)))
        } else if c == ',' {
            Ok(Some(self.add_token(TokenType::Comma)))
        } else if c == '.' {
            Ok(Some(self.add_token(TokenType::Dot)))
        } else if c == '-' {
            Ok(Some(self.add_token(TokenType::Minus)))
        } else if c == '+' {
            Ok(Some(self.add_token(TokenType::Plus)))
        } else if c == ';' {
            Ok(Some(self.add_token(TokenType::Semicolon)))
        } else if c == '*' {
            Ok(Some(self.add_token(TokenType::Star)))
        } else if c == '!' {
            let matches_next = self.match_next('=');
            Ok(Some(self.add_token(if matches_next {
                TokenType::BangEqual
            } else {
                TokenType::Bang
            })))
        } else if c == '=' {
            let matches_next = self.match_next('=');
            Ok(Some(self.add_token(if matches_next {
                TokenType::EqualEqual
            } else {
                TokenType::Equal
            })))
        } else if c == '<' {
            let matches_next = self.match_next('=');
            Ok(Some(self.add_token(if matches_next {
                TokenType::LessEqual
            } else {
                TokenType::Less
            })))
        } else if c == '>' {
            let matches_next = self.match_next('=');
            Ok(Some(self.add_token(if matches_next {
                TokenType::GreaterEqual
            } else {
                TokenType::Greater
            })))
        } else if c == '/' {
            if self.match_next('/') {
                // a comment up to the end of the line
                self.consume(Run::LineRest);
                Ok(None)
            } else if self.match_next('*') {
                self.block_comment();
                Ok(None)
            } else {
                Ok(Some(self.add_token(TokenType::Slash)))
            }
        } else if c == '"' {
            match self.string() {
                Ok(text) => {
                    let tok = self.add_token_(
                        TokenType::String,
                        Some(TokenLiteral::from_string(text.as_str())),
                    );
                    Ok(Some(tok))
                },
                Err(err) => Err(err),
            }
        } else if c == ' ' || c == '\r' || c == '\t' || c == '\n' {
            Ok(None)
        } else if Run::Digits.has(c) {
            let num = self.number();
            let tok = self.add_token_(TokenType::Number, Some(TokenLiteral::from_number(num)));
            Ok(Some(tok))
        } else if self.is_alpha(c) {
            Ok(Some(self.identifier()))
        } else {
            Err(ScanError::UnexpectedCharacter { line: self.line, ch: c })
        }
    }

    fn add_token(&self, token_type: TokenType) -> (t: Token)
        requires
            self.wf(),
        ensures
            t@ == (TokenView {
                token_type,
                lexeme: self.source@.subrange(self.start as int, self.current as int),
                literal: None,
                line: self.line as int,
            }),
    {
        self.add_token_(token_type, None)
    }

    fn add_token_(&self, token_type: TokenType, literal: Option<TokenLiteral>) -> (t: Token)
        requires
            self.wf(),
        ensures
            t@ == (TokenView {
                token_type,
                lexeme: self.source@.subrange(self.start as int, self.current as int),
                literal: match literal {
                    Some(l) => Some(l@),
                    None => None,
                },
                line: self.line as int,
            }),
    {
        let text = self.source.substring_char(self.start, self.current);
        Token::new(token_type, String::from_str(text), literal, self.line)
    }

    /// The next token or error; `None` once the end-of-file token or an
    /// error has been handed out.
    pub fn next(&mut self) -> (r: Option<Result<Token, ScanError>>)
        requires
            old(self).wf(),
        ensures
            final(self).wf(),
            final(self).source_spec() == old(self).source_spec(),
            match r {
                None => old(self).remaining().len() == 0 && final(self).remaining().len() == 0,
                Some(x) => old(self).remaining().len() > 0 && result_view(x) == old(
                    self,
                ).remaining()[0] && final(self).remaining() == old(self).remaining().skip(1) && (
                x.is_err() ==> final(self).remaining().len() == 0),
            },
    {
        if self.done {
            return None;
        }
        loop
            invariant
                self.wf(),
                !self.done,
                self.source == old(self).source,
                scan_from(self.source@, self.current as int) == old(self).remaining(),
            decreases self.len - self.current,
        {
            if self.is_at_end() {
                self.done = true;
                let eof = Token::new(TokenType::Eof, String::new(), None, self.line);
                assert(old(self).remaining().skip(1) =~= Seq::empty());
                return Some(Ok(eof));
            }
            self.start = self.current;
            match self.scan_token() {
                Ok(Some(token)) => {
                    assert(old(self).remaining().skip(1) =~= scan_from(
                        self.source@,
                        self.current as int,
                    ));
                    return Some(Ok(token));
                },
                Ok(None) => {},
                Err(err) => {
                    self.done = true;
                    assert(old(self).remaining().skip(1) =~= Seq::empty());
                    return Some(Err(err));
                },
            }
        }
    }
}

/// The outputs that hand out `tokens`, one by one.
pub open spec fn all_ok(tokens: Seq<Token>) -> Seq<Result<TokenView, ScanErrorView>> {
    Seq::new(tokens.len(), |i: int| Ok(tokens[i]@))
}

/// Scans the whole of `source`: its tokens with the end-of-file token last,
/// or the first error.
pub fn scan_tokens(source: &str) -> (r: Result<Vec<Token>, ScanError>)
    requires
        source@.len() < usize::MAX,
    ensures
        match r {
            Ok(tokens) => {
                &&& scan_all(source@) == all_ok(tokens@)
                &&& tokens.len() > 0
                &&& tokens@.last()@ == eof_token(source@)
                &&& forall|i: int| 0 <= i < tokens.len() ==> (#[trigger] tokens[i])@.wf()
            },
            Err(e) => scan_all(source@).len() > 0 && scan_all(source@).last() == Err::<
                TokenView,
                ScanErrorView,
            >(e@),
        },
{
    let mut scanner = Scanner::new(source);
    let mut tokens: Vec<Token> = Vec::new();
    assert(all_ok(tokens@) + scanner.remaining() =~= scan_all(source@));
    loop
        invariant
            scanner.wf(),
            scan_all(source@) == all_ok(tokens@) + scanner.remaining(),
        decreases scanner.remaining().len(),
    {
        let ghost before = scanner.remaining();
        let ghost seen = tokens@;
        match scanner.next() {
            None => {
                assert(all_ok(tokens@) + before =~= all_ok(tokens@));
                proof {
                    lemma_scan_shape(source@, 0);
                    let out = scan_all(source@);
                    assert(out.last() == Ok::<TokenView, ScanErrorView>(tokens@.last()@));
                    assert forall|i: int| 0 <= i < tokens.len() implies (#[trigger] tokens[i])@.wf() by {
                        assert(out[i] == Ok::<TokenView, ScanErrorView>(tokens[i]@));
                        if i < tokens.len() - 1 {
                            assert(is_inner_token(out[i]));
                        }
                    }
                }
                return Ok(tokens);
            },
            Some(Ok(token)) => {
                tokens.push(token);
                assert(all_ok(tokens@) + scanner.remaining() =~= all_ok(seen) + before);
            },
            Some(Err(e)) => {
                assert(before =~= seq![Err::<TokenView, ScanErrorView>(e@)]);
                return Err(e);
            },
        }
    }
}

/// A run ends at or after its start and inside the text; every character
/// before its end belongs to the run, and the character at its end does not.
pub proof fn lemma_run_end(s: Seq<char>, from: int, run: Run)
    requires
        0 <= from <= s.len(),
    ensures
        from <= run_end(s, from, run) <= s.len(),
        forall|i: int| from <= i < run_end(s, from, run) ==> run.keeps(#[trigger] s[i]),
        run_end(s, from, run) < s.len() ==> !run.keeps(s[run_end(s, from, run)]),
    decreases s.len() - from,
{
    if from < s.len() && run.keeps(s[from]) {
        lemma_run_end(s, from + 1, run);
    }
}

/// A block comment ends at or after the start of its body and inside the
/// text.
pub proof fn lemma_comment_end(s: Seq<char>, from: int)
    requires
        0 <= from <= s.len(),
    ensures
        from <= comment_end(s, from) <= s.len(),
    decreases s.len() - from,
{
    if from + 1 < s.len() && !(s[from] == '*' && s[from + 1] == '/') {
        lemma_comment_end(s, from + 1);
    }
}

/// Every step consumes at least one character and stays inside the text.
pub proof fn lemma_step_advances(src: Seq<char>, pos: int)
    requires
        0 <= pos < src.len(),
    ensures
        pos < scan_step(src, pos).end <= src.len(),
{
    lemma_run_end(src, pos + 1, Run::StringBody);
    lemma_run_end(src, pos + 1, Run::Digits);
    lemma_run_end(src, pos + 1, Run::Word);
    if pos + 2 <= src.len() {
        lemma_run_end(src, pos + 2, Run::LineRest);
        lemma_comment_end(src, pos + 2);
    }
    let point = run_end(src, pos, Run::Digits);
    if is_digit(src[pos]) && point + 1 < src.len() {
        lemma_run_end(src, point + 1, Run::Digits);
    }
}

/// How an operator is spelled; the empty text for every other category.
pub open spec fn operator_text(t: TokenType) -> Seq<char> {
    match t {
        TokenType::Minus => seq!['-'],
        TokenType::Plus => seq!['+'],
        TokenType::Slash => seq!['/'],
        TokenType::Star => seq!['*'],
        TokenType::Bang => seq!['!'],
        TokenType::BangEqual => seq!['!', '='],
        TokenType::Equal => seq!['='],
        TokenType::EqualEqual => seq!['=', '='],
        TokenType::Greater => seq!['>'],
        TokenType::GreaterEqual => seq!['>', '='],
        TokenType::Less => seq!['<'],
        TokenType::LessEqual => seq!['<', '='],
        _ => Seq::empty(),
    }
}

/// A step that finds a token hands out one whose lexeme is exactly the
/// text that the step consumed; where the token is an operator of one or
/// two characters, that text is the operator's spelling.
pub proof fn lemma_lexeme_is_consumed_text(src: Seq<char>, pos: int)
    requires
        0 <= pos < src.len(),
    ensures
        match step_result(src, pos) {
            Some(Ok(t)) => t.lexeme == src.subrange(pos, scan_step(src, pos).end) && (
            operator_text(t.token_type).len() > 0 ==> t.lexeme == operator_text(t.token_type)),
            _ => true,
        },
{
    lemma_step_advances(src, pos);
    let end = scan_step(src, pos).end;
    match step_result(src, pos) {
        Some(Ok(t)) => {
            if operator_text(t.token_type).len() > 0 {
                lemma_word_is_no_operator(src.subrange(pos, run_end(src, pos, Run::Word)));
                assert(src.subrange(pos, end) =~= operator_text(t.token_type));
            }
        },
        _ => {},
    }
}

proof fn lemma_word_is_no_operator(text: Seq<char>)
    ensures
        operator_text(word_type(text)).len() == 0,
        !word_type(text).has_literal(),
        word_type(text) != TokenType::Eof,
{
}

/// Every token that a step hands out carries a literal exactly when it is
/// a string or a number, and one of its own kind.
pub proof fn lemma_step_token_wf(src: Seq<char>, pos: int)
    requires
        0 <= pos < src.len(),
    ensures
        match step_result(src, pos) {
            Some(Ok(t)) => t.wf() && t.token_type != TokenType::Eof,
            _ => true,
        },
{
    lemma_word_is_no_operator(src.subrange(pos, run_end(src, pos, Run::Word)));
}

/// Maximal munch: a word's lexeme runs on to the first character that
/// cannot continue a word, and the whole of it decides between a reserved
/// word and an identifier.
pub proof fn lemma_maximal_munch(src: Seq<char>, pos: int)
    requires
        0 <= pos < src.len(),
        is_alpha(src[pos]),
    ensures
        ({
            let end = scan_step(src, pos).end;
            &&& pos < end <= src.len()
            &&& forall|i: int| pos <= i < end ==> Run::Word.keeps(#[trigger] src[i])
            &&& end < src.len() ==> !Run::Word.keeps(src[end])
            &&& scan_step(src, pos).what == Lexed::Token(word_type(src.subrange(pos, end)), None)
        }),
{
    lemma_run_end(src, pos, Run::Word);
}

/// The line counter advances by exactly the number of line feeds consumed:
/// between two positions the line grows by the line feeds that lie between
/// them.
pub proof fn lemma_lines_advance(src: Seq<char>, pos: int, end: int)
    requires
        0 <= pos <= end <= src.len(),
    ensures
        line_at(src, end) == line_at(src, pos) + count_newlines(src.subrange(pos, end)),
    decreases end - pos,
{
    if pos == end {
        assert(src.subrange(pos, end) =~= Seq::<char>::empty());
    } else {
        lemma_lines_advance(src, pos, end - 1);
        assert(src.subrange(0, end).drop_last() =~= src.subrange(0, end - 1));
        assert(src.subrange(pos, end).drop_last() =~= src.subrange(pos, end - 1));
    }
}

/// A string whose closing quote is missing gives the error, on the line
/// where the text ends.
pub proof fn lemma_unterminated_string(src: Seq<char>, pos: int)
    requires
        0 <= pos < src.len(),
        src[pos] == '"',
        forall|i: int| pos < i < src.len() ==> src[i] != '"',
    ensures
        step_result(src, pos) == Some(
            Err::<TokenView, ScanErrorView>(
                ScanErrorView::UnterminatedString { line: line_at(src, src.len() as int) },
            ),
        ),
{
    lemma_run_end(src, pos + 1, Run::StringBody);
}

/// A well-formed token that is not the end-of-file token.
pub open spec fn is_inner_token(out: Result<TokenView, ScanErrorView>) -> bool {
    match out {
        Ok(t) => t.token_type != TokenType::Eof && t.wf(),
        Err(e) => false,
    }
}

/// Every scan hands out something; all but its last output are tokens
/// that are not the end-of-file token, and its last output is the
/// end-of-file token or an error.
pub proof fn lemma_scan_shape(src: Seq<char>, pos: int)
    requires
        0 <= pos <= src.len(),
    ensures
        scan_from(src, pos).len() > 0,
        scan_from(src, pos).last() == Ok::<TokenView, ScanErrorView>(eof_token(src)) || scan_from(
            src,
            pos,
        ).last().is_err(),
        forall|i: int|
            0 <= i < scan_from(src, pos).len() - 1 ==> is_inner_token(
                #[trigger] scan_from(src, pos)[i],
            ),
    decreases src.len() - pos,
{
    if pos < src.len() {
        lemma_step_advances(src, pos);
        lemma_step_token_wf(src, pos);
        let end = scan_step(src, pos).end;
        lemma_scan_shape(src, end);
        let rest = scan_from(src, end);
        match step_result(src, pos) {
            Some(Ok(t)) => {
                let out = seq![Ok::<TokenView, ScanErrorView>(t)] + rest;
                assert(scan_from(src, pos) == out);
                assert(out.last() == rest.last());
                assert forall|i: int| 0 <= i < out.len() - 1 implies is_inner_token(
                    #[trigger] out[i],
                ) by {
                    if i > 0 {
                        assert(out[i] == rest[i - 1]);
                    }
                }
            },
            _ => {},
        }
    }
}

/// Two scanners that stand at the same place of the same text hand out the
/// same tokens and errors from there on.
pub proof fn lemma_scan_deterministic(a: Scanner, b: Scanner)
    requires
        a.wf(),
        b.wf(),
        a.source_spec() == b.source_spec(),
        a.position() == b.position(),
        a.finished() == b.finished(),
    ensures
        a.remaining() == b.remaining(),
{
}

} // verus!
