//! Tokens, and the lexer that cuts one line of source text into them.

use crate::errors::{
    errors_view, CompilerResult, Error, ErrorKindView, ErrorView, Location, LocationView,
    PartialLocation, PartialLocationView,
};
use crate::text::{
    char_is_alnum, char_is_alpha, char_is_digit, chars_of, digit_value, digits_value, is_alnum,
    is_alpha, is_digit, trim_chars, trim_end,
};
use vstd::prelude::*;
use vstd::string::{StrSliceExecFns, StringExecFns};

verus! {

/// A lexical unit of a source line.
#[derive(Debug, PartialEq, PartialOrd)]
pub enum Token {
    /// The operator `+`.
    Plus,
    /// The operator `-`.
    Minus,
    /// The operator `*`.
    Mul,
    /// The operator `/`.
    Div,
    /// An integer literal; the language has no other numbers.
    Int(u64),
    /// A string literal, without its quotes.
    String(String),
    /// A name that is no keyword.
    Identifier(String),
    /// One of the keywords.
    Keyword(String),
    /// A comma.
    Coma,
    /// An opening parenthesis.
    OpeningParen,
    /// A closing parenthesis.
    ClosingParen,
    /// The assignment sign `=`.
    Assign,
    /// Stands where a lexeme could not be made into a token; a diagnostic
    /// says why.
    Error,
}

/// What a [`Token`] holds.
pub enum TokenView {
    Plus,
    Minus,
    Mul,
    Div,
    Int(u64),
    String(Seq<char>),
    Identifier(Seq<char>),
    Keyword(Seq<char>),
    Coma,
    OpeningParen,
    ClosingParen,
    Assign,
    Error,
}

impl TokenView {
    /// The name of a token's class, as diagnostics give it.
    pub open spec fn class_name(self) -> Seq<char> {
        match self {
            TokenView::Plus => "Plus"@,
            TokenView::Minus => "Minus"@,
            TokenView::Mul => "Mul"@,
            TokenView::Div => "Div"@,
            TokenView::Int(_) => "Int"@,
            TokenView::String(_) => "String"@,
            TokenView::Identifier(_) => "Identifier"@,
            TokenView::Keyword(_) => "Keyword"@,
            TokenView::Coma => "Comma"@,
            TokenView::OpeningParen => "OpeningParen"@,
            TokenView::ClosingParen => "ClosingParen"@,
            TokenView::Assign => "Assign"@,
            TokenView::Error => "ErrorToken"@,
        }
    }

    /// Whether two tokens are of one class, whatever they carry.
    pub open spec fn same(self, other: TokenView) -> bool {
        match (self, other) {
            (TokenView::Plus, TokenView::Plus) => true,
            (TokenView::Minus, TokenView::Minus) => true,
            (TokenView::Mul, TokenView::Mul) => true,
            (TokenView::Div, TokenView::Div) => true,
            (TokenView::Int(_), TokenView::Int(_)) => true,
            (TokenView::String(_), TokenView::String(_)) => true,
            (TokenView::Identifier(_), TokenView::Identifier(_)) => true,
            (TokenView::Keyword(_), TokenView::Keyword(_)) => true,
            (TokenView::Coma, TokenView::Coma) => true,
            (TokenView::OpeningParen, TokenView::OpeningParen) => true,
            (TokenView::ClosingParen, TokenView::ClosingParen) => true,
            (TokenView::Assign, TokenView::Assign) => true,
            (TokenView::Error, TokenView::Error) => true,
            _ => false,
        }
    }
}

impl View for Token {
    type V = TokenView;

    open spec fn view(&self) -> TokenView {
        match self {
            Token::Plus => TokenView::Plus,
            Token::Minus => TokenView::Minus,
            Token::Mul => TokenView::Mul,
            Token::Div => TokenView::Div,
            Token::Int(value) => TokenView::Int(*value),
            Token::String(text) => TokenView::String(text@),
            Token::Identifier(name) => TokenView::Identifier(name@),
            Token::Keyword(word) => TokenView::Keyword(word@),
            Token::Coma => TokenView::Coma,
            Token::OpeningParen => TokenView::OpeningParen,
            Token::ClosingParen => TokenView::ClosingParen,
            Token::Assign => TokenView::Assign,
            Token::Error => TokenView::Error,
        }
    }
}

impl Clone for Token {
    fn clone(&self) -> (r: Self)
        ensures
            r == *self,
    {
        match self {
            Token::Plus => Token::Plus,
            Token::Minus => Token::Minus,
            Token::Mul => Token::Mul,
            Token::Div => Token::Div,
            Token::Int(value) => Token::Int(*value),
            Token::String(text) => Token::String(text.clone()),
            Token::Identifier(name) => Token::Identifier(name.clone()),
            Token::Keyword(word) => Token::Keyword(word.clone()),
            Token::Coma => Token::Coma,
            Token::OpeningParen => Token::OpeningParen,
            Token::ClosingParen => Token::ClosingParen,
            Token::Assign => Token::Assign,
            Token::Error => Token::Error,
        }
    }
}

impl Token {
    /// Tells whether `self` and `other` are of one class, whatever they
    /// carry.
    pub fn same(&self, other: &Token) -> (r: bool)
        ensures
            r == self@.same(other@),
    {
        match (self, other) {
            (Token::Plus, Token::Plus) => true,
            (Token::Minus, Token::Minus) => true,
            (Token::Mul, Token::Mul) => true,
            (Token::Div, Token::Div) => true,
            (Token::Int(_), Token::Int(_)) => true,
            (Token::String(_), Token::String(_)) => true,
            (Token::Identifier(_), Token::Identifier(_)) => true,
            (Token::Keyword(_), Token::Keyword(_)) => true,
            (Token::Coma, Token::Coma) => true,
            (Token::OpeningParen, Token::OpeningParen) => true,
            (Token::ClosingParen, Token::ClosingParen) => true,
            (Token::Assign, Token::Assign) => true,
            (Token::Error, Token::Error) => true,
            _ => false,
        }
    }

    /// The name of this token's class, as diagnostics give it.
    pub fn class_name(&self) -> (r: &'static str)
        ensures
            r@ == self@.class_name(),
    {
        match self {
            Token::Plus => "Plus",
            Token::Minus => "Minus",
            Token::Mul => "Mul",
            Token::Div => "Div",
            Token::Int(_) => "Int",
            Token::String(_) => "String",
            Token::Identifier(_) => "Identifier",
            Token::Keyword(_) => "Keyword",
            Token::Coma => "Comma",
            Token::OpeningParen => "OpeningParen",
            Token::ClosingParen => "ClosingParen",
            Token::Assign => "Assign",
            Token::Error => "ErrorToken",
        }
    }
}

/// The views of a list of tokens, in order.
pub open spec fn tokens_view(tokens: Seq<Token>) -> Seq<TokenView> {
    tokens.map_values(|t: Token| t@)
}

/// The characters that may directly follow a numeric or string literal.
pub open spec fn is_follower(c: char) -> bool {
    c == '+' || c == '-' || c == '*' || c == '/' || c == ' ' || c == ',' || c == ')'
}

/// The token that a punctuation character stands for.
pub open spec fn punctuation(c: char) -> Option<TokenView> {
    if c == ',' {
        Some(TokenView::Coma)
    } else if c == '(' {
        Some(TokenView::OpeningParen)
    } else if c == ')' {
        Some(TokenView::ClosingParen)
    } else if c == '+' {
        Some(TokenView::Plus)
    } else if c == '-' {
        Some(TokenView::Minus)
    } else if c == '*' {
        Some(TokenView::Mul)
    } else if c == '/' {
        Some(TokenView::Div)
    } else if c == '=' {
        Some(TokenView::Assign)
    } else {
        None
    }
}

/// The keywords: `if`, `else`, `var` and `print`, in lower case.
pub open spec fn is_keyword(word: Seq<char>) -> bool {
    word == "if"@ || word == "else"@ || word == "var"@ || word == "print"@
}

/// The end of the longest run of digits of `s` that starts at `i`.
pub open spec fn digits_end(s: Seq<char>, i: int) -> int
    decreases s.len() - i,
{
    if 0 <= i < s.len() && is_digit(s[i]) {
        digits_end(s, i + 1)
    } else {
        i
    }
}

/// The end of the longest run of letters and digits of `s` that starts at
/// `i`.
pub open spec fn word_end(s: Seq<char>, i: int) -> int
    decreases s.len() - i,
{
    if 0 <= i < s.len() && is_alnum(s[i]) {
        word_end(s, i + 1)
    } else {
        i
    }
}

/// The place of the first double quote of `s` at or after `i`; the length of
/// `s` if there is none.
pub open spec fn quote_at(s: Seq<char>, i: int) -> int
    decreases s.len() - i,
{
    if 0 <= i < s.len() && s[i] != '"' {
        quote_at(s, i + 1)
    } else {
        i
    }
}

/// The character offset that a diagnostic gives for place `i` of a line:
/// `i` reduced to 32 bits.
pub open spec fn offset(i: int) -> u32 {
    i as u32
}

/// The diagnostic for the character at place `i` of the line `s`, which may
/// not stand there.
pub open spec fn illegal_character_at(s: Seq<char>, pl: PartialLocationView, i: int) -> ErrorView {
    ErrorView::of(ErrorKindView::IllegalCharacter(s[i] as u32), pl.at(offset(i)), s)
}

/// The diagnostic for the integer literal at place `i` of the line `s`, which
/// exceeds 64 bits.
pub open spec fn integer_overflow_at(s: Seq<char>, pl: PartialLocationView, i: int) -> ErrorView {
    ErrorView::of(ErrorKindView::IntegerOverflow, pl.at(offset(i)), s)
}

/// The diagnostic for a string literal of the line `s` that is not closed. It
/// names no place.
pub open spec fn string_closing_of(s: Seq<char>) -> ErrorView {
    ErrorView::of(
        ErrorKindView::StringClosingError,
        LocationView { filename: "not specified"@, line: 0, char_pos: 0 },
        s,
    )
}

/// What the check after a numeric or string literal reports, where the
/// literal ends at place `j` of the line `s`: nothing at the end of the line
/// or before a follower, else the character at `j`.
pub open spec fn follow_errors(s: Seq<char>, pl: PartialLocationView, j: int) -> Seq<ErrorView> {
    if 0 <= j < s.len() && !is_follower(s[j]) {
        seq![illegal_character_at(s, pl, j)]
    } else {
        seq![]
    }
}

/// One step of the lexer: where it goes on, and what it has found.
pub struct Scan {
    pub next: int,
    pub tokens: Seq<TokenView>,
    pub errors: Seq<ErrorView>,
}

/// The step that the lexer takes at place `i` of the line `s`, for
/// `0 <= i < s.len()`.
pub open spec fn scan(s: Seq<char>, pl: PartialLocationView, i: int) -> Scan {
    let c = s[i];
    if is_digit(c) {
        let j = digits_end(s, i);
        let value = digits_value(s.subrange(i, j));
        if value <= u64::MAX {
            Scan {
                next: j,
                tokens: seq![TokenView::Int(value as u64)],
                errors: follow_errors(s, pl, j),
            }
        } else {
            Scan {
                next: j,
                tokens: seq![TokenView::Error],
                errors: seq![integer_overflow_at(s, pl, i)] + follow_errors(s, pl, j),
            }
        }
    } else if is_alpha(c) {
        let j = word_end(s, i);
        let word = s.subrange(i, j);
        Scan {
            next: j,
            tokens: seq![
                if is_keyword(word) {
                    TokenView::Keyword(word)
                } else {
                    TokenView::Identifier(word)
                },
            ],
            errors: seq![],
        }
    } else if c == '"' {
        let j = quote_at(s, i + 1);
        if j < s.len() {
            Scan {
                next: j + 1,
                tokens: seq![TokenView::String(s.subrange(i + 1, j))],
                errors: follow_errors(s, pl, j + 1),
            }
        } else {
            Scan {
                next: s.len() as int,
                tokens: seq![TokenView::Error],
                errors: seq![string_closing_of(s)],
            }
        }
    } else if punctuation(c) is Some {
        Scan { next: i + 1, tokens: seq![punctuation(c)->0], errors: seq![] }
    } else if c == ' ' {
        Scan { next: i + 1, tokens: seq![], errors: seq![] }
    } else {
        Scan { next: i + 1, tokens: seq![], errors: seq![illegal_character_at(s, pl, i)] }
    }
}

/// The tokens and the diagnostics of a stretch of a line.
pub struct Lexed {
    pub tokens: Seq<TokenView>,
    pub errors: Seq<ErrorView>,
}

/// What lexing the line `s` from place `i` to its end gives.
pub open spec fn lex_from(s: Seq<char>, pl: PartialLocationView, i: int) -> Lexed
    decreases s.len() - i,
{
    if 0 <= i < s.len() {
        let step = scan(s, pl, i);
        proof {
            lemma_scan_advances(s, pl, i);
        }
        let rest = lex_from(s, pl, step.next);
        Lexed { tokens: step.tokens + rest.tokens, errors: step.errors + rest.errors }
    } else {
        Lexed { tokens: seq![], errors: seq![] }
    }
}

/// What lexing the line `line` gives: trailing white space is dropped, and
/// the rest is lexed from its first character.
pub open spec fn lex_line(line: Seq<char>, pl: PartialLocationView) -> Lexed {
    lex_from(trim_end(line), pl, 0)
}

/// A run of digits ends at or after its start, within the line, on a
/// character that is no digit.
pub proof fn lemma_digits_end(s: Seq<char>, i: int)
    requires
        0 <= i <= s.len(),
    ensures
        i <= digits_end(s, i) <= s.len(),
        forall|k: int| i <= k < digits_end(s, i) ==> is_digit(#[trigger] s[k]),
        digits_end(s, i) < s.len() ==> !is_digit(s[digits_end(s, i)]),
        i < s.len() && is_digit(s[i]) ==> i < digits_end(s, i),
    decreases s.len() - i,
{
    if i < s.len() && is_digit(s[i]) {
        lemma_digits_end(s, i + 1);
    }
}

/// A run of letters and digits ends at or after its start, within the line,
/// on a character that is neither.
pub proof fn lemma_word_end(s: Seq<char>, i: int)
    requires
        0 <= i <= s.len(),
    ensures
        i <= word_end(s, i) <= s.len(),
        forall|k: int| i <= k < word_end(s, i) ==> is_alnum(#[trigger] s[k]),
        word_end(s, i) < s.len() ==> !is_alnum(s[word_end(s, i)]),
        i < s.len() && is_alnum(s[i]) ==> i < word_end(s, i),
    decreases s.len() - i,
{
    if i < s.len() && is_alnum(s[i]) {
        lemma_word_end(s, i + 1);
    }
}

/// The first double quote at or after `i` lies within the line or at its
/// end, and no double quote comes before it.
pub proof fn lemma_quote_at(s: Seq<char>, i: int)
    requires
        0 <= i <= s.len(),
    ensures
        i <= quote_at(s, i) <= s.len(),
        forall|k: int| i <= k < quote_at(s, i) ==> #[trigger] s[k] != '"',
        quote_at(s, i) < s.len() ==> s[quote_at(s, i)] == '"',
    decreases s.len() - i,
{
    if i < s.len() && s[i] != '"' {
        lemma_quote_at(s, i + 1);
    }
}

/// Every step of the lexer moves forward and stays within the line.
pub proof fn lemma_scan_advances(s: Seq<char>, pl: PartialLocationView, i: int)
    requires
        0 <= i < s.len(),
    ensures
        i < scan(s, pl, i).next <= s.len(),
{
    lemma_digits_end(s, i);
    lemma_word_end(s, i);
    lemma_quote_at(s, i + 1);
}

/// Lexing from place `i` is the step at `i`, then lexing from where the step
/// ends.
pub proof fn lemma_lex_from_unfold(s: Seq<char>, pl: PartialLocationView, i: int)
    requires
        0 <= i < s.len(),
    ensures
        lex_from(s, pl, i).tokens == scan(s, pl, i).tokens + lex_from(
            s,
            pl,
            scan(s, pl, i).next,
        ).tokens,
        lex_from(s, pl, i).errors == scan(s, pl, i).errors + lex_from(
            s,
            pl,
            scan(s, pl, i).next,
        ).errors,
{
    lemma_scan_advances(s, pl, i);
}

/// Tells whether `c` may directly follow a numeric or string literal.
fn char_is_follower(c: char) -> (r: bool)
    ensures
        r == is_follower(c),
{
    c == '+' || c == '-' || c == '*' || c == '/' || c == ' ' || c == ',' || c == ')'
}

/// Tells whether `word` is one of the keywords.
fn text_is_keyword(word: &String) -> (r: bool)
    ensures
        r == is_keyword(word@),
{
    *word == String::from_str("if") || *word == String::from_str("else") || *word
        == String::from_str("var") || *word == String::from_str("print")
}

/// A lexer over one line of source text.
///
/// It holds the line without its trailing white space, a cursor into it with
/// the character under the cursor, and the tokens and diagnostics found so
/// far.
pub struct Tokenizer {
    tk: Vec<Token>,
    err: Vec<Error>,
    chars: Vec<char>,
    next: usize,
    curr: Option<char>,
    line: String,
    pl: PartialLocation,
}

impl Tokenizer {
    /// The cursor lies within the line, and the current character is the one
    /// before it.
    pub closed spec fn wf(&self) -> bool {
        &&& self.line@ == self.chars@
        &&& self.next <= self.chars.len()
        &&& self.curr matches Some(c) ==> self.next >= 1 && c == self.chars@[self.next - 1]
    }

    /// The line that is lexed: the text given, without trailing white space.
    pub closed spec fn source(&self) -> Seq<char> {
        self.chars@
    }

    /// The file and line that diagnostics name.
    pub closed spec fn context(&self) -> PartialLocationView {
        self.pl@
    }

    /// The tokens found so far.
    pub closed spec fn tokens(&self) -> Seq<TokenView> {
        tokens_view(self.tk@)
    }

    /// The diagnostics recorded so far.
    pub closed spec fn diagnostics(&self) -> Seq<ErrorView> {
        errors_view(self.err@)
    }

    /// The place of the next character that the lexer will fetch.
    pub closed spec fn cursor(&self) -> int {
        self.next as int
    }

    /// The lexer is well formed and, where it has no current character, at
    /// the end of the line.
    spec fn scanning(&self) -> bool {
        self.wf() && (self.curr is None ==> self.next == self.chars.len())
    }

    /// The place of the current character; the length of the line at its end.
    spec fn here(&self) -> int {
        if self.curr is Some {
            self.next - 1
        } else {
            self.chars.len() as int
        }
    }

    /// `self` and `other` lex the same line in the same context.
    spec fn same_line(&self, other: Tokenizer) -> bool {
        self.chars == other.chars && self.line == other.line && self.pl == other.pl
    }

    /// A lexer for `line`, before its first character. White space at the
    /// end of `line` is dropped.
    pub fn new(line: &str, pl: PartialLocation) -> (r: Self)
        ensures
            r.wf(),
            r.source() == trim_end(line@),
            r.context() == pl@,
            r.tokens() == Seq::<TokenView>::empty(),
            r.diagnostics() == Seq::<ErrorView>::empty(),
            r.cursor() == 0,
    {
        let mut chars = chars_of(line);
        trim_chars(&mut chars);
        proof {
            crate::text::lemma_trimmed_len_bound(line@);
        }
        let trimmed = line.substring_char(0, chars.len());
        let r = Tokenizer {
            tk: Vec::new(),
            err: Vec::new(),
            chars,
            next: 0,
            curr: None,
            line: String::from_str(trimmed),
            pl,
        };
        proof {
            assert(r.tokens() =~= Seq::<TokenView>::empty());
            assert(r.diagnostics() =~= Seq::<ErrorView>::empty());
        }
        r
    }

    /// Moves to the next character: it becomes the current one, or there is
    /// none at the end of the line.
    fn advance(&mut self)
        requires
            old(self).wf(),
        ensures
            final(self).scanning(),
            final(self).here() == old(self).next,
            final(self).same_line(*old(self)),
            final(self).tk == old(self).tk,
            final(self).err == old(self).err,
    {
        if self.next < self.chars.len() {
            self.curr = Some(self.chars[self.next]);
            self.next = self.next + 1;
        } else {
            self.curr = None;
        }
    }

    /// Records that the current character `c` may not stand where it does.
    fn illegal_here(&mut self, c: char)
        requires
            old(self).scanning(),
            old(self).curr == Some(c),
        ensures
            final(self).scanning(),
            final(self).same_line(*old(self)),
            final(self).tk == old(self).tk,
            final(self).curr == old(self).curr,
            final(self).next == old(self).next,
            errors_view(final(self).err@) == errors_view(old(self).err@).push(
                illegal_character_at(old(self).chars@, old(self).pl@, old(self).here()),
            ),
    {
        let at: u32 = #[verifier::truncate] ((self.next - 1) as u32);
        let location = Location::from(self.pl.clone()).char_pos(at);
        self.err.push(Error::illegal_character(location, self.line.as_str(), c));
        proof {
            assert(errors_view(self.err@) =~= errors_view(old(self).err@).push(
                illegal_character_at(old(self).chars@, old(self).pl@, old(self).here()),
            ));
        }
    }

    /// Reads the run of digits that starts at the current character. Gives
    /// the integer that it denotes; where that exceeds 64 bits, records it
    /// and gives the error token.
    fn make_int(&mut self) -> (r: Token)
        requires
            old(self).scanning(),
            old(self).curr matches Some(c) && is_digit(c),
        ensures
            final(self).scanning(),
            final(self).same_line(*old(self)),
            final(self).tk == old(self).tk,
            final(self).here() == digits_end(old(self).chars@, old(self).here()),
            ({
                let s = old(self).chars@;
                let value = digits_value(s.subrange(old(self).here(), final(self).here()));
                if value <= u64::MAX {
                    &&& r@ == TokenView::Int(value as u64)
                    &&& final(self).err == old(self).err
                } else {
                    &&& r@ == TokenView::Error
                    &&& errors_view(final(self).err@) == errors_view(old(self).err@).push(
                        integer_overflow_at(s, old(self).pl@, old(self).here()),
                    )
                }
            }),
    {
        let start: usize = self.next - 1;
        let mut value: u64 = 0;
        let mut fits = true;
        proof {
            assert(self.chars@.subrange(start as int, start as int) =~= Seq::<char>::empty());
        }
        loop
            invariant
                self.scanning(),
                self.same_line(*old(self)),
                self.tk == old(self).tk,
                self.err == old(self).err,
                start == old(self).here(),
                start <= self.here() <= self.chars.len(),
                digits_end(self.chars@, start as int) == digits_end(self.chars@, self.here()),
                fits ==> value == digits_value(self.chars@.subrange(start as int, self.here())),
                !fits ==> digits_value(self.chars@.subrange(start as int, self.here()))
                    > u64::MAX,
            ensures
                self.here() == digits_end(self.chars@, start as int),
            decreases self.chars.len() - self.here(),
        {
            match self.curr {
                Some(c) if char_is_digit(c) => {
                    let digit: u64 = (c as u32 - 0x30) as u64;
                    proof {
                        let h = self.here();
                        let run = self.chars@.subrange(start as int, h + 1);
                        assert(run.drop_last() =~= self.chars@.subrange(start as int, h));
                        assert(run.last() == c);
                        assert(digit == digit_value(c));
                    }
                    if fits && value <= (u64::MAX - digit) / 10 {
                        value = value * 10 + digit;
                    } else {
                        fits = false;
                    }
                    self.advance();
                },
                _ => {
                    break ;
                },
            }
        }
        if fits {
            Token::Int(value)
        } else {
            let at: u32 = #[verifier::truncate] (start as u32);
            let location = Location::from(self.pl.clone()).char_pos(at);
            self.err.push(Error::integer_overflow(location, self.line.as_str()));
            proof {
                assert(errors_view(self.err@) =~= errors_view(old(self).err@).push(
                    integer_overflow_at(old(self).chars@, old(self).pl@, old(self).here()),
                ));
            }
            Token::Error
        }
    }

    /// Reads the run of letters and digits that starts at the current
    /// character, and gives it as a keyword or as an identifier.
    fn make_identifier(&mut self) -> (r: Token)
        requires
            old(self).scanning(),
            old(self).curr matches Some(c) && is_alpha(c),
        ensures
            final(self).scanning(),
            final(self).same_line(*old(self)),
            final(self).tk == old(self).tk,
            final(self).err == old(self).err,
            final(self).here() == word_end(old(self).chars@, old(self).here()),
            ({
                let word = old(self).chars@.subrange(old(self).here(), final(self).here());
                r@ == if is_keyword(word) {
                    TokenView::Keyword(word)
                } else {
                    TokenView::Identifier(word)
                }
            }),
    {
        let start: usize = self.next - 1;
        loop
            invariant
                self.scanning(),
                self.same_line(*old(self)),
                self.tk == old(self).tk,
                self.err == old(self).err,
                start == old(self).here(),
                start <= self.here() <= self.chars.len(),
                word_end(self.chars@, start as int) == word_end(self.chars@, self.here()),
            ensures
                self.here() == word_end(self.chars@, start as int),
            decreases self.chars.len() - self.here(),
        {
            match self.curr {
                Some(c) if char_is_alnum(c) => {
                    self.advance();
                },
                _ => {
                    break ;
                },
            }
        }
        let end: usize = match self.curr {
            Some(_) => self.next - 1,
            None => self.chars.len(),
        };
        let identifier = String::from_str(self.line.as_str().substring_char(start, end));
        if text_is_keyword(&identifier) {
            Token::Keyword(identifier)
        } else {
            Token::Identifier(identifier)
        }
    }

    /// Reads the string literal whose opening quote is the current
    /// character. Gives the text up to the closing quote; where the line
    /// ends first, records it and gives the error token.
    fn make_string(&mut self) -> (r: Token)
        requires
            old(self).scanning(),
            old(self).curr == Some('"'),
        ensures
            final(self).scanning(),
            final(self).same_line(*old(self)),
            final(self).tk == old(self).tk,
            ({
                let s = old(self).chars@;
                let i = old(self).here();
                let j = quote_at(s, i + 1);
                if j < s.len() {
                    &&& final(self).here() == j + 1
                    &&& r@ == TokenView::String(s.subrange(i + 1, j))
                    &&& final(self).err == old(self).err
                } else {
                    &&& final(self).here() == s.len()
                    &&& r@ == TokenView::Error
                    &&& errors_view(final(self).err@) == errors_view(old(self).err@).push(
                        string_closing_of(s),
                    )
                }
            }),
    {
        let start: usize = self.next;
        let mut end: usize = start;
        let mut terminated = false;
        self.advance();
        loop
            invariant_except_break
                !terminated,
                start <= self.here() <= self.chars.len(),
                quote_at(self.chars@, start as int) == quote_at(self.chars@, self.here()),
            invariant
                self.scanning(),
                self.same_line(*old(self)),
                self.tk == old(self).tk,
                self.err == old(self).err,
                start == old(self).here() + 1,
                start <= self.chars.len(),
            ensures
                terminated ==> end == quote_at(self.chars@, start as int) && end
                    < self.chars.len() && self.here() == end + 1,
                !terminated ==> quote_at(self.chars@, start as int) == self.chars.len()
                    && self.here() == self.chars.len(),
            decreases self.chars.len() - self.here(),
        {
            match self.curr {
                Some(c) => {
                    if c == '"' {
                        terminated = true;
                        end = self.next - 1;
                        self.advance();
                        break ;
                    }
                    self.advance();
                },
                None => {
                    break ;
                },
            }
        }
        if terminated {
            proof {
                lemma_quote_at(self.chars@, start as int);
            }
            Token::String(String::from_str(self.line.as_str().substring_char(start, end)))
        } else {
            self.err.push(
                Error::string_closing(Location::new("not specified", 0, 0), self.line.as_str()),
            );
            proof {
                assert(errors_view(self.err@) =~= errors_view(old(self).err@).push(
                    string_closing_of(old(self).chars@),
                ));
            }
            Token::Error
        }
    }

    /// Checks the character after a numeric or string literal: unless it is
    /// a follower, or the line ends there, it is recorded as illegal.
    fn after_number_or_string(&mut self)
        requires
            old(self).scanning(),
        ensures
            final(self).scanning(),
            final(self).same_line(*old(self)),
            final(self).tk == old(self).tk,
            final(self).curr == old(self).curr,
            final(self).next == old(self).next,
            errors_view(final(self).err@) == errors_view(old(self).err@) + follow_errors(
                old(self).chars@,
                old(self).pl@,
                old(self).here(),
            ),
    {
        match self.curr {
            Some(c) => {
                if !char_is_follower(c) {
                    self.illegal_here(c);
                }
            },
            None => {},
        }
        proof {
            assert(errors_view(self.err@) =~= errors_view(old(self).err@) + follow_errors(
                old(self).chars@,
                old(self).pl@,
                old(self).here(),
            ));
        }
    }

    /// Appends `token` to the tokens found so far.
    fn emit(&mut self, token: Token)
        ensures
            final(self).same_line(*old(self)),
            final(self).err == old(self).err,
            final(self).curr == old(self).curr,
            final(self).next == old(self).next,
            tokens_view(final(self).tk@) == tokens_view(old(self).tk@).push(token@),
    {
        self.tk.push(token);
        proof {
            assert(tokens_view(self.tk@) =~= tokens_view(old(self).tk@).push(token@));
        }
    }

    /// Lexes the rest of the line, from the cursor to the end: the tokens
    /// and the diagnostics of that stretch are appended to those found so
    /// far. A diagnostic does not stop the scan.
    pub fn tokenize(&mut self)
        requires
            old(self).wf(),
        ensures
            final(self).wf(),
            final(self).source() == old(self).source(),
            final(self).context() == old(self).context(),
            final(self).cursor() == final(self).source().len(),
            final(self).tokens() == old(self).tokens() + lex_from(
                old(self).source(),
                old(self).context(),
                old(self).cursor(),
            ).tokens,
            final(self).diagnostics() == old(self).diagnostics() + lex_from(
                old(self).source(),
                old(self).context(),
                old(self).cursor(),
            ).errors,
    {
        let ghost s = self.chars@;
        let ghost pl = self.pl@;
        let ghost all = lex_from(s, pl, self.next as int);
        let ghost tokens = tokens_view(self.tk@);
        let ghost errors = errors_view(self.err@);
        self.advance();
        loop
            invariant
                self.scanning(),
                self.same_line(*old(self)),
                s == self.chars@,
                pl == self.pl@,
                0 <= self.here() <= s.len(),
                tokens_view(self.tk@) + lex_from(s, pl, self.here()).tokens == tokens
                    + all.tokens,
                errors_view(self.err@) + lex_from(s, pl, self.here()).errors == errors
                    + all.errors,
            ensures
                self.curr is None,
            decreases s.len() - self.here(),
        {
            let ghost h = self.here();
            let ghost before_tokens = tokens_view(self.tk@);
            let ghost before_errors = errors_view(self.err@);
            let curr = match self.curr {
                Some(c) => c,
                None => {
                    break ;
                },
            };
            proof {
                lemma_lex_from_unfold(s, pl, h);
                lemma_scan_advances(s, pl, h);
            }
            let ghost step = scan(s, pl, h);
            let ghost rest = lex_from(s, pl, step.next);
            if char_is_digit(curr) {
                let token = self.make_int();
                self.emit(token);
                self.after_number_or_string();
            } else if char_is_alpha(curr) {
                let token = self.make_identifier();
                self.emit(token);
            } else if curr == '"' {
                let token = self.make_string();
                self.emit(token);
                self.after_number_or_string();
            } else {
                if curr == ',' {
                    self.emit(Token::Coma);
                } else if curr == '(' {
                    self.emit(Token::OpeningParen);
                } else if curr == ')' {
                    self.emit(Token::ClosingParen);
                } else if curr == '+' {
                    self.emit(Token::Plus);
                } else if curr == '-' {
                    self.emit(Token::Minus);
                } else if curr == '*' {
                    self.emit(Token::Mul);
                } else if curr == '/' {
                    self.emit(Token::Div);
                } else if curr == '=' {
                    self.emit(Token::Assign);
                } else if curr != ' ' {
                    self.illegal_here(curr);
                }
                self.advance();
            }
            proof {
                assert(self.here() == step.next);
                assert(tokens_view(self.tk@) =~= before_tokens + step.tokens);
                assert(errors_view(self.err@) =~= before_errors + step.errors);
                assert(before_tokens + step.tokens + rest.tokens =~= before_tokens + (step.tokens
                    + rest.tokens));
                assert(before_errors + step.errors + rest.errors =~= before_errors + (step.errors
                    + rest.errors));
            }
        }
        proof {
            assert(tokens_view(self.tk@) =~= tokens + all.tokens);
            assert(errors_view(self.err@) =~= errors + all.errors);
        }
    }

    /// The outcome of lexing: the tokens where there is no diagnostic, the
    /// diagnostics where there is one.
    pub fn result(self) -> (r: CompilerResult<Vec<Token>>)
        ensures
            match r {
                Ok(tokens) => self.diagnostics().len() == 0 && tokens_view(tokens@)
                    == self.tokens(),
                Err(errors) => errors.len() > 0 && errors_view(errors@) == self.diagnostics(),
            },
    {
        if self.err.is_empty() {
            Ok(self.tk)
        } else {
            Err(self.err)
        }
    }
}

/// Lexes one line of source text: gives its tokens in order, or, where
/// anything is wrong with the line, every diagnostic in the order found.
pub fn lex(line: &str, context: PartialLocation) -> (r: CompilerResult<Vec<Token>>)
    ensures
        match r {
            Ok(tokens) => lex_line(line@, context@).errors.len() == 0 && tokens_view(tokens@)
                == lex_line(line@, context@).tokens,
            Err(errors) => errors.len() > 0 && errors_view(errors@) == lex_line(
                line@,
                context@,
            ).errors,
        },
{
    let mut tokenizer = Tokenizer::new(line, context);
    tokenizer.tokenize();
    tokenizer.result()
}

} // verus!
