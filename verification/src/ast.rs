//! The syntax tree, and the parser that builds one statement from the tokens
//! of a line.

use crate::errors::{
    errors_view, CompilerResult, Error, ErrorKindView, ErrorView, Location, PartialLocation,
    PartialLocationView,
};
use crate::token::{tokens_view, Token, TokenView};
use vstd::prelude::*;
use vstd::string::StringExecFns;

verus! {

/// The binary operators. The parser builds expressions with `Plus` only.
#[derive(Clone, Copy, PartialEq, Eq, PartialOrd, Ord, Debug, Structural)]
pub enum Operator {
    /// `a + b`
    Plus,
    /// `a - b`
    Minus,
    /// `a * b`
    Mul,
    /// `a / b`
    Div,
}

/// An expression: something that has a value. Each node owns its children.
#[derive(PartialEq, Eq, PartialOrd, Ord, Debug)]
pub enum Expr {
    /// An integer literal.
    IntLitteral(u64),
    /// A string literal.
    StringLitteral(String),
    /// The name of a variable.
    Identifier(String),
    /// An operator between two expressions.
    BinaryExpr { opr: Operator, l: Box<Expr>, r: Box<Expr> },
    /// A sequence of statements.
    Block { code: Vec<Statement> },
    /// Stands where no expression could be built.
    Error,
}

/// A statement: a line of code that has an effect and no value.
#[derive(PartialEq, Eq, PartialOrd, Ord, Debug)]
pub enum Statement {
    /// `var identifier = value`
    VarDeclaration { identifier: String, value: Expr },
    /// `print value`
    Print { value: Expr },
    /// `identifier = value`
    VarEdit { identifier: String, value: Expr },
    /// `identifier(args)`
    FuncCall { identifier: String, args: Vec<Expr> },
    /// No statement was built: there was none, or it could not be.
    NoneOrError,
}

/// What an [`Expr`] holds.
pub enum ExprView {
    IntLitteral(u64),
    StringLitteral(Seq<char>),
    Identifier(Seq<char>),
    BinaryExpr { opr: Operator, l: Box<ExprView>, r: Box<ExprView> },
    Block { code: Seq<StatementView> },
    Error,
}

/// What a [`Statement`] holds.
pub enum StatementView {
    VarDeclaration { identifier: Seq<char>, value: ExprView },
    Print { value: ExprView },
    VarEdit { identifier: Seq<char>, value: ExprView },
    FuncCall { identifier: Seq<char>, args: Seq<ExprView> },
    NoneOrError,
}

impl View for Expr {
    type V = ExprView;

    open spec fn view(&self) -> ExprView
        decreases self,
    {
        match self {
            Expr::IntLitteral(value) => ExprView::IntLitteral(*value),
            Expr::StringLitteral(text) => ExprView::StringLitteral(text@),
            Expr::Identifier(name) => ExprView::Identifier(name@),
            Expr::BinaryExpr { opr, l, r } => ExprView::BinaryExpr {
                opr: *opr,
                l: Box::new((**l)@),
                r: Box::new((**r)@),
            },
            Expr::Block { code } => ExprView::Block { code: statements_view(code@) },
            Expr::Error => ExprView::Error,
        }
    }
}

impl View for Statement {
    type V = StatementView;

    open spec fn view(&self) -> StatementView
        decreases self,
    {
        match self {
            Statement::VarDeclaration { identifier, value } => StatementView::VarDeclaration {
                identifier: identifier@,
                value: value@,
            },
            Statement::Print { value } => StatementView::Print { value: value@ },
            Statement::VarEdit { identifier, value } => StatementView::VarEdit {
                identifier: identifier@,
                value: value@,
            },
            Statement::FuncCall { identifier, args } => StatementView::FuncCall {
                identifier: identifier@,
                args: exprs_view(args@),
            },
            Statement::NoneOrError => StatementView::NoneOrError,
        }
    }
}

/// The views of a list of expressions, in order.
pub open spec fn exprs_view(exprs: Seq<Expr>) -> Seq<ExprView>
    decreases exprs,
{
    if exprs.len() == 0 {
        seq![]
    } else {
        exprs_view(exprs.drop_last()).push(exprs.last()@)
    }
}

/// The views of a list of statements, in order.
pub open spec fn statements_view(statements: Seq<Statement>) -> Seq<StatementView>
    decreases statements,
{
    if statements.len() == 0 {
        seq![]
    } else {
        statements_view(statements.drop_last()).push(statements.last()@)
    }
}

/// The views of a list with one more expression at its end.
pub proof fn lemma_exprs_view_push(exprs: Seq<Expr>, expr: Expr)
    ensures
        exprs_view(exprs.push(expr)) == exprs_view(exprs).push(expr@),
{
    reveal_with_fuel(exprs_view, 2);
    assert(exprs.push(expr).drop_last() =~= exprs);
}

/// The views of a list with one more statement at its end.
pub proof fn lemma_statements_view_push(statements: Seq<Statement>, statement: Statement)
    ensures
        statements_view(statements.push(statement)) == statements_view(statements).push(
            statement@,
        ),
{
    reveal_with_fuel(statements_view, 2);
    assert(statements.push(statement).drop_last() =~= statements);
}

/// A copy of `expr`.
fn clone_expr(expr: &Expr) -> (r: Expr)
    ensures
        r@ == expr@,
    decreases expr,
{
    match expr {
        Expr::IntLitteral(value) => Expr::IntLitteral(*value),
        Expr::StringLitteral(text) => Expr::StringLitteral(text.clone()),
        Expr::Identifier(name) => Expr::Identifier(name.clone()),
        Expr::BinaryExpr { opr, l, r } => Expr::BinaryExpr {
            opr: *opr,
            l: Box::new(clone_expr(l)),
            r: Box::new(clone_expr(r)),
        },
        Expr::Block { code } => {
            let mut copy: Vec<Statement> = Vec::new();
            let mut i: usize = 0;
            while i < code.len()
                invariant
                    i <= code.len(),
                    statements_view(copy@) == statements_view(code@.take(i as int)),
                    decreases_to!(expr => code),
                decreases code.len() - i,
            {
                let statement = clone_statement(&code[i]);
                proof {
                    lemma_statements_view_push(copy@, statement);
                    lemma_statements_view_push(code@.take(i as int), code@[i as int]);
                    assert(code@.take(i as int).push(code@[i as int]) =~= code@.take(i + 1));
                }
                copy.push(statement);
                i = i + 1;
            }
            proof {
                assert(code@.take(i as int) =~= code@);
            }
            Expr::Block { code: copy }
        },
        Expr::Error => Expr::Error,
    }
}

/// A copy of `statement`.
fn clone_statement(statement: &Statement) -> (r: Statement)
    ensures
        r@ == statement@,
    decreases statement,
{
    match statement {
        Statement::VarDeclaration { identifier, value } => Statement::VarDeclaration {
            identifier: identifier.clone(),
            value: clone_expr(value),
        },
        Statement::Print { value } => Statement::Print { value: clone_expr(value) },
        Statement::VarEdit { identifier, value } => Statement::VarEdit {
            identifier: identifier.clone(),
            value: clone_expr(value),
        },
        Statement::FuncCall { identifier, args } => {
            let mut copy: Vec<Expr> = Vec::new();
            let mut i: usize = 0;
            while i < args.len()
                invariant
                    i <= args.len(),
                    exprs_view(copy@) == exprs_view(args@.take(i as int)),
                    decreases_to!(statement => args),
                decreases args.len() - i,
            {
                let expr = clone_expr(&args[i]);
                proof {
                    lemma_exprs_view_push(copy@, expr);
                    lemma_exprs_view_push(args@.take(i as int), args@[i as int]);
                    assert(args@.take(i as int).push(args@[i as int]) =~= args@.take(i + 1));
                }
                copy.push(expr);
                i = i + 1;
            }
            proof {
                assert(args@.take(i as int) =~= args@);
            }
            Statement::FuncCall { identifier: identifier.clone(), args: copy }
        },
        Statement::NoneOrError => Statement::NoneOrError,
    }
}

impl Clone for Expr {
    fn clone(&self) -> (r: Self)
        ensures
            r@ == self@,
    {
        clone_expr(self)
    }
}

impl Clone for Statement {
    fn clone(&self) -> (r: Self)
        ensures
            r@ == self@,
    {
        clone_statement(self)
    }
}

/// The diagnostic for a missing token of the class `class`. A token carries
/// no place, so the diagnostic names the start of the line.
pub open spec fn expected_token(
    pl: PartialLocationView,
    line: Seq<char>,
    class: Seq<char>,
) -> ErrorView {
    ErrorView::of(ErrorKindView::ExpectedToken(class), pl.at(0), line)
}

/// The diagnostic for the token `found`, which may not stand where it does.
/// It names the start of the line.
pub open spec fn unexpected_token(
    pl: PartialLocationView,
    line: Seq<char>,
    found: TokenView,
) -> ErrorView {
    ErrorView::of(ErrorKindView::UnexpectedToken(found.class_name()), pl.at(0), line)
}

/// The diagnostic for the operator `found`, with which expressions are not
/// built. It names the start of the line.
pub open spec fn unsupported_operator(
    pl: PartialLocationView,
    line: Seq<char>,
    found: TokenView,
) -> ErrorView {
    ErrorView::of(ErrorKindView::UnsupportedOperator(found.class_name()), pl.at(0), line)
}

/// The operators that are lexed, but with which expressions are not built.
pub open spec fn is_reserved_operator(token: TokenView) -> bool {
    token is Minus || token is Mul || token is Div
}

/// The literal expression that a token denotes, if it is a literal.
pub open spec fn literal(token: TokenView) -> Option<ExprView> {
    match token {
        TokenView::Int(value) => Some(ExprView::IntLitteral(value)),
        TokenView::String(text) => Some(ExprView::StringLitteral(text)),
        _ => None,
    }
}

/// Whether a literal followed by `token` stands alone: before a closing
/// parenthesis and, among the arguments of a call, before a comma.
pub open spec fn ends_literal(token: TokenView, in_args: bool) -> bool {
    token is ClosingParen || (in_args && token is Coma)
}

/// An expression read from a token sequence: the expression, the place of
/// the first token after it, and the diagnostics recorded on the way.
pub struct ParsedExpr {
    pub expr: ExprView,
    pub next: int,
    pub errors: Seq<ErrorView>,
}

/// The expression that starts at place `i` of the tokens `ts`.
///
/// A literal followed by `+` is the left operand of an addition whose right
/// operand is the expression after the `+`: a chain of additions groups to
/// the right. A literal stands alone at the end of the tokens and where
/// [`ends_literal`] says so. One of the other operators after it is not
/// supported, and any other token after it is unexpected. A parenthesised
/// expression is the expression between the parentheses; the parentheses
/// must hold something and must be closed. No other token starts an
/// expression. Where there is no token at `i`, the expression is the error
/// expression, and nothing is recorded. A token that is in the way is
/// recorded and not passed over, and the expression is then the error
/// expression.
pub open spec fn parse_expr(
    ts: Seq<TokenView>,
    i: int,
    in_args: bool,
    pl: PartialLocationView,
    line: Seq<char>,
) -> ParsedExpr
    decreases ts.len() - i,
{
    if !(0 <= i < ts.len()) {
        ParsedExpr { expr: ExprView::Error, next: ts.len() as int, errors: seq![] }
    } else if literal(ts[i]) is Some {
        let value = literal(ts[i])->0;
        if i + 1 >= ts.len() {
            ParsedExpr { expr: value, next: i + 1, errors: seq![] }
        } else if ts[i + 1] is Plus {
            let rest = parse_expr(ts, i + 2, in_args, pl, line);
            ParsedExpr {
                expr: ExprView::BinaryExpr {
                    opr: Operator::Plus,
                    l: Box::new(value),
                    r: Box::new(rest.expr),
                },
                next: rest.next,
                errors: rest.errors,
            }
        } else if ends_literal(ts[i + 1], in_args) {
            ParsedExpr { expr: value, next: i + 1, errors: seq![] }
        } else if is_reserved_operator(ts[i + 1]) {
            ParsedExpr {
                expr: ExprView::Error,
                next: i + 1,
                errors: seq![unsupported_operator(pl, line, ts[i + 1])],
            }
        } else {
            ParsedExpr {
                expr: ExprView::Error,
                next: i + 1,
                errors: seq![unexpected_token(pl, line, ts[i + 1])],
            }
        }
    } else if ts[i] is OpeningParen {
        if i + 1 < ts.len() && ts[i + 1] is ClosingParen {
            ParsedExpr {
                expr: ExprView::Error,
                next: i + 2,
                errors: seq![unexpected_token(pl, line, ts[i + 1])],
            }
        } else {
            let inner = parse_expr(ts, i + 1, false, pl, line);
            if 0 <= inner.next < ts.len() {
                if ts[inner.next] is ClosingParen {
                    ParsedExpr { expr: inner.expr, next: inner.next + 1, errors: inner.errors }
                } else {
                    ParsedExpr {
                        expr: ExprView::Error,
                        next: inner.next,
                        errors: inner.errors.push(unexpected_token(pl, line, ts[inner.next])),
                    }
                }
            } else {
                ParsedExpr {
                    expr: ExprView::Error,
                    next: ts.len() as int,
                    errors: inner.errors.push(expected_token(pl, line, "ClosingParen"@)),
                }
            }
        }
    } else {
        ParsedExpr {
            expr: ExprView::Error,
            next: i,
            errors: seq![unexpected_token(pl, line, ts[i])],
        }
    }
}

/// An expression ends at or after its start, within the tokens.
pub proof fn lemma_parse_expr_next(
    ts: Seq<TokenView>,
    i: int,
    in_args: bool,
    pl: PartialLocationView,
    line: Seq<char>,
)
    requires
        0 <= i <= ts.len(),
    ensures
        i <= parse_expr(ts, i, in_args, pl, line).next <= ts.len(),
    decreases ts.len() - i,
{
    if i < ts.len() {
        if literal(ts[i]) is Some {
            if i + 1 < ts.len() && ts[i + 1] is Plus {
                lemma_parse_expr_next(ts, i + 2, in_args, pl, line);
            }
        } else if ts[i] is OpeningParen {
            if !(i + 1 < ts.len() && ts[i + 1] is ClosingParen) {
                lemma_parse_expr_next(ts, i + 1, false, pl, line);
            }
        }
    }
}

/// The arguments of a call read from a token sequence: the expressions, the
/// place of the first token after the closing parenthesis, and the
/// diagnostics recorded on the way.
pub struct ParsedArgs {
    pub args: Seq<ExprView>,
    pub next: int,
    pub errors: Seq<ErrorView>,
}

/// The arguments of a call whose first argument starts at place `i` of the
/// tokens `ts`: expressions separated by commas, up to a closing
/// parenthesis. Where another token follows an argument, it is unexpected
/// and the list ends before it; where the tokens end, the closing
/// parenthesis is missing.
pub open spec fn parse_args(
    ts: Seq<TokenView>,
    i: int,
    pl: PartialLocationView,
    line: Seq<char>,
) -> ParsedArgs
    decreases ts.len() - i,
{
    if !(0 <= i <= ts.len()) {
        ParsedArgs { args: seq![], next: ts.len() as int, errors: seq![] }
    } else {
        let arg = parse_expr(ts, i, true, pl, line);
        proof {
            lemma_parse_expr_next(ts, i, true, pl, line);
        }
        if arg.next >= ts.len() {
            ParsedArgs {
                args: seq![arg.expr],
                next: ts.len() as int,
                errors: arg.errors.push(expected_token(pl, line, "ClosingParen"@)),
            }
        } else if ts[arg.next] is Coma {
            let rest = parse_args(ts, arg.next + 1, pl, line);
            ParsedArgs {
                args: seq![arg.expr] + rest.args,
                next: rest.next,
                errors: arg.errors + rest.errors,
            }
        } else if ts[arg.next] is ClosingParen {
            ParsedArgs { args: seq![arg.expr], next: arg.next + 1, errors: arg.errors }
        } else {
            ParsedArgs {
                args: seq![arg.expr],
                next: arg.next,
                errors: arg.errors.push(unexpected_token(pl, line, ts[arg.next])),
            }
        }
    }
}

/// A statement read from a token sequence: the statement, if the tokens
/// begin one of the known forms; the place of the first token after it; and
/// the diagnostics recorded on the way.
pub struct ParsedStatement {
    pub statement: Option<StatementView>,
    pub next: int,
    pub errors: Seq<ErrorView>,
}

/// The declaration whose keyword `var` stands at place `i` of the tokens
/// `ts`: an identifier, the assignment sign, and an expression. The
/// identifier and the sign are looked for at their places one after the
/// other, and each that is missing is recorded; the declared name is then
/// empty.
pub open spec fn parse_var(
    ts: Seq<TokenView>,
    i: int,
    pl: PartialLocationView,
    line: Seq<char>,
) -> ParsedStatement {
    let named = 0 <= i + 1 < ts.len() && ts[i + 1] is Identifier;
    let assigned = 0 <= i + 2 < ts.len() && ts[i + 2] is Assign;
    let value = parse_expr(ts, i + 3, false, pl, line);
    ParsedStatement {
        statement: Some(
            StatementView::VarDeclaration {
                identifier: if named {
                    ts[i + 1]->Identifier_0
                } else {
                    seq![]
                },
                value: value.expr,
            },
        ),
        next: value.next,
        errors: (if named {
            seq![]
        } else {
            seq![expected_token(pl, line, "Identifier"@)]
        }) + (if assigned {
            seq![]
        } else {
            seq![expected_token(pl, line, "Assign"@)]
        }) + value.errors,
    }
}

/// The statement whose keyword `print` stands at place `i` of the tokens
/// `ts`: the keyword and an expression.
pub open spec fn parse_print(
    ts: Seq<TokenView>,
    i: int,
    pl: PartialLocationView,
    line: Seq<char>,
) -> ParsedStatement {
    let value = parse_expr(ts, i + 1, false, pl, line);
    ParsedStatement {
        statement: Some(StatementView::Print { value: value.expr }),
        next: value.next,
        errors: value.errors,
    }
}

/// The assignment to the variable `name`, whose assignment sign stands at
/// place `i` of the tokens `ts`: the sign and an expression.
pub open spec fn parse_var_edit(
    ts: Seq<TokenView>,
    i: int,
    name: Seq<char>,
    pl: PartialLocationView,
    line: Seq<char>,
) -> ParsedStatement {
    let value = parse_expr(ts, i + 1, false, pl, line);
    ParsedStatement {
        statement: Some(StatementView::VarEdit { identifier: name, value: value.expr }),
        next: value.next,
        errors: value.errors,
    }
}

/// The call of the function `name`, whose opening parenthesis stands at
/// place `i` of the tokens `ts`: the parenthesis, then a closing parenthesis
/// at once, or the arguments that [`parse_args`] reads.
pub open spec fn parse_func_call(
    ts: Seq<TokenView>,
    i: int,
    name: Seq<char>,
    pl: PartialLocationView,
    line: Seq<char>,
) -> ParsedStatement {
    if 0 <= i + 1 < ts.len() && ts[i + 1] is ClosingParen {
        ParsedStatement {
            statement: Some(StatementView::FuncCall { identifier: name, args: seq![] }),
            next: i + 2,
            errors: seq![],
        }
    } else {
        let list = parse_args(ts, i + 1, pl, line);
        ParsedStatement {
            statement: Some(StatementView::FuncCall { identifier: name, args: list.args }),
            next: list.next,
            errors: list.errors,
        }
    }
}

/// The statement that starts at place `i` of the tokens `ts`.
///
/// The keyword `var` begins a declaration and the keyword `print` a print
/// statement. An identifier begins an assignment where the assignment sign
/// follows it, and a call where an opening parenthesis does. Anything else
/// begins no statement, and nothing is recorded.
pub open spec fn parse_statement(
    ts: Seq<TokenView>,
    i: int,
    pl: PartialLocationView,
    line: Seq<char>,
) -> ParsedStatement {
    if !(0 <= i < ts.len()) {
        ParsedStatement { statement: None, next: ts.len() as int, errors: seq![] }
    } else {
        match ts[i] {
            TokenView::Keyword(word) => {
                if word == "var"@ {
                    parse_var(ts, i, pl, line)
                } else if word == "print"@ {
                    parse_print(ts, i, pl, line)
                } else {
                    ParsedStatement { statement: None, next: i, errors: seq![] }
                }
            },
            TokenView::Identifier(name) => {
                if i + 1 < ts.len() && ts[i + 1] is Assign {
                    parse_var_edit(ts, i + 1, name, pl, line)
                } else if i + 1 < ts.len() && ts[i + 1] is OpeningParen {
                    parse_func_call(ts, i + 1, name, pl, line)
                } else {
                    ParsedStatement { statement: None, next: i + 1, errors: seq![] }
                }
            },
            _ => ParsedStatement { statement: None, next: i, errors: seq![] },
        }
    }
}

/// What parsing the tokens `ts` of a line gives: its statement, or the
/// sentinel where the tokens begin none, together with the diagnostics.
pub open spec fn parse_line(
    ts: Seq<TokenView>,
    pl: PartialLocationView,
    line: Seq<char>,
) -> (StatementView, Seq<ErrorView>) {
    let parsed = parse_statement(ts, 0, pl, line);
    (
        match parsed.statement {
            Some(statement) => statement,
            None => StatementView::NoneOrError,
        },
        parsed.errors,
    )
}

/// A parser over the tokens of one line.
///
/// It holds the tokens, a cursor into them with the token under the cursor,
/// the statement built so far, and the diagnostics recorded so far.
pub struct AbstractSyntaxTree<'a> {
    statement: Statement,
    tokens: &'a Vec<Token>,
    next: usize,
    err: Vec<Error>,
    curr: Option<&'a Token>,
    pl: PartialLocation,
    line: String,
}

impl<'a> AbstractSyntaxTree<'a> {
    /// The cursor lies within the tokens, and the current token is the one
    /// before it.
    pub closed spec fn wf(&self) -> bool {
        &&& self.next <= self.tokens.len()
        &&& self.curr matches Some(token) ==> self.next >= 1 && *token == self.tokens@[self.next
            - 1]
    }

    /// The tokens that are parsed.
    pub closed spec fn tokens(&self) -> Seq<TokenView> {
        tokens_view(self.tokens@)
    }

    /// The file and line that diagnostics name.
    pub closed spec fn context(&self) -> PartialLocationView {
        self.pl@
    }

    /// The source line that diagnostics show.
    pub closed spec fn source(&self) -> Seq<char> {
        self.line@
    }

    /// The statement built so far; the sentinel before any was.
    pub closed spec fn statement(&self) -> StatementView {
        self.statement@
    }

    /// The diagnostics recorded so far.
    pub closed spec fn diagnostics(&self) -> Seq<ErrorView> {
        errors_view(self.err@)
    }

    /// The place of the next token that the parser will fetch.
    pub closed spec fn cursor(&self) -> int {
        self.next as int
    }

    /// The parser is well formed and, where it has no current token, at the
    /// end of the tokens.
    spec fn scanning(&self) -> bool {
        self.wf() && (self.curr is None ==> self.next == self.tokens.len())
    }

    /// The place of the current token; the number of tokens at their end.
    spec fn here(&self) -> int {
        if self.curr is Some {
            self.next - 1
        } else {
            self.tokens.len() as int
        }
    }

    /// `self` and `other` parse the same tokens in the same context.
    spec fn same_input(&self, other: AbstractSyntaxTree<'a>) -> bool {
        self.tokens == other.tokens && self.pl == other.pl && self.line == other.line
    }

    /// A parser for `tokens`, before the first of them. Diagnostics will name
    /// `pl` and show `line`.
    pub fn new(tokens: &'a Vec<Token>, pl: PartialLocation, line: &str) -> (r: Self)
        ensures
            r.wf(),
            r.tokens() == tokens_view(tokens@),
            r.context() == pl@,
            r.source() == line@,
            r.statement() == StatementView::NoneOrError,
            r.diagnostics() == Seq::<ErrorView>::empty(),
            r.cursor() == 0,
    {
        let r = AbstractSyntaxTree {
            statement: Statement::NoneOrError,
            tokens,
            next: 0,
            err: Vec::new(),
            curr: None,
            pl,
            line: String::from_str(line),
        };
        proof {
            assert(r.diagnostics() =~= Seq::<ErrorView>::empty());
        }
        r
    }

    /// Moves to the next token: it becomes the current one, or there is none
    /// at the end of the tokens.
    fn advance(&mut self)
        requires
            old(self).wf(),
        ensures
            final(self).scanning(),
            final(self).here() == old(self).next,
            final(self).same_input(*old(self)),
            final(self).statement == old(self).statement,
            final(self).err == old(self).err,
    {
        if self.next < self.tokens.len() {
            self.curr = Some(&self.tokens[self.next]);
            self.next = self.next + 1;
        } else {
            self.curr = None;
        }
    }

    /// Records that a token of the class `class` is missing.
    fn expected(&mut self, class: &str)
        ensures
            final(self).same_input(*old(self)),
            final(self).statement == old(self).statement,
            final(self).curr == old(self).curr,
            final(self).next == old(self).next,
            errors_view(final(self).err@) == errors_view(old(self).err@).push(
                expected_token(old(self).pl@, old(self).line@, class@),
            ),
    {
        let location = Location::from(self.pl.clone());
        self.err.push(Error::excepted_token(location, self.line.as_str(), class));
        proof {
            assert(errors_view(self.err@) =~= errors_view(old(self).err@).push(
                expected_token(old(self).pl@, old(self).line@, class@),
            ));
        }
    }

    /// Records that expressions are not built with the operator `token`.
    fn unsupported(&mut self, token: &Token)
        ensures
            final(self).same_input(*old(self)),
            final(self).statement == old(self).statement,
            final(self).curr == old(self).curr,
            final(self).next == old(self).next,
            errors_view(final(self).err@) == errors_view(old(self).err@).push(
                unsupported_operator(old(self).pl@, old(self).line@, token@),
            ),
    {
        let location = Location::from(self.pl.clone());
        self.err.push(
            Error::unsupported_operator(location, self.line.as_str(), token.class_name()),
        );
        proof {
            assert(errors_view(self.err@) =~= errors_view(old(self).err@).push(
                unsupported_operator(old(self).pl@, old(self).line@, token@),
            ));
        }
    }

    /// Records that `token` may not stand where it does.
    fn unexpected(&mut self, token: &Token)
        ensures
            final(self).same_input(*old(self)),
            final(self).statement == old(self).statement,
            final(self).curr == old(self).curr,
            final(self).next == old(self).next,
            errors_view(final(self).err@) == errors_view(old(self).err@).push(
                unexpected_token(old(self).pl@, old(self).line@, token@),
            ),
    {
        let location = Location::from(self.pl.clone());
        self.err.push(Error::unexcepted_token(location, self.line.as_str(), token.class_name()));
        proof {
            assert(errors_view(self.err@) =~= errors_view(old(self).err@).push(
                unexpected_token(old(self).pl@, old(self).line@, token@),
            ));
        }
    }

    /// Reads the expression that starts at the current token; `in_args`
    /// says whether it is an argument of a call. Every problem is recorded,
    /// and the error expression then stands for what could not be built.
    fn make_expr(&mut self, in_args: bool) -> (r: Expr)
        requires
            old(self).scanning(),
        ensures
            final(self).scanning(),
            final(self).same_input(*old(self)),
            final(self).statement == old(self).statement,
            ({
                let parsed = parse_expr(
                    tokens_view(old(self).tokens@),
                    old(self).here(),
                    in_args,
                    old(self).pl@,
                    old(self).line@,
                );
                &&& r@ == parsed.expr
                &&& final(self).here() == parsed.next
                &&& errors_view(final(self).err@) == errors_view(old(self).err@) + parsed.errors
            }),
        decreases old(self).tokens.len() - old(self).here(),
    {
        let ghost ts = tokens_view(self.tokens@);
        let ghost before = errors_view(self.err@);
        let first = match self.curr {
            Some(token) => token,
            None => {
                proof {
                    assert(before =~= before + Seq::<ErrorView>::empty());
                }
                return Expr::Error;
            },
        };
        let value = match first {
            Token::Int(value) => Expr::IntLitteral(*value),
            Token::String(text) => Expr::StringLitteral(text.clone()),
            Token::OpeningParen => {
                self.advance();
                match self.curr {
                    Some(Token::ClosingParen) => {
                        self.unexpected(&Token::ClosingParen);
                        self.advance();
                        proof {
                            assert(before.push(
                                unexpected_token(self.pl@, self.line@, TokenView::ClosingParen),
                            ) =~= before + seq![
                                unexpected_token(self.pl@, self.line@, TokenView::ClosingParen),
                            ]);
                        }
                        return Expr::Error;
                    },
                    _ => {},
                }
                let inner = self.make_expr(false);
                match self.curr {
                    Some(Token::ClosingParen) => {
                        self.advance();
                        return inner;
                    },
                    Some(other) => {
                        self.unexpected(other);
                    },
                    None => {
                        self.expected("ClosingParen");
                    },
                }
                proof {
                    let parsed = parse_expr(ts, old(self).here() + 1, false, self.pl@, self.line@);
                    assert forall|e: ErrorView| (before + parsed.errors).push(e) == before
                        + parsed.errors.push(e) by {
                        assert((before + parsed.errors).push(e) =~= before + parsed.errors.push(
                            e,
                        ));
                    }
                }
                return Expr::Error;
            },
            other => {
                self.unexpected(other);
                proof {
                    assert(before.push(unexpected_token(self.pl@, self.line@, other@)) =~= before
                        + seq![unexpected_token(self.pl@, self.line@, other@)]);
                }
                return Expr::Error;
            },
        };
        assert(literal(first@) == Some(value@));
        self.advance();
        match self.curr {
            Some(Token::Plus) => {
                self.advance();
                Expr::BinaryExpr {
                    opr: Operator::Plus,
                    l: Box::new(value),
                    r: Box::new(self.make_expr(in_args)),
                }
            },
            None | Some(Token::ClosingParen) => {
                proof {
                    assert(before =~= before + Seq::<ErrorView>::empty());
                }
                value
            },
            Some(other) => {
                if in_args && other.same(&Token::Coma) {
                    proof {
                        assert(before =~= before + Seq::<ErrorView>::empty());
                    }
                    value
                } else if other.same(&Token::Minus) || other.same(&Token::Mul) || other.same(
                    &Token::Div,
                ) {
                    self.unsupported(other);
                    proof {
                        assert(before.push(unsupported_operator(self.pl@, self.line@, other@))
                            =~= before + seq![
                            unsupported_operator(self.pl@, self.line@, other@),
                        ]);
                    }
                    Expr::Error
                } else {
                    self.unexpected(other);
                    proof {
                        assert(before.push(unexpected_token(self.pl@, self.line@, other@))
                            =~= before + seq![unexpected_token(self.pl@, self.line@, other@)]);
                    }
                    Expr::Error
                }
            },
        }
    }

    /// Reads the arguments of a call, the first of which starts at the
    /// current token, up to the closing parenthesis.
    fn make_args(&mut self) -> (r: Vec<Expr>)
        requires
            old(self).scanning(),
        ensures
            final(self).scanning(),
            final(self).same_input(*old(self)),
            final(self).statement == old(self).statement,
            ({
                let parsed = parse_args(
                    tokens_view(old(self).tokens@),
                    old(self).here(),
                    old(self).pl@,
                    old(self).line@,
                );
                &&& exprs_view(r@) == parsed.args
                &&& final(self).here() == parsed.next
                &&& errors_view(final(self).err@) == errors_view(old(self).err@) + parsed.errors
            }),
    {
        let ghost ts = tokens_view(self.tokens@);
        let ghost pl = self.pl@;
        let ghost line = self.line@;
        let ghost all = parse_args(ts, self.here(), pl, line);
        let ghost before = errors_view(self.err@);
        let mut args: Vec<Expr> = Vec::new();
        let mut more = true;
        proof {
            assert(exprs_view(args@) =~= Seq::<ExprView>::empty());
            assert(exprs_view(args@) + all.args =~= all.args);
        }
        while more
            invariant
                self.scanning(),
                self.same_input(*old(self)),
                self.statement == old(self).statement,
                ts == tokens_view(self.tokens@),
                pl == self.pl@,
                line == self.line@,
                more ==> exprs_view(args@) + parse_args(ts, self.here(), pl, line).args
                    == all.args,
                more ==> errors_view(self.err@) + parse_args(ts, self.here(), pl, line).errors
                    == before + all.errors,
                more ==> parse_args(ts, self.here(), pl, line).next == all.next,
                !more ==> exprs_view(args@) == all.args,
                !more ==> errors_view(self.err@) == before + all.errors,
                !more ==> self.here() == all.next,
            decreases self.tokens.len() - self.here(),
                if more {
                    1int
                } else {
                    0int
                },
        {
            let ghost start = self.here();
            let ghost seen = exprs_view(args@);
            let ghost recorded = errors_view(self.err@);
            let ghost arg = parse_expr(ts, start, true, pl, line);
            proof {
                lemma_parse_expr_next(ts, start, true, pl, line);
            }
            let expr = self.make_expr(true);
            proof {
                lemma_exprs_view_push(args@, expr);
            }
            args.push(expr);
            match self.curr {
                Some(Token::Coma) => {
                    self.advance();
                    proof {
                        let rest = parse_args(ts, arg.next + 1, pl, line);
                        assert(seen.push(arg.expr) + rest.args =~= seen + (seq![arg.expr]
                            + rest.args));
                        assert(recorded + arg.errors + rest.errors =~= recorded + (arg.errors
                            + rest.errors));
                    }
                },
                Some(Token::ClosingParen) => {
                    self.advance();
                    more = false;
                    proof {
                        assert(seen.push(arg.expr) =~= seen + seq![arg.expr]);
                    }
                },
                Some(other) => {
                    self.unexpected(other);
                    more = false;
                    proof {
                        let e = unexpected_token(pl, line, other@);
                        assert(seen.push(arg.expr) =~= seen + seq![arg.expr]);
                        assert((recorded + arg.errors).push(e) =~= recorded + arg.errors.push(e));
                    }
                },
                None => {
                    self.expected("ClosingParen");
                    more = false;
                    proof {
                        let e = expected_token(pl, line, "ClosingParen"@);
                        assert(seen.push(arg.expr) =~= seen + seq![arg.expr]);
                        assert((recorded + arg.errors).push(e) =~= recorded + arg.errors.push(e));
                    }
                },
            }
        }
        args
    }

    /// Reads the declaration whose keyword `var` is the current token.
    fn make_var_statement(&mut self) -> (r: Statement)
        requires
            old(self).scanning(),
            old(self).curr is Some,
        ensures
            final(self).scanning(),
            final(self).same_input(*old(self)),
            final(self).statement == old(self).statement,
            ({
                let parsed = parse_var(
                    tokens_view(old(self).tokens@),
                    old(self).here(),
                    old(self).pl@,
                    old(self).line@,
                );
                &&& Some(r@) == parsed.statement
                &&& final(self).here() == parsed.next
                &&& errors_view(final(self).err@) == errors_view(old(self).err@) + parsed.errors
            }),
    {
        let ghost before = errors_view(self.err@);
        let mut identifier = String::new();
        self.advance();
        match self.curr {
            Some(Token::Identifier(id)) => {
                identifier = id.clone();
            },
            _ => {
                self.expected("Identifier");
            },
        }
        self.advance();
        match self.curr {
            Some(Token::Assign) => {},
            _ => {
                self.expected("Assign");
            },
        }
        self.advance();
        let value = self.make_expr(false);
        proof {
            let parsed = parse_var(
                tokens_view(self.tokens@),
                old(self).here(),
                self.pl@,
                self.line@,
            );
            assert(errors_view(self.err@) =~= before + parsed.errors);
        }
        Statement::VarDeclaration { identifier, value }
    }

    /// Reads the statement whose keyword `print` is the current token.
    fn make_print_statement(&mut self) -> (r: Statement)
        requires
            old(self).scanning(),
            old(self).curr is Some,
        ensures
            final(self).scanning(),
            final(self).same_input(*old(self)),
            final(self).statement == old(self).statement,
            ({
                let parsed = parse_print(
                    tokens_view(old(self).tokens@),
                    old(self).here(),
                    old(self).pl@,
                    old(self).line@,
                );
                &&& Some(r@) == parsed.statement
                &&& final(self).here() == parsed.next
                &&& errors_view(final(self).err@) == errors_view(old(self).err@) + parsed.errors
            }),
    {
        self.advance();
        let value = self.make_expr(false);
        Statement::Print { value }
    }

    /// Reads the assignment to `name` whose assignment sign is the current
    /// token.
    fn make_var_edit_statement(&mut self, name: &String) -> (r: Statement)
        requires
            old(self).scanning(),
            old(self).curr is Some,
        ensures
            final(self).scanning(),
            final(self).same_input(*old(self)),
            final(self).statement == old(self).statement,
            ({
                let parsed = parse_var_edit(
                    tokens_view(old(self).tokens@),
                    old(self).here(),
                    name@,
                    old(self).pl@,
                    old(self).line@,
                );
                &&& Some(r@) == parsed.statement
                &&& final(self).here() == parsed.next
                &&& errors_view(final(self).err@) == errors_view(old(self).err@) + parsed.errors
            }),
    {
        self.advance();
        let value = self.make_expr(false);
        Statement::VarEdit { identifier: name.clone(), value }
    }

    /// Reads the call of `name` whose opening parenthesis is the current
    /// token.
    fn make_func_call_statement(&mut self, name: &String) -> (r: Statement)
        requires
            old(self).scanning(),
            old(self).curr is Some,
        ensures
            final(self).scanning(),
            final(self).same_input(*old(self)),
            final(self).statement == old(self).statement,
            ({
                let parsed = parse_func_call(
                    tokens_view(old(self).tokens@),
                    old(self).here(),
                    name@,
                    old(self).pl@,
                    old(self).line@,
                );
                &&& Some(r@) == parsed.statement
                &&& final(self).here() == parsed.next
                &&& errors_view(final(self).err@) == errors_view(old(self).err@) + parsed.errors
            }),
    {
        let ghost before = errors_view(self.err@);
        self.advance();
        let args = match self.curr {
            Some(Token::ClosingParen) => {
                self.advance();
                let args: Vec<Expr> = Vec::new();
                proof {
                    assert(exprs_view(args@) =~= Seq::<ExprView>::empty());
                    assert(before =~= before + Seq::<ErrorView>::empty());
                }
                args
            },
            _ => self.make_args(),
        };
        Statement::FuncCall { identifier: name.clone(), args }
    }

    /// Reads the statement that starts at the cursor and keeps it; where the
    /// tokens begin no statement there, the statement kept so far stays.
    /// Every problem is recorded, and the parse goes on after it.
    pub fn build_tree(&mut self)
        requires
            old(self).wf(),
        ensures
            final(self).wf(),
            final(self).tokens() == old(self).tokens(),
            final(self).context() == old(self).context(),
            final(self).source() == old(self).source(),
            ({
                let parsed = parse_statement(
                    old(self).tokens(),
                    old(self).cursor(),
                    old(self).context(),
                    old(self).source(),
                );
                &&& final(self).statement() == match parsed.statement {
                    Some(statement) => statement,
                    None => old(self).statement(),
                }
                &&& final(self).diagnostics() == old(self).diagnostics() + parsed.errors
                &&& final(self).cursor() == if parsed.next < old(self).tokens().len() {
                    parsed.next + 1
                } else {
                    old(self).tokens().len() as int
                }
            }),
    {
        let ghost before = errors_view(self.err@);
        proof {
            assert(before =~= before + Seq::<ErrorView>::empty());
        }
        self.advance();
        match self.curr {
            Some(Token::Keyword(word)) => {
                if *word == String::from_str("var") {
                    let statement = self.make_var_statement();
                    self.statement = statement;
                } else if *word == String::from_str("print") {
                    let statement = self.make_print_statement();
                    self.statement = statement;
                }
            },
            Some(Token::Identifier(name)) => {
                self.advance();
                match self.curr {
                    Some(Token::Assign) => {
                        let statement = self.make_var_edit_statement(name);
                        self.statement = statement;
                    },
                    Some(Token::OpeningParen) => {
                        let statement = self.make_func_call_statement(name);
                        self.statement = statement;
                    },
                    _ => {},
                }
            },
            _ => {},
        }
    }

    /// The outcome of parsing: the statement where there is no diagnostic,
    /// the diagnostics where there is one.
    pub fn result(self) -> (r: CompilerResult<Statement>)
        ensures
            match r {
                Ok(statement) => self.diagnostics().len() == 0 && statement@ == self.statement(),
                Err(errors) => errors.len() > 0 && errors_view(errors@) == self.diagnostics(),
            },
    {
        if self.err.is_empty() {
            Ok(self.statement)
        } else {
            Err(self.err)
        }
    }
}

/// Parses the tokens of one line: gives its statement, or, where anything is
/// wrong with it, every diagnostic in the order found. The diagnostics name
/// `context` and show `source_line`.
pub fn parse(tokens: &Vec<Token>, context: PartialLocation, source_line: &str) -> (r:
    CompilerResult<Statement>)
    ensures
        match r {
            Ok(statement) => parse_line(tokens_view(tokens@), context@, source_line@).1.len() == 0
                && statement@ == parse_line(tokens_view(tokens@), context@, source_line@).0,
            Err(errors) => errors.len() > 0 && errors_view(errors@) == parse_line(
                tokens_view(tokens@),
                context@,
                source_line@,
            ).1,
        },
{
    let mut parser = AbstractSyntaxTree::new(tokens, context, source_line);
    parser.build_tree();
    parser.result()
}

} // verus!
