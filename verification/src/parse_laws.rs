//! What holds of the parser on every token sequence of a given shape.

use crate::ast::{
    expected_token, lemma_parse_expr_next, literal, parse_args, parse_expr, parse_line, ExprView,
    Operator, ParsedExpr, StatementView,
};
use crate::errors::{all_errors, ErrorView, PartialLocationView};
use crate::token::TokenView;
use vstd::prelude::*;

verus! {

/// The tokens of a sum: the given literals with a `+` between each two.
pub open spec fn sum_tokens(literals: Seq<TokenView>) -> Seq<TokenView>
    decreases literals.len(),
{
    if literals.len() == 0 {
        seq![]
    } else if literals.len() == 1 {
        seq![literals[0]]
    } else {
        seq![literals[0], TokenView::Plus] + sum_tokens(literals.drop_first())
    }
}

/// The sum of the given literals, grouped to the right: the first literal
/// plus the sum of the others.
pub open spec fn sum_expr(literals: Seq<TokenView>) -> ExprView
    decreases literals.len(),
{
    if literals.len() == 0 {
        ExprView::Error
    } else if literals.len() == 1 {
        literal(literals[0])->0
    } else {
        ExprView::BinaryExpr {
            opr: Operator::Plus,
            l: Box::new(literal(literals[0])->0),
            r: Box::new(sum_expr(literals.drop_first())),
        }
    }
}

/// A sum of `n` literals has `2 n - 1` tokens.
pub proof fn lemma_sum_tokens_len(literals: Seq<TokenView>)
    requires
        literals.len() > 0,
    ensures
        sum_tokens(literals).len() == 2 * literals.len() - 1,
    decreases literals.len(),
{
    if literals.len() > 1 {
        lemma_sum_tokens_len(literals.drop_first());
    }
}

/// An expression depends on the tokens from its start on only: before the
/// same tokens, after whatever else, it is the same expression, so many
/// places further.
pub proof fn lemma_parse_expr_shift(
    before: Seq<TokenView>,
    ts: Seq<TokenView>,
    i: int,
    in_args: bool,
    pl: PartialLocationView,
    line: Seq<char>,
)
    requires
        0 <= i <= ts.len(),
    ensures
        parse_expr(before + ts, before.len() + i, in_args, pl, line) == (ParsedExpr {
            next: before.len() + parse_expr(ts, i, in_args, pl, line).next,
            ..parse_expr(ts, i, in_args, pl, line)
        }),
    decreases ts.len() - i,
{
    let all = before + ts;
    let shift = before.len() as int;
    assert forall|k: int| 0 <= k < ts.len() implies all[shift + k] == ts[k] by {}
    if i < ts.len() {
        assert(all[shift + i] == ts[i]);
        if literal(ts[i]) is Some {
            if i + 1 < ts.len() {
                assert(all[shift + i + 1] == ts[i + 1]);
                if ts[i + 1] is Plus {
                    lemma_parse_expr_shift(before, ts, i + 2, in_args, pl, line);
                }
            }
        } else if ts[i] is OpeningParen {
            if i + 1 < ts.len() {
                assert(all[shift + i + 1] == ts[i + 1]);
            }
            if !(i + 1 < ts.len() && ts[i + 1] is ClosingParen) {
                lemma_parse_expr_shift(before, ts, i + 1, false, pl, line);
                lemma_parse_expr_next(ts, i + 1, false, pl, line);
                let inner = parse_expr(ts, i + 1, false, pl, line);
                if inner.next < ts.len() {
                    assert(all[shift + inner.next] == ts[inner.next]);
                }
            }
        }
    }
}

/// Addition groups to the right: the tokens of a sum of literals, alone,
/// parse to the first literal plus the sum of the others, without a
/// diagnostic, and use up the tokens.
pub proof fn lemma_sum_groups_right(
    literals: Seq<TokenView>,
    in_args: bool,
    pl: PartialLocationView,
    line: Seq<char>,
)
    requires
        literals.len() > 0,
        forall|k: int| 0 <= k < literals.len() ==> literal(#[trigger] literals[k]) is Some,
    ensures
        parse_expr(sum_tokens(literals), 0, in_args, pl, line) == (ParsedExpr {
            expr: sum_expr(literals),
            next: sum_tokens(literals).len() as int,
            errors: seq![],
        }),
    decreases literals.len(),
{
    let ts = sum_tokens(literals);
    lemma_sum_tokens_len(literals);
    assert(literal(literals[0]) is Some);
    if literals.len() > 1 {
        let rest = literals.drop_first();
        let tail = sum_tokens(rest);
        lemma_sum_tokens_len(rest);
        assert forall|k: int| 0 <= k < rest.len() implies literal(#[trigger] rest[k]) is Some by {
            assert(rest[k] == literals[k + 1]);
        }
        lemma_sum_groups_right(rest, in_args, pl, line);
        let head = seq![literals[0], TokenView::Plus];
        assert(ts == head + tail);
        lemma_parse_expr_shift(head, tail, 0, in_args, pl, line);
        assert(ts[0] == literals[0]);
        assert(ts[1] == TokenView::Plus);
    } else {
        assert(ts =~= seq![literals[0]]);
    }
}

/// A declaration of a literal: the keyword `var`, a name, the assignment
/// sign and a literal parse to the declaration of that name with that
/// literal as its value, without a diagnostic. So they do with the literal
/// in parentheses.
pub proof fn lemma_declaration_of_literal(
    name: Seq<char>,
    value: TokenView,
    pl: PartialLocationView,
    line: Seq<char>,
)
    requires
        literal(value) is Some,
    ensures
        parse_line(
            seq![TokenView::Keyword("var"@), TokenView::Identifier(name), TokenView::Assign, value],
            pl,
            line,
        ) == (
            StatementView::VarDeclaration { identifier: name, value: literal(value)->0 },
            Seq::<ErrorView>::empty(),
        ),
        parse_line(
            seq![
                TokenView::Keyword("var"@),
                TokenView::Identifier(name),
                TokenView::Assign,
                TokenView::OpeningParen,
                value,
                TokenView::ClosingParen,
            ],
            pl,
            line,
        ) == (
            StatementView::VarDeclaration { identifier: name, value: literal(value)->0 },
            Seq::<ErrorView>::empty(),
        ),
{
    reveal_with_fuel(parse_expr, 3);
    let plain = seq![
        TokenView::Keyword("var"@),
        TokenView::Identifier(name),
        TokenView::Assign,
        value,
    ];
    assert(parse_line(plain, pl, line).1 =~= Seq::<ErrorView>::empty());
    let wrapped = seq![
        TokenView::Keyword("var"@),
        TokenView::Identifier(name),
        TokenView::Assign,
        TokenView::OpeningParen,
        value,
        TokenView::ClosingParen,
    ];
    assert(parse_line(wrapped, pl, line).1 =~= Seq::<ErrorView>::empty());
}

/// A declaration without its name: where the keyword `var` comes first and
/// no identifier second, the first diagnostic says that an identifier is
/// missing, so the outcome is no statement.
pub proof fn lemma_missing_identifier(
    ts: Seq<TokenView>,
    pl: PartialLocationView,
    line: Seq<char>,
)
    requires
        ts.len() > 0,
        ts[0] == TokenView::Keyword("var"@),
        ts.len() == 1 || !(ts[1] is Identifier),
    ensures
        parse_line(ts, pl, line).1.len() > 0,
        parse_line(ts, pl, line).1[0] == expected_token(pl, line, "Identifier"@),
{
}

/// Every diagnostic of an expression is of the severity `Error`.
pub proof fn lemma_parse_expr_errors_are_errors(
    ts: Seq<TokenView>,
    i: int,
    in_args: bool,
    pl: PartialLocationView,
    line: Seq<char>,
)
    ensures
        all_errors(parse_expr(ts, i, in_args, pl, line).errors),
    decreases ts.len() - i,
{
    if 0 <= i < ts.len() {
        if literal(ts[i]) is Some {
            if i + 1 < ts.len() && ts[i + 1] is Plus {
                lemma_parse_expr_errors_are_errors(ts, i + 2, in_args, pl, line);
            }
        } else if ts[i] is OpeningParen {
            if !(i + 1 < ts.len() && ts[i + 1] is ClosingParen) {
                lemma_parse_expr_errors_are_errors(ts, i + 1, false, pl, line);
            }
        }
    }
}

/// Every diagnostic of the arguments of a call is of the severity `Error`.
pub proof fn lemma_parse_args_errors_are_errors(
    ts: Seq<TokenView>,
    i: int,
    pl: PartialLocationView,
    line: Seq<char>,
)
    ensures
        all_errors(parse_args(ts, i, pl, line).errors),
    decreases ts.len() - i,
{
    if 0 <= i <= ts.len() {
        let arg = parse_expr(ts, i, true, pl, line);
        lemma_parse_expr_next(ts, i, true, pl, line);
        lemma_parse_expr_errors_are_errors(ts, i, true, pl, line);
        if arg.next < ts.len() && ts[arg.next] is Coma {
            lemma_parse_args_errors_are_errors(ts, arg.next + 1, pl, line);
        }
    }
}

/// Every diagnostic of the parser is of the severity `Error`: a line with a
/// diagnostic is a line that failed.
pub proof fn lemma_parse_errors_are_errors(
    ts: Seq<TokenView>,
    pl: PartialLocationView,
    line: Seq<char>,
)
    ensures
        all_errors(parse_line(ts, pl, line).1),
{
    lemma_parse_expr_errors_are_errors(ts, 1, false, pl, line);
    lemma_parse_expr_errors_are_errors(ts, 2, false, pl, line);
    lemma_parse_expr_errors_are_errors(ts, 3, false, pl, line);
    lemma_parse_args_errors_are_errors(ts, 2, pl, line);
}

} // verus!
