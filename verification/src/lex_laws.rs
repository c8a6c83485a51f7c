//! What holds of the lexer on every line of a given shape.

use crate::errors::{all_errors, ErrorView, PartialLocationView};
use crate::text::{
    digits_value, is_alnum, is_digit, is_white_space, lemma_trim_end_exact, lemma_trim_end_fixed,
    lemma_trimmed_len_bound, trim_end, trimmed_len,
};
use crate::token::{
    digits_end, illegal_character_at, is_follower, lemma_digits_end, lemma_lex_from_unfold,
    lemma_quote_at, lemma_scan_advances, lemma_word_end, lex_from, lex_line, offset,
    punctuation, quote_at, scan, string_closing_of, Lexed, TokenView,
};
use vstd::prelude::*;

verus! {

/// Where every character from `i` on is a digit, the run of digits that
/// starts at `i` ends with the line.
pub proof fn lemma_digits_to_the_end(s: Seq<char>, i: int)
    requires
        0 <= i <= s.len(),
        forall|k: int| i <= k < s.len() ==> is_digit(#[trigger] s[k]),
    ensures
        digits_end(s, i) == s.len(),
    decreases s.len() - i,
{
    if i < s.len() {
        lemma_digits_to_the_end(s, i + 1);
    }
}

/// Where no character from `i` up to `j` is a double quote, the first double
/// quote at or after `i` is the first at or after `j`.
pub proof fn lemma_quote_after(s: Seq<char>, i: int, j: int)
    requires
        0 <= i <= j <= s.len(),
        forall|k: int| i <= k < j ==> #[trigger] s[k] != '"',
    ensures
        quote_at(s, i) == quote_at(s, j),
    decreases j - i,
{
    if i < j {
        lemma_quote_after(s, i + 1, j);
    }
}

/// A line that holds digits and nothing else, and whose number fits in 64
/// bits, lexes to one integer token with that number, without a diagnostic.
pub proof fn lemma_lex_digits(line: Seq<char>, pl: PartialLocationView)
    requires
        line.len() > 0,
        forall|i: int| 0 <= i < line.len() ==> is_digit(#[trigger] line[i]),
        digits_value(line) <= u64::MAX,
    ensures
        lex_line(line, pl) == (Lexed {
            tokens: seq![TokenView::Int(digits_value(line) as u64)],
            errors: seq![],
        }),
{
    assert(is_digit(line.last()));
    lemma_trim_end_fixed(line);
    lemma_digits_to_the_end(line, 0);
    lemma_lex_from_unfold(line, pl, 0);
    assert(line.subrange(0, line.len() as int) =~= line);
    let lexed = lex_line(line, pl);
    assert(lexed.tokens =~= seq![TokenView::Int(digits_value(line) as u64)]);
    assert(lexed.errors =~= Seq::<ErrorView>::empty());
}

/// A line that holds one string literal and nothing else (a double quote, a
/// text without any double quote, and a double quote) lexes to one string
/// token with that text, without a diagnostic.
pub proof fn lemma_lex_string(text: Seq<char>, pl: PartialLocationView)
    requires
        forall|i: int| 0 <= i < text.len() ==> #[trigger] text[i] != '"',
    ensures
        lex_line(seq!['"'] + text + seq!['"'], pl) == (Lexed {
            tokens: seq![TokenView::String(text)],
            errors: seq![],
        }),
{
    let line = seq!['"'] + text + seq!['"'];
    let close: int = text.len() as int + 1;
    assert(line.last() == '"');
    lemma_trim_end_fixed(line);
    assert forall|k: int| 1 <= k < close implies #[trigger] line[k] != '"' by {
        assert(line[k] == text[k - 1]);
    }
    lemma_quote_after(line, 1, close);
    assert(quote_at(line, close) == close);
    lemma_lex_from_unfold(line, pl, 0);
    assert(line.subrange(1, close) =~= text);
    let lexed = lex_line(line, pl);
    assert(lexed.tokens =~= seq![TokenView::String(text)]);
    assert(lexed.errors =~= Seq::<ErrorView>::empty());
}

/// Wherever the lexer stands on a double quote after which the line holds no
/// other, it finds the error token and records one diagnostic, that the
/// string is not closed, and the line is used up: no string token is made.
pub proof fn lemma_lex_from_unterminated(s: Seq<char>, pl: PartialLocationView, i: int)
    requires
        0 <= i < s.len(),
        s[i] == '"',
        forall|k: int| i < k < s.len() ==> #[trigger] s[k] != '"',
    ensures
        lex_from(s, pl, i) == (Lexed {
            tokens: seq![TokenView::Error],
            errors: seq![string_closing_of(s)],
        }),
{
    lemma_quote_after(s, i + 1, s.len() as int);
    lemma_lex_from_unfold(s, pl, i);
    let lexed = lex_from(s, pl, i);
    assert(lexed.tokens =~= seq![TokenView::Error]);
    assert(lexed.errors =~= seq![string_closing_of(s)]);
}

/// A line that opens a string literal and never closes it (a double quote
/// and a text without any double quote) lexes to the error token, with one
/// diagnostic, that the string is not closed.
pub proof fn lemma_lex_unterminated(text: Seq<char>, pl: PartialLocationView)
    requires
        forall|i: int| 0 <= i < text.len() ==> #[trigger] text[i] != '"',
    ensures
        lex_line(seq!['"'] + text, pl) == (Lexed {
            tokens: seq![TokenView::Error],
            errors: seq![string_closing_of(trim_end(seq!['"'] + text))],
        }),
{
    let line = seq!['"'] + text;
    let s = trim_end(line);
    lemma_trimmed_len_bound(line);
    lemma_trim_end_exact(line);
    assert(trimmed_len(line) > 0) by {
        if trimmed_len(line) == 0 {
            assert(is_white_space(line[0]));
        }
    }
    assert(s[0] == '"');
    assert forall|k: int| 0 < k < s.len() implies #[trigger] s[k] != '"' by {
        assert(s[k] == text[k - 1]);
    }
    lemma_lex_from_unterminated(s, pl, 0);
}

/// Whether `error` reports an illegal character at the offset `at`.
pub open spec fn is_illegal_at(error: ErrorView, at: u32) -> bool {
    error.kind is IllegalCharacter && error.location.char_pos == at
}

/// How many of `errors` report an illegal character at the offset `at`.
pub open spec fn illegal_count(errors: Seq<ErrorView>, at: u32) -> nat
    decreases errors.len(),
{
    if errors.len() == 0 {
        0
    } else {
        illegal_count(errors.drop_last(), at) + if is_illegal_at(errors.last(), at) {
            1nat
        } else {
            0nat
        }
    }
}

/// The characters that the lexer accepts where it looks for the start of a
/// lexeme: letters, digits, the double quote, punctuation and the space.
pub open spec fn is_legal(c: char) -> bool {
    is_alnum(c) || c == '"' || punctuation(c) is Some || c == ' '
}

/// Whether the lexer, started at place `from` of the line `s`, comes to
/// stand at place `i`: whether a lexeme, or the end of the line, begins
/// there.
pub open spec fn stands_at(s: Seq<char>, pl: PartialLocationView, from: int, i: int) -> bool
    decreases s.len() - from,
{
    if from == i {
        true
    } else if 0 <= from < i && from < s.len() {
        proof {
            lemma_scan_advances(s, pl, from);
        }
        stands_at(s, pl, scan(s, pl, from).next, i)
    } else {
        false
    }
}

/// The place after the numeric or string literal that starts at place `i` of
/// the line `s`, where one starts there and, if it is a string, is closed.
pub open spec fn literal_end(s: Seq<char>, i: int) -> Option<int> {
    if is_digit(s[i]) {
        Some(digits_end(s, i))
    } else if s[i] == '"' && quote_at(s, i + 1) < s.len() {
        Some(quote_at(s, i + 1) + 1)
    } else {
        None
    }
}

/// Counting over two lists in a row is adding the counts.
pub proof fn lemma_illegal_count_add(a: Seq<ErrorView>, b: Seq<ErrorView>, at: u32)
    ensures
        illegal_count(a + b, at) == illegal_count(a, at) + illegal_count(b, at),
    decreases b.len(),
{
    if b.len() == 0 {
        assert(a + b =~= a);
    } else {
        lemma_illegal_count_add(a, b.drop_last(), at);
        assert((a + b).drop_last() =~= a + b.drop_last());
        assert((a + b).last() == b.last());
    }
}

/// What one step of the lexer reports at the offset of place `j`, on a line
/// short enough for every place to have an offset of its own: the character
/// at which the step stands, if it is not legal; the character after a
/// literal that the step reads, if it is no follower; and nothing else.
pub proof fn lemma_illegal_count_scan(s: Seq<char>, pl: PartialLocationView, k: int, j: int)
    requires
        s.len() <= u32::MAX,
        0 <= k < s.len(),
        0 <= j <= s.len(),
    ensures
        illegal_count(scan(s, pl, k).errors, offset(j)) == if j == k {
            if is_legal(s[k]) {
                0nat
            } else {
                1nat
            }
        } else if literal_end(s, k) == Some(j) && j < s.len() && !is_follower(s[j]) {
            1nat
        } else {
            0nat
        },
{
    lemma_scan_advances(s, pl, k);
    lemma_digits_end(s, k);
    lemma_word_end(s, k);
    lemma_quote_at(s, k + 1);
    reveal_with_fuel(illegal_count, 3);
    let errors = scan(s, pl, k).errors;
    let next = scan(s, pl, k).next;
    assert(offset(j) == j);
    assert(offset(k) == k);
    assert(offset(next) == next);
    if errors.len() == 2 {
        assert(errors.drop_last().drop_last() =~= Seq::<ErrorView>::empty());
    } else if errors.len() == 1 {
        assert(errors.drop_last() =~= Seq::<ErrorView>::empty());
    }
}

/// On such a line, lexing from a place after `j` reports nothing at the
/// offset of `j`.
pub proof fn lemma_illegal_count_after(s: Seq<char>, pl: PartialLocationView, k: int, j: int)
    requires
        s.len() <= u32::MAX,
        0 <= j < k <= s.len(),
    ensures
        illegal_count(lex_from(s, pl, k).errors, offset(j)) == 0,
    decreases s.len() - k,
{
    if k < s.len() {
        lemma_lex_from_unfold(s, pl, k);
        lemma_scan_advances(s, pl, k);
        let step = scan(s, pl, k);
        lemma_illegal_count_scan(s, pl, k, j);
        lemma_digits_end(s, k);
        lemma_quote_at(s, k + 1);
        lemma_illegal_count_after(s, pl, step.next, j);
        lemma_illegal_count_add(step.errors, lex_from(s, pl, step.next).errors, offset(j));
    }
}

/// On such a line, where the lexer comes from `from` to stand at `i`, what
/// it reports at the offset of a place after `i` it reports from `i` on.
pub proof fn lemma_illegal_count_before(
    s: Seq<char>,
    pl: PartialLocationView,
    from: int,
    i: int,
    j: int,
)
    requires
        s.len() <= u32::MAX,
        0 <= from,
        stands_at(s, pl, from, i),
        i < j <= s.len(),
    ensures
        illegal_count(lex_from(s, pl, from).errors, offset(j)) == illegal_count(
            lex_from(s, pl, i).errors,
            offset(j),
        ),
    decreases s.len() - from,
{
    if from != i {
        lemma_lex_from_unfold(s, pl, from);
        lemma_scan_advances(s, pl, from);
        let step = scan(s, pl, from);
        assert(stands_at(s, pl, step.next, i));
        assert(step.next <= i);
        lemma_illegal_count_scan(s, pl, from, j);
        lemma_digits_end(s, from);
        lemma_quote_at(s, from + 1);
        lemma_illegal_count_before(s, pl, step.next, i, j);
        lemma_illegal_count_add(step.errors, lex_from(s, pl, step.next).errors, offset(j));
    }
}

/// Where the lexer, on its way from `from`, comes to stand at `i`, it has
/// every diagnostic that it records from `i` on.
pub proof fn lemma_errors_from(
    s: Seq<char>,
    pl: PartialLocationView,
    from: int,
    i: int,
    error: ErrorView,
)
    requires
        0 <= from,
        stands_at(s, pl, from, i),
        lex_from(s, pl, i).errors.contains(error),
    ensures
        lex_from(s, pl, from).errors.contains(error),
    decreases s.len() - from,
{
    if from != i {
        lemma_lex_from_unfold(s, pl, from);
        lemma_scan_advances(s, pl, from);
        let step = scan(s, pl, from);
        let rest = lex_from(s, pl, step.next).errors;
        lemma_errors_from(s, pl, step.next, i, error);
        let k = choose|k: int| 0 <= k < rest.len() && rest[k] == error;
        assert((step.errors + rest)[step.errors.len() + k] == error);
    }
}

/// The character after a numeric or string literal.
///
/// Take a line short enough for every place to have an offset of its own,
/// and a literal in it: a number, or a string that is closed, at a place
/// where the lexer comes to stand. Where the line ends after the literal, or
/// a follower stands there, no diagnostic reports an illegal character at
/// that place. Where another character stands there, the diagnostic for it
/// is recorded; it is the only one that reports an illegal character at that
/// place if the character is legal at the start of a lexeme, and one of two
/// if the character is legal nowhere: one for the literal that it follows,
/// one for the character itself.
pub proof fn lemma_after_literal(s: Seq<char>, pl: PartialLocationView, i: int)
    requires
        s.len() <= u32::MAX,
        0 <= i < s.len(),
        stands_at(s, pl, 0, i),
        literal_end(s, i) is Some,
    ensures
        ({
            let j = literal_end(s, i)->0;
            let errors = lex_from(s, pl, 0).errors;
            let found = illegal_count(errors, offset(j));
            if j >= s.len() || is_follower(s[j]) {
                found == 0
            } else if is_legal(s[j]) {
                found == 1 && errors.contains(illegal_character_at(s, pl, j))
            } else {
                found == 2 && errors.contains(illegal_character_at(s, pl, j))
            }
        }),
{
    if literal_end(s, i)->0 < s.len() && !is_follower(s[literal_end(s, i)->0]) {
        let j = literal_end(s, i)->0;
        let error = illegal_character_at(s, pl, j);
        lemma_digits_end(s, i);
        lemma_quote_at(s, i + 1);
        lemma_lex_from_unfold(s, pl, i);
        lemma_scan_advances(s, pl, i);
        let step = scan(s, pl, i);
        assert(step.errors.last() == error);
        assert((step.errors + lex_from(s, pl, j).errors)[step.errors.len() - 1] == error);
        lemma_errors_from(s, pl, 0, i, error);
    }
    let j = literal_end(s, i)->0;
    lemma_digits_end(s, i);
    lemma_quote_at(s, i + 1);
    lemma_scan_advances(s, pl, i);
    let step = scan(s, pl, i);
    assert(step.next == j);
    lemma_illegal_count_before(s, pl, 0, i, j);
    lemma_lex_from_unfold(s, pl, i);
    lemma_illegal_count_scan(s, pl, i, j);
    lemma_illegal_count_add(step.errors, lex_from(s, pl, j).errors, offset(j));
    if j < s.len() {
        lemma_lex_from_unfold(s, pl, j);
        lemma_scan_advances(s, pl, j);
        let after = scan(s, pl, j);
        lemma_illegal_count_scan(s, pl, j, j);
        lemma_illegal_count_after(s, pl, after.next, j);
        lemma_illegal_count_add(after.errors, lex_from(s, pl, after.next).errors, offset(j));
    } else {
        reveal_with_fuel(illegal_count, 1);
    }
}

/// How many of `errors` say that a string is not closed.
pub open spec fn closing_count(errors: Seq<ErrorView>) -> nat
    decreases errors.len(),
{
    if errors.len() == 0 {
        0
    } else {
        closing_count(errors.drop_last()) + if errors.last().kind is StringClosingError {
            1nat
        } else {
            0nat
        }
    }
}

/// Counting over two lists in a row is adding the counts.
pub proof fn lemma_closing_count_add(a: Seq<ErrorView>, b: Seq<ErrorView>)
    ensures
        closing_count(a + b) == closing_count(a) + closing_count(b),
    decreases b.len(),
{
    if b.len() == 0 {
        assert(a + b =~= a);
    } else {
        lemma_closing_count_add(a, b.drop_last());
        assert((a + b).drop_last() =~= a + b.drop_last());
        assert((a + b).last() == b.last());
    }
}

/// A string that is not closed, anywhere in a line.
///
/// Where the lexer, on its way from `from`, comes to stand on a double quote
/// after which the line holds no other, exactly one diagnostic says that a
/// string is not closed; it is the last diagnostic, and the last token is
/// the error token.
pub proof fn lemma_unterminated_anywhere(
    s: Seq<char>,
    pl: PartialLocationView,
    from: int,
    i: int,
)
    requires
        0 <= from,
        0 <= i < s.len(),
        stands_at(s, pl, from, i),
        s[i] == '"',
        forall|k: int| i < k < s.len() ==> #[trigger] s[k] != '"',
    ensures
        closing_count(lex_from(s, pl, from).errors) == 1,
        lex_from(s, pl, from).errors.last() == string_closing_of(s),
        lex_from(s, pl, from).tokens.last() == TokenView::Error,
    decreases s.len() - from,
{
    reveal_with_fuel(closing_count, 3);
    if from == i {
        lemma_lex_from_unterminated(s, pl, i);
        let errors = lex_from(s, pl, i).errors;
        assert(errors.drop_last() =~= Seq::<ErrorView>::empty());
    } else {
        lemma_lex_from_unfold(s, pl, from);
        lemma_scan_advances(s, pl, from);
        lemma_digits_end(s, from);
        lemma_word_end(s, from);
        lemma_quote_at(s, from + 1);
        let step = scan(s, pl, from);
        let rest = lex_from(s, pl, step.next);
        assert(stands_at(s, pl, step.next, i));
        lemma_unterminated_anywhere(s, pl, step.next, i);
        assert(closing_count(step.errors) == 0) by {
            if step.errors.len() == 2 {
                assert(step.errors.drop_last().drop_last() =~= Seq::<ErrorView>::empty());
            } else if step.errors.len() == 1 {
                assert(step.errors.drop_last() =~= Seq::<ErrorView>::empty());
            }
        }
        lemma_closing_count_add(step.errors, rest.errors);
        assert(rest.errors.len() > 0);
        assert(rest.tokens.len() > 0) by {
            lemma_lex_from_unterminated(s, pl, i);
            lemma_tokens_from(s, pl, step.next, i);
        }
    }
}

/// Where the lexer, on its way from `from`, comes to stand at `i`, it has at
/// least the tokens there that it finds from `i` on.
pub proof fn lemma_tokens_from(s: Seq<char>, pl: PartialLocationView, from: int, i: int)
    requires
        0 <= from,
        stands_at(s, pl, from, i),
    ensures
        lex_from(s, pl, from).tokens.len() >= lex_from(s, pl, i).tokens.len(),
    decreases s.len() - from,
{
    if from != i {
        lemma_lex_from_unfold(s, pl, from);
        lemma_scan_advances(s, pl, from);
        lemma_tokens_from(s, pl, scan(s, pl, from).next, i);
    }
}

/// Every diagnostic of the lexer is of the severity `Error`: a line with a
/// diagnostic is a line that failed.
pub proof fn lemma_lex_errors_are_errors(s: Seq<char>, pl: PartialLocationView, i: int)
    ensures
        all_errors(lex_from(s, pl, i).errors),
    decreases s.len() - i,
{
    if 0 <= i < s.len() {
        lemma_lex_from_unfold(s, pl, i);
        lemma_scan_advances(s, pl, i);
        lemma_lex_errors_are_errors(s, pl, scan(s, pl, i).next);
    }
}

} // verus!
