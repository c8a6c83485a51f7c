use jit_frontend::errors::{Error, ErrorKind, Location, PartialLocation};
use jit_frontend::token::{lex, Token, Tokenizer};

#[test]
fn basic() {
    let string = String::from("225 var valid25name (25+25-6*8/5,5)");
    let mut tok = Tokenizer::new(&string, PartialLocation::testing(0));
    tok.tokenize();

    let res = tok.result();
    assert!(res.is_ok(), "there were an error");

    let tk = res.unwrap();

    assert_eq!(tk[0], Token::Int(225));
    assert_eq!(tk[1], Token::Keyword("var".into()));
    assert_eq!(tk[2], Token::Identifier("valid25name".into()));
    assert_eq!(tk[3], Token::OpeningParen);
    assert_eq!(tk[4], Token::Int(25));
    assert_eq!(tk[5], Token::Plus);
    assert_eq!(tk[6], Token::Int(25));
    assert_eq!(tk[7], Token::Minus);
    assert_eq!(tk[8], Token::Int(6));
    assert_eq!(tk[9], Token::Mul);
    assert_eq!(tk[10], Token::Int(8));
    assert_eq!(tk[11], Token::Div);
    assert_eq!(tk[12], Token::Int(5));
    assert_eq!(tk[13], Token::Coma);
    assert_eq!(tk[14], Token::Int(5));
    assert_eq!(tk[15], Token::ClosingParen);
}

#[test]
fn check_after_number() {
    let string = String::from("1024better");
    let mut tok = Tokenizer::new(&string, PartialLocation::testing(0));
    tok.tokenize();

    let res = tok.result();
    assert!(res.is_err());

    // every follower of a number is accepted
    let string = String::from("1024) 25+ 12- 5* 4/ 4, 4525 2");
    let mut tok = Tokenizer::new(&string, PartialLocation::testing(0));
    tok.tokenize();

    let res = tok.result();
    assert!(res.is_ok());
}

#[test]
fn check_after_string() {
    let string = String::from(r#""hello wolrd"crash"#);
    let mut tok = Tokenizer::new(&string, PartialLocation::testing(0));
    tok.tokenize();

    let res = tok.result();
    assert!(res.is_err());
}

#[test]
fn check_illegal_char() {
    let string = String::from("225 13 é");
    let mut tok = Tokenizer::new(&string, PartialLocation::testing(0));
    tok.tokenize();

    let res = tok.result();
    assert!(res.is_err());
}

#[test]
fn check_string() {
    let string = String::from(r#""hello world" "125""#);
    let mut tok = Tokenizer::new(&string, PartialLocation::testing(0));
    tok.tokenize();
    let res = tok.result();
    assert!(res.is_ok());
    let unwrapped = res.unwrap();

    assert_eq!(unwrapped[0], Token::String("hello world".into()));
    assert_eq!(unwrapped[1], Token::String("125".into()));
}

#[test]
fn check_error_string() {
    let string = String::from(r#""unclosed string..."#);
    let mut tok = Tokenizer::new(&string, PartialLocation::testing(0));
    tok.tokenize();
    let res = tok.result();

    assert!(res.is_err());
    let err = res.unwrap_err();
    assert_eq!(err.len(), 1);
}

fn lex_line(line: &str) -> Result<Vec<Token>, Vec<Error>> {
    let mut tok = Tokenizer::new(line, PartialLocation::testing(3));
    tok.tokenize();
    tok.result()
}

fn illegal(line: &str, at: u32, c: char) -> Error {
    Error::illegal_character(Location::new("test", 3, at), line, c)
}

#[test]
fn basic_whole_sequence() {
    let tokens = lex("225 var valid25name (25+25-6*8/5,5)", PartialLocation::testing(0));
    assert_eq!(
        tokens,
        Ok(vec![
            Token::Int(225),
            Token::Keyword("var".into()),
            Token::Identifier("valid25name".into()),
            Token::OpeningParen,
            Token::Int(25),
            Token::Plus,
            Token::Int(25),
            Token::Minus,
            Token::Int(6),
            Token::Mul,
            Token::Int(8),
            Token::Div,
            Token::Int(5),
            Token::Coma,
            Token::Int(5),
            Token::ClosingParen,
        ])
    );
}

#[test]
fn digits_lex_to_their_number() {
    assert_eq!(lex_line("0"), Ok(vec![Token::Int(0)]));
    assert_eq!(lex_line("7"), Ok(vec![Token::Int(7)]));
    assert_eq!(lex_line("1024"), Ok(vec![Token::Int(1024)]));
    assert_eq!(lex_line("000123"), Ok(vec![Token::Int(123)]));
    assert_eq!(lex_line("18446744073709551615"), Ok(vec![Token::Int(u64::MAX)]));
    assert_eq!(lex_line("00000000000000000000000000000000000001"), Ok(vec![Token::Int(1)]));
}

#[test]
fn every_small_number_lexes_to_itself() {
    for n in 0u64..3000 {
        assert_eq!(lex_line(&format!("{}", n)), Ok(vec![Token::Int(n)]));
    }
    for shift in 0..64 {
        let n = 1u64 << shift;
        assert_eq!(lex_line(&format!("{}", n)), Ok(vec![Token::Int(n)]));
        assert_eq!(lex_line(&format!("{}", n - 1)), Ok(vec![Token::Int(n - 1)]));
    }
}

#[test]
fn integer_overflow_is_a_diagnostic() {
    let line = "18446744073709551616";
    assert_eq!(
        lex_line(line),
        Err(vec![Error::integer_overflow(Location::new("test", 3, 0), line)])
    );
    let line = "1 99999999999999999999999999";
    assert_eq!(
        lex_line(line),
        Err(vec![Error::integer_overflow(Location::new("test", 3, 2), line)])
    );
    let line = "18446744073709551616x";
    assert_eq!(
        lex_line(line),
        Err(vec![
            Error::integer_overflow(Location::new("test", 3, 0), line),
            illegal(line, 20, 'x'),
        ])
    );
}

#[test]
fn quoted_text_lexes_to_its_text() {
    assert_eq!(lex_line("\"hello\""), Ok(vec![Token::String("hello".into())]));
    assert_eq!(lex_line("\"\""), Ok(vec![Token::String("".into())]));
    assert_eq!(lex_line("\"a b\tc é # 12\""), Ok(vec![Token::String("a b\tc é # 12".into())]));
    assert_eq!(lex_line("\"back\\slash\""), Ok(vec![Token::String("back\\slash".into())]));
    assert_eq!(lex_line("\" padded \"  "), Ok(vec![Token::String(" padded ".into())]));
}

#[test]
fn unterminated_string_is_one_diagnostic() {
    let line = "\"unclosed";
    let errs = lex_line(line).unwrap_err();
    assert_eq!(errs, vec![Error::string_closing(Location::new("not specified", 0, 0), line)]);
    assert_eq!(*errs[0].kind(), ErrorKind::StringClosingError);

    let errs = lex_line("\"").unwrap_err();
    assert_eq!(errs.len(), 1);
    assert_eq!(*errs[0].kind(), ErrorKind::StringClosingError);

    // what follows the opening quote belongs to the string: nothing else is reported
    let errs = lex_line("12 \"abc # é 5x").unwrap_err();
    assert_eq!(errs.len(), 1);
    assert_eq!(*errs[0].kind(), ErrorKind::StringClosingError);

    // trailing white space is dropped before the line is shown
    let errs = lex_line("\"open   \t\n").unwrap_err();
    assert_eq!(errs, vec![Error::string_closing(Location::new("not specified", 0, 0), "\"open")]);
}

#[test]
fn followers_of_a_literal_are_accepted() {
    for follower in ["+", "-", "*", "/", " ", ",", ")"] {
        let line = format!("12{}3", follower);
        assert!(lex_line(&line).is_ok(), "{:?}", line);
        let line = format!("\"s\"{}3", follower);
        assert!(lex_line(&line).is_ok(), "{:?}", line);
    }
    assert_eq!(lex_line("12"), Ok(vec![Token::Int(12)]));
    assert_eq!(lex_line("\"s\""), Ok(vec![Token::String("s".into())]));
}

#[test]
fn other_character_after_a_literal_is_illegal_there() {
    let line = "1024better";
    assert_eq!(lex_line(line), Err(vec![illegal(line, 4, 'b')]));

    let line = "12(";
    assert_eq!(lex_line(line), Err(vec![illegal(line, 2, '(')]));

    let line = "12=3";
    assert_eq!(lex_line(line), Err(vec![illegal(line, 2, '=')]));

    let line = "7\"s\"";
    assert_eq!(lex_line(line), Err(vec![illegal(line, 1, '"')]));

    let line = "\"hello wolrd\"crash";
    assert_eq!(lex_line(line), Err(vec![illegal(line, 13, 'c')]));

    let line = "\"a\"5";
    assert_eq!(lex_line(line), Err(vec![illegal(line, 3, '5')]));

    let line = "\"a\"\"b\"";
    assert_eq!(lex_line(line), Err(vec![illegal(line, 3, '"')]));

    let line = "x = 1 + 22y";
    assert_eq!(lex_line(line), Err(vec![illegal(line, 10, 'y')]));
}

#[test]
fn character_legal_nowhere_is_reported_twice_after_a_literal() {
    let line = "1#";
    assert_eq!(lex_line(line), Err(vec![illegal(line, 1, '#'), illegal(line, 1, '#')]));

    let line = "\"s\"\t9";
    assert_eq!(lex_line(line), Err(vec![illegal(line, 3, '\t'), illegal(line, 3, '\t')]));
}

#[test]
fn illegal_characters_are_all_reported() {
    let line = "225 13 é";
    assert_eq!(lex_line(line), Err(vec![illegal(line, 7, 'é')]));
    assert_eq!(*lex_line(line).unwrap_err()[0].kind(), ErrorKind::IllegalCharacter(233));

    let line = "# a ? b\tc";
    assert_eq!(
        lex_line(line),
        Err(vec![illegal(line, 0, '#'), illegal(line, 4, '?'), illegal(line, 7, '\t')])
    );

    // the offset counts characters, not bytes
    let line = "éé é $";
    assert_eq!(
        lex_line(line),
        Err(vec![
            illegal(line, 0, 'é'),
            illegal(line, 1, 'é'),
            illegal(line, 3, 'é'),
            illegal(line, 5, '$'),
        ])
    );
}

#[test]
fn keywords_are_exact_and_case_sensitive() {
    assert_eq!(
        lex_line("if else var print"),
        Ok(vec![
            Token::Keyword("if".into()),
            Token::Keyword("else".into()),
            Token::Keyword("var".into()),
            Token::Keyword("print".into()),
        ])
    );
    assert_eq!(
        lex_line("If ELSE Var prints iff var1 printer i v"),
        Ok(vec![
            Token::Identifier("If".into()),
            Token::Identifier("ELSE".into()),
            Token::Identifier("Var".into()),
            Token::Identifier("prints".into()),
            Token::Identifier("iff".into()),
            Token::Identifier("var1".into()),
            Token::Identifier("printer".into()),
            Token::Identifier("i".into()),
            Token::Identifier("v".into()),
        ])
    );
}

#[test]
fn identifiers_are_runs_of_letters_and_digits() {
    assert_eq!(lex_line("a1b2(c3)"), Ok(vec![
        Token::Identifier("a1b2".into()),
        Token::OpeningParen,
        Token::Identifier("c3".into()),
        Token::ClosingParen,
    ]));
    // an underscore belongs to no lexeme
    let line = "a_b";
    assert_eq!(lex_line(line), Err(vec![illegal(line, 1, '_')]));
    // a letter with an accent is no letter here
    let line = "caf\u{e9}";
    assert_eq!(lex_line(line), Err(vec![illegal(line, 3, 'é')]));
}

#[test]
fn punctuation_and_spaces() {
    assert_eq!(
        lex_line(" , ( ) + - * / = "),
        Ok(vec![
            Token::Coma,
            Token::OpeningParen,
            Token::ClosingParen,
            Token::Plus,
            Token::Minus,
            Token::Mul,
            Token::Div,
            Token::Assign,
        ])
    );
    assert_eq!(lex_line("+-*/=(),"), Ok(vec![
        Token::Plus,
        Token::Minus,
        Token::Mul,
        Token::Div,
        Token::Assign,
        Token::OpeningParen,
        Token::ClosingParen,
        Token::Coma,
    ]));
}

#[test]
fn empty_and_blank_lines_have_no_token() {
    assert_eq!(lex_line(""), Ok(vec![]));
    assert_eq!(lex_line("     "), Ok(vec![]));
    assert_eq!(lex_line(" \t\r\n"), Ok(vec![]));
    assert_eq!(lex_line("\u{a0}\u{2003}\u{3000}"), Ok(vec![]));
}

#[test]
fn trailing_white_space_is_dropped() {
    assert_eq!(lex_line("12\n"), Ok(vec![Token::Int(12)]));
    assert_eq!(lex_line("12 \t \r\n"), Ok(vec![Token::Int(12)]));
    assert_eq!(lex_line("\"s\"\u{2028}"), Ok(vec![Token::String("s".into())]));
    // inside the line, only the space separates
    let line = "12\t13";
    assert!(lex_line(line).is_err());
    // the line that a diagnostic shows is the trimmed one
    let errs = lex_line("#  \n").unwrap_err();
    assert_eq!(errs, vec![illegal("#", 0, '#')]);
}

#[test]
fn white_space_is_what_std_trims() {
    // every character up to the last white space, and a sample of the others
    let codes = (0u32..0x3100).chain((0x3100u32..=0x10FFFF).step_by(251));
    for code in codes {
        let c = match char::from_u32(code) {
            Some(c) => c,
            None => continue,
        };
        let line = format!("1{}", c);
        let ok = lex_line(&line) == Ok(vec![Token::Int(1)]);
        let followers = "+-*/ ,)";
        if c.is_whitespace() {
            assert!(ok, "{:?}", c);
        } else if followers.contains(c) {
            assert!(lex_line(&line).is_ok(), "{:?}", c);
        } else if c.is_ascii_digit() {
            assert!(lex_line(&line).is_ok(), "{:?}", c);
        } else {
            assert!(lex_line(&line).is_err(), "{:?}", c);
        }
    }
}

#[test]
fn tokenizer_steps() {
    let mut tok = Tokenizer::new("1 + 2", PartialLocation::stdin(1));
    tok.tokenize();
    // the line is used up: a second run finds nothing more
    tok.tokenize();
    assert_eq!(tok.result(), Ok(vec![Token::Int(1), Token::Plus, Token::Int(2)]));

    // before any run there is no token and no diagnostic
    let tok = Tokenizer::new("1 + 2", PartialLocation::stdin(1));
    assert_eq!(tok.result(), Ok(vec![]));

    let mut tok = Tokenizer::new("1#", PartialLocation::stdin(1));
    tok.tokenize();
    tok.tokenize();
    assert_eq!(tok.result().unwrap_err().len(), 2);
}

#[test]
fn diagnostics_name_the_context() {
    let mut tok = Tokenizer::new("a ?", PartialLocation::new("main.jit", 42));
    tok.tokenize();
    assert_eq!(
        tok.result(),
        Err(vec![Error::illegal_character(Location::new("main.jit", 42, 2), "a ?", '?')])
    );
    let mut tok = Tokenizer::new("?", PartialLocation::stdin(9));
    tok.tokenize();
    assert_eq!(
        tok.result(),
        Err(vec![Error::illegal_character(Location::new("stdin", 9, 0), "?", '?')])
    );
    let mut tok = Tokenizer::new("?", PartialLocation::not_specified(9));
    tok.tokenize();
    assert_eq!(
        tok.result(),
        Err(vec![Error::illegal_character(Location::new("not specified", 9, 0), "?", '?')])
    );
}

#[test]
fn lex_is_new_tokenize_result() {
    for line in ["", "var x = 5", "1024better", "\"unclosed", "12 # \"s\"x", "f(1, 2)  \n"] {
        let mut tok = Tokenizer::new(line, PartialLocation::testing(3));
        tok.tokenize();
        assert_eq!(lex(line, PartialLocation::testing(3)), tok.result());
    }
}

#[test]
fn same_compares_classes() {
    assert!(Token::Int(1).same(&Token::Int(2)));
    assert!(Token::String("a".into()).same(&Token::String("b".into())));
    assert!(Token::Identifier("a".into()).same(&Token::Identifier("b".into())));
    assert!(Token::Keyword("if".into()).same(&Token::Keyword("var".into())));
    assert!(Token::Plus.same(&Token::Plus));
    assert!(Token::Error.same(&Token::Error));
    assert!(!Token::Plus.same(&Token::Minus));
    assert!(!Token::Int(1).same(&Token::String("1".into())));
    assert!(!Token::Identifier("if".into()).same(&Token::Keyword("if".into())));
    assert!(!Token::OpeningParen.same(&Token::ClosingParen));
    let all = [
        Token::Plus,
        Token::Minus,
        Token::Mul,
        Token::Div,
        Token::Int(0),
        Token::String("".into()),
        Token::Identifier("".into()),
        Token::Keyword("".into()),
        Token::Coma,
        Token::OpeningParen,
        Token::ClosingParen,
        Token::Assign,
        Token::Error,
    ];
    for (i, a) in all.iter().enumerate() {
        for (j, b) in all.iter().enumerate() {
            assert_eq!(a.same(b), i == j);
        }
    }
}

#[test]
fn class_names() {
    assert_eq!(Token::Plus.class_name(), "Plus");
    assert_eq!(Token::Minus.class_name(), "Minus");
    assert_eq!(Token::Mul.class_name(), "Mul");
    assert_eq!(Token::Div.class_name(), "Div");
    assert_eq!(Token::Int(3).class_name(), "Int");
    assert_eq!(Token::String("s".into()).class_name(), "String");
    assert_eq!(Token::Identifier("s".into()).class_name(), "Identifier");
    assert_eq!(Token::Keyword("if".into()).class_name(), "Keyword");
    assert_eq!(Token::Coma.class_name(), "Comma");
    assert_eq!(Token::OpeningParen.class_name(), "OpeningParen");
    assert_eq!(Token::ClosingParen.class_name(), "ClosingParen");
    assert_eq!(Token::Assign.class_name(), "Assign");
    assert_eq!(Token::Error.class_name(), "ErrorToken");
}

#[test]
fn tokens_clone_equal() {
    let tokens = lex_line("var x = f(\"s\", 12)").unwrap();
    assert_eq!(tokens.clone(), tokens);
}

#[test]
fn fractional_number_is_rejected() {
    let line = "1.5";
    assert_eq!(lex_line(line), Err(vec![illegal(line, 1, '.'), illegal(line, 1, '.')]));
    let line = "x = .5";
    assert_eq!(lex_line(line), Err(vec![illegal(line, 4, '.')]));
}
