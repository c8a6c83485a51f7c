use jit_frontend::ast::{parse, AbstractSyntaxTree, Expr, Operator, Statement};
use jit_frontend::errors::{Error, ErrorKind, Location, PartialLocation};
use jit_frontend::token::{lex, Token, Tokenizer};

#[test]
fn var_declaration() {
    let line = String::from("var baba = \"lol\"");
    let mut token = Tokenizer::new(&line, PartialLocation::testing(0));
    token.tokenize();
    let result = token.result().unwrap();

    let mut parser = AbstractSyntaxTree::new(&result, PartialLocation::testing(0), &line);
    parser.build_tree();
    let r = parser.result().unwrap();
    println!("{:?}", r);
    assert_eq!(
        r,
        Statement::VarDeclaration {
            identifier: "baba".into(),
            value: Expr::StringLitteral("lol".into())
        }
    );
}

#[test]
fn expr() {
    let line = String::from("var hello = (25)");
    let mut token = Tokenizer::new(&line, PartialLocation::testing(0));
    token.tokenize();
    let result = token.result();

    assert!(result.is_ok());
    let tokens = result.unwrap();

    let mut parser = AbstractSyntaxTree::new(&tokens, PartialLocation::testing(0), &line);
    parser.build_tree();
    let r = parser.result();
    println!("{:?}", r);
    assert_eq!(
        r,
        Ok(Statement::VarDeclaration { identifier: "hello".into(), value: Expr::IntLitteral(25) })
    );
}

#[test]
fn string_expr() {
    let line = String::from("var hello = \"hello wolrd\" + \"no\" + 25");
    let mut token = Tokenizer::new(&line, PartialLocation::testing(0));
    token.tokenize();
    let result = token.result();

    assert!(result.is_ok());
    let tokens = result.unwrap();

    let mut parser = AbstractSyntaxTree::new(&tokens, PartialLocation::testing(0), &line);
    parser.build_tree();
    let r = parser.result();
    println!("{:?}", r);
    assert_eq!(
        r,
        Ok(Statement::VarDeclaration {
            identifier: "hello".into(),
            value: Expr::BinaryExpr {
                opr: Operator::Plus,
                l: Box::new(Expr::StringLitteral("hello wolrd".into())),
                r: Box::new(Expr::BinaryExpr {
                    opr: Operator::Plus,
                    l: Box::new(Expr::StringLitteral("no".into())),
                    r: Box::new(Expr::IntLitteral(25)),
                }),
            },
        })
    );
}

fn parse_line(line: &str) -> Result<Statement, Vec<Error>> {
    let tokens = lex(line, PartialLocation::testing(1)).unwrap();
    parse(&tokens, PartialLocation::testing(1), line)
}

fn expected(line: &str, class: &str) -> Error {
    Error::excepted_token(Location::new("test", 1, 0), line, class)
}

fn unexpected(line: &str, class: &str) -> Error {
    Error::unexcepted_token(Location::new("test", 1, 0), line, class)
}

fn num(value: u64) -> Expr {
    Expr::IntLitteral(value)
}

fn lit(value: &str) -> Expr {
    Expr::StringLitteral(value.into())
}

fn plus(l: Expr, r: Expr) -> Expr {
    Expr::BinaryExpr { opr: Operator::Plus, l: Box::new(l), r: Box::new(r) }
}

fn var(name: &str, value: Expr) -> Statement {
    Statement::VarDeclaration { identifier: name.into(), value }
}

#[test]
fn declaration_of_an_integer() {
    assert_eq!(parse_line("var x = 5"), Ok(var("x", num(5))));
}

#[test]
fn addition_groups_to_the_right() {
    assert_eq!(parse_line("var x = 1+2+3"), Ok(var("x", plus(num(1), plus(num(2), num(3))))));
    assert_eq!(parse_line("var x = 1+2"), Ok(var("x", plus(num(1), num(2)))));
    assert_eq!(
        parse_line("var x = 1 + 2 + 3 + 4"),
        Ok(var("x", plus(num(1), plus(num(2), plus(num(3), num(4))))))
    );
    assert_eq!(
        parse_line("var s = \"a\" + 1 + \"b\""),
        Ok(var("s", plus(lit("a"), plus(num(1), lit("b")))))
    );
}

#[test]
fn parentheses_unwrap() {
    assert_eq!(parse_line("var x = (5)"), Ok(var("x", num(5))));
    assert_eq!(parse_line("var x = ((5))"), Ok(var("x", num(5))));
    assert_eq!(parse_line("var x = (\"s\")"), Ok(var("x", lit("s"))));
    assert_eq!(parse_line("var x = (1+2)"), Ok(var("x", plus(num(1), num(2)))));
    assert_eq!(parse_line("var x = 1+(2)"), Ok(var("x", plus(num(1), num(2)))));
    assert_eq!(parse_line("var x = 1+(2+3)"), Ok(var("x", plus(num(1), plus(num(2), num(3))))));
}

#[test]
fn missing_identifier() {
    let line = "var = 5";
    let errs = parse_line(line).unwrap_err();
    assert!(errs.contains(&expected(line, "Identifier")));
    assert!(errs.iter().any(|e| *e.kind() == ErrorKind::ExpectedToken("Identifier".into())));
    // each piece is looked for at its own place
    assert_eq!(errs, vec![expected(line, "Identifier"), expected(line, "Assign")]);
}

#[test]
fn missing_pieces_of_a_declaration() {
    let line = "var x 5";
    assert_eq!(parse_line(line), Err(vec![expected(line, "Assign")]));
    let line = "var 5 = 5";
    assert_eq!(parse_line(line), Err(vec![expected(line, "Identifier")]));
    let line = "var";
    assert_eq!(
        parse_line(line),
        Err(vec![expected(line, "Identifier"), expected(line, "Assign")])
    );
    let line = "var x";
    assert_eq!(parse_line(line), Err(vec![expected(line, "Assign")]));
    let line = "var var = 5";
    assert_eq!(parse_line(line), Err(vec![expected(line, "Identifier")]));
}

#[test]
fn declaration_without_a_value() {
    // where the tokens end, the error expression stands for the value
    assert_eq!(parse_line("var x ="), Ok(var("x", Expr::Error)));
}

fn unsupported(line: &str, operator: &str) -> Error {
    Error::unsupported_operator(Location::new("test", 1, 0), line, operator)
}

#[test]
fn operators_other_than_plus_are_not_supported() {
    let line = "var hello = \"hello wolrd\" + \"no\" + 25 * 5";
    assert_eq!(parse_line(line), Err(vec![unsupported(line, "Mul")]));
    let line = "var x = 1 - 2";
    assert_eq!(parse_line(line), Err(vec![unsupported(line, "Minus")]));
    let line = "var x = \"s\" / 2";
    assert_eq!(parse_line(line), Err(vec![unsupported(line, "Div")]));
    let line = "var x = (1 * 2)";
    assert_eq!(parse_line(line), Err(vec![unsupported(line, "Mul"), unexpected(line, "Mul")]));
    let line = "f(1 - 2)";
    assert_eq!(parse_line(line), Err(vec![unsupported(line, "Minus"), unexpected(line, "Minus")]));
    assert_eq!(
        *parse_line("x = 1 * 2").unwrap_err()[0].kind(),
        ErrorKind::UnsupportedOperator("Mul".into())
    );
}

#[test]
fn unexpected_token_after_a_literal() {
    let line = "var x = 1 2";
    assert_eq!(parse_line(line), Err(vec![unexpected(line, "Int")]));
    let line = "var x = 1 y";
    assert_eq!(parse_line(line), Err(vec![unexpected(line, "Identifier")]));
    let line = "var x = 1 , 2";
    assert_eq!(parse_line(line), Err(vec![unexpected(line, "Comma")]));
    let line = "var x = \"s\" = 2";
    assert_eq!(parse_line(line), Err(vec![unexpected(line, "Assign")]));
    let line = "var x = 1 (2)";
    assert_eq!(parse_line(line), Err(vec![unexpected(line, "OpeningParen")]));
    let line = "var x = 1 if";
    assert_eq!(parse_line(line), Err(vec![unexpected(line, "Keyword")]));
}

#[test]
fn token_that_starts_no_expression() {
    let line = "var x = y";
    assert_eq!(parse_line(line), Err(vec![unexpected(line, "Identifier")]));
    let line = "var x = + 1";
    assert_eq!(parse_line(line), Err(vec![unexpected(line, "Plus")]));
    let line = "var x = )";
    assert_eq!(parse_line(line), Err(vec![unexpected(line, "ClosingParen")]));
    let line = "var x = = 1";
    assert_eq!(parse_line(line), Err(vec![unexpected(line, "Assign")]));
    let line = "var x = 1 + *";
    assert_eq!(parse_line(line), Err(vec![unexpected(line, "Mul")]));
}

#[test]
fn parentheses_must_hold_something_and_be_closed() {
    let line = "var x = ()";
    assert_eq!(parse_line(line), Err(vec![unexpected(line, "ClosingParen")]));
    let line = "var x = (5";
    assert_eq!(parse_line(line), Err(vec![expected(line, "ClosingParen")]));
    let line = "var x = (";
    assert_eq!(parse_line(line), Err(vec![expected(line, "ClosingParen")]));
    let line = "var x = ((5)";
    assert_eq!(parse_line(line), Err(vec![expected(line, "ClosingParen")]));
    let line = "var x = (5 6)";
    assert_eq!(parse_line(line), Err(vec![unexpected(line, "Int"), unexpected(line, "Int")]));
    let line = "var x = (5) 6";
    assert_eq!(parse_line(line), Ok(var("x", num(5))));
}

#[test]
fn tokens_after_the_statement_are_left_alone() {
    assert_eq!(parse_line("var x = 5 ) 6"), Ok(var("x", num(5))));
    assert_eq!(parse_line("var x = (5) + 6"), Ok(var("x", num(5))));
}

#[test]
fn print_statement() {
    assert_eq!(parse_line("print 5"), Ok(Statement::Print { value: num(5) }));
    assert_eq!(
        parse_line("print \"a\" + \"b\""),
        Ok(Statement::Print { value: plus(lit("a"), lit("b")) })
    );
    assert_eq!(parse_line("print (1)"), Ok(Statement::Print { value: num(1) }));
    assert_eq!(parse_line("print"), Ok(Statement::Print { value: Expr::Error }));
    let line = "print x";
    assert_eq!(parse_line(line), Err(vec![unexpected(line, "Identifier")]));
}

#[test]
fn assignment_statement() {
    assert_eq!(
        parse_line("x = 5"),
        Ok(Statement::VarEdit { identifier: "x".into(), value: num(5) })
    );
    assert_eq!(
        parse_line("total = 1 + (2)"),
        Ok(Statement::VarEdit { identifier: "total".into(), value: plus(num(1), num(2)) })
    );
    let line = "x = 5 * 2";
    assert_eq!(parse_line(line), Err(vec![unsupported(line, "Mul")]));
}

#[test]
fn call_statement() {
    assert_eq!(
        parse_line("f()"),
        Ok(Statement::FuncCall { identifier: "f".into(), args: vec![] })
    );
    assert_eq!(
        parse_line("f(1)"),
        Ok(Statement::FuncCall { identifier: "f".into(), args: vec![num(1)] })
    );
    assert_eq!(
        parse_line("f(1, 2+3, (4), \"s\")"),
        Ok(Statement::FuncCall {
            identifier: "f".into(),
            args: vec![num(1), plus(num(2), num(3)), num(4), lit("s")],
        })
    );
    let line = "f(1";
    assert_eq!(parse_line(line), Err(vec![expected(line, "ClosingParen")]));
    let line = "f(";
    assert_eq!(parse_line(line), Err(vec![expected(line, "ClosingParen")]));
    let line = "f(1 2)";
    assert_eq!(parse_line(line), Err(vec![unexpected(line, "Int"), unexpected(line, "Int")]));
    let line = "f(1,)";
    assert_eq!(parse_line(line), Err(vec![unexpected(line, "ClosingParen")]));
    let line = "f((1, 2))";
    assert_eq!(
        parse_line(line),
        Err(vec![unexpected(line, "Comma"), unexpected(line, "Comma")])
    );
}

#[test]
fn lines_that_begin_no_statement() {
    assert_eq!(parse_line(""), Ok(Statement::NoneOrError));
    assert_eq!(parse_line("5 + 5"), Ok(Statement::NoneOrError));
    assert_eq!(parse_line("if x"), Ok(Statement::NoneOrError));
    assert_eq!(parse_line("else"), Ok(Statement::NoneOrError));
    assert_eq!(parse_line("x"), Ok(Statement::NoneOrError));
    assert_eq!(parse_line("x y"), Ok(Statement::NoneOrError));
    assert_eq!(parse_line("= 5"), Ok(Statement::NoneOrError));
    assert_eq!(parse_line("(1)"), Ok(Statement::NoneOrError));
}

#[test]
fn parser_steps() {
    let line = "var x = 1 var y = 2";
    let tokens = lex(line, PartialLocation::testing(1)).unwrap();

    // before any run the statement is the sentinel
    let parser = AbstractSyntaxTree::new(&tokens, PartialLocation::testing(1), line);
    assert_eq!(parser.result(), Ok(Statement::NoneOrError));

    let mut parser = AbstractSyntaxTree::new(&tokens, PartialLocation::testing(1), line);
    parser.build_tree();
    assert_eq!(parser.result(), Err(vec![unexpected(line, "Keyword")]));

    // a second run goes on after the token at which the first one stopped
    let line = "var x = 1 ) print 2";
    let tokens = lex(line, PartialLocation::testing(1)).unwrap();
    let mut parser = AbstractSyntaxTree::new(&tokens, PartialLocation::testing(1), line);
    parser.build_tree();
    parser.build_tree();
    assert_eq!(parser.result(), Ok(Statement::Print { value: num(2) }));

    // a run that finds no statement keeps the one that is there
    let line = "var x = 1";
    let tokens = lex(line, PartialLocation::testing(1)).unwrap();
    let mut parser = AbstractSyntaxTree::new(&tokens, PartialLocation::testing(1), line);
    parser.build_tree();
    parser.build_tree();
    parser.build_tree();
    assert_eq!(parser.result(), Ok(var("x", num(1))));
}

#[test]
fn parse_is_new_build_tree_result() {
    for line in ["", "var x = 5", "var = 5", "print 1 + 2", "f(1, (2)", "x = (", "y"] {
        let tokens = lex(line, PartialLocation::testing(1)).unwrap();
        let mut parser = AbstractSyntaxTree::new(&tokens, PartialLocation::stdin(7), line);
        parser.build_tree();
        assert_eq!(parse(&tokens, PartialLocation::stdin(7), line), parser.result());
    }
}

#[test]
fn parser_diagnostics_name_the_start_of_the_line() {
    let tokens = vec![Token::Keyword("var".into()), Token::Error];
    assert_eq!(
        parse(&tokens, PartialLocation::new("main.jit", 12), "shown"),
        Err(vec![
            Error::excepted_token(Location::new("main.jit", 12, 0), "shown", "Identifier"),
            Error::excepted_token(Location::new("main.jit", 12, 0), "shown", "Assign"),
        ])
    );
    let tokens = vec![Token::Keyword("print".into()), Token::Error];
    assert_eq!(
        parse(&tokens, PartialLocation::new("main.jit", 12), "shown"),
        Err(vec![Error::unexcepted_token(
            Location::new("main.jit", 12, 0),
            "shown",
            "ErrorToken"
        )])
    );
}

#[test]
fn trees_clone_equal() {
    let tree = Statement::FuncCall {
        identifier: "f".into(),
        args: vec![
            num(1),
            plus(lit("a"), Expr::Identifier("b".into())),
            Expr::Block {
                code: vec![
                    var("x", num(1)),
                    Statement::Print { value: Expr::Error },
                    Statement::VarEdit { identifier: "x".into(), value: num(2) },
                    Statement::NoneOrError,
                    Statement::FuncCall { identifier: "g".into(), args: vec![] },
                ],
            },
        ],
    };
    assert_eq!(tree.clone(), tree);
    let expr = Expr::Block { code: vec![tree.clone(), tree.clone()] };
    assert_eq!(expr.clone(), expr);
    assert_ne!(expr, Expr::Block { code: vec![tree] });
}
