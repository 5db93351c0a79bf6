use script_frontend::ast::{
    describe_types, BasicType, DataType, Expression, ParsedFile, ParsedType, SingleType,
    Statement, TypeTuple, Var,
};
use script_frontend::error::ParseError;
use script_frontend::frontend::{parse_source, FrontendError};
use script_frontend::parser::Parser;
use script_frontend::token::Token;
use script_frontend::tokenizer::{LexError, Tokenizer};
use std::rc::Rc;

fn text(s: &str) -> Rc<String> {
    Rc::new(s.to_string())
}

fn parser_for(source: &str) -> Parser {
    let (tokens, lines) = Tokenizer::new(source.as_bytes().to_vec()).tokenize().unwrap();
    assert_eq!(lines.len(), tokens.len() + 1);
    Parser::new(tokens, lines)
}

fn parse(source: &str) -> Result<ParsedFile, ParseError> {
    parser_for(source).parse()
}

fn named(name: &str) -> ParsedType {
    ParsedType::Single(SingleType { name: text(name), generic: None })
}

fn generic(name: &str, args: Vec<ParsedType>) -> ParsedType {
    ParsedType::Single(SingleType { name: text(name), generic: Some(args) })
}

fn tuple(members: Vec<ParsedType>) -> ParsedType {
    ParsedType::Tuple(TypeTuple { vec: members })
}

fn let_of(name: &str, declared: Option<ParsedType>, init: Expression, line: u16) -> Statement {
    Statement::Let(Box::new((Var::Name(text(name)), declared, init, line)))
}

fn literal(s: &str) -> Expression {
    Expression::Str(text(s))
}

fn variable(name: &str) -> Expression {
    Expression::Var(Box::new(Var::Name(text(name))))
}

fn failure(line: u16, reason: &str) -> ParseError {
    ParseError::new(line, reason.to_string())
}

#[test]
fn let_without_type() {
    let file = parse("let x = \"hi\";").unwrap();
    assert_eq!(file.statements, vec![let_of("x", None, literal("hi"), 1)]);
    assert_eq!(file.funcs, vec![]);
    assert_eq!(file.index, 0);
}

#[test]
fn let_with_colon_and_type() {
    let file = parse("let x: Int = \"hi\"").unwrap();
    assert_eq!(file.statements, vec![let_of("x", Some(named("Int")), literal("hi"), 1)]);
}

#[test]
fn let_with_type_and_no_colon() {
    let file = parse("let x Int = \"hi\"").unwrap();
    assert_eq!(file.statements, vec![let_of("x", Some(named("Int")), literal("hi"), 1)]);
}

#[test]
fn let_with_type_and_no_equals_fails() {
    assert_eq!(
        parse("let x Int \"hi\""),
        Err(failure(
            1,
            "[assert_next] expect token Eq in fact Str(\"hi\")expect a '=' after variable type in 'let' statement"
        ))
    );
}

#[test]
fn let_with_colon_and_no_equals_fails() {
    assert_eq!(
        parse("\nlet x: Int \"hi\""),
        Err(failure(
            2,
            "[assert_next] expect token Eq in fact Str(\"hi\")expect a '=' after 'let' and variable name"
        ))
    );
}

#[test]
fn generic_type_with_tuple_argument() {
    let mut parser = parser_for("Map<Int, (Str, Bool)>");
    let expected =
        generic("Map", vec![named("Int"), tuple(vec![named("Str"), named("Bool")])]);
    assert_eq!(parser.parse_type(), Ok(expected));
    assert!(!parser.has_next());
}

#[test]
fn trailing_comma_before_closing_bracket() {
    let mut parser = parser_for("Map<Int,>");
    assert_eq!(parser.parse_type(), Ok(generic("Map", vec![named("Int")])));
    assert!(!parser.has_next());
    let mut parser = parser_for("Map<Int, Str,> = x");
    assert_eq!(parser.parse_type(), Ok(generic("Map", vec![named("Int"), named("Str")])));
    assert!(parser.test(Token::Eq));
}

#[test]
fn generic_arguments_without_commas() {
    let mut parser = parser_for("Map<Int Str>");
    assert_eq!(parser.parse_type(), Ok(generic("Map", vec![named("Int"), named("Str")])));
}

#[test]
fn nested_generic_types() {
    let mut parser = parser_for("A<B<C>, D<(E)>>");
    let expected = generic(
        "A",
        vec![generic("B", vec![named("C")]), generic("D", vec![tuple(vec![named("E")])])],
    );
    assert_eq!(parser.parse_type(), Ok(expected));
}

#[test]
fn tuple_type_commas_only_separate() {
    let mut parser = parser_for("(,Int,,Str,)");
    assert_eq!(parser.parse_type(), Ok(tuple(vec![named("Int"), named("Str")])));
    let mut parser = parser_for("()");
    assert_eq!(parser.parse_type(), Ok(tuple(vec![])));
    let mut parser = parser_for("(Int Str)");
    assert_eq!(parser.parse_type(), Ok(tuple(vec![named("Int"), named("Str")])));
    let mut parser = parser_for("((Int), ())");
    assert_eq!(parser.parse_type(), Ok(tuple(vec![tuple(vec![named("Int")]), tuple(vec![])])));
}

#[test]
fn empty_angle_brackets_are_no_type() {
    let mut parser = parser_for("Map<>");
    assert_eq!(
        parser.parse_type(),
        Err(failure(1, "expect identifier in fact found token Gtexpect a type identifier"))
    );
    assert!(parser.test(Token::Id(text("Map"))));
}

#[test]
fn unclosed_tuple_type_fails_at_the_end() {
    let mut parser = parser_for("(Int,\nStr");
    assert_eq!(
        parser.parse_type(),
        Err(failure(3, "[assert_next] expect token RParen in fact end of input"))
    );
    assert!(parser.test(Token::LParen));
}

#[test]
fn unclosed_generic_arguments_fail_at_the_end() {
    let mut parser = parser_for("Map<Int");
    assert_eq!(
        parser.parse_type(),
        Err(failure(2, "[assert_next] expect token Gt in fact end of input"))
    );
    let mut parser = parser_for("Map<");
    assert_eq!(
        parser.parse_type(),
        Err(failure(2, "expect identifier in fact found token end of inputexpect a type identifier"))
    );
    let mut parser = parser_for("Map<Int,");
    assert_eq!(
        parser.parse_type(),
        Err(failure(2, "expect identifier in fact found token end of inputexpect a type identifier"))
    );
}

#[test]
fn type_must_start_with_a_name_or_parenthesis() {
    let mut parser = parser_for("= Int");
    assert_eq!(
        parser.parse_type(),
        Err(failure(1, "expect identifier in fact found token Eqexpect a type identifier"))
    );
    let mut parser = parser_for("(Int, =)");
    assert_eq!(
        parser.parse_type(),
        Err(failure(1, "expect identifier in fact found token Eqexpect a type identifier"))
    );
}

#[test]
fn empty_input_parses_to_an_empty_file() {
    let file = parse("").unwrap();
    assert_eq!(file.statements, vec![]);
    assert_eq!(file.funcs, vec![]);
    assert_eq!(file.index, 0);
    let by_hand = Parser::new(vec![], vec![2]).parse().unwrap();
    assert_eq!(by_hand.statements, vec![]);
}

#[test]
fn semicolons_alone_are_empty_statements() {
    let file = parse(";;\n;").unwrap();
    assert_eq!(file.statements, vec![]);
}

#[test]
fn expression_statements() {
    let file = parse("x;\n\"s\"\ny z;").unwrap();
    assert_eq!(
        file.statements,
        vec![
            Statement::Discard(variable("x"), 1),
            Statement::Expr(literal("s"), 2),
            Statement::Expr(variable("y"), 3),
            Statement::Discard(variable("z"), 3),
        ]
    );
}

#[test]
fn several_statements_keep_their_lines() {
    let file = parse("let a = b;\n# note\nlet c: (T, U) = \"v\"\nlet\nd E<F> = g;;a").unwrap();
    assert_eq!(
        file.statements,
        vec![
            let_of("a", None, variable("b"), 1),
            let_of("c", Some(tuple(vec![named("T"), named("U")])), literal("v"), 3),
            let_of("d", Some(generic("E", vec![named("F")])), variable("g"), 5),
            Statement::Expr(variable("a"), 5),
        ]
    );
}

#[test]
fn let_line_is_that_of_the_name() {
    let file = parse("let\n\nx = y").unwrap();
    assert_eq!(file.statements, vec![let_of("x", None, variable("y"), 3)]);
}

#[test]
fn let_needs_a_name() {
    assert_eq!(parse("let"), Err(failure(2, "expect identifier in fact found token end of input")));
    assert_eq!(parse("let = x"), Err(failure(1, "expect identifier in fact found token Eq")));
    assert_eq!(
        parse("let \"x\" = y"),
        Err(failure(1, "expect identifier in fact found token Str(\"x\")"))
    );
    assert_eq!(parse("x;\nlet let"), Err(failure(2, "expect identifier in fact found token Let")));
}

#[test]
fn let_needs_an_initializer() {
    assert_eq!(
        parse("let x ="),
        Err(failure(2, "expect expression in fact found token end of input"))
    );
    assert_eq!(parse("let x = ;"), Err(failure(1, "expect expression in fact found token Semi")));
    assert_eq!(
        parse("let x: T =\n\n("),
        Err(failure(3, "expect expression in fact found token LParen"))
    );
}

#[test]
fn let_with_name_only_fails() {
    assert_eq!(
        parse("let x"),
        Err(failure(2, "expect identifier in fact found token end of inputexpect a type identifier"))
    );
    assert_eq!(
        parse("let x;"),
        Err(failure(1, "expect identifier in fact found token Semiexpect a type identifier"))
    );
}

#[test]
fn operators_combine_nothing() {
    assert_eq!(
        parse("let x = a + b;"),
        Err(failure(1, "expect expression in fact found token Plus"))
    );
    assert_eq!(parse("a\n- b"), Err(failure(2, "expect expression in fact found token Sub")));
    assert_eq!(parse("* a"), Err(failure(1, "expect expression in fact found token Mul")));
    assert_eq!(parse("fun"), Err(failure(1, "expect expression in fact found token Func")));
}

#[test]
fn first_failure_ends_parsing() {
    assert_eq!(
        parse("let a = b;\nlet = c;\nlet"),
        Err(failure(2, "expect identifier in fact found token Eq"))
    );
}

#[test]
fn failed_rule_leaves_the_cursor() {
    let mut parser = parser_for("let x = ;");
    assert_eq!(
        parser.statements(),
        Err(failure(1, "expect expression in fact found token Semi"))
    );
    assert!(parser.test(Token::Let));
    assert_eq!(parser.line(), 1);
}

#[test]
fn cursor_primitives() {
    let mut parser = parser_for("a\n= ;");
    assert!(parser.has_next());
    assert_eq!(parser.now(), &Token::Id(text("a")));
    assert_eq!(parser.line(), 1);
    assert!(parser.test(Token::Id(text("a"))));
    assert!(!parser.test(Token::Id(text("b"))));
    assert_eq!(parser.next(), &Token::Id(text("a")));
    assert_eq!(parser.line(), 2);
    assert_eq!(parser.found(), "Eq");
    assert_eq!(parser.assert_next(Token::Eq), Ok(()));
    assert_eq!(
        parser.assert_next(Token::Eq),
        Err(failure(2, "[assert_next] expect token Eq in fact Semi"))
    );
    assert!(parser.test(Token::Semi));
    parser.advance();
    assert!(!parser.has_next());
    assert!(!parser.test(Token::Semi));
    assert_eq!(parser.line(), 3);
    assert_eq!(parser.found(), "end of input");
    assert_eq!(
        parser.assert_next(Token::Semi),
        Err(failure(3, "[assert_next] expect token Semi in fact end of input"))
    );
    assert_eq!(
        parser.mismatch(&Token::Id(text("n"))),
        failure(3, "[assert_next] expect token Id(\"n\") in fact end of input")
    );
}

#[test]
fn identifier_gives_the_name() {
    let mut parser = parser_for("abc \"s\"");
    assert_eq!(parser.identifier(), Ok(text("abc")));
    assert_eq!(
        parser.identifier(),
        Err(failure(1, "expect identifier in fact found token Str(\"s\")"))
    );
    assert!(parser.test(Token::Str(text("s"))));
}

#[test]
fn expr_reads_one_atom() {
    let mut parser = parser_for("a \"b\" =");
    assert_eq!(parser.expr(), Ok(variable("a")));
    assert_eq!(parser.medium_expr(), Ok(literal("b")));
    assert_eq!(parser.expr(), Err(failure(1, "expect expression in fact found token Eq")));
    assert!(parser.test(Token::Eq));
}

#[test]
fn statement_rules() {
    let mut parser = parser_for("x T = v; w;");
    assert_eq!(parser.let_statement(), Ok(let_of("x", Some(named("T")), variable("v"), 1)));
    assert_eq!(parser.expr_statement(), Ok(Statement::Discard(variable("w"), 1)));
    assert!(!parser.has_next());
    let mut parser = parser_for("T = v");
    assert_eq!(parser.type_then_eq("!"), Ok(named("T")));
    assert!(parser.test(Token::Id(text("v"))));
    let mut parser = parser_for("T v");
    assert_eq!(
        parser.type_then_eq("!"),
        Err(failure(1, "[assert_next] expect token Eq in fact Id(\"v\")!"))
    );
    assert!(parser.test(Token::Id(text("T"))));
}

#[test]
fn parse_error_keeps_line_and_reason() {
    let error = ParseError::new(7, "reason".to_string());
    assert_eq!(error.line, 7);
    assert_eq!(error.reason, "reason");
    let more = error.msg(", context").msg("");
    assert_eq!(more.line, 7);
    assert_eq!(more.reason, "reason, context");
    assert_eq!(more.describe(), "Parse error line 7 : reason, context");
    assert_eq!(ParseError::new(65535, String::new()).describe(), "Parse error line 65535 : ");
}

#[test]
fn types_describe_themselves() {
    assert_eq!(named("Int").describe(), "Int<None>");
    assert_eq!(generic("List", vec![]).describe(), "List<Some([])>");
    assert_eq!(
        generic("Map", vec![named("Int"), tuple(vec![named("Str"), named("Bool")])]).describe(),
        "Map<Some([Int<None>, [Str<None>, Bool<None>]])>"
    );
    assert_eq!(tuple(vec![]).describe(), "[]");
    assert_eq!(tuple(vec![ParsedType::MySelf]).describe(), "[Self]");
    assert_eq!(ParsedType::MySelf.describe(), "Self");
    assert_eq!(describe_types(&vec![named("A"), named("B"), named("C")]), "[A<None>, B<None>, C<None>]");
}

#[test]
fn no_arguments_and_empty_arguments_differ() {
    assert_ne!(named("List"), generic("List", vec![]));
}

#[test]
fn primitive_types_have_names() {
    assert_eq!(BasicType::Int.name(), "int");
    assert_eq!(BasicType::Num.name(), "num");
    assert_eq!(BasicType::Char.name(), "char");
    assert_eq!(BasicType::Bool.name(), "bool");
    assert_eq!(BasicType::Ref.name(), "Ref");
    assert_eq!(DataType::Int.name(), "int");
    assert_eq!(DataType::Num.name(), "num");
    assert_eq!(DataType::Char.name(), "char");
    assert_eq!(DataType::Bool.name(), "bool");
}

#[test]
fn source_to_file() {
    let file = parse_source(b"let x: Map<Int, (Str, Bool)> = \"hi\";".to_vec()).unwrap();
    let declared =
        generic("Map", vec![named("Int"), tuple(vec![named("Str"), named("Bool")])]);
    assert_eq!(file.statements, vec![let_of("x", Some(declared), literal("hi"), 1)]);
    assert_eq!(parse_source(vec![]).unwrap().statements, vec![]);
}

#[test]
fn source_failures() {
    assert_eq!(
        parse_source(b"let x = 5;".to_vec()),
        Err(FrontendError::Lex(LexError::UnrecognizedByte { byte: b'5', line: 1 }))
    );
    assert_eq!(
        parse_source(b"let x = \n;".to_vec()),
        Err(FrontendError::Parse(failure(2, "expect expression in fact found token Semi")))
    );
    assert_eq!(
        parse_source(b"println(\"hello world!\")".to_vec()),
        Err(FrontendError::Parse(failure(1, "expect expression in fact found token LParen")))
    );
}
