use script_frontend::text::{decimal, same_text, text_of};
use script_frontend::token::Token;
use script_frontend::tokenizer::{LexError, Tokenizer};
use std::rc::Rc;

fn id(text: &str) -> Token {
    Token::Id(Rc::new(text.to_string()))
}

fn string(text: &str) -> Token {
    Token::Str(Rc::new(text.to_string()))
}

fn lex(source: &str) -> Result<(Vec<Token>, Vec<u16>), LexError> {
    Tokenizer::new(source.as_bytes().to_vec()).tokenize()
}

#[test]
fn let_with_string_literal() {
    let (tokens, lines) = lex("let x = \"hi\";").unwrap();
    assert_eq!(tokens, vec![Token::Let, id("x"), Token::Eq, string("hi"), Token::Semi]);
    assert_eq!(lines, vec![1, 1, 1, 1, 1, 2]);
}

#[test]
fn empty_source() {
    let (tokens, lines) = lex("").unwrap();
    assert_eq!(tokens, vec![]);
    assert_eq!(lines, vec![2]);
}

#[test]
fn every_punctuation_byte_gives_its_token() {
    let (tokens, lines) = lex("()+-*;=:,<>").unwrap();
    assert_eq!(
        tokens,
        vec![
            Token::LParen,
            Token::RParen,
            Token::Plus,
            Token::Sub,
            Token::Mul,
            Token::Semi,
            Token::Eq,
            Token::Colon,
            Token::Comma,
            Token::Lt,
            Token::Gt,
        ]
    );
    assert_eq!(lines, vec![1, 1, 1, 1, 1, 1, 1, 1, 1, 1, 1, 2]);
}

#[test]
fn punctuation_token_by_byte() {
    assert_eq!(Tokenizer::punctuation_token(b'('), Some(Token::LParen));
    assert_eq!(Tokenizer::punctuation_token(b'>'), Some(Token::Gt));
    assert_eq!(Tokenizer::punctuation_token(b'a'), None);
    assert_eq!(Tokenizer::punctuation_token(b'#'), None);
    assert_eq!(Tokenizer::punctuation_token(b'"'), None);
}

#[test]
fn marks_are_counted_outside_comments() {
    let source = "( ) \t+\n- # (((( ;;;\n*\r\n;  =";
    let (tokens, lines) = lex(source).unwrap();
    assert_eq!(tokens.len(), 7);
    assert_eq!(lines.len(), tokens.len() + 1);
    assert_eq!(lines, vec![1, 1, 1, 2, 3, 4, 4, 5]);
}

#[test]
fn newlines_count_lines() {
    let (tokens, lines) = lex("a\nb\n\nc").unwrap();
    assert_eq!(tokens, vec![id("a"), id("b"), id("c")]);
    assert_eq!(lines, vec![1, 2, 4, 5]);
}

#[test]
fn comment_runs_to_the_newline() {
    let (tokens, lines) = lex("a # b c \"\n;").unwrap();
    assert_eq!(tokens, vec![id("a"), Token::Semi]);
    assert_eq!(lines, vec![1, 2, 3]);
}

#[test]
fn comment_at_the_end_counts_a_line() {
    let (tokens, lines) = lex("# only a comment").unwrap();
    assert_eq!(tokens, vec![]);
    assert_eq!(lines, vec![3]);
    let (tokens, lines) = lex("x # tail").unwrap();
    assert_eq!(tokens, vec![id("x")]);
    assert_eq!(lines, vec![1, 3]);
}

#[test]
fn comment_before_a_newline_counts_one_line() {
    let (_, lines) = lex("#\n").unwrap();
    assert_eq!(lines, vec![3]);
    let (_, lines) = lex("#\n\n").unwrap();
    assert_eq!(lines, vec![4]);
}

#[test]
fn keywords_and_identifiers() {
    let (tokens, _) = lex("let fun letx _a1 Fun le f fu lets A_9z").unwrap();
    assert_eq!(
        tokens,
        vec![
            Token::Let,
            Token::Func,
            id("letx"),
            id("_a1"),
            id("Fun"),
            id("le"),
            id("f"),
            id("fu"),
            id("lets"),
            id("A_9z"),
        ]
    );
}

#[test]
fn identifier_ends_at_punctuation() {
    let (tokens, lines) = lex("ab(cd)").unwrap();
    assert_eq!(tokens, vec![id("ab"), Token::LParen, id("cd"), Token::RParen]);
    assert_eq!(lines, vec![1, 1, 1, 1, 2]);
}

#[test]
fn string_literal_keeps_its_bytes() {
    let (tokens, lines) = lex("\"a b#c;\" \"\"").unwrap();
    assert_eq!(tokens, vec![string("a b#c;"), string("")]);
    assert_eq!(lines, vec![1, 1, 2]);
}

#[test]
fn newline_inside_a_string_is_no_line() {
    let (tokens, lines) = lex("\"a\nb\" x\ny").unwrap();
    assert_eq!(tokens, vec![string("a\nb"), id("x"), id("y")]);
    assert_eq!(lines, vec![1, 1, 2, 3]);
}

#[test]
fn string_literal_may_hold_any_text() {
    let (tokens, _) = lex("\"h\u{e9}llo \u{4e16}\u{754c} \u{1F600}\"").unwrap();
    assert_eq!(tokens, vec![string("h\u{e9}llo \u{4e16}\u{754c} \u{1F600}")]);
}

#[test]
fn unterminated_string_fails() {
    assert_eq!(lex("\"abc"), Err(LexError::UnterminatedString { line: 1 }));
    assert_eq!(lex("x\n\n\""), Err(LexError::UnterminatedString { line: 3 }));
}

#[test]
fn string_that_is_not_text_fails() {
    let source = vec![b'x', b'\n', b'"', 0xff, 0xfe, b'"'];
    assert_eq!(Tokenizer::new(source).tokenize(), Err(LexError::InvalidText { line: 2 }));
    let cut = vec![b'"', 0xe4, 0xb8, b'"'];
    assert_eq!(Tokenizer::new(cut).tokenize(), Err(LexError::InvalidText { line: 1 }));
}

#[test]
fn unrecognized_byte_fails() {
    assert_eq!(lex("a @"), Err(LexError::UnrecognizedByte { byte: b'@', line: 1 }));
    assert_eq!(lex("\n\n{"), Err(LexError::UnrecognizedByte { byte: b'{', line: 3 }));
    let high = vec![b';', 0xc3, 0xa9];
    assert_eq!(
        Tokenizer::new(high).tokenize(),
        Err(LexError::UnrecognizedByte { byte: 0xc3, line: 1 })
    );
}

#[test]
fn digits_start_no_token() {
    assert_eq!(lex("let x = 5;"), Err(LexError::UnrecognizedByte { byte: b'5', line: 1 }));
    let (tokens, _) = lex("x5").unwrap();
    assert_eq!(tokens, vec![id("x5")]);
}

#[test]
fn first_failure_in_reading_order_decides() {
    assert_eq!(lex("@ \"open"), Err(LexError::UnrecognizedByte { byte: b'@', line: 1 }));
    assert_eq!(lex("\"open @"), Err(LexError::UnterminatedString { line: 1 }));
}

#[test]
fn whitespace_is_skipped() {
    let (tokens, lines) = lex(" \t\r x \u{1} \u{0} ;").unwrap();
    assert_eq!(tokens, vec![id("x"), Token::Semi]);
    assert_eq!(lines, vec![1, 1, 2]);
}

#[test]
fn line_numbers_stop_at_the_limit() {
    let ok = vec![b'\n'; 65533];
    let (tokens, lines) = Tokenizer::new(ok).tokenize().unwrap();
    assert_eq!(tokens, vec![]);
    assert_eq!(lines, vec![65535]);
    let too_many = vec![b'\n'; 65534];
    assert_eq!(Tokenizer::new(too_many).tokenize(), Err(LexError::TooManyLines));
    let mut comment = vec![b'\n'; 65533];
    comment.push(b'#');
    assert_eq!(Tokenizer::new(comment).tokenize(), Err(LexError::TooManyLines));
}

#[test]
fn failed_tokenizer_is_left_as_it_was() {
    let mut tokenizer = Tokenizer::new(b"a\nb $".to_vec());
    let first = tokenizer.tokenize();
    assert_eq!(first, Err(LexError::UnrecognizedByte { byte: b'$', line: 2 }));
    assert_eq!(tokenizer.tokenize(), first);
}

#[test]
fn finished_tokenizer_has_nothing_left() {
    let mut tokenizer = Tokenizer::new(b"a\nb".to_vec());
    let (tokens, lines) = tokenizer.tokenize().unwrap();
    assert_eq!(tokens, vec![id("a"), id("b")]);
    assert_eq!(lines, vec![1, 2, 3]);
    let (tokens, lines) = tokenizer.tokenize().unwrap();
    assert_eq!(tokens, vec![]);
    assert_eq!(lines, vec![3]);
}

#[test]
fn sub_scanners_move_the_cursor() {
    let mut tokenizer = Tokenizer::new(b"abc \"de\" # f\n;".to_vec());
    assert_eq!(tokenizer.now(), b'a');
    assert_eq!(tokenizer.parse_identifier(), id("abc"));
    assert_eq!(tokenizer.now(), b' ');
    let (tokens, lines) = tokenizer.tokenize().unwrap();
    assert_eq!(tokens, vec![string("de"), Token::Semi]);
    assert_eq!(lines, vec![1, 2, 3]);
}

#[test]
fn parse_str_stops_on_the_closing_quote() {
    let mut tokenizer = Tokenizer::new(b"\"de\";".to_vec());
    assert_eq!(tokenizer.parse_str(), Ok(string("de")));
    assert_eq!(tokenizer.now(), b'"');
    let mut open = Tokenizer::new(b"\"de".to_vec());
    assert_eq!(open.parse_str(), Err(LexError::UnterminatedString { line: 1 }));
    assert_eq!(open.now(), b'"');
}

#[test]
fn skip_comment_line_stops_on_the_newline() {
    let mut tokenizer = Tokenizer::new(b"# c\nx".to_vec());
    tokenizer.skip_comment_line();
    assert_eq!(tokenizer.now(), b'\n');
    let (tokens, lines) = tokenizer.tokenize().unwrap();
    assert_eq!(tokens, vec![id("x")]);
    assert_eq!(lines, vec![3, 4]);
}

#[test]
fn letters_and_headers() {
    for byte in 0..=255u8 {
        let header = byte.is_ascii_alphabetic() || byte == b'_';
        assert_eq!(Tokenizer::is_valid_header(byte), header);
        assert_eq!(Tokenizer::is_valid_letter(byte), header || byte.is_ascii_digit());
    }
}

#[test]
fn text_of_decodes_utf8() {
    assert_eq!(text_of(b"plain".to_vec()), Some(Rc::new("plain".to_string())));
    assert_eq!(text_of(vec![0xc3, 0xa9]), Some(Rc::new("\u{e9}".to_string())));
    assert_eq!(text_of(vec![]), Some(Rc::new(String::new())));
    assert_eq!(text_of(vec![0xc3]), None);
    assert_eq!(text_of(vec![0x80]), None);
}

#[test]
fn same_text_compares_contents() {
    let a = Rc::new("abc".to_string());
    let b = Rc::new("abc".to_string());
    let c = Rc::new("abd".to_string());
    assert!(same_text(&a, &b));
    assert!(same_text(&a, &a));
    assert!(!same_text(&a, &c));
}

#[test]
fn decimal_writes_numbers() {
    assert_eq!(decimal(0), "0");
    assert_eq!(decimal(7), "7");
    assert_eq!(decimal(10), "10");
    assert_eq!(decimal(409), "409");
    assert_eq!(decimal(65535), "65535");
}

#[test]
fn tokens_compare_by_kind_and_text() {
    assert!(Token::Eq.same(&Token::Eq));
    assert!(!Token::Eq.same(&Token::Semi));
    assert!(id("x").same(&id("x")));
    assert!(!id("x").same(&id("y")));
    assert!(!id("x").same(&string("x")));
    assert!(string("").same(&string("")));
    assert!(!Token::Let.same(&id("let")));
}

#[test]
fn tokens_describe_themselves() {
    assert_eq!(Token::LParen.describe(), "LParen");
    assert_eq!(Token::RParen.describe(), "RParen");
    assert_eq!(Token::Semi.describe(), "Semi");
    assert_eq!(Token::Colon.describe(), "Colon");
    assert_eq!(Token::Comma.describe(), "Comma");
    assert_eq!(Token::Lt.describe(), "Lt");
    assert_eq!(Token::Gt.describe(), "Gt");
    assert_eq!(Token::Plus.describe(), "Plus");
    assert_eq!(Token::Sub.describe(), "Sub");
    assert_eq!(Token::Mul.describe(), "Mul");
    assert_eq!(Token::Eq.describe(), "Eq");
    assert_eq!(Token::Let.describe(), "Let");
    assert_eq!(Token::Func.describe(), "Func");
    assert_eq!(id("ab").describe(), "Id(\"ab\")");
    assert_eq!(string("a b").describe(), "Str(\"a b\")");
}
