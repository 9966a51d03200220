use qutie::chars::is_digit;
use qutie::chars::is_letter;
use qutie::chars::is_whitespace;
use qutie::error::Fatal;
use qutie::object::Oper;
use qutie::operator::BinaryOperator;
use qutie::stream::Stream;
use qutie::token::Assignments;
use qutie::token::LParen;
use qutie::token::Quote;
use qutie::token::RParen;
use qutie::token::Token;

fn lex(source: &str) -> Result<Vec<Token>, Fatal> {
    let mut stream = Stream::new(source);
    let mut tokens = vec![];
    loop {
        match stream.next() {
            Ok(Some(token)) => tokens.push(token),
            Ok(None) => return Ok(tokens),
            Err(e) => return Err(e),
        }
    }
}

fn number(raw: &str) -> Token {
    Token::Number(String::from(raw))
}

fn identifier(name: &str) -> Token {
    Token::Identifier(String::from(name))
}

fn operator(sigil: &str) -> Token {
    Token::Operator(BinaryOperator::try_from(sigil).unwrap())
}

#[test]
fn digit_run_is_kept_as_written() {
    assert_eq!(lex("0012_3__"), Ok(vec![number("0012_3__")]));
    assert_eq!(lex("000"), Ok(vec![number("000")]));
    assert_eq!(lex("7"), Ok(vec![number("7")]));
    assert_eq!(lex("12ab"), Ok(vec![number("12"), identifier("ab")]));
    assert_eq!(lex("1_000+2"), Ok(vec![number("1_000"), operator("+"), number("2")]));
}

#[test]
fn underscore_starts_an_identifier() {
    assert_eq!(lex("_12"), Ok(vec![identifier("_12")]));
    assert_eq!(lex("foo_bar1 _x"), Ok(vec![identifier("foo_bar1"), identifier("_x")]));
}

#[test]
fn dotted_names_are_paths() {
    assert_eq!(lex("a.b.c"), Ok(vec![Token::Path(String::from("a.b.c"))]));
    assert_eq!(lex("self.maker"), Ok(vec![Token::Path(String::from("self.maker"))]));
    assert_eq!(
        lex("  a.b."),
        Err(Fatal::BadPath { path: String::from("a.b."), pos: 2 })
    );
}

#[test]
fn names_may_hold_letters_beyond_ascii() {
    assert_eq!(lex("\u{e9}t\u{e9}1 x"), Ok(vec![identifier("\u{e9}t\u{e9}1"), identifier("x")]));
    assert_eq!(lex("x\u{20ac}"), Ok(vec![identifier("x"), Token::Unknown('\u{20ac}')]));
    assert_eq!(lex("\u{663}"), Ok(vec![number("\u{663}")]));
}

#[test]
fn white_space_is_skipped() {
    assert_eq!(lex(" \t\n\r\u{b}\u{c}x"), Ok(vec![identifier("x")]));
    assert_eq!(lex("\u{a0}x\u{2003}"), Ok(vec![identifier("x")]));
    assert_eq!(lex("   "), Ok(vec![]));
    assert_eq!(lex(""), Ok(vec![]));
}

#[test]
fn ascii_classes_agree_with_the_standard_library() {
    for code in 0u8..128 {
        let c = code as char;
        assert_eq!(is_whitespace(c), c.is_whitespace(), "{:?}", c);
        assert_eq!(is_letter(c), c.is_alphabetic(), "{:?}", c);
        assert_eq!(is_digit(c), c.is_numeric(), "{:?}", c);
    }
}

#[test]
fn classes_beyond_ascii_follow_the_standard_library() {
    for c in ['\u{e9}', '\u{3b1}', '\u{20ac}', '\u{a0}', '\u{663}', '\u{bd}', '\u{2167}'] {
        assert_eq!(is_whitespace(c), c.is_whitespace(), "{:?}", c);
        assert_eq!(is_letter(c), c.is_alphabetic(), "{:?}", c);
        assert_eq!(is_digit(c), c.is_numeric(), "{:?}", c);
    }
    assert!(is_letter('\u{e9}'));
    assert!(!is_letter('\u{20ac}'));
    assert!(is_whitespace('\u{a0}'));
    assert!(is_digit('\u{663}'));
}

#[test]
fn text_literals_are_decoded() {
    assert_eq!(
        lex("'a\\nb'"),
        Ok(vec![Token::Text(Quote::Single, String::from("a\nb"))])
    );
    assert_eq!(
        lex("\"it\\'s \\\"so\\\"\""),
        Ok(vec![Token::Text(Quote::Double, String::from("it's \"so\""))])
    );
    assert_eq!(
        lex("`\\t\\r\\``"),
        Ok(vec![Token::Text(Quote::Grave, String::from("\t\r`"))])
    );
    assert_eq!(
        lex("'a\"b`c' x"),
        Ok(vec![Token::Text(Quote::Single, String::from("a\"b`c")), identifier("x")])
    );
    assert_eq!(lex("''"), Ok(vec![Token::Text(Quote::Single, String::new())]));
}

#[test]
fn unknown_escape_is_fatal() {
    assert_eq!(lex("'a\\qb'"), Err(Fatal::UnknownEscape { ch: 'q', pos: 3 }));
    assert_eq!(lex("'\\\\'"), Err(Fatal::UnknownEscape { ch: '\\', pos: 2 }));
}

#[test]
fn unterminated_text_is_fatal() {
    assert_eq!(lex("'abc"), Err(Fatal::UnterminatedText { quote: Quote::Single, pos: 0 }));
    assert_eq!(lex("x \"abc'"), Err(Fatal::UnterminatedText { quote: Quote::Double, pos: 2 }));
    assert_eq!(lex("`abc\\"), Err(Fatal::UnterminatedText { quote: Quote::Grave, pos: 0 }));
}

#[test]
fn operators_come_from_the_registry() {
    assert_eq!(
        lex("+ - * / % **"),
        Ok(vec![
            operator("+"),
            operator("-"),
            operator("*"),
            operator("/"),
            operator("%"),
            operator("**")
        ])
    );
    assert_eq!(
        lex("2**3"),
        Ok(vec![
            number("2"),
            Token::Operator(BinaryOperator { kind: Oper::Pow, priority: 10, is_left_assoc: false }),
            number("3")
        ])
    );
}

#[test]
fn unknown_sigil_is_fatal() {
    assert_eq!(lex("+="), Err(Fatal::UnknownOperator { sigil: String::from("+="), pos: 0 }));
    assert_eq!(lex("a < b"), Err(Fatal::UnknownOperator { sigil: String::from("<"), pos: 2 }));
    assert_eq!(lex("***"), Err(Fatal::UnknownOperator { sigil: String::from("***"), pos: 0 }));
    assert_eq!(lex("1 -- 2"), Err(Fatal::UnknownOperator { sigil: String::from("--"), pos: 2 }));
}

#[test]
fn single_character_tokens() {
    assert_eq!(
        lex("= ; ,"),
        Ok(vec![Token::Assignment(Assignments::Assign), Token::LineTerminator, Token::Separator])
    );
    assert_eq!(
        lex("=="),
        Ok(vec![Token::Assignment(Assignments::Assign), Token::Assignment(Assignments::Assign)])
    );
    assert_eq!(lex("?"), Ok(vec![Token::Unknown('?')]));
    assert_eq!(
        lex(") ] }"),
        Ok(vec![
            Token::RParen(RParen::Round),
            Token::RParen(RParen::Square),
            Token::RParen(RParen::Curly)
        ])
    );
}

#[test]
fn blocks_hold_their_statements() {
    assert_eq!(
        lex("(1; 2 3)"),
        Ok(vec![Token::Block(
            (LParen::Round, RParen::Round),
            vec![vec![number("1")], vec![number("2"), number("3")]]
        )])
    );
    assert_eq!(
        lex("(1;)"),
        Ok(vec![Token::Block((LParen::Round, RParen::Round), vec![vec![number("1")]])])
    );
    assert_eq!(lex("()"), Ok(vec![Token::Block((LParen::Round, RParen::Round), vec![])]));
    assert_eq!(lex("[;]"), Ok(vec![Token::Block((LParen::Square, RParen::Square), vec![vec![]])]));
}

#[test]
fn blocks_nest() {
    assert_eq!(
        lex("[a {b (c)}] d"),
        Ok(vec![
            Token::Block(
                (LParen::Square, RParen::Square),
                vec![vec![
                    identifier("a"),
                    Token::Block(
                        (LParen::Curly, RParen::Curly),
                        vec![vec![
                            identifier("b"),
                            Token::Block((LParen::Round, RParen::Round), vec![vec![identifier("c")]])
                        ]]
                    )
                ]]
            ),
            identifier("d")
        ])
    );
}

#[test]
fn mismatched_bracket_is_fatal() {
    assert_eq!(
        lex("(foo]"),
        Err(Fatal::MismatchedBracket { open: LParen::Round, found: RParen::Square, pos: 4 })
    );
    assert_eq!(
        lex("{ (a) )"),
        Err(Fatal::MismatchedBracket { open: LParen::Curly, found: RParen::Round, pos: 6 })
    );
}

#[test]
fn unterminated_block_is_fatal() {
    assert_eq!(lex("(foo"), Err(Fatal::UnterminatedBlock { open: LParen::Round, pos: 0 }));
    assert_eq!(lex("x [ (a) "), Err(Fatal::UnterminatedBlock { open: LParen::Square, pos: 2 }));
    assert_eq!(lex("( # ) \n"), Err(Fatal::UnterminatedBlock { open: LParen::Round, pos: 0 }));
}

#[test]
fn comments_yield_no_token() {
    assert_eq!(lex("# comment text\nx"), Ok(vec![identifier("x")]));
    assert_eq!(lex("x # comment text"), Ok(vec![identifier("x")]));
    assert_eq!(lex("#"), Ok(vec![]));
    assert_eq!(lex("# a\n# b\n\n1"), Ok(vec![number("1")]));
    assert_eq!(lex("(1 # )\n)"), lex("(1 )"));
}

#[test]
fn comment_line_lexes_like_the_source_behind_it() {
    for rest in ["x = 5;", "2 + 3 * 4", "(a; b) 'c'", "", "  \n y"] {
        let mut commented = String::from("# comment text\n");
        commented.push_str(rest);
        assert_eq!(lex(&commented), lex(rest), "{:?}", rest);
    }
    assert_eq!(lex("#c\n(foo]"),
        Err(Fatal::MismatchedBracket { open: LParen::Round, found: RParen::Square, pos: 7 }));
}

#[test]
fn peek_leaves_the_token_unread() {
    let mut stream = Stream::new("  abc 12");
    assert_eq!(stream.peek(), Ok(Some(identifier("abc"))));
    assert_eq!(stream.offset(), 0);
    assert_eq!(stream.peek(), Ok(Some(identifier("abc"))));
    assert_eq!(stream.next(), Ok(Some(identifier("abc"))));
    assert_eq!(stream.offset(), 5);
    assert_eq!(stream.peek(), Ok(Some(number("12"))));
    assert_eq!(stream.next(), Ok(Some(number("12"))));
    assert_eq!(stream.peek(), Ok(None));
    assert_eq!(stream.next(), Ok(None));
}

#[test]
fn is_empty_tells_the_end_of_the_source() {
    let mut stream = Stream::new("a ");
    assert!(!stream.is_empty());
    assert_eq!(stream.next(), Ok(Some(identifier("a"))));
    assert!(!stream.is_empty());
    assert_eq!(stream.next(), Ok(None));
    assert!(stream.is_empty());
    assert!(Stream::new("").is_empty());
}

#[test]
fn a_fatal_condition_leaves_the_stream_where_it_was() {
    let mut stream = Stream::new("ab 'cd");
    assert_eq!(stream.next(), Ok(Some(identifier("ab"))));
    assert_eq!(stream.offset(), 2);
    assert_eq!(stream.next(), Err(Fatal::UnterminatedText { quote: Quote::Single, pos: 3 }));
    assert_eq!(stream.offset(), 2);
    assert_eq!(stream.peek(), Err(Fatal::UnterminatedText { quote: Quote::Single, pos: 3 }));
}

#[test]
fn statements_end_with_their_terminator() {
    let mut stream = Stream::new("a b; c");
    assert_eq!(
        stream.next_expr(),
        Ok(vec![identifier("a"), identifier("b"), Token::LineTerminator])
    );
    assert_eq!(stream.offset(), 4);
    assert_eq!(stream.next_expr(), Ok(vec![identifier("c")]));
    assert!(stream.is_empty());
    assert_eq!(stream.next_expr(), Ok(vec![]));
}

#[test]
fn unknown_character_in_a_statement_is_fatal() {
    let mut stream = Stream::new("a; b ? c");
    assert_eq!(stream.next_expr(), Ok(vec![identifier("a"), Token::LineTerminator]));
    assert_eq!(stream.next_expr(), Err(Fatal::UnknownCharacter { ch: '?', pos: 5 }));
    assert_eq!(stream.offset(), 2);
}

#[test]
fn unknown_character_in_a_block_is_kept() {
    assert_eq!(
        lex("(?)"),
        Ok(vec![Token::Block((LParen::Round, RParen::Round), vec![vec![Token::Unknown('?')]])])
    );
}

#[test]
fn free_next_expr_reads_a_statement() {
    let mut stream = Stream::new("x = 1; y");
    assert_eq!(
        qutie::parser::next_expr(&mut stream),
        Ok(vec![identifier("x"), Token::Assignment(Assignments::Assign), number("1"), Token::LineTerminator])
    );
}
