use qutie::error::EvalError;
use qutie::error::Fatal;
use qutie::error::Reserved;
use qutie::frame::Frame;
use qutie::number::ArithFault;
use qutie::object::Capability;
use qutie::object::ObjError;
use qutie::object::ObjType;
use qutie::object::Object;
use qutie::object::Oper;
use qutie::parser::evaluate;
use qutie::parser::parse;
use qutie::parser::parse_expr;
use qutie::parser::run;
use qutie::stream::Stream;
use qutie::token::LParen;
use qutie::token::RParen;

fn value_of(source: &str) -> Result<Option<Object>, EvalError> {
    let mut frame = Frame::new();
    evaluate(source, &mut frame)
}

#[test]
fn multiplication_binds_tighter_than_addition() {
    assert_eq!(value_of("2 + 3 * 4"), Ok(Some(Object::Number(14))));
    assert_eq!(value_of("2 * 3 + 4"), Ok(Some(Object::Number(10))));
}

#[test]
fn power_groups_to_the_right() {
    assert_eq!(value_of("2 ** 3 ** 2"), Ok(Some(Object::Number(512))));
}

#[test]
fn subtraction_groups_to_the_left() {
    assert_eq!(value_of("8 - 3 - 2"), Ok(Some(Object::Number(3))));
    assert_eq!(value_of("100 / 10 / 5"), Ok(Some(Object::Number(2))));
}

#[test]
fn assignment_binds_and_has_the_bound_value() {
    let mut frame = Frame::new();
    assert_eq!(evaluate("x = 5;", &mut frame), Ok(Some(Object::Number(5))));
    assert_eq!(frame.get("x"), Some(Object::Number(5)));
    assert_eq!(evaluate("x", &mut frame), Ok(Some(Object::Number(5))));
    assert_eq!(evaluate("x * x + 1", &mut frame), Ok(Some(Object::Number(26))));
    assert_eq!(frame.depth(), 0);
}

#[test]
fn assignment_chains() {
    let mut frame = Frame::new();
    assert_eq!(evaluate("a = b = 2 + 1;", &mut frame), Ok(Some(Object::Number(3))));
    assert_eq!(frame.get("a"), Some(Object::Number(3)));
    assert_eq!(frame.get("b"), Some(Object::Number(3)));
}

#[test]
fn round_blocks_are_operands() {
    assert_eq!(value_of("(2 + 3) * 4"), Ok(Some(Object::Number(20))));
    assert_eq!(value_of("2 * (3 + (4 - 1))"), Ok(Some(Object::Number(12))));
    assert_eq!(value_of("(1; 2; 3) + 4"), Ok(Some(Object::Number(7))));
}

#[test]
fn assignment_inside_a_block() {
    let mut frame = Frame::new();
    assert_eq!(evaluate("(y = 4) + 1", &mut frame), Ok(Some(Object::Number(5))));
    assert_eq!(frame.get("y"), Some(Object::Number(4)));
}

#[test]
fn several_statements_yield_the_last_value() {
    let mut frame = Frame::new();
    assert_eq!(evaluate("a = 2; b = a ** 10; b % 1000\n", &mut frame), Ok(Some(Object::Number(24))));
    assert_eq!(frame.get("b"), Some(Object::Number(1024)));
}

#[test]
fn empty_source_has_no_value() {
    assert_eq!(value_of(""), Ok(None));
    assert_eq!(value_of("  \n # only a comment"), Ok(None));
    assert_eq!(value_of(";"), Ok(None));
}

#[test]
fn number_literals_may_group_digits() {
    assert_eq!(value_of("1_000 + 007"), Ok(Some(Object::Number(1007))));
}

#[test]
fn comment_line_changes_nothing() {
    let mut with = Frame::new();
    let mut without = Frame::new();
    let a = evaluate("# comment text\nx = 2 + 3;", &mut with);
    let b = evaluate("x = 2 + 3;", &mut without);
    assert_eq!(a, b);
    assert_eq!(a, Ok(Some(Object::Number(5))));
    assert_eq!(with.get("x"), without.get("x"));
}

#[test]
fn unbound_identifier_is_fatal() {
    assert_eq!(
        value_of("nope + 1"),
        Err(EvalError::Fatal(Fatal::UnboundIdentifier { name: String::from("nope") }))
    );
}

#[test]
fn bad_assignment_target_is_fatal() {
    assert_eq!(value_of("1 = 2 + 3"), Err(EvalError::Fatal(Fatal::BadAssignmentTarget)));
}

#[test]
fn stray_tokens_are_fatal() {
    assert_eq!(value_of("x ="), Err(EvalError::Fatal(Fatal::UnboundIdentifier { name: String::from("x") })));
    assert_eq!(value_of("1 ="), Err(EvalError::Fatal(Fatal::StrayAssignment)));
    assert_eq!(
        value_of("1 )"),
        Err(EvalError::Fatal(Fatal::StrayBracket { found: RParen::Round }))
    );
}

#[test]
fn reserved_blocks_are_fatal() {
    assert_eq!(
        value_of("[1]"),
        Err(EvalError::Fatal(Fatal::ReservedBlock { open: LParen::Square }))
    );
    assert_eq!(
        value_of("{1}"),
        Err(EvalError::Fatal(Fatal::ReservedBlock { open: LParen::Curly }))
    );
}

#[test]
fn reserved_tokens_are_unimplemented() {
    assert_eq!(value_of("'abc'"), Err(EvalError::Unimplemented(Reserved::Text)));
    assert_eq!(value_of("a.b"), Err(EvalError::Unimplemented(Reserved::Path)));
    assert_eq!(value_of("1, 2"), Err(EvalError::Unimplemented(Reserved::Separator)));
}

#[test]
fn unknown_character_is_fatal() {
    assert_eq!(
        value_of("1 + ?"),
        Err(EvalError::Fatal(Fatal::UnknownCharacter { ch: '?', pos: 4 }))
    );
    assert_eq!(value_of("(1 ?)"), Err(EvalError::Fatal(Fatal::UnknownToken { ch: '?' })));
}

#[test]
fn lexing_faults_surface_through_evaluation() {
    assert_eq!(
        value_of("(foo]"),
        Err(EvalError::Fatal(Fatal::MismatchedBracket {
            open: LParen::Round,
            found: RParen::Square,
            pos: 4
        }))
    );
    assert_eq!(
        value_of("1 += 2"),
        Err(EvalError::Fatal(Fatal::UnknownOperator { sigil: String::from("+="), pos: 2 }))
    );
}

#[test]
fn missing_operand_is_fatal() {
    assert_eq!(value_of("1 +"), Err(EvalError::Fatal(Fatal::MissingOperand { oper: Oper::Add })));
    assert_eq!(value_of("*"), Err(EvalError::Fatal(Fatal::MissingOperand { oper: Oper::Mul })));
}

#[test]
fn arithmetic_faults_stay_typed() {
    assert_eq!(
        value_of("1 / 0"),
        Err(EvalError::Object(ObjError::Arithmetic {
            oper: Capability::Div,
            fault: ArithFault::DivisionByZero
        }))
    );
    assert_eq!(
        value_of("9223372036854775807 + 1"),
        Err(EvalError::Object(ObjError::Arithmetic {
            oper: Capability::Add,
            fault: ArithFault::Overflow
        }))
    );
    assert_eq!(
        value_of("99999999999999999999"),
        Err(EvalError::Fatal(Fatal::BadNumber { raw: String::from("99999999999999999999") }))
    );
}

#[test]
fn missing_capability_is_fatal() {
    let mut frame = Frame::new();
    frame.set(String::from("t"), Object::Text(String::from("a")));
    assert_eq!(
        evaluate("t + 1", &mut frame),
        Err(EvalError::Fatal(Fatal::MissingCapability {
            capability: Capability::Add,
            variant: ObjType::Text
        }))
    );
    assert_eq!(
        evaluate("1 + t", &mut frame),
        Err(EvalError::Object(ObjError::UnsupportedOperation {
            oper: Capability::Add,
            lhs: ObjType::Number,
            rhs: ObjType::Text
        }))
    );
}

#[test]
fn parse_returns_the_frame() {
    let mut stream = Stream::new("a = 1; b = a + 1;");
    let frame = parse(&mut stream).unwrap();
    assert_eq!(frame.get("a"), Some(Object::Number(1)));
    assert_eq!(frame.get("b"), Some(Object::Number(2)));
    assert_eq!(frame.get("c"), None);
    assert_eq!(frame.depth(), 0);
    assert!(stream.is_empty());
}

#[test]
fn run_stops_at_the_failing_statement() {
    let mut stream = Stream::new("a = 1; b = nope; c = 3;");
    let mut frame = Frame::new();
    assert_eq!(
        run(&mut stream, &mut frame),
        Err(EvalError::Fatal(Fatal::UnboundIdentifier { name: String::from("nope") }))
    );
    assert_eq!(frame.get("a"), Some(Object::Number(1)));
    assert_eq!(frame.get("b"), None);
    assert_eq!(frame.get("c"), None);
    assert_eq!(stream.offset(), 16);
}

#[test]
fn parse_expr_leaves_the_value_on_the_stack() {
    let mut stream = Stream::new("1 + 2 * 3;");
    let tokens = stream.next_expr().unwrap();
    let mut frame = Frame::new();
    assert_eq!(parse_expr(&tokens, &mut frame), Ok(()));
    assert_eq!(frame.depth(), 1);
    assert_eq!(frame.top(), Some(Object::Number(7)));
}

#[test]
fn assignment_without_a_value_is_fatal() {
    assert_eq!(value_of("x = ()"), Err(EvalError::Fatal(Fatal::MissingValue)));
    assert_eq!(value_of("x = (;)"), Err(EvalError::Fatal(Fatal::MissingValue)));
}

#[test]
fn number_literal_beyond_ascii_is_fatal() {
    assert_eq!(
        value_of("1 + 2\u{663}"),
        Err(EvalError::Fatal(Fatal::BadNumber { raw: String::from("2\u{663}") }))
    );
}

#[test]
fn negative_exponent_stays_typed() {
    assert_eq!(
        value_of("2 ** (0 - 1)"),
        Err(EvalError::Object(ObjError::Arithmetic {
            oper: Capability::Pow,
            fault: ArithFault::NegativeExponent
        }))
    );
}

#[test]
fn there_is_no_unary_minus() {
    assert_eq!(value_of("- 5"), Err(EvalError::Fatal(Fatal::MissingOperand { oper: Oper::Sub })));
    assert_eq!(value_of("0 - 5"), Ok(Some(Object::Number(-5))));
}

#[test]
fn two_operators_group_by_priority_and_associativity() {
    let sigils = ["+", "-", "*", "/", "%", "**"];
    let apply = |sigil: &str, x: i64, y: i64| -> i64 {
        match sigil {
            "+" => x + y,
            "-" => x - y,
            "*" => x * y,
            "/" => x / y,
            "%" => x % y,
            _ => x.pow(y as u32),
        }
    };
    let rank = |sigil: &str| -> u32 {
        match sigil {
            "+" | "-" => 12,
            "*" | "/" | "%" => 11,
            _ => 10,
        }
    };
    for first in sigils {
        for second in sigils {
            let source = format!("7 {} 3 {} 2", first, second);
            let to_left = rank(first) < rank(second) || (rank(first) == rank(second) && first != "**");
            let expected = if to_left {
                apply(second, apply(first, 7, 3), 2)
            } else {
                apply(first, 7, apply(second, 3, 2))
            };
            assert_eq!(value_of(&source), Ok(Some(Object::Number(expected))), "{}", source);
        }
    }
}

#[test]
fn a_terminator_ends_the_statement() {
    let mut stream = Stream::new("1 + 2;");
    let mut tokens = stream.next_expr().unwrap();
    let mut more = Stream::new("* 10").next_expr().unwrap();
    tokens.append(&mut more);
    let mut frame = Frame::new();
    assert_eq!(parse_expr(&tokens, &mut frame), Ok(()));
    assert_eq!(frame.depth(), 1);
    assert_eq!(frame.top(), Some(Object::Number(3)));
}

#[test]
fn values_of_earlier_statements_of_a_block_are_dropped() {
    let mut stream = Stream::new("(1 2; 3 4; 5)");
    let tokens = stream.next_expr().unwrap();
    let mut frame = Frame::new();
    frame.push(Object::Null);
    assert_eq!(parse_expr(&tokens, &mut frame), Ok(()));
    assert_eq!(frame.depth(), 2);
    assert_eq!(frame.pop(), Some(Object::Number(5)));
    assert_eq!(frame.pop(), Some(Object::Null));
}

#[test]
fn a_statement_may_leave_several_values() {
    let mut frame = Frame::new();
    assert_eq!(evaluate("14 15;", &mut frame), Ok(Some(Object::Number(15))));
    assert_eq!(frame.depth(), 0);
}
