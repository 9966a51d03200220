use qutie::number::ArithFault;
use qutie::object::text_or_marker;
use qutie::list::position;
use qutie::object::Capability;
use qutie::list::List;
use qutie::object::ObjError;
use qutie::object::ObjType;
use qutie::object::Object;
use qutie::object::Oper;

fn numbers(values: &[i64]) -> Vec<Object> {
    values.iter().map(|n| Object::Number(*n)).collect()
}

fn text(s: &str) -> Object {
    Object::Text(String::from(s))
}

#[test]
fn list_get_counts_from_both_ends() {
    let list = List::new(numbers(&[10, 20, 30]));
    assert_eq!(list.get_item(&Object::Number(0)), Ok(Object::Number(10)));
    assert_eq!(list.get_item(&Object::Number(2)), Ok(Object::Number(30)));
    assert_eq!(list.get_item(&Object::Number(-1)), Ok(Object::Number(30)));
    assert_eq!(list.get_item(&Object::Number(-3)), Ok(Object::Number(10)));
    assert_eq!(
        list.get_item(&Object::Number(-4)),
        Err(ObjError::InvalidKey(Object::Number(-4)))
    );
    assert_eq!(
        list.get_item(&Object::Number(3)),
        Err(ObjError::InvalidKey(Object::Number(3)))
    );
    assert_eq!(
        list.get_item(&Object::Number(i64::MIN)),
        Err(ObjError::InvalidKey(Object::Number(i64::MIN)))
    );
}

#[test]
fn list_get_on_empty_list() {
    let list = List::new(vec![]);
    assert_eq!(list.get_item(&Object::Number(0)), Err(ObjError::InvalidKey(Object::Number(0))));
    assert_eq!(list.get_item(&Object::Number(-1)), Err(ObjError::InvalidKey(Object::Number(-1))));
}

#[test]
fn list_key_must_be_a_number() {
    let mut list = List::new(numbers(&[1]));
    assert_eq!(
        list.get_item(&text("0")),
        Err(ObjError::InvalidCast { from: ObjType::Text, to: ObjType::Number })
    );
    assert_eq!(
        list.set_item(&Object::Null, Object::Number(2)),
        Err(ObjError::InvalidCast { from: ObjType::Null, to: ObjType::Number })
    );
    assert_eq!(list, List::new(numbers(&[1])));
}

#[test]
fn list_set_at_the_end_extends_by_one() {
    let mut list = List::new(numbers(&[1, 2, 3]));
    assert_eq!(list.set_item(&Object::Number(3), Object::Number(4)), Ok(()));
    assert_eq!(list, List::new(numbers(&[1, 2, 3, 4])));
}

#[test]
fn list_set_past_the_end_pads_with_null() {
    let mut list = List::new(numbers(&[1]));
    assert_eq!(list.set_item(&Object::Number(4), Object::Number(5)), Ok(()));
    assert_eq!(
        list,
        List::new(vec![
            Object::Number(1),
            Object::Null,
            Object::Null,
            Object::Null,
            Object::Number(5)
        ])
    );
    let mut empty = List::new(vec![]);
    assert_eq!(empty.set_item(&Object::Number(0), Object::Boolean(true)), Ok(()));
    assert_eq!(empty, List::new(vec![Object::Boolean(true)]));
}

#[test]
fn list_set_in_place_and_from_the_end() {
    let mut list = List::new(numbers(&[1, 2, 3]));
    assert_eq!(list.set_item(&Object::Number(1), Object::Number(20)), Ok(()));
    assert_eq!(list.set_item(&Object::Number(-1), Object::Number(30)), Ok(()));
    assert_eq!(list.set_item(&Object::Number(-3), Object::Number(10)), Ok(()));
    assert_eq!(list, List::new(numbers(&[10, 20, 30])));
    assert_eq!(
        list.set_item(&Object::Number(-4), Object::Number(0)),
        Err(ObjError::InvalidKey(Object::Number(-4)))
    );
    assert_eq!(list, List::new(numbers(&[10, 20, 30])));
}

#[test]
fn position_counts_from_both_ends() {
    assert_eq!(position(3, 0), Some(0));
    assert_eq!(position(3, 2), Some(2));
    assert_eq!(position(3, 3), None);
    assert_eq!(position(3, -1), Some(2));
    assert_eq!(position(3, -3), Some(0));
    assert_eq!(position(3, -4), None);
    assert_eq!(position(0, 0), None);
    assert_eq!(position(0, i64::MIN), None);
}

#[test]
fn boolean_coercion() {
    assert_eq!(Object::Null.to_boolean(), Ok(false));
    assert_eq!(Object::Number(0).to_boolean(), Ok(false));
    assert_eq!(text("").to_boolean(), Ok(false));
    assert_eq!(Object::List(List::new(vec![])).to_boolean(), Ok(false));
    assert_eq!(Object::Boolean(false).to_boolean(), Ok(false));
    assert_eq!(Object::Number(1).to_boolean(), Ok(true));
    assert_eq!(Object::Number(-1).to_boolean(), Ok(true));
    assert_eq!(text("a").to_boolean(), Ok(true));
    assert_eq!(text(" ").to_boolean(), Ok(true));
    assert_eq!(Object::List(List::new(vec![Object::Null])).to_boolean(), Ok(true));
    assert_eq!(Object::Boolean(true).to_boolean(), Ok(true));
    assert_eq!(List::new(vec![Object::Number(0)]).to_boolean(), Ok(true));
}

#[test]
fn list_of_three_numbers_renders_in_order() {
    let list = List::new(numbers(&[1, 2, 3]));
    let rendered = list.to_string();
    assert_eq!(rendered, "[1, 2, 3]");
    assert!(rendered.starts_with('['));
    assert!(rendered.ends_with(']'));
    let one = rendered.find('1').unwrap();
    let two = rendered.find('2').unwrap();
    let three = rendered.find('3').unwrap();
    assert!(one < two && two < three);
    assert_eq!(list.to_text(), Ok(String::from("[1, 2, 3]")));
}

#[test]
fn renderings() {
    assert_eq!(Object::Null.to_text(), Ok(String::from("null")));
    assert_eq!(Object::Boolean(true).to_text(), Ok(String::from("true")));
    assert_eq!(Object::Boolean(false).to_text(), Ok(String::from("false")));
    assert_eq!(Object::Number(-42).to_text(), Ok(String::from("-42")));
    assert_eq!(text("a b").to_text(), Ok(String::from("a b")));
    assert_eq!(List::new(vec![]).to_string(), "[]");
    assert_eq!(List::new(vec![Object::Null]).to_string(), "[null]");
    let nested = List::new(vec![
        Object::List(List::new(numbers(&[1, 2]))),
        text("x"),
        Object::List(List::new(vec![])),
        Object::Boolean(false),
    ]);
    assert_eq!(nested.to_string(), "[[1, 2], x, [], false]");
    assert_eq!(Object::List(nested).to_text(), Ok(String::from("[[1, 2], x, [], false]")));
}

#[test]
fn failed_rendering_becomes_a_marker() {
    assert_eq!(text_or_marker(Ok(String::from("abc"))), "abc");
    assert_eq!(
        text_or_marker(Err(ObjError::InvalidKey(Object::Number(7)))),
        "<to_string err: invalid key: 7>"
    );
    assert_eq!(
        text_or_marker(Err(ObjError::NotImplemented {
            capability: Capability::ToText,
            variant: ObjType::List
        })),
        "<to_string err: not implemented: ToText of List>"
    );
}

#[test]
fn error_messages() {
    assert_eq!(ObjError::InvalidKey(Object::Number(-4)).to_string(), "invalid key: -4");
    assert_eq!(ObjError::InvalidKey(Object::Null).to_string(), "invalid key: Null");
    assert_eq!(
        ObjError::InvalidCast { from: ObjType::Text, to: ObjType::Number }.to_string(),
        "invalid cast: Text to Number"
    );
    assert_eq!(
        ObjError::UnsupportedOperation {
            oper: Capability::Add,
            lhs: ObjType::Number,
            rhs: ObjType::Boolean
        }
        .to_string(),
        "unsupported operation: Add of Number with Boolean"
    );
    assert_eq!(
        ObjError::NotImplemented { capability: Capability::DelItem, variant: ObjType::List }
            .to_string(),
        "not implemented: DelItem of List"
    );
    assert_eq!(
        ObjError::Arithmetic { oper: Capability::Div, fault: ArithFault::DivisionByZero }
            .to_string(),
        "arithmetic fault: division by zero in Div"
    );
}

#[test]
fn cast_to_number() {
    assert_eq!(Object::Number(5).to_number(), Ok(5));
    assert_eq!(
        Object::Boolean(true).to_number(),
        Err(ObjError::InvalidCast { from: ObjType::Boolean, to: ObjType::Number })
    );
    assert_eq!(
        Object::List(List::new(vec![])).to_number(),
        Err(ObjError::InvalidCast { from: ObjType::List, to: ObjType::Number })
    );
}

#[test]
fn variants() {
    assert_eq!(Object::Null.obj_type(), ObjType::Null);
    assert_eq!(Object::Boolean(true).obj_type(), ObjType::Boolean);
    assert_eq!(Object::Number(1).obj_type(), ObjType::Number);
    assert_eq!(text("").obj_type(), ObjType::Text);
    assert_eq!(Object::List(List::new(vec![])).obj_type(), ObjType::List);
}

#[test]
fn numbers_implement_the_operators() {
    let a = Object::Number(7);
    let b = Object::Number(-2);
    assert_eq!(a.binary(Oper::Add, &b), Ok(Object::Number(5)));
    assert_eq!(a.binary(Oper::Sub, &b), Ok(Object::Number(9)));
    assert_eq!(a.binary(Oper::Mul, &b), Ok(Object::Number(-14)));
    assert_eq!(a.binary(Oper::Div, &b), Ok(Object::Number(-3)));
    assert_eq!(a.binary(Oper::Mod, &b), Ok(Object::Number(1)));
    assert_eq!(b.binary(Oper::Pow, &Object::Number(3)), Ok(Object::Number(-8)));
    assert_eq!(a.binary(Oper::Eql, &b), Ok(Object::Boolean(false)));
    assert_eq!(a.binary(Oper::Neq, &b), Ok(Object::Boolean(true)));
    assert_eq!(a.binary(Oper::Lth, &b), Ok(Object::Boolean(false)));
    assert_eq!(a.binary(Oper::Gth, &b), Ok(Object::Boolean(true)));
    assert_eq!(a.binary(Oper::Leq, &a), Ok(Object::Boolean(true)));
    assert_eq!(b.binary(Oper::Geq, &a), Ok(Object::Boolean(false)));
}

#[test]
fn unsupported_pairing_is_a_typed_failure() {
    assert_eq!(
        Object::Number(1).binary(Oper::Add, &text("a")),
        Err(ObjError::UnsupportedOperation {
            oper: Capability::Add,
            lhs: ObjType::Number,
            rhs: ObjType::Text
        })
    );
    assert_eq!(
        Object::Number(1).binary(Oper::Lth, &Object::Null),
        Err(ObjError::UnsupportedOperation {
            oper: Capability::Lth,
            lhs: ObjType::Number,
            rhs: ObjType::Null
        })
    );
}

#[test]
fn missing_capability_is_a_typed_failure() {
    assert_eq!(
        text("a").binary(Oper::Add, &text("b")),
        Err(ObjError::NotImplemented { capability: Capability::Add, variant: ObjType::Text })
    );
    assert_eq!(
        Object::List(List::new(vec![])).binary(Oper::Eql, &Object::Number(1)),
        Err(ObjError::NotImplemented { capability: Capability::Eql, variant: ObjType::List })
    );
    assert_eq!(
        Object::Number(1).get_item(&Object::Number(0)),
        Err(ObjError::NotImplemented { capability: Capability::GetItem, variant: ObjType::Number })
    );
    let mut null = Object::Null;
    assert_eq!(
        null.set_item(&Object::Number(0), Object::Null),
        Err(ObjError::NotImplemented { capability: Capability::SetItem, variant: ObjType::Null })
    );
    let mut list = Object::List(List::new(numbers(&[1])));
    assert_eq!(
        list.del_item(&Object::Number(0)),
        Err(ObjError::NotImplemented { capability: Capability::DelItem, variant: ObjType::List })
    );
    assert_eq!(list, Object::List(List::new(numbers(&[1]))));
}

#[test]
fn objects_index_through_their_list() {
    let mut object = Object::List(List::new(numbers(&[1, 2])));
    assert_eq!(object.get_item(&Object::Number(-2)), Ok(Object::Number(1)));
    assert_eq!(object.set_item(&Object::Number(2), text("x")), Ok(()));
    assert_eq!(
        object,
        Object::List(List::new(vec![Object::Number(1), Object::Number(2), text("x")]))
    );
}

#[test]
fn clone_copies_the_whole_value() {
    let first = Object::List(List::new(vec![
        Object::List(List::new(numbers(&[1]))),
        text("x"),
    ]));
    let mut copy = first.clone();
    assert_eq!(copy, first);
    assert_eq!(copy.set_item(&Object::Number(0), Object::Null), Ok(()));
    assert_eq!(first.get_item(&Object::Number(0)), Ok(Object::List(List::new(numbers(&[1])))));
}
