use qutie::error::EvalError;
use qutie::error::Fatal;
use qutie::error::classify;
use qutie::frame::Frame;
use qutie::number::ArithFault;
use qutie::object::Capability;
use qutie::object::ObjError;
use qutie::object::ObjType;
use qutie::object::Object;
use qutie::object::Oper;
use qutie::operator::BinaryOperator;

fn oper(sigil: &str) -> BinaryOperator {
    BinaryOperator::try_from(sigil).unwrap()
}

#[test]
fn registry_entries() {
    assert_eq!(oper("+"), BinaryOperator { kind: Oper::Add, priority: 12, is_left_assoc: true });
    assert_eq!(oper("-"), BinaryOperator { kind: Oper::Sub, priority: 12, is_left_assoc: true });
    assert_eq!(oper("*"), BinaryOperator { kind: Oper::Mul, priority: 11, is_left_assoc: true });
    assert_eq!(oper("/"), BinaryOperator { kind: Oper::Div, priority: 11, is_left_assoc: true });
    assert_eq!(oper("%"), BinaryOperator { kind: Oper::Mod, priority: 11, is_left_assoc: true });
    assert_eq!(oper("**"), BinaryOperator { kind: Oper::Pow, priority: 10, is_left_assoc: false });
}

#[test]
fn sigils_outside_the_registry() {
    for sigil in ["", "++", "***", "=", "<", ">=", "&", "|", "^", "~", "a", "+ ", "* *"] {
        assert_eq!(BinaryOperator::try_from(sigil), None, "{:?}", sigil);
    }
    assert_eq!(BinaryOperator::of(Oper::Eql), None);
    assert_eq!(BinaryOperator::of(Oper::Geq), None);
}

#[test]
fn sigil_of_each_entry() {
    for sigil in ["+", "-", "*", "/", "%", "**"] {
        assert_eq!(oper(sigil).sigil(), sigil);
    }
}

#[test]
fn tighter_operator_on_top_runs_first() {
    assert!(oper("*").should_exec(&oper("+")));
    assert!(oper("**").should_exec(&oper("*")));
    assert!(oper("**").should_exec(&oper("-")));
    assert!(!oper("+").should_exec(&oper("*")));
    assert!(!oper("*").should_exec(&oper("**")));
    assert!(!oper("-").should_exec(&oper("**")));
}

#[test]
fn equal_priority_goes_by_associativity() {
    assert!(oper("-").should_exec(&oper("-")));
    assert!(oper("+").should_exec(&oper("-")));
    assert!(oper("/").should_exec(&oper("*")));
    assert!(oper("%").should_exec(&oper("%")));
    assert!(!oper("**").should_exec(&oper("**")));
}

#[test]
fn exec_replaces_two_operands_by_the_result() {
    let mut frame = Frame::new();
    frame.push(Object::Number(1));
    frame.push(Object::Number(8));
    frame.push(Object::Number(3));
    assert_eq!(oper("-").exec(&mut frame), Ok(()));
    assert_eq!(frame.depth(), 2);
    assert_eq!(frame.pop(), Some(Object::Number(5)));
    assert_eq!(frame.pop(), Some(Object::Number(1)));
}

#[test]
fn exec_needs_two_operands() {
    let mut frame = Frame::new();
    assert_eq!(
        oper("+").exec(&mut frame),
        Err(EvalError::Fatal(Fatal::MissingOperand { oper: Oper::Add }))
    );
    frame.push(Object::Number(1));
    assert_eq!(
        oper("**").exec(&mut frame),
        Err(EvalError::Fatal(Fatal::MissingOperand { oper: Oper::Pow }))
    );
    assert_eq!(frame.depth(), 1);
    assert_eq!(frame.top(), Some(Object::Number(1)));
}

#[test]
fn failed_operation_takes_its_operands() {
    let mut frame = Frame::new();
    frame.push(Object::Number(9));
    frame.push(Object::Number(1));
    frame.push(Object::Number(0));
    assert_eq!(
        oper("%").exec(&mut frame),
        Err(EvalError::Object(ObjError::Arithmetic {
            oper: Capability::Mod,
            fault: ArithFault::DivisionByZero
        }))
    );
    assert_eq!(frame.depth(), 1);
    assert_eq!(frame.top(), Some(Object::Number(9)));
}

#[test]
fn failures_of_the_object_model_are_classified() {
    assert_eq!(
        classify(ObjError::NotImplemented { capability: Capability::Add, variant: ObjType::Null }),
        EvalError::Fatal(Fatal::MissingCapability {
            capability: Capability::Add,
            variant: ObjType::Null
        })
    );
    assert_eq!(
        classify(ObjError::InvalidKey(Object::Number(3))),
        EvalError::Object(ObjError::InvalidKey(Object::Number(3)))
    );
    assert_eq!(
        classify(ObjError::InvalidCast { from: ObjType::Text, to: ObjType::Number }),
        EvalError::Object(ObjError::InvalidCast { from: ObjType::Text, to: ObjType::Number })
    );
}

#[test]
fn capabilities_of_the_operations() {
    assert_eq!(Oper::Add.capability(), Capability::Add);
    assert_eq!(Oper::Pow.capability(), Capability::Pow);
    assert_eq!(Oper::Geq.capability(), Capability::Geq);
}
