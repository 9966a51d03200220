use qutie::frame::Frame;
use qutie::list::List;
use qutie::object::Object;

#[test]
fn new_frame_is_empty() {
    let mut frame = Frame::new();
    assert_eq!(frame.depth(), 0);
    assert_eq!(frame.top(), None);
    assert_eq!(frame.pop(), None);
    assert_eq!(frame.get("x"), None);
}

#[test]
fn stack_is_last_in_first_out() {
    let mut frame = Frame::new();
    frame.push(Object::Number(1));
    frame.push(Object::Null);
    frame.push(Object::Text(String::from("a")));
    assert_eq!(frame.depth(), 3);
    assert_eq!(frame.top(), Some(Object::Text(String::from("a"))));
    assert_eq!(frame.pop(), Some(Object::Text(String::from("a"))));
    assert_eq!(frame.pop(), Some(Object::Null));
    assert_eq!(frame.pop(), Some(Object::Number(1)));
    assert_eq!(frame.pop(), None);
}

#[test]
fn truncate_drops_what_lies_above() {
    let mut frame = Frame::new();
    for n in 0..5 {
        frame.push(Object::Number(n));
    }
    frame.truncate(7);
    assert_eq!(frame.depth(), 5);
    frame.truncate(5);
    assert_eq!(frame.depth(), 5);
    frame.truncate(2);
    assert_eq!(frame.depth(), 2);
    assert_eq!(frame.top(), Some(Object::Number(1)));
    frame.truncate(0);
    assert_eq!(frame.depth(), 0);
}

#[test]
fn bindings_are_by_name() {
    let mut frame = Frame::new();
    frame.set(String::from("x"), Object::Number(1));
    frame.set(String::from("y"), Object::Number(2));
    assert_eq!(frame.get("x"), Some(Object::Number(1)));
    assert_eq!(frame.get("y"), Some(Object::Number(2)));
    assert_eq!(frame.get("z"), None);
    assert_eq!(frame.get(""), None);
    assert_eq!(frame.get("X"), None);
}

#[test]
fn binding_again_replaces_the_value() {
    let mut frame = Frame::new();
    frame.set(String::from("x"), Object::Number(1));
    frame.set(String::from("y"), Object::Number(2));
    frame.set(String::from("x"), Object::Boolean(true));
    assert_eq!(frame.get("x"), Some(Object::Boolean(true)));
    assert_eq!(frame.get("y"), Some(Object::Number(2)));
    frame.set(String::from("y"), Object::List(List::new(vec![])));
    assert_eq!(frame.get("y"), Some(Object::List(List::new(vec![]))));
    assert_eq!(frame.get("x"), Some(Object::Boolean(true)));
}

#[test]
fn stack_and_bindings_are_apart() {
    let mut frame = Frame::new();
    frame.push(Object::Number(1));
    frame.set(String::from("x"), Object::Number(2));
    assert_eq!(frame.depth(), 1);
    assert_eq!(frame.pop(), Some(Object::Number(1)));
    assert_eq!(frame.get("x"), Some(Object::Number(2)));
}
