use crossterm::event::{KeyCode, KeyEvent, KeyModifiers};
use ulmus::event::{Event, MouseButton, MouseEvent, MouseEventKind};
use ulmus::message::{Content, Custom, Payload};
use ulmus::Message;

#[test]
fn a_number_reads_back_as_a_number_only() {
    let message = Message::new(42i64);
    assert_eq!(message.as_ref::<i64>(), Some(&42i64));
    assert_eq!(message.as_ref::<String>(), None);
    assert!(message.is::<i64>());
    assert!(!message.is::<String>());
    assert!(!message.is::<()>());
}

#[test]
fn empty_wraps_the_unit_value() {
    let message = Message::empty();
    assert!(message.is::<()>());
    assert_eq!(message.as_ref::<()>(), Some(&()));
    assert!(!message.is::<i64>());
    assert!(!message.is::<bool>());
}

#[test]
fn text_and_flags_read_back() {
    let message = Message::new(String::from("hello"));
    assert_eq!(message.as_ref::<String>().map(|s| s.as_str()), Some("hello"));
    assert!(!message.is::<bool>());

    let message = Message::new(true);
    assert_eq!(message.as_ref::<bool>(), Some(&true));
    assert!(!message.is::<i64>());
}

#[test]
fn downcast_takes_the_value_or_hands_the_message_back() {
    let message = Message::new(-7i64);
    let message = match message.downcast::<String>() {
        Ok(_) => panic!("a number is no text"),
        Err(message) => message,
    };
    assert_eq!(message.as_ref::<i64>(), Some(&-7i64));
    match message.downcast::<i64>() {
        Ok(value) => assert_eq!(*value, -7),
        Err(_) => panic!("the number was there"),
    }
}

#[test]
fn events_travel_whole() {
    let pointer = MouseEvent {
        kind: MouseEventKind::Drag(MouseButton::Right),
        column: 3,
        row: 4,
        modifiers: 2,
    };
    let message = Message::new(Event::Mouse(pointer));
    match message.as_ref::<Event>() {
        Some(Event::Mouse(event)) => assert_eq!(*event, pointer),
        _ => panic!("the pointer event was there"),
    }
    assert_eq!(message.as_ref::<Event>().and_then(|e| e.as_mouse()), Some(pointer));

    let key = KeyEvent::new(KeyCode::Char('q'), KeyModifiers::CONTROL);
    let message = Message::new(Event::Key(key));
    match message.as_ref::<Event>() {
        Some(Event::Key(event)) => assert_eq!(*event, key),
        _ => panic!("the key event was there"),
    }
    assert_eq!(message.as_ref::<Event>().and_then(|e| e.as_mouse()), None);
    assert!(!message.is::<i64>());
}

#[test]
fn custom_data_keeps_kind_and_bytes() {
    let message = Message::new(Custom { kind: 9, data: vec![1, 2, 3] });
    match message.as_ref::<Custom>() {
        Some(custom) => {
            assert_eq!(custom.kind, 9);
            assert_eq!(custom.data, vec![1, 2, 3]);
        }
        None => panic!("the custom data was there"),
    }
    assert!(!message.is::<String>());
}

#[test]
fn packing_and_unpacking_agree() {
    assert!(matches!(5i64.wrap(), Payload::Number(5)));
    assert!(matches!(().wrap(), Payload::Empty));
    assert!(matches!(false.wrap(), Payload::Flag(false)));
    assert_eq!(i64::peek(&Payload::Number(8)), Some(&8));
    assert_eq!(i64::peek(&Payload::Flag(true)), None);
    assert!(matches!(bool::take(Payload::Number(8)), Err(Payload::Number(8))));
    assert!(matches!(String::take(Payload::Text(String::from("x"))), Ok(text) if text == "x"));
}
