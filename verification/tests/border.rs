use ulmus::event::{MouseButton, MouseEvent, MouseEventKind};
use ulmus::widget::{Border, MouseHandler, Text, Widget};
use ulmus::{Area, Message};

struct Echo;

impl MouseHandler for Echo {
    fn handle(&self, event: MouseEvent) -> Message {
        Message::new(event.column as i64 * 1000 + event.row as i64)
    }
}

fn down(column: u16, row: u16) -> MouseEvent {
    MouseEvent { kind: MouseEventKind::Down(MouseButton::Left), column, row, modifiers: 0 }
}

fn framed(inner: Box<Text>) -> Box<Border> {
    Border::new(
        inner,
        String::from("-"),
        String::from("_"),
        String::from("<"),
        String::from(">"),
        String::from("a"),
        String::from("b"),
        String::from("c"),
        String::from("d"),
    )
}

#[test]
fn inside_takes_one_cell_off_every_side() {
    assert_eq!(Border::inside(Area::new(2, 3, 10, 6)), Area::new(3, 4, 8, 4));
    assert_eq!(Border::inside(Area::new(0, 0, 2, 2)), Area::new(1, 1, 0, 0));
    assert_eq!(Border::inside(Area::new(7, 9, 1, 6)), Area::new(7, 9, 0, 0));
    assert_eq!(Border::inside(Area::new(7, 9, 6, 1)), Area::new(7, 9, 0, 0));
}

#[test]
fn hints_add_the_frame() {
    let border = framed(Text::new("abc\nde"));
    assert_eq!(border.get_width_hint(), 5);
    assert_eq!(border.get_height_hint(), 4);
}

#[test]
fn border_hints_stop_at_the_largest_count() {
    let long: String = std::iter::repeat('x').take(65534).collect();
    let border = framed(Text::new(&long));
    assert_eq!(border.get_width_hint(), 65535);
}

#[test]
fn render_draws_rim_then_content() {
    let border = framed(Text::new("hi"));
    let expected = String::new()
        + "\x1b[3;2Ha--b"
        + "\x1b[4;2H<"
        + "\x1b[5;2H<"
        + "\x1b[4;5H>"
        + "\x1b[5;5H>"
        + "\x1b[6;2Hc__d"
        + "\x1b[4;3Hhi\x1b[3G\x1b[1B";
    assert_eq!(border.render(Area::new(1, 2, 4, 4)), expected);
}

#[test]
fn render_of_the_smallest_frame_has_no_sides() {
    let border = framed(Text::new("hi"));
    assert_eq!(border.render(Area::new(0, 0, 2, 2)), "\x1b[1;1Hab\x1b[2;1Hcd");
}

#[test]
fn render_where_the_frame_does_not_fit_is_empty() {
    let border = framed(Text::new("hi"));
    assert_eq!(border.render(Area::new(0, 0, 1, 5)), "");
    assert_eq!(border.render(Area::new(0, 0, 5, 1)), "");
    assert_eq!(border.render(Area::new(0, 0, 0, 0)), "");
}

#[test]
fn events_reach_the_child_inside_the_frame_only() {
    let border = framed(Text::new("hi").on_mouse(Box::new(Echo)));
    let area = Area::new(10, 10, 6, 4);

    assert_eq!(border.process_mouse(down(11, 11), area).as_ref::<i64>(), Some(&11011));
    assert_eq!(border.process_mouse(down(14, 12), area).as_ref::<i64>(), Some(&14012));
    assert!(border.process_mouse(down(10, 11), area).is::<()>());
    assert!(border.process_mouse(down(15, 11), area).is::<()>());
    assert!(border.process_mouse(down(11, 10), area).is::<()>());
    assert!(border.process_mouse(down(11, 13), area).is::<()>());
    assert!(border.process_mouse(down(40, 40), area).is::<()>());
}

#[test]
fn forwarding_hands_rim_events_to_the_child_with_the_inner_area() {
    let border = framed(Text::new("hi").on_mouse(Box::new(Echo))).forward(true);
    let area = Area::new(10, 10, 6, 4);

    assert_eq!(border.process_mouse(down(11, 11), area).as_ref::<i64>(), Some(&11011));
    assert!(border.process_mouse(down(10, 10), area).is::<()>());
    assert!(border.process_mouse(down(40, 40), area).is::<()>());

    let border = border.forward(false);
    assert_eq!(border.process_mouse(down(12, 12), area).as_ref::<i64>(), Some(&12012));
    assert!(border.process_mouse(down(10, 10), area).is::<()>());
}
