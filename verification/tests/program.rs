use std::cell::Cell;
use std::rc::Rc;
use std::sync::mpsc;

use crossterm::event::{KeyCode, KeyEvent, KeyModifiers};
use ulmus::event::{MouseButton, MouseEvent, MouseEventKind};
use ulmus::model::Scene;
use ulmus::program::{is_quit, Phase, Session, Step, TerminalOp};
use ulmus::widget::{MouseHandler, Text, Widget};
use ulmus::{Area, Command, Event, Message, Model, Program, Subroutine};

fn names(ops: &[TerminalOp]) -> Vec<String> {
    ops.iter()
        .map(|op| match op {
            TerminalOp::EnterAlternateScreen => String::from("enter-alternate"),
            TerminalOp::LeaveAlternateScreen => String::from("leave-alternate"),
            TerminalOp::EnableRawMode => String::from("raw-on"),
            TerminalOp::DisableRawMode => String::from("raw-off"),
            TerminalOp::HideCursor => String::from("hide"),
            TerminalOp::ShowCursor => String::from("show"),
            TerminalOp::EnableMouseCapture => String::from("mouse-on"),
            TerminalOp::DisableMouseCapture => String::from("mouse-off"),
            TerminalOp::EnableBracketedPaste => String::from("paste-on"),
            TerminalOp::DisableBracketedPaste => String::from("paste-off"),
            TerminalOp::SavePosition => String::from("save"),
            TerminalOp::RestorePosition => String::from("restore"),
            TerminalOp::MoveTo(x, y) => format!("move {} {}", x, y),
            TerminalOp::ClearFromCursorDown => String::from("clear"),
            TerminalOp::Print(text) => format!("print {}", text),
            TerminalOp::Flush => String::from("flush"),
        })
        .collect()
}

fn kinds(commands: &[Command]) -> Vec<String> {
    commands
        .iter()
        .map(|command| match command {
            Command::SetCursor(x, y) => format!("cursor {} {}", x, y),
            Command::Quit => String::from("quit"),
            Command::Subroutine(_) => String::from("subroutine"),
        })
        .collect()
}

struct Idle;

impl Subroutine for Idle {
    fn run(self: Box<Self>, _sender: mpsc::Sender<Message>) {}
}

struct Once {
    value: i64,
}

impl Subroutine for Once {
    fn run(self: Box<Self>, sender: mpsc::Sender<Message>) {
        let _ = sender.send(Message::new(self.value));
    }
}

struct Counted {
    renders: Rc<Cell<u32>>,
}

impl Widget for Counted {
    fn get_width_hint(&self) -> u16 {
        0
    }

    fn get_height_hint(&self) -> u16 {
        0
    }

    fn render(&self, _area: Area) -> String {
        self.renders.set(self.renders.get() + 1);
        String::from("frame")
    }

    fn process_mouse(&self, event: MouseEvent, _area: Area) -> Message {
        Message::new(event.column as i64)
    }
}

struct Recorder {
    renders: Rc<Cell<u32>>,
    seen: Vec<String>,
    quit_on: Option<String>,
    start: Vec<String>,
}

impl Recorder {
    fn new(quit_on: Option<&str>) -> Recorder {
        Recorder {
            renders: Rc::new(Cell::new(0)),
            seen: Vec::new(),
            quit_on: quit_on.map(|s| s.to_string()),
            start: Vec::new(),
        }
    }
}

fn describe(message: &Message) -> String {
    if let Some(Event::Key(key)) = message.as_ref::<Event>() {
        return format!("key {:?}", key.code);
    }
    if let Some(Event::Mouse(event)) = message.as_ref::<Event>() {
        return format!("mouse {} {}", event.column, event.row);
    }
    if let Some(number) = message.as_ref::<i64>() {
        return format!("number {}", number);
    }
    if message.is::<()>() {
        return String::from("empty");
    }
    String::from("other")
}

impl Model for Recorder {
    fn init(&self) -> Vec<Command> {
        self.start
            .iter()
            .map(|name| match name.as_str() {
                "quit" => Command::Quit,
                "work" => Command::Subroutine(Box::new(Idle)),
                _ => Command::SetCursor(1, 2),
            })
            .collect()
    }

    fn update(&mut self, message: Message) -> Vec<Command> {
        let what = describe(&message);
        let quit = self.quit_on.as_deref() == Some(what.as_str());
        self.seen.push(what);
        if quit {
            vec![Command::SetCursor(3, 4), Command::Quit, Command::SetCursor(5, 6)]
        } else {
            vec![]
        }
    }

    fn view(&self) -> Scene {
        Scene { root: Box::new(Counted { renders: self.renders.clone() }) }
    }
}

fn key(c: char) -> Message {
    Message::new(Event::Key(KeyEvent::new(KeyCode::Char(c), KeyModifiers::NONE)))
}

fn pointer(kind: MouseEventKind, column: u16, row: u16) -> Message {
    Message::new(Event::Mouse(MouseEvent { kind, column, row, modifiers: 0 }))
}

#[test]
fn default_program_takes_the_alternate_screen_and_hides_the_cursor() {
    let program = Program::default();
    assert!(!program.is_inline());
    assert_eq!(names(&program.init_term()), vec!["enter-alternate", "raw-on", "hide"]);
    assert_eq!(names(&program.deinit_term()), vec!["show", "raw-off", "leave-alternate"]);
}

#[test]
fn every_switch_adds_its_operation() {
    let program = Program::default().enable_mouse().enable_paste();
    assert_eq!(
        names(&program.init_term()),
        vec!["enter-alternate", "raw-on", "hide", "mouse-on", "paste-on"]
    );
    assert_eq!(
        names(&program.deinit_term()),
        vec!["paste-off", "mouse-off", "show", "raw-off", "leave-alternate"]
    );

    let program = Program::default().show_cursor();
    assert_eq!(names(&program.init_term()), vec!["enter-alternate", "raw-on"]);
    assert_eq!(names(&program.deinit_term()), vec!["raw-off", "leave-alternate"]);
}

#[test]
fn inline_program_stays_on_the_main_screen_and_clears_what_it_drew() {
    let program = Program::default().inline().enable_mouse();
    assert!(program.is_inline());
    assert_eq!(names(&program.init_term()), vec!["raw-on", "hide", "mouse-on"]);
    assert_eq!(names(&program.deinit_term()), vec!["mouse-off", "show", "raw-off", "clear"]);
}

#[test]
fn release_takes_back_the_acquisition_last_first() {
    let undo = |name: &str| -> String {
        match name {
            "enter-alternate" => String::from("leave-alternate"),
            "raw-on" => String::from("raw-off"),
            "hide" => String::from("show"),
            "mouse-on" => String::from("mouse-off"),
            "paste-on" => String::from("paste-off"),
            other => other.to_string(),
        }
    };
    for bits in 0u8..16 {
        let mut program = Program::default();
        if bits & 1 != 0 {
            program = program.show_cursor();
        }
        if bits & 2 != 0 {
            program = program.inline();
        }
        if bits & 4 != 0 {
            program = program.enable_mouse();
        }
        if bits & 8 != 0 {
            program = program.enable_paste();
        }
        let mut expected: Vec<String> =
            names(&program.init_term()).iter().rev().map(|name| undo(name)).collect();
        if program.is_inline() {
            expected.push(String::from("clear"));
        }
        assert_eq!(names(&program.deinit_term()), expected);
    }
}

#[test]
fn area_is_the_whole_terminal_unless_inline() {
    let program = Program::default();
    assert_eq!(program.get_area((80, 24), (7, 9)), Area::new(0, 0, 80, 24));

    let program = Program::default().inline();
    assert_eq!(program.get_area((80, 24), (0, 9)), Area::new(0, 9, 80, 15));
    assert_eq!(program.get_area((80, 24), (7, 24)), Area::new(7, 24, 73, 0));
    assert_eq!(program.get_area((80, 24), (90, 30)), Area::new(90, 30, 0, 0));
}

#[test]
fn draw_clears_from_the_first_cell_and_prints_in_place() {
    let ops = Program::default().draw(Area::new(2, 5, 10, 10), String::from("hello"));
    assert_eq!(names(&ops), vec!["save", "move 2 5", "clear", "restore", "print hello"]);
}

#[test]
fn apply_stops_at_quit_and_drops_the_rest() {
    let mut session = Session::new(Program::default(), (80, 24), (0, 0));
    assert_eq!(session.phase(), Phase::Starting);
    assert_eq!(session.area(), Area::new(0, 0, 80, 24));

    let left = session.apply(vec![
        Command::SetCursor(1, 1),
        Command::Subroutine(Box::new(Idle)),
        Command::Quit,
        Command::SetCursor(2, 2),
        Command::Quit,
    ]);
    assert_eq!(kinds(&left), vec!["cursor 1 1", "subroutine"]);
    assert_eq!(session.phase(), Phase::Terminated);
    assert!(session.is_over());

    let left = session.apply(vec![Command::SetCursor(9, 9)]);
    assert!(left.is_empty());
    assert_eq!(session.phase(), Phase::Terminated);
}

#[test]
fn apply_without_quit_keeps_every_command_and_runs_on() {
    let mut session = Session::new(Program::default(), (80, 24), (0, 0));
    let left = session.apply(vec![Command::Subroutine(Box::new(Idle)), Command::SetCursor(4, 2)]);
    assert_eq!(kinds(&left), vec!["subroutine", "cursor 4 2"]);
    assert_eq!(session.phase(), Phase::Running);

    let left = session.apply(vec![]);
    assert!(left.is_empty());
    assert_eq!(session.phase(), Phase::Running);

    let left = session.apply(vec![Command::Quit]);
    assert!(left.is_empty());
    assert_eq!(session.phase(), Phase::Terminated);
}

#[test]
fn quit_is_told_apart_from_other_commands() {
    assert!(is_quit(&Command::Quit));
    assert!(!is_quit(&Command::SetCursor(0, 0)));
    assert!(!is_quit(&Command::Subroutine(Box::new(Idle))));
}

#[test]
fn disconnect_ends_the_run() {
    let mut session = Session::new(Program::default().inline(), (80, 24), (0, 20));
    let _ = session.apply(vec![]);
    session.disconnect();
    assert!(session.is_over());
    assert_eq!(names(&session.finish()), vec!["show", "raw-off", "clear"]);
}

#[test]
fn route_hands_pointer_events_to_the_widget_tree() {
    let session = Session::new(Program::default().inline(), (80, 24), (0, 20));
    let scene = Scene { root: Box::new(Counted { renders: Rc::new(Cell::new(0)) }) };

    let told = session.route(&scene, pointer(MouseEventKind::Down(MouseButton::Left), 17, 21));
    assert_eq!(told.as_ref().and_then(|m| m.as_ref::<i64>()), Some(&17));

    let told = session.route(&scene, pointer(MouseEventKind::Moved, 79, 23));
    assert_eq!(told.as_ref().and_then(|m| m.as_ref::<i64>()), Some(&79));
}

#[test]
fn route_drops_pointer_events_outside_the_area() {
    let session = Session::new(Program::default().inline(), (80, 24), (0, 20));
    let scene = Scene { root: Box::new(Counted { renders: Rc::new(Cell::new(0)) }) };

    assert!(session.route(&scene, pointer(MouseEventKind::Down(MouseButton::Left), 17, 19)).is_none());
    assert!(session.route(&scene, pointer(MouseEventKind::Up(MouseButton::Left), 17, 3)).is_none());
    assert!(session.route(&scene, pointer(MouseEventKind::Moved, 80, 21)).is_none());
}

#[test]
fn route_passes_other_messages_on_unchanged() {
    let session = Session::new(Program::default(), (80, 24), (0, 0));
    let scene = Scene { root: Text::new("x") };

    let told = session.route(&scene, key('a'));
    assert_eq!(told.map(|m| describe(&m)), Some(String::from("key Char('a')")));
    let told = session.route(&scene, Message::new(5i64));
    assert_eq!(told.map(|m| describe(&m)), Some(String::from("number 5")));
    let told = session.route(&scene, Message::empty());
    assert_eq!(told.map(|m| describe(&m)), Some(String::from("empty")));
}

#[test]
fn frame_is_drawn_only_while_running() {
    let mut session = Session::new(Program::default().inline(), (6, 24), (3, 20));
    let scene = Scene { root: Text::new("hi") };
    assert!(session.frame(&scene).is_empty());

    let _ = session.apply(vec![]);
    assert_eq!(
        names(&session.frame(&scene)),
        vec![
            "save",
            "move 3 20",
            "clear",
            "restore",
            "print \x1b[21;4Hhi \x1b[4G\x1b[1B",
            "flush"
        ]
    );

    session.disconnect();
    assert!(session.frame(&scene).is_empty());
}

#[test]
fn quit_in_the_first_update_ends_the_run_without_a_second_render() {
    let mut model = Recorder::new(Some("key Char('q')"));
    let mut session = Session::new(Program::default(), (80, 24), (0, 0));

    let step: Step = session.begin(&model);
    assert!(step.commands.is_empty());
    assert_eq!(names(&step.frame), vec!["save", "move 0 0", "clear", "restore", "print frame", "flush"]);
    assert_eq!(model.renders.get(), 1);
    assert_eq!(session.phase(), Phase::Running);

    let step = session.turn(&mut model, key('q'));
    assert_eq!(kinds(&step.commands), vec!["cursor 3 4"]);
    assert!(step.frame.is_empty());
    assert!(session.is_over());
    assert_eq!(model.renders.get(), 1);
    assert_eq!(model.seen, vec!["key Char('q')"]);

    let step = session.turn(&mut model, key('x'));
    assert!(step.commands.is_empty());
    assert!(step.frame.is_empty());
    assert_eq!(model.seen, vec!["key Char('q')"]);
    assert_eq!(model.renders.get(), 1);
}

#[test]
fn quit_among_the_first_commands_ends_the_run_before_any_frame() {
    let mut model = Recorder::new(None);
    model.start = vec![String::from("cursor"), String::from("quit"), String::from("work")];
    let mut session = Session::new(Program::default(), (80, 24), (0, 0));

    let step = session.begin(&model);
    assert_eq!(kinds(&step.commands), vec!["cursor 1 2"]);
    assert!(step.frame.is_empty());
    assert!(session.is_over());
    assert_eq!(model.renders.get(), 0);
}

#[test]
fn every_message_that_is_taken_in_redraws() {
    let mut model = Recorder::new(None);
    model.start = vec![String::from("work")];
    let mut session = Session::new(Program::default(), (80, 24), (0, 0));

    let step = session.begin(&model);
    assert_eq!(kinds(&step.commands), vec!["subroutine"]);
    assert_eq!(step.frame.len(), 6);

    let step = session.turn(&mut model, Message::new(1i64));
    assert!(step.commands.is_empty());
    assert_eq!(step.frame.len(), 6);
    assert_eq!(model.renders.get(), 2);
}

#[test]
fn pointer_events_outside_the_area_never_reach_the_model() {
    let mut model = Recorder::new(None);
    let mut session = Session::new(Program::default().inline(), (80, 24), (0, 20));
    let _ = session.begin(&model);

    let step = session.turn(&mut model, pointer(MouseEventKind::Down(MouseButton::Left), 4, 2));
    assert!(step.commands.is_empty());
    assert_eq!(step.frame.len(), 6);
    assert!(model.seen.is_empty());
    assert_eq!(session.phase(), Phase::Running);

    let step = session.turn(&mut model, pointer(MouseEventKind::Down(MouseButton::Left), 4, 22));
    assert!(step.commands.is_empty());
    assert_eq!(model.seen, vec!["number 4"]);
}

#[test]
fn key_events_reach_update_in_the_order_they_were_sent() {
    let (sender, receiver) = mpsc::channel::<Message>();
    let mut model = Recorder::new(None);
    let mut session = Session::new(Program::default(), (80, 24), (0, 0));
    let _ = session.begin(&model);

    let input = sender.clone();
    for c in ['a', 'b'] {
        assert!(input.send(key(c)).is_ok());
    }
    Box::new(Once { value: 7 }).run(sender.clone());
    assert!(input.send(key('c')).is_ok());
    drop(input);
    drop(sender);

    let mut frames = 0;
    loop {
        match receiver.recv() {
            Ok(message) => {
                let step = session.turn(&mut model, message);
                if !step.frame.is_empty() {
                    frames += 1;
                }
            }
            Err(_) => {
                session.disconnect();
                break;
            }
        }
    }

    assert!(session.is_over());
    assert_eq!(frames, 4);
    let keys: Vec<&String> = model.seen.iter().filter(|what| what.starts_with("key")).collect();
    assert_eq!(keys, vec!["key Char('a')", "key Char('b')", "key Char('c')"]);
    assert_eq!(model.seen.iter().filter(|what| what.as_str() == "number 7").count(), 1);
    assert_eq!(model.seen.len(), 4);
}

