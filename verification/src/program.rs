//! The program: how the terminal is set up and given back, and what the
//! event loop decides between one message and the next.
//!
//! Nothing here touches a terminal. Every function says which operations
//! are to be carried out, in which order; the caller carries them out.

use vstd::prelude::*;
use crate::area::Area;
use crate::event::Event;
use crate::message::{Message, Payload};
use crate::model::{Command, Model, Scene};

verus! {

/// One operation of the terminal driver.
pub enum TerminalOp {
    EnterAlternateScreen,
    LeaveAlternateScreen,
    EnableRawMode,
    DisableRawMode,
    HideCursor,
    ShowCursor,
    EnableMouseCapture,
    DisableMouseCapture,
    EnableBracketedPaste,
    DisableBracketedPaste,
    SavePosition,
    RestorePosition,
    /// Puts the cursor on the given column and row.
    MoveTo(u16, u16),
    /// Clears everything from the cursor to the end of the screen.
    ClearFromCursorDown,
    /// Writes the text as it is.
    Print(String),
    /// Sends what was written so far to the terminal.
    Flush,
}

/// The operation that takes back what `op` did; an operation that leaves
/// nothing to take back stands for itself.
pub open spec fn undo(op: TerminalOp) -> TerminalOp {
    match op {
        TerminalOp::EnterAlternateScreen => TerminalOp::LeaveAlternateScreen,
        TerminalOp::EnableRawMode => TerminalOp::DisableRawMode,
        TerminalOp::HideCursor => TerminalOp::ShowCursor,
        TerminalOp::EnableMouseCapture => TerminalOp::DisableMouseCapture,
        TerminalOp::EnableBracketedPaste => TerminalOp::DisableBracketedPaste,
        other => other,
    }
}

/// What can be chosen before a program runs.
pub struct Options {
    pub show_cursor: bool,
    pub inline: bool,
    pub enable_mouse: bool,
    pub enable_paste: bool,
}

/// One operation if `wanted`, none otherwise.
pub open spec fn when(wanted: bool, op: TerminalOp) -> Seq<TerminalOp> {
    if wanted {
        seq![op]
    } else {
        Seq::empty()
    }
}

/// The operations that take hold of the terminal, in order: the alternate
/// screen unless the program runs inline, raw mode, hiding the cursor
/// unless it is to be shown, mouse capture and bracketed paste if asked for.
pub open spec fn acquisition(options: Options) -> Seq<TerminalOp> {
    when(!options.inline, TerminalOp::EnterAlternateScreen) + seq![TerminalOp::EnableRawMode]
        + when(!options.show_cursor, TerminalOp::HideCursor) + when(
        options.enable_mouse,
        TerminalOp::EnableMouseCapture,
    ) + when(options.enable_paste, TerminalOp::EnableBracketedPaste)
}

/// The operations that give the terminal back: what was done to take hold
/// of it is taken back, last first; a program that ran inline then clears
/// what it drew.
pub open spec fn release(options: Options) -> Seq<TerminalOp> {
    acquisition(options).reverse().map_values(|op: TerminalOp| undo(op)) + when(
        options.inline,
        TerminalOp::ClearFromCursorDown,
    )
}

/// The area that a program draws into, given the size of the terminal and
/// the place of the cursor: the whole terminal, or, for a program that runs
/// inline, what lies from the cursor on to the right and downwards.
pub open spec fn render_area(options: Options, size: (u16, u16), cursor: (u16, u16)) -> Area {
    if options.inline {
        Area {
            x: cursor.0,
            y: cursor.1,
            width: if size.0 >= cursor.0 {
                (size.0 - cursor.0) as u16
            } else {
                0
            },
            height: if size.1 >= cursor.1 {
                (size.1 - cursor.1) as u16
            } else {
                0
            },
        }
    } else {
        Area { x: 0, y: 0, width: size.0, height: size.1 }
    }
}

/// The operations that put `text` on the screen as the new frame of
/// `area`: what was drawn from the area's first cell on is cleared, and the
/// text is written with the cursor where it was before.
pub open spec fn drawing(area: Area, text: String) -> Seq<TerminalOp> {
    seq![
        TerminalOp::SavePosition,
        TerminalOp::MoveTo(area.x, area.y),
        TerminalOp::ClearFromCursorDown,
        TerminalOp::RestorePosition,
        TerminalOp::Print(text),
    ]
}

/// Whether `ops` put `text` on the screen as the new frame of `area` and
/// send it off.
pub open spec fn shows(ops: Seq<TerminalOp>, area: Area, text: String) -> bool {
    ops == drawing(area, text).push(TerminalOp::Flush)
}

/// A program which runs a model.
#[derive(Clone, Copy)]
pub struct Program {
    show_cursor: bool,
    inline: bool,
    enable_mouse: bool,
    enable_paste: bool,
}

impl View for Program {
    type V = Options;

    closed spec fn view(&self) -> Options {
        Options {
            show_cursor: self.show_cursor,
            inline: self.inline,
            enable_mouse: self.enable_mouse,
            enable_paste: self.enable_paste,
        }
    }
}

impl Default for Program {
    /// The default program hides the cursor, uses the alternate screen, and
    /// asks for neither mouse nor bracketed paste events.
    fn default() -> (program: Program)
        ensures
            program@ == (Options {
                show_cursor: false,
                inline: false,
                enable_mouse: false,
                enable_paste: false,
            }),
    {
        Program { show_cursor: false, inline: false, enable_mouse: false, enable_paste: false }
    }
}

impl Program {
    /// Leaves the cursor visible. Placing it is then up to the model.
    pub fn show_cursor(self) -> (program: Program)
        ensures
            program@ == (Options { show_cursor: true, ..self@ }),
    {
        Program { show_cursor: true, ..self }
    }

    /// Runs the program from the row it was started on to the bottom of
    /// the terminal, and clears only that when it ends.
    pub fn inline(self) -> (program: Program)
        ensures
            program@ == (Options { inline: true, ..self@ }),
    {
        Program { inline: true, ..self }
    }

    /// Asks for pointer events.
    pub fn enable_mouse(self) -> (program: Program)
        ensures
            program@ == (Options { enable_mouse: true, ..self@ }),
    {
        Program { enable_mouse: true, ..self }
    }

    /// Asks for pasted text to arrive as one event.
    pub fn enable_paste(self) -> (program: Program)
        ensures
            program@ == (Options { enable_paste: true, ..self@ }),
    {
        Program { enable_paste: true, ..self }
    }

    /// Whether the place of the cursor decides where the program draws.
    pub fn is_inline(&self) -> (yes: bool)
        ensures
            yes == self@.inline,
    {
        self.inline
    }

    /// The operations that take hold of the terminal.
    pub fn init_term(&self) -> (ops: Vec<TerminalOp>)
        ensures
            ops@ == acquisition(self@),
    {
        let mut ops: Vec<TerminalOp> = Vec::new();
        if !self.inline {
            ops.push(TerminalOp::EnterAlternateScreen);
        }
        ops.push(TerminalOp::EnableRawMode);
        if !self.show_cursor {
            ops.push(TerminalOp::HideCursor);
        }
        if self.enable_mouse {
            ops.push(TerminalOp::EnableMouseCapture);
        }
        if self.enable_paste {
            ops.push(TerminalOp::EnableBracketedPaste);
        }
        proof {
            assert(ops@ =~= acquisition(self@));
        }
        ops
    }

    /// The operations that give the terminal back.
    pub fn deinit_term(&self) -> (ops: Vec<TerminalOp>)
        ensures
            ops@ == release(self@),
    {
        let mut ops: Vec<TerminalOp> = Vec::new();
        if self.enable_paste {
            ops.push(TerminalOp::DisableBracketedPaste);
        }
        if self.enable_mouse {
            ops.push(TerminalOp::DisableMouseCapture);
        }
        if !self.show_cursor {
            ops.push(TerminalOp::ShowCursor);
        }
        ops.push(TerminalOp::DisableRawMode);
        if !self.inline {
            ops.push(TerminalOp::LeaveAlternateScreen);
        } else {
            ops.push(TerminalOp::ClearFromCursorDown);
        }
        proof {
            assert(ops@ =~= release(self@));
        }
        ops
    }

    /// The area to draw into, given the terminal's size as columns and rows
    /// and the cursor's column and row.
    pub fn get_area(&self, size: (u16, u16), cursor: (u16, u16)) -> (area: Area)
        ensures
            area == render_area(self@, size, cursor),
            area.on_screen(),
    {
        if self.inline {
            Area {
                x: cursor.0,
                y: cursor.1,
                width: if size.0 >= cursor.0 {
                    size.0 - cursor.0
                } else {
                    0
                },
                height: if size.1 >= cursor.1 {
                    size.1 - cursor.1
                } else {
                    0
                },
            }
        } else {
            Area { x: 0, y: 0, width: size.0, height: size.1 }
        }
    }

    /// The operations that put `text` on the screen as the new frame.
    pub fn draw(&self, area: Area, text: String) -> (ops: Vec<TerminalOp>)
        ensures
            ops@ == drawing(area, text),
    {
        let mut ops: Vec<TerminalOp> = Vec::new();
        ops.push(TerminalOp::SavePosition);
        ops.push(TerminalOp::MoveTo(area.x, area.y));
        ops.push(TerminalOp::ClearFromCursorDown);
        ops.push(TerminalOp::RestorePosition);
        ops.push(TerminalOp::Print(text));
        proof {
            assert(ops@ =~= drawing(area, text));
        }
        ops
    }
}

/// Where a run stands.
#[derive(Clone, Copy, Debug, PartialEq, Eq, Structural)]
pub enum Phase {
    /// The commands of the model's `init` have not been applied yet.
    Starting,
    /// Frames are drawn and messages taken in.
    Running,
    /// The loop has ended; only the terminal remains to be given back.
    Terminated,
}

/// The index of the first `Quit` among `commands` from index `from` on, or
/// their number if there is none.
pub open spec fn quit_at(commands: Seq<Command>, from: int) -> int
    decreases commands.len() - from,
{
    if from >= commands.len() {
        commands.len() as int
    } else if commands[from] is Quit {
        from
    } else {
        quit_at(commands, from + 1)
    }
}

/// The commands that take effect: those before the first `Quit`.
pub open spec fn due(commands: Seq<Command>) -> Seq<Command> {
    commands.take(quit_at(commands, 0))
}

/// Whether the commands hold a `Quit`.
pub open spec fn quits(commands: Seq<Command>) -> bool {
    quit_at(commands, 0) < commands.len()
}

/// The first `Quit` from index `from` on lies at or after `from`, is a
/// `Quit` if it lies among the commands, and has no `Quit` between `from`
/// and itself.
pub proof fn lemma_quit_at_bounds(commands: Seq<Command>, from: int)
    requires
        0 <= from <= commands.len(),
    ensures
        from <= quit_at(commands, from) <= commands.len(),
        quit_at(commands, from) < commands.len() ==> commands[quit_at(commands, from)] is Quit,
        forall|i: int| from <= i < quit_at(commands, from) ==> !(commands[i] is Quit),
    decreases commands.len() - from,
{
    if from < commands.len() && !(commands[from] is Quit) {
        lemma_quit_at_bounds(commands, from + 1);
    }
}

/// The pointer event in a payload, if it holds one.
pub open spec fn pointer_in(payload: Payload) -> Option<crate::event::MouseEvent> {
    match payload {
        Payload::Input(Event::Mouse(event)) => Some(event),
        _ => None,
    }
}

/// What the caller of the loop is to carry out before it waits for the next
/// message: first the commands, in order, then the operations that draw
/// the next frame.
pub struct Step {
    pub commands: Vec<Command>,
    pub frame: Vec<TerminalOp>,
}

/// The state of one run of the event loop.
pub struct Session {
    program: Program,
    area: Area,
    phase: Phase,
}

impl Session {
    #[verifier::type_invariant]
    spec fn on_screen(self) -> bool {
        self.area.on_screen()
    }

    /// Where the run stands.
    pub closed spec fn stage(&self) -> Phase {
        self.phase
    }

    /// The area that frames are drawn into.
    pub closed spec fn region(&self) -> Area {
        self.area
    }

    /// The program that is run.
    pub closed spec fn options(&self) -> Options {
        self.program@
    }

    /// A run about to start, of `program` on a terminal of the given size
    /// with the cursor at the given place.
    pub fn new(program: Program, size: (u16, u16), cursor: (u16, u16)) -> (session: Session)
        ensures
            session.stage() == Phase::Starting,
            session.region() == render_area(program@, size, cursor),
            session.options() == program@,
    {
        Session { program, area: program.get_area(size, cursor), phase: Phase::Starting }
    }

    /// Where the run stands.
    pub fn phase(&self) -> (phase: Phase)
        ensures
            phase == self.stage(),
    {
        self.phase
    }

    /// The area that frames are drawn into.
    pub fn area(&self) -> (area: Area)
        ensures
            area == self.region(),
            area.on_screen(),
    {
        proof {
            use_type_invariant(self);
        }
        self.area
    }

    /// Whether the loop has ended.
    pub fn is_over(&self) -> (over: bool)
        ensures
            over == (self.stage() == Phase::Terminated),
    {
        match self.phase {
            Phase::Terminated => true,
            _ => false,
        }
    }

    /// Applies the commands that the model returned. A `Quit` ends the run
    /// at once: the commands after it are dropped. Without a `Quit` the run
    /// goes on. A run that has ended applies nothing. What is returned are
    /// the commands left to carry out, in order.
    pub fn apply(&mut self, commands: Vec<Command>) -> (left: Vec<Command>)
        ensures
            final(self).region() == old(self).region(),
            final(self).options() == old(self).options(),
            old(self).stage() == Phase::Terminated ==> left@.len() == 0 && final(self).stage()
                == Phase::Terminated,
            old(self).stage() != Phase::Terminated ==> {
                &&& left@ == due(commands@)
                &&& final(self).stage() == if quits(commands@) {
                    Phase::Terminated
                } else {
                    Phase::Running
                }
            },
    {
        proof {
            use_type_invariant(&*self);
        }
        let mut left = commands;
        if self.is_over() {
            left.truncate(0);
            return left;
        }
        let mut i: usize = 0;
        while i < left.len() && !is_quit(&left[i])
            invariant
                left@ == commands@,
                i <= left.len(),
                quit_at(commands@, 0) == quit_at(commands@, i as int),
            decreases left.len() - i,
        {
            i += 1;
        }
        proof {
            lemma_quit_at_bounds(commands@, i as int);
        }
        if i < left.len() {
            self.phase = Phase::Terminated;
        } else {
            self.phase = Phase::Running;
        }
        left.truncate(i);
        proof {
            assert(left@ =~= due(commands@));
        }
        left
    }

    /// Ends the run because no message can arrive any more.
    pub fn disconnect(&mut self)
        ensures
            final(self).stage() == Phase::Terminated,
            final(self).region() == old(self).region(),
            final(self).options() == old(self).options(),
    {
        proof {
            use_type_invariant(&*self);
        }
        self.phase = Phase::Terminated;
    }

    /// Decides what the model is told about `message`. A pointer event
    /// outside the area of the run is dropped; one inside is handed to the
    /// widget tree, whose answer the model is told; any other message goes
    /// to the model as it is.
    pub fn route(&self, scene: &Scene, message: Message) -> (told: Option<Message>)
        ensures
            match pointer_in(message@) {
                Some(event) => if self.region().covers(event.column as int, event.row as int) {
                    told matches Some(answer) && (scene.root.faithful() ==> answer@
                        == scene.root.reply(event, self.region()))
                } else {
                    told is None
                },
                None => told == Some(message),
            },
    {
        proof {
            use_type_invariant(self);
        }
        let pointer = match message.as_ref::<Event>() {
            Some(event) => event.as_mouse(),
            None => None,
        };
        match pointer {
            Some(event) => {
                if self.area.contains(event) {
                    Some(scene.root.process_mouse(event, self.area))
                } else {
                    None
                }
            },
            None => Some(message),
        }
    }

    /// The operations that draw `scene` as the next frame; none unless the
    /// run is under way.
    pub fn frame(&self, scene: &Scene) -> (ops: Vec<TerminalOp>)
        ensures
            self.stage() != Phase::Running ==> ops@.len() == 0,
            self.stage() == Phase::Running ==> exists|text: String|
                {
                    &&& #[trigger] shows(ops@, self.region(), text)
                    &&& scene.root.faithful() ==> text@ == scene.root.rendering(self.region())
                },
    {
        proof {
            use_type_invariant(self);
        }
        match self.phase {
            Phase::Running => {},
            _ => {
                return Vec::new();
            },
        }
        let text = scene.root.render(self.area);
        let ghost shown = text;
        let mut ops = self.program.draw(self.area, text);
        ops.push(TerminalOp::Flush);
        proof {
            assert(shows(ops@, self.region(), shown));
        }
        ops
    }

    /// Starts the run: applies the commands of the model's `init` and draws
    /// the first frame, unless those commands end the run.
    pub fn begin<M: Model>(&mut self, model: &M) -> (step: Step)
        ensures
            final(self).region() == old(self).region(),
            final(self).options() == old(self).options(),
            final(self).stage() != Phase::Starting,
            old(self).stage() == Phase::Terminated ==> final(self).stage() == Phase::Terminated
                && step.commands@.len() == 0,
            final(self).stage() != Phase::Running ==> step.frame@.len() == 0,
            final(self).stage() == Phase::Running ==> exists|text: String| #[trigger]
                shows(step.frame@, final(self).region(), text),
            forall|i: int| 0 <= i < step.commands@.len() ==> !(#[trigger] step.commands@[i] is Quit),
    {
        let commands = if self.is_over() {
            Vec::new()
        } else {
            model.init()
        };
        proof {
            lemma_quit_at_bounds(commands@, 0);
        }
        let left = self.apply(commands);
        let frame = if self.is_over() {
            Vec::new()
        } else {
            let scene = model.view();
            self.frame(&scene)
        };
        let ghost drawn = frame@;
        let step = Step { commands: left, frame };
        proof {
            assert(step.frame@ == drawn);
        }
        step
    }

    /// Takes one message in: decides what the model is told, lets the
    /// model answer, applies the commands it returns, and draws the next
    /// frame unless the run has ended. A run that has ended leaves the
    /// model alone, and so does a pointer event outside the area.
    pub fn turn<M: Model>(&mut self, model: &mut M, message: Message) -> (step: Step)
        ensures
            final(self).region() == old(self).region(),
            final(self).options() == old(self).options(),
            final(self).stage() != Phase::Starting,
            old(self).stage() == Phase::Terminated ==> {
                &&& final(self).stage() == Phase::Terminated
                &&& step.commands@.len() == 0
                &&& *final(model) == *old(model)
            },
            old(self).stage() != Phase::Terminated && (pointer_in(message@) matches Some(event)
                && !old(self).region().covers(event.column as int, event.row as int)) ==> {
                &&& final(self).stage() == Phase::Running
                &&& step.commands@.len() == 0
                &&& *final(model) == *old(model)
            },
            final(self).stage() != Phase::Running ==> step.frame@.len() == 0,
            final(self).stage() == Phase::Running ==> exists|text: String| #[trigger]
                shows(step.frame@, final(self).region(), text),
            forall|i: int| 0 <= i < step.commands@.len() ==> !(#[trigger] step.commands@[i] is Quit),
    {
        if self.is_over() {
            return Step { commands: Vec::new(), frame: Vec::new() };
        }
        let scene = model.view();
        let commands = match self.route(&scene, message) {
            Some(told) => model.update(told),
            None => Vec::new(),
        };
        proof {
            lemma_quit_at_bounds(commands@, 0);
        }
        let left = self.apply(commands);
        let frame = if self.is_over() {
            Vec::new()
        } else {
            let scene = model.view();
            self.frame(&scene)
        };
        let ghost drawn = frame@;
        let step = Step { commands: left, frame };
        proof {
            assert(step.frame@ == drawn);
        }
        step
    }

    /// The operations that give the terminal back at the end of the run.
    pub fn finish(&self) -> (ops: Vec<TerminalOp>)
        ensures
            ops@ == release(self.options()),
    {
        self.program.deinit_term()
    }
}

/// Whether the command asks for the end of the run.
pub fn is_quit(command: &Command) -> (yes: bool)
    ensures
        yes == (*command is Quit),
{
    match command {
        Command::Quit => true,
        _ => false,
    }
}

} // verus!
