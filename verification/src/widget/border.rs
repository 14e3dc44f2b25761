//! A frame around one widget.

use vstd::prelude::*;
use crate::ansi::{move_to, push_repeated, repeated, write_move_to};
use crate::area::Area;
use crate::event::MouseEvent;
use crate::message::{Message, Payload};
use crate::widget::text::cells;
use crate::widget::Widget;

verus! {

/// The pieces a frame is drawn with, each one cell wide.
pub struct Edges {
    pub top: Seq<char>,
    pub bottom: Seq<char>,
    pub left: Seq<char>,
    pub right: Seq<char>,
    pub top_left: Seq<char>,
    pub top_right: Seq<char>,
    pub bottom_left: Seq<char>,
    pub bottom_right: Seq<char>,
}

/// What a frame around `area` leaves for the widget inside: one cell less
/// on every side, or nothing where the frame does not fit.
pub open spec fn inner_area(area: Area) -> Area {
    if area.width < 2 || area.height < 2 {
        Area { x: area.x, y: area.y, width: 0, height: 0 }
    } else {
        Area {
            x: (area.x + 1) as u16,
            y: (area.y + 1) as u16,
            width: (area.width - 2) as u16,
            height: (area.height - 2) as u16,
        }
    }
}

/// The text that draws `piece` in column `x` on the `k` rows below row `y`.
pub open spec fn side(piece: Seq<char>, x: u16, y: u16, k: int) -> Seq<char>
    decreases k,
{
    if k <= 0 {
        Seq::empty()
    } else {
        side(piece, x, y, k - 1) + move_to(x, (y + k) as u16) + piece
    }
}

/// The text that draws the frame along the rim of `area`, which is at least
/// two cells wide and high: the top row, the left side, the right side, the
/// bottom row.
pub open spec fn frame(edges: Edges, area: Area) -> Seq<char> {
    let across = (area.width - 2) as nat;
    let down = area.height - 2;
    move_to(area.x, area.y) + edges.top_left + repeated(edges.top, across) + edges.top_right
        + side(edges.left, area.x, area.y, down) + side(
        edges.right,
        (area.x + area.width - 1) as u16,
        area.y,
        down,
    ) + move_to(area.x, (area.y + area.height - 1) as u16) + edges.bottom_left + repeated(
        edges.bottom,
        across,
    ) + edges.bottom_right
}

/// A widget with a frame of one cell drawn around it.
///
/// Pointer events reach the widget inside only where they fall inside the
/// frame; with forwarding switched on, events anywhere on the bordered area
/// are handed to it. Either way the widget inside is told the area inside
/// the frame.
pub struct Border {
    inner: Box<dyn Widget>,
    top: String,
    bottom: String,
    left: String,
    right: String,
    top_left: String,
    top_right: String,
    bottom_left: String,
    bottom_right: String,
    forward: bool,
}

impl Border {
    /// The widget inside the frame.
    pub closed spec fn child(&self) -> &Box<dyn Widget> {
        &self.inner
    }

    /// The pieces of the frame.
    pub closed spec fn edges(&self) -> Edges {
        Edges {
            top: self.top@,
            bottom: self.bottom@,
            left: self.left@,
            right: self.right@,
            top_left: self.top_left@,
            top_right: self.top_right@,
            bottom_left: self.bottom_left@,
            bottom_right: self.bottom_right@,
        }
    }

    /// Whether events on the frame itself are handed to the widget inside.
    pub closed spec fn forwards(&self) -> bool {
        self.forward
    }

    /// A frame around `inner`, drawn with the given horizontal and vertical
    /// pieces and corners; forwarding is off.
    pub fn new(
        inner: Box<dyn Widget>,
        top: String,
        bottom: String,
        left: String,
        right: String,
        top_left: String,
        top_right: String,
        bottom_left: String,
        bottom_right: String,
    ) -> (border: Box<Border>)
        ensures
            *border.child() === inner,
            border.edges() == (Edges {
                top: top@,
                bottom: bottom@,
                left: left@,
                right: right@,
                top_left: top_left@,
                top_right: top_right@,
                bottom_left: bottom_left@,
                bottom_right: bottom_right@,
            }),
            !border.forwards(),
    {
        Box::new(
            Border {
                inner,
                top,
                bottom,
                left,
                right,
                top_left,
                top_right,
                bottom_left,
                bottom_right,
                forward: false,
            },
        )
    }

    /// Switches forwarding on or off.
    pub fn forward(self: Box<Border>, yes: bool) -> (border: Box<Border>)
        ensures
            *border.child() === *self.child(),
            border.edges() == self.edges(),
            border.forwards() == yes,
    {
        let unboxed: Border = *self;
        Box::new(
            Border {
                inner: unboxed.inner,
                top: unboxed.top,
                bottom: unboxed.bottom,
                left: unboxed.left,
                right: unboxed.right,
                top_left: unboxed.top_left,
                top_right: unboxed.top_right,
                bottom_left: unboxed.bottom_left,
                bottom_right: unboxed.bottom_right,
                forward: yes,
            },
        )
    }

    /// The area inside the frame.
    pub fn inside(area: Area) -> (inner: Area)
        requires
            area.on_screen(),
        ensures
            inner == inner_area(area),
            inner.on_screen(),
    {
        if area.width < 2 || area.height < 2 {
            Area { x: area.x, y: area.y, width: 0, height: 0 }
        } else {
            Area { x: area.x + 1, y: area.y + 1, width: area.width - 2, height: area.height - 2 }
        }
    }

    fn draw_side(out: &mut String, piece: &str, x: u16, y: u16, rows: u16)
        requires
            x < u16::MAX,
            y + rows < u16::MAX,
        ensures
            final(out)@ == old(out)@ + side(piece@, x, y, rows as int),
    {
        let mut i: u16 = 0;
        while i < rows
            invariant
                i <= rows,
                x < u16::MAX,
                y + rows < u16::MAX,
                out@ == old(out)@ + side(piece@, x, y, i as int),
            decreases rows - i,
        {
            write_move_to(out, x, y + i + 1);
            out.append(piece);
            proof {
                assert(out@ =~= old(out)@ + side(piece@, x, y, i + 1));
            }
            i += 1;
        }
    }

    fn draw_frame(&self, out: &mut String, area: Area)
        requires
            area.on_screen(),
            area.width >= 2,
            area.height >= 2,
        ensures
            final(out)@ == old(out)@ + frame(self.edges(), area),
    {
        let across: u16 = area.width - 2;
        let down: u16 = area.height - 2;
        write_move_to(out, area.x, area.y);
        out.append(self.top_left.as_str());
        push_repeated(out, self.top.as_str(), across);
        out.append(self.top_right.as_str());
        Border::draw_side(out, self.left.as_str(), area.x, area.y, down);
        Border::draw_side(out, self.right.as_str(), area.x + area.width - 1, area.y, down);
        write_move_to(out, area.x, area.y + area.height - 1);
        out.append(self.bottom_left.as_str());
        push_repeated(out, self.bottom.as_str(), across);
        out.append(self.bottom_right.as_str());
        proof {
            assert(out@ =~= old(out)@ + frame(self.edges(), area));
        }
    }
}

impl Widget for Border {
    open spec fn faithful(&self) -> bool {
        self.child().faithful()
    }

    open spec fn width_hint(&self) -> u16 {
        cells(self.child().width_hint() + 2)
    }

    open spec fn height_hint(&self) -> u16 {
        cells(self.child().height_hint() + 2)
    }

    open spec fn rendering(&self, area: Area) -> Seq<char> {
        if area.width < 2 || area.height < 2 {
            Seq::empty()
        } else {
            frame(self.edges(), area) + self.child().rendering(inner_area(area))
        }
    }

    open spec fn reply(&self, event: MouseEvent, area: Area) -> Payload {
        let reached = if self.forwards() {
            area.covers(event.column as int, event.row as int)
        } else {
            inner_area(area).covers(event.column as int, event.row as int)
        };
        if reached {
            self.child().reply(event, inner_area(area))
        } else {
            Payload::Empty
        }
    }

    fn get_width_hint(&self) -> (width: u16) {
        self.inner.get_width_hint().saturating_add(2)
    }

    fn get_height_hint(&self) -> (height: u16) {
        self.inner.get_height_hint().saturating_add(2)
    }

    fn render(&self, area: Area) -> (text: String) {
        let mut out = String::new();
        if area.width < 2 || area.height < 2 {
            return out;
        }
        self.draw_frame(&mut out, area);
        let within = self.inner.render(Border::inside(area));
        out.append(within.as_str());
        out
    }

    fn process_mouse(&self, event: MouseEvent, area: Area) -> (message: Message) {
        let inner_area = Border::inside(area);
        let reached = if self.forward {
            area.contains(event)
        } else {
            inner_area.contains(event)
        };
        if reached {
            self.inner.process_mouse(event, inner_area)
        } else {
            Message::empty()
        }
    }
}

} // verus!
