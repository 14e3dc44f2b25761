//! A container that lines up its children along one axis.

use vstd::prelude::*;
use crate::area::Area;
use crate::event::MouseEvent;
use crate::layout::{allocate, allocation, as_lengths, lemma_prefix_bounds, prefix_total};
use crate::layout::{total_of, weight_sum};
use crate::layout::{Direction, Size};
use crate::message::{Message, Payload};
use crate::widget::text::cells;
use crate::widget::Widget;

verus! {

/// Why a container could not be built.
#[derive(Clone, Copy, Debug, PartialEq, Eq, Structural)]
pub enum LayoutError {
    /// There is not exactly one size directive per child.
    CountMismatch { widgets: usize, sizes: usize },
}

/// The content hints of the children along the axis of `direction`.
pub open spec fn axis_hints(children: Seq<Box<dyn Widget>>, direction: Direction) -> Seq<u16> {
    Seq::new(
        children.len(),
        |i: int|
            match direction {
                Direction::Vertical => children[i].height_hint(),
                Direction::Horizontal => children[i].width_hint(),
            },
    )
}

/// The length of `area` along the axis of `direction`.
pub open spec fn axis_length(area: Area, direction: Direction) -> u16 {
    match direction {
        Direction::Vertical => area.height,
        Direction::Horizontal => area.width,
    }
}

/// The part of `area` that belongs to child `i`: it starts where the parts
/// before it end, is as long as the child's length says, and spans the whole
/// of `area` across the axis.
pub open spec fn part(area: Area, direction: Direction, lengths: Seq<int>, i: int) -> Area {
    let offset = prefix_total(lengths, i);
    match direction {
        Direction::Vertical => Area {
            x: area.x,
            y: (area.y + offset) as u16,
            width: area.width,
            height: lengths[i] as u16,
        },
        Direction::Horizontal => Area {
            x: (area.x + offset) as u16,
            y: area.y,
            width: lengths[i] as u16,
            height: area.height,
        },
    }
}

/// The parts of `area` for children of the given lengths.
pub open spec fn parts_of(area: Area, direction: Direction, lengths: Seq<int>) -> Seq<Area> {
    Seq::new(lengths.len(), |i: int| part(area, direction, lengths, i))
}

/// The renderings of the first `k` children, each into its own part, one
/// after the other.
pub open spec fn joined(children: Seq<Box<dyn Widget>>, parts: Seq<Area>, k: int) -> Seq<char>
    decreases k,
{
    if k <= 0 {
        Seq::empty()
    } else {
        joined(children, parts, k - 1) + children[k - 1].rendering(parts[k - 1])
    }
}

/// The answer of the first child from index `from` on whose part holds the
/// event, or the empty payload if there is none.
pub open spec fn first_hit(
    children: Seq<Box<dyn Widget>>,
    parts: Seq<Area>,
    event: MouseEvent,
    from: int,
) -> Payload
    decreases children.len() - from,
{
    if from >= children.len() {
        Payload::Empty
    } else if parts[from].covers(event.column as int, event.row as int) {
        children[from].reply(event, parts[from])
    } else {
        first_hit(children, parts, event, from + 1)
    }
}

/// The first `k` width hints (or height hints) of the children, added up.
pub open spec fn hint_sum(children: Seq<Box<dyn Widget>>, direction: Direction, k: int) -> int
    decreases k,
{
    if k <= 0 {
        0
    } else {
        hint_sum(children, direction, k - 1) + axis_hints(children, direction)[k - 1]
    }
}

/// Whether every child does what it says.
pub open spec fn all_faithful(children: Seq<Box<dyn Widget>>) -> bool {
    forall|i: int| 0 <= i < children.len() ==> (#[trigger] children[i]).faithful()
}

/// A container that divides its area among its children along one axis,
/// one size directive per child.
pub struct Flexbox {
    direction: Direction,
    widgets: Vec<Box<dyn Widget>>,
    sizes: Vec<Size>,
}

impl Flexbox {
    #[verifier::type_invariant]
    spec fn paired(self) -> bool {
        self.widgets.len() == self.sizes.len()
    }

    /// The children, in order.
    pub closed spec fn children(&self) -> Seq<Box<dyn Widget>> {
        self.widgets@
    }

    /// The size directives, one per child.
    pub closed spec fn directives(&self) -> Seq<Size> {
        self.sizes@
    }

    /// The axis along which the children are lined up.
    pub closed spec fn axis(&self) -> Direction {
        self.direction
    }

    /// The length of each child when `length` cells are to be divided.
    pub open spec fn lengths(&self, length: u16) -> Seq<int> {
        allocation(self.directives(), axis_hints(self.children(), self.axis()), length as int)
    }

    /// The part of `area` of each child.
    pub open spec fn parts(&self, area: Area) -> Seq<Area> {
        parts_of(area, self.axis(), self.lengths(axis_length(area, self.axis())))
    }

    /// What building a container gives: the container of the given
    /// children and size directives if there are as many of the one as of
    /// the other, and else the error that tells both numbers.
    pub open spec fn built(
        made: Result<Box<Flexbox>, LayoutError>,
        direction: Direction,
        widgets: Seq<Box<dyn Widget>>,
        sizes: Seq<Size>,
    ) -> bool {
        match made {
            Ok(flexbox) => {
                &&& widgets.len() == sizes.len()
                &&& flexbox.axis() == direction
                &&& flexbox.children() === widgets
                &&& flexbox.directives() == sizes
            },
            Err(error) => {
                &&& widgets.len() != sizes.len()
                &&& error == (LayoutError::CountMismatch {
                    widgets: widgets.len() as usize,
                    sizes: sizes.len() as usize,
                })
            },
        }
    }

    /// Builds a container, or refuses to where the number of size
    /// directives differs from the number of children.
    pub fn new(direction: Direction, widgets: Vec<Box<dyn Widget>>, sizes: Vec<Size>) -> (made:
        Result<Box<Flexbox>, LayoutError>)
        ensures
            Flexbox::built(made, direction, widgets@, sizes@),
    {
        if widgets.len() != sizes.len() {
            return Err(LayoutError::CountMismatch { widgets: widgets.len(), sizes: sizes.len() });
        }
        Ok(Box::new(Flexbox { direction, widgets, sizes }))
    }

    /// A container whose children stand one below the other.
    pub fn vertical(widgets: Vec<Box<dyn Widget>>, sizes: Vec<Size>) -> (made: Result<
        Box<Flexbox>,
        LayoutError,
    >)
        ensures
            Flexbox::built(made, Direction::Vertical, widgets@, sizes@),
    {
        Flexbox::new(Direction::Vertical, widgets, sizes)
    }

    /// A container whose children stand side by side.
    pub fn horizontal(widgets: Vec<Box<dyn Widget>>, sizes: Vec<Size>) -> (made: Result<
        Box<Flexbox>,
        LayoutError,
    >)
        ensures
            Flexbox::built(made, Direction::Horizontal, widgets@, sizes@),
    {
        Flexbox::new(Direction::Horizontal, widgets, sizes)
    }

    /// Asks every child for its content hint along the axis.
    fn hints(&self, direction: Direction) -> (hints: Vec<u16>)
        ensures
            hints@.len() == self.children().len(),
            all_faithful(self.children()) ==> hints@ == axis_hints(self.children(), direction),
    {
        let mut hints: Vec<u16> = Vec::new();
        let mut i: usize = 0;
        while i < self.widgets.len()
            invariant
                i <= self.widgets.len(),
                hints@.len() == i,
                all_faithful(self.children()) ==> hints@ == axis_hints(
                    self.children(),
                    direction,
                ).take(i as int),
            decreases self.widgets.len() - i,
        {
            let hint = match direction {
                Direction::Vertical => self.widgets[i].get_height_hint(),
                Direction::Horizontal => self.widgets[i].get_width_hint(),
            };
            hints.push(hint);
            proof {
                if all_faithful(self.children()) {
                    assert(self.children()[i as int].faithful());
                    assert(hints@ =~= axis_hints(self.children(), direction).take(i + 1));
                }
            }
            i += 1;
        }
        proof {
            if all_faithful(self.children()) {
                assert(hints@ =~= axis_hints(self.children(), direction));
            }
        }
        hints
    }

    /// Divides `length` cells among the children. What the children
    /// receive together never exceeds `length`.
    pub fn layout(&self, length: u16) -> (cells: Vec<u16>)
        ensures
            cells@.len() == self.children().len(),
            total_of(as_lengths(cells@)) <= length,
            weight_sum(self.directives(), self.directives().len() as int) > 0 ==> total_of(
                as_lengths(cells@),
            ) == length,
            self.faithful() ==> as_lengths(cells@) == self.lengths(length),
    {
        proof {
            use_type_invariant(self);
        }
        let hints = self.hints(self.direction);
        let cells = allocate(&self.sizes, &hints, length);
        proof {
            assert(as_lengths(cells@).len() == cells@.len());
        }
        cells
    }

    /// Divides `area` among the children: one part each, none of which
    /// reaches beyond `area`.
    pub fn split(&self, area: Area) -> (parts: Vec<Area>)
        requires
            area.on_screen(),
        ensures
            parts@.len() == self.children().len(),
            forall|i: int| 0 <= i < parts@.len() ==> (#[trigger] parts@[i]).on_screen(),
            forall|i: int, ex: int, ey: int|
                0 <= i < parts@.len() && (#[trigger] parts@[i].covers(ex, ey)) ==> area.covers(
                    ex,
                    ey,
                ),
            self.faithful() ==> parts@ == self.parts(area),
    {
        proof {
            use_type_invariant(self);
        }
        let length: u16 = match self.direction {
            Direction::Vertical => area.height,
            Direction::Horizontal => area.width,
        };
        let hints = self.hints(self.direction);
        let cells = allocate(&self.sizes, &hints, length);
        let ghost lengths = allocation(self.directives(), hints@, length as int);
        proof {
            assert(as_lengths(cells@).len() == cells@.len());
        }
        let mut parts: Vec<Area> = Vec::new();
        let mut offset: u16 = 0;
        let mut i: usize = 0;
        while i < cells.len()
            invariant
                area.on_screen(),
                length == axis_length(area, self.axis()),
                lengths == allocation(self.directives(), hints@, length as int),
                as_lengths(cells@) == lengths,
                cells@.len() == self.children().len(),
                cells@.len() == self.directives().len(),
                i <= cells.len(),
                offset as int == prefix_total(lengths, i as int),
                parts@ == parts_of(area, self.axis(), lengths).take(i as int),
                forall|j: int| 0 <= j < parts@.len() ==> (#[trigger] parts@[j]).on_screen(),
                forall|j: int, ex: int, ey: int|
                    0 <= j < parts@.len() && (#[trigger] parts@[j].covers(ex, ey)) ==> area.covers(
                        ex,
                        ey,
                    ),
            decreases cells.len() - i,
        {
            proof {
                lemma_prefix_bounds(
                    self.directives(),
                    hints@,
                    length as int,
                    i as int,
                    i as int + 1,
                );
                assert(as_lengths(cells@)[i as int] == cells@[i as int] as int);
            }
            let cut = match self.direction {
                Direction::Vertical => Area {
                    x: area.x,
                    y: area.y + offset,
                    width: area.width,
                    height: cells[i],
                },
                Direction::Horizontal => Area {
                    x: area.x + offset,
                    y: area.y,
                    width: cells[i],
                    height: area.height,
                },
            };
            parts.push(cut);
            offset = offset + cells[i];
            proof {
                assert(parts@ =~= parts_of(area, self.axis(), lengths).take(i + 1));
            }
            i += 1;
        }
        proof {
            assert(parts@ =~= parts_of(area, self.axis(), lengths));
        }
        parts
    }

    /// Adds up the hints of all children, stopping at the largest count.
    fn hint_total(&self, direction: Direction) -> (total: u16)
        ensures
            self.faithful() ==> total == cells(
                hint_sum(self.children(), direction, self.children().len() as int),
            ),
    {
        let hints = self.hints(direction);
        let mut total: u16 = 0;
        let mut i: usize = 0;
        while i < hints.len()
            invariant
                i <= hints.len(),
                hints@.len() == self.children().len(),
                self.faithful() ==> hints@ == axis_hints(self.children(), direction),
                self.faithful() ==> total == cells(hint_sum(self.children(), direction, i as int)),
                0 <= hint_sum(self.children(), direction, i as int),
            decreases hints.len() - i,
        {
            total = total.saturating_add(hints[i]);
            i += 1;
        }
        total
    }
}

/// Every part of an area on the screen lies inside that area.
pub proof fn lemma_part_inside(
    sizes: Seq<Size>,
    hints: Seq<u16>,
    area: Area,
    direction: Direction,
    i: int,
    ex: int,
    ey: int,
)
    requires
        area.on_screen(),
        0 <= i < sizes.len(),
        part(
            area,
            direction,
            allocation(sizes, hints, axis_length(area, direction) as int),
            i,
        ).covers(ex, ey),
    ensures
        area.covers(ex, ey),
{
    let total = axis_length(area, direction) as int;
    lemma_prefix_bounds(sizes, hints, total, i, i + 1);
}

/// The parts of two different children share no cell.
pub proof fn lemma_parts_disjoint(
    sizes: Seq<Size>,
    hints: Seq<u16>,
    area: Area,
    direction: Direction,
    i: int,
    j: int,
    ex: int,
    ey: int,
)
    requires
        area.on_screen(),
        0 <= i < j < sizes.len(),
    ensures
        !(part(
            area,
            direction,
            allocation(sizes, hints, axis_length(area, direction) as int),
            i,
        ).covers(ex, ey) && part(
            area,
            direction,
            allocation(sizes, hints, axis_length(area, direction) as int),
            j,
        ).covers(ex, ey)),
{
    let total = axis_length(area, direction) as int;
    lemma_prefix_bounds(sizes, hints, total, i, i + 1);
    lemma_prefix_bounds(sizes, hints, total, i + 1, j);
    lemma_prefix_bounds(sizes, hints, total, j, j + 1);
}

impl Widget for Flexbox {
    open spec fn faithful(&self) -> bool {
        all_faithful(self.children())
    }

    open spec fn width_hint(&self) -> u16 {
        cells(hint_sum(self.children(), Direction::Horizontal, self.children().len() as int))
    }

    open spec fn height_hint(&self) -> u16 {
        cells(hint_sum(self.children(), Direction::Vertical, self.children().len() as int))
    }

    open spec fn rendering(&self, area: Area) -> Seq<char> {
        joined(self.children(), self.parts(area), self.children().len() as int)
    }

    open spec fn reply(&self, event: MouseEvent, area: Area) -> Payload {
        first_hit(self.children(), self.parts(area), event, 0)
    }

    fn get_width_hint(&self) -> (width: u16) {
        self.hint_total(Direction::Horizontal)
    }

    fn get_height_hint(&self) -> (height: u16) {
        self.hint_total(Direction::Vertical)
    }

    fn render(&self, area: Area) -> (text: String) {
        let parts = self.split(area);
        let mut out = String::new();
        let mut i: usize = 0;
        while i < self.widgets.len()
            invariant
                i <= self.widgets.len(),
                parts@.len() == self.children().len(),
                self.faithful() ==> parts@ == self.parts(area),
                forall|j: int| 0 <= j < parts@.len() ==> (#[trigger] parts@[j]).on_screen(),
                self.faithful() ==> out@ == joined(self.children(), self.parts(area), i as int),
            decreases self.widgets.len() - i,
        {
            let piece = self.widgets[i].render(parts[i]);
            out.append(piece.as_str());
            proof {
                if self.faithful() {
                    assert(self.children()[i as int].faithful());
                }
            }
            i += 1;
        }
        out
    }

    fn process_mouse(&self, event: MouseEvent, area: Area) -> (message: Message) {
        let parts = self.split(area);
        let mut i: usize = 0;
        while i < self.widgets.len()
            invariant
                i <= self.widgets.len(),
                area.on_screen(),
                parts@.len() == self.children().len(),
                self.faithful() ==> parts@ == self.parts(area),
                forall|j: int| 0 <= j < parts@.len() ==> (#[trigger] parts@[j]).on_screen(),
                forall|j: int, ex: int, ey: int|
                    0 <= j < parts@.len() && (#[trigger] parts@[j].covers(ex, ey)) ==> area.covers(
                        ex,
                        ey,
                    ),
                self.faithful() ==> first_hit(self.children(), self.parts(area), event, 0)
                    == first_hit(self.children(), self.parts(area), event, i as int),
            decreases self.widgets.len() - i,
        {
            if parts[i].contains(event) {
                proof {
                    assert(parts@[i as int].covers(event.column as int, event.row as int));
                    if self.faithful() {
                        assert(self.children()[i as int].faithful());
                    }
                }
                return self.widgets[i].process_mouse(event, parts[i]);
            }
            i += 1;
        }
        Message::empty()
    }
}

} // verus!
