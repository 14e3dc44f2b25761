//! Fixed text, line by line.

use vstd::prelude::*;
use crate::ansi::{chars_of, move_down, move_to, move_to_column, push_chars, push_repeated, repeated};
use crate::ansi::{write_move_down, write_move_to, write_move_to_column};
use crate::area::Area;
use crate::event::MouseEvent;
use crate::message::{Message, Payload};
use crate::widget::{MouseHandler, Widget};

verus! {

/// Where the line that starts at `from` ends: the index of the next line
/// feed, or the length of the text if there is none.
pub open spec fn line_end(text: Seq<char>, from: int) -> int
    decreases text.len() - from,
{
    if from >= text.len() {
        text.len() as int
    } else if text[from] == '\n' {
        from
    } else {
        line_end(text, from + 1)
    }
}

/// A line without the carriage return that may precede its line feed.
pub open spec fn trimmed(line: Seq<char>) -> Seq<char> {
    if line.len() > 0 && line.last() == '\r' {
        line.drop_last()
    } else {
        line
    }
}

/// A line ends at or after its start, at a line feed unless it ends with
/// the text, and holds no line feed.
pub proof fn lemma_line_end_bounds(text: Seq<char>, from: int)
    requires
        0 <= from <= text.len(),
    ensures
        from <= line_end(text, from) <= text.len(),
        line_end(text, from) < text.len() ==> text[line_end(text, from)] == '\n',
        forall|i: int| from <= i < line_end(text, from) ==> text[i] != '\n',
    decreases text.len() - from,
{
    if from < text.len() && text[from] != '\n' {
        lemma_line_end_bounds(text, from + 1);
    }
}

/// The lines of `text` from index `from` on. A line ends at a line feed,
/// which is dropped together with a carriage return just before it; what
/// follows the last line feed is a line of its own unless it is empty.
pub open spec fn lines_from(text: Seq<char>, from: int) -> Seq<Seq<char>>
    decreases text.len() - from,
    when 0 <= from
    via lines_from_decreases
{
    if from >= text.len() {
        Seq::empty()
    } else {
        let end = line_end(text, from);
        if end >= text.len() {
            seq![text.subrange(from, text.len() as int)]
        } else {
            seq![trimmed(text.subrange(from, end))] + lines_from(text, end + 1)
        }
    }
}

#[via_fn]
proof fn lines_from_decreases(text: Seq<char>, from: int) {
    if from < text.len() {
        lemma_line_end_bounds(text, from);
    }
}

/// The lines of `text`.
pub open spec fn split_lines(text: Seq<char>) -> Seq<Seq<char>> {
    lines_from(text, 0)
}

/// Lines as sequences of characters.
pub open spec fn as_rows(lines: Seq<Vec<char>>) -> Seq<Seq<char>> {
    lines.map_values(|line: Vec<char>| line@)
}

/// A copy of `chars` from index `from` up to `to`.
fn copy_range(chars: &Vec<char>, from: usize, to: usize) -> (piece: Vec<char>)
    requires
        from <= to <= chars.len(),
    ensures
        piece@ == chars@.subrange(from as int, to as int),
{
    let mut piece: Vec<char> = Vec::new();
    let mut i: usize = from;
    while i < to
        invariant
            from <= i <= to <= chars.len(),
            piece@ == chars@.subrange(from as int, i as int),
        decreases to - i,
    {
        piece.push(chars[i]);
        proof {
            assert(chars@.subrange(from as int, i + 1) =~= chars@.subrange(
                from as int,
                i as int,
            ).push(chars@[i as int]));
        }
        i += 1;
    }
    piece
}

/// Cuts `chars` into lines.
pub fn split(chars: &Vec<char>) -> (lines: Vec<Vec<char>>)
    ensures
        as_rows(lines@) == split_lines(chars@),
{
    let n = chars.len();
    let mut lines: Vec<Vec<char>> = Vec::new();
    let mut start: usize = 0;
    while start < n
        invariant
            n == chars.len(),
            start <= n,
            split_lines(chars@) == as_rows(lines@) + lines_from(chars@, start as int),
        decreases n - start,
    {
        let mut end: usize = start;
        while end < n && chars[end] != '\n'
            invariant
                n == chars.len(),
                start <= end <= n,
                line_end(chars@, start as int) == line_end(chars@, end as int),
            decreases n - end,
        {
            end += 1;
        }
        let ghost before = as_rows(lines@);
        if end >= n {
            let line = copy_range(chars, start, n);
            lines.push(line);
            proof {
                assert(as_rows(lines@) =~= before.push(chars@.subrange(start as int, n as int)));
                assert(lines_from(chars@, n as int) =~= Seq::<Seq<char>>::empty());
                assert(before + seq![chars@.subrange(start as int, n as int)] =~= as_rows(lines@)
                    + lines_from(chars@, n as int));
            }
            start = n;
        } else {
            let stop: usize = if end > start && chars[end - 1] == '\r' {
                end - 1
            } else {
                end
            };
            let line = copy_range(chars, start, stop);
            lines.push(line);
            proof {
                let whole = chars@.subrange(start as int, end as int);
                assert(trimmed(whole) =~= chars@.subrange(start as int, stop as int));
                assert(as_rows(lines@) =~= before.push(trimmed(whole)));
                assert(before + (seq![trimmed(whole)] + lines_from(chars@, end + 1)) =~= as_rows(
                    lines@,
                ) + lines_from(chars@, end + 1));
            }
            start = end + 1;
        }
    }
    proof {
        assert(as_rows(lines@) + Seq::<Seq<char>>::empty() =~= as_rows(lines@));
    }
    lines
}

/// The length of the longest of the first `k` lines.
pub open spec fn widest(rows: Seq<Seq<char>>, k: int) -> int
    decreases k,
{
    if k <= 0 {
        0
    } else if rows[k - 1].len() > widest(rows, k - 1) {
        rows[k - 1].len() as int
    } else {
        widest(rows, k - 1)
    }
}

/// A count cut down to the largest cell count there is.
pub open spec fn cells(count: int) -> u16 {
    if count >= u16::MAX {
        u16::MAX
    } else {
        count as u16
    }
}

/// A line made exactly `width` cells long: cut off at the right, or filled
/// up with blanks.
pub open spec fn fitted(line: Seq<char>, width: int) -> Seq<char> {
    if line.len() >= width {
        line.take(width)
    } else {
        line + repeated(seq![' '], (width - line.len()) as nat)
    }
}

/// The text that draws the first `k` lines into `area`, the cursor being at
/// the area's first cell: each line fitted to the width, then the cursor
/// put back to the area's first column, one row further down.
pub open spec fn rows_text(rows: Seq<Seq<char>>, area: Area, k: int) -> Seq<char>
    decreases k,
{
    if k <= 0 {
        Seq::empty()
    } else {
        rows_text(rows, area, k - 1) + fitted(rows[k - 1], area.width as int) + move_to_column(
            area.x,
        ) + move_down(1)
    }
}

/// How many lines are drawn into an area of `height` rows.
pub open spec fn shown(rows: Seq<Seq<char>>, height: u16) -> int {
    if rows.len() <= height {
        rows.len() as int
    } else {
        height as int
    }
}

/// Fixed text; a line feed starts a new line, and lines are never wrapped.
/// Every character is taken to fill one cell.
pub struct Text {
    lines: Vec<Vec<char>>,
    on_mouse: Option<Box<dyn MouseHandler>>,
}

impl Text {
    /// The lines of the content.
    pub closed spec fn rows(&self) -> Seq<Seq<char>> {
        as_rows(self.lines@)
    }

    /// The handler bound to pointer events, if any.
    pub closed spec fn handler(&self) -> Option<Box<dyn MouseHandler>> {
        self.on_mouse
    }

    /// A text that shows `content` and answers no pointer event.
    pub fn new(content: &str) -> (text: Box<Text>)
        ensures
            text.rows() == split_lines(content@),
            text.handler() is None,
    {
        let chars = chars_of(content);
        Box::new(Text { lines: split(&chars), on_mouse: None })
    }

    /// Binds `handler` to the pointer events that hit the text.
    pub fn on_mouse(self: Box<Text>, handler: Box<dyn MouseHandler>) -> (text: Box<Text>)
        ensures
            text.rows() == self.rows(),
            text.handler() === Some(handler),
    {
        let unboxed: Text = *self;
        Box::new(Text { lines: unboxed.lines, on_mouse: Some(handler) })
    }

    fn fit(out: &mut String, line: &Vec<char>, width: u16)
        ensures
            final(out)@ == old(out)@ + fitted(line@, width as int),
    {
        let wide: usize = width as usize;
        if line.len() >= wide {
            push_chars(out, line, 0, wide);
            proof {
                assert(line@.subrange(0, wide as int) =~= line@.take(width as int));
            }
        } else {
            push_chars(out, line, 0, line.len());
            let pad: u16 = (wide - line.len()) as u16;
            proof {
                reveal_strlit(" ");
                assert(" "@ =~= seq![' ']);
                assert(line@.subrange(0, line.len() as int) =~= line@);
            }
            push_repeated(out, " ", pad);
            proof {
                assert(old(out)@ + line@ + repeated(seq![' '], pad as nat) =~= old(out)@ + (line@
                    + repeated(seq![' '], pad as nat)));
            }
        }
    }
}

impl Widget for Text {
    open spec fn faithful(&self) -> bool {
        match self.handler() {
            Some(handler) => handler.faithful(),
            None => true,
        }
    }

    open spec fn width_hint(&self) -> u16 {
        cells(widest(self.rows(), self.rows().len() as int))
    }

    open spec fn height_hint(&self) -> u16 {
        cells(self.rows().len() as int)
    }

    open spec fn rendering(&self, area: Area) -> Seq<char> {
        if area.is_empty() {
            Seq::empty()
        } else {
            move_to(area.x, area.y) + rows_text(
                self.rows(),
                area,
                shown(self.rows(), area.height),
            )
        }
    }

    open spec fn reply(&self, event: MouseEvent, area: Area) -> Payload {
        match self.handler() {
            Some(handler) if area.covers(event.column as int, event.row as int) => handler.reply(
                event,
            ),
            _ => Payload::Empty,
        }
    }

    fn get_width_hint(&self) -> (width: u16)
        ensures
            width == self.width_hint(),
    {
        let mut most: usize = 0;
        let mut i: usize = 0;
        while i < self.lines.len()
            invariant
                i <= self.lines.len(),
                most as int == widest(self.rows(), i as int),
            decreases self.lines.len() - i,
        {
            if self.lines[i].len() > most {
                most = self.lines[i].len();
            }
            i += 1;
        }
        if most >= 65535 {
            65535
        } else {
            most as u16
        }
    }

    fn get_height_hint(&self) -> (height: u16)
        ensures
            height == self.height_hint(),
    {
        if self.lines.len() >= 65535 {
            65535
        } else {
            self.lines.len() as u16
        }
    }

    fn render(&self, area: Area) -> (text: String)
        ensures
            text@ == self.rendering(area),
    {
        let mut out = String::new();
        if area.width == 0 || area.height == 0 {
            return out;
        }
        write_move_to(&mut out, area.x, area.y);
        let count: usize = if self.lines.len() <= area.height as usize {
            self.lines.len()
        } else {
            area.height as usize
        };
        let mut i: usize = 0;
        while i < count
            invariant
                i <= count <= self.lines.len(),
                area.x < u16::MAX,
                out@ == move_to(area.x, area.y) + rows_text(self.rows(), area, i as int),
            decreases count - i,
        {
            let ghost before = out@;
            Text::fit(&mut out, &self.lines[i], area.width);
            write_move_to_column(&mut out, area.x);
            write_move_down(&mut out, 1);
            proof {
                let row = fitted(self.rows()[i as int], area.width as int) + move_to_column(area.x)
                    + move_down(1);
                assert(out@ =~= before + row);
                assert(move_to(area.x, area.y) + rows_text(self.rows(), area, i as int) + row
                    =~= move_to(area.x, area.y) + rows_text(self.rows(), area, i + 1));
            }
            i += 1;
        }
        out
    }

    fn process_mouse(&self, event: MouseEvent, area: Area) -> (message: Message)
        ensures
            self.handler() is None || !area.covers(event.column as int, event.row as int)
                ==> message@ == Payload::Empty,
    {
        if !area.contains(event) {
            return Message::empty();
        }
        match &self.on_mouse {
            Some(handler) => handler.handle(event),
            None => Message::empty(),
        }
    }
}

} // verus!
