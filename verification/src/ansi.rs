//! Cursor movement as text: the escape sequences that widgets put into their
//! renderings, and the small string tools that build them.

use vstd::prelude::*;
use crossterm::Command;

verus! {

/// The character for a single decimal digit.
pub open spec fn digit(d: int) -> char {
    if d == 0 {
        '0'
    } else if d == 1 {
        '1'
    } else if d == 2 {
        '2'
    } else if d == 3 {
        '3'
    } else if d == 4 {
        '4'
    } else if d == 5 {
        '5'
    } else if d == 6 {
        '6'
    } else if d == 7 {
        '7'
    } else if d == 8 {
        '8'
    } else {
        '9'
    }
}

/// A number written in decimal, without leading zeros.
pub open spec fn decimal(n: nat) -> Seq<char>
    decreases n,
{
    if n < 10 {
        seq![digit(n as int)]
    } else {
        decimal(n / 10).push(digit((n % 10) as int))
    }
}

/// The two characters that open every control sequence.
pub open spec fn introducer() -> Seq<char> {
    seq!['\x1b', '[']
}

/// The sequence that puts the cursor on column `x`, row `y`, both counted
/// from zero; the terminal counts from one and takes the row first.
pub open spec fn move_to(x: u16, y: u16) -> Seq<char> {
    introducer() + decimal((y + 1) as nat) + seq![';'] + decimal((x + 1) as nat) + seq!['H']
}

/// The sequence that puts the cursor on column `x` of its row.
pub open spec fn move_to_column(x: u16) -> Seq<char> {
    introducer() + decimal((x + 1) as nat) + seq!['G']
}

/// The sequence that moves the cursor `n` rows down.
pub open spec fn move_down(n: u16) -> Seq<char> {
    introducer() + decimal(n as nat) + seq!['B']
}

/// Appends what `crossterm::cursor::MoveTo(x, y)` writes as its ANSI form:
/// the introducer, the row plus one, a semicolon, the column plus one, and
/// `H`, the numbers in decimal. Both coordinates must leave room for the
/// added one.
#[verifier::external_body]
pub(crate) fn write_move_to(out: &mut String, x: u16, y: u16)
    requires
        x < u16::MAX,
        y < u16::MAX,
    ensures
        final(out)@ == old(out)@ + move_to(x, y),
{
    let _ = crossterm::cursor::MoveTo(x, y).write_ansi(out);
}

/// Appends what `crossterm::cursor::MoveToColumn(x)` writes as its ANSI
/// form: the introducer, the column plus one in decimal, and `G`.
#[verifier::external_body]
pub(crate) fn write_move_to_column(out: &mut String, x: u16)
    requires
        x < u16::MAX,
    ensures
        final(out)@ == old(out)@ + move_to_column(x),
{
    let _ = crossterm::cursor::MoveToColumn(x).write_ansi(out);
}

/// Appends what `crossterm::cursor::MoveDown(n)` writes as its ANSI form:
/// the introducer, the count in decimal, and `B`.
#[verifier::external_body]
pub(crate) fn write_move_down(out: &mut String, n: u16)
    ensures
        final(out)@ == old(out)@ + move_down(n),
{
    let _ = crossterm::cursor::MoveDown(n).write_ansi(out);
}

/// `String::push` appends one character.
pub assume_specification[ String::push ](out: &mut String, ch: char)
    ensures
        final(out)@ == old(out)@.push(ch),
;

/// Appends the characters of `chars` from index `from` up to `to`.
pub fn push_chars(out: &mut String, chars: &Vec<char>, from: usize, to: usize)
    requires
        from <= to <= chars.len(),
    ensures
        final(out)@ == old(out)@ + chars@.subrange(from as int, to as int),
{
    let mut i: usize = from;
    while i < to
        invariant
            from <= i <= to <= chars.len(),
            out@ == old(out)@ + chars@.subrange(from as int, i as int),
        decreases to - i,
    {
        out.push(chars[i]);
        proof {
            assert(chars@.subrange(from as int, i + 1) =~= chars@.subrange(
                from as int,
                i as int,
            ).push(chars@[i as int]));
            assert(old(out)@ + chars@.subrange(from as int, i as int).push(chars@[i as int])
                =~= (old(out)@ + chars@.subrange(from as int, i as int)).push(chars@[i as int]));
        }
        i += 1;
    }
}

/// `count` copies of `piece`, one after the other.
pub open spec fn repeated(piece: Seq<char>, count: nat) -> Seq<char>
    decreases count,
{
    if count == 0 {
        Seq::empty()
    } else {
        repeated(piece, (count - 1) as nat) + piece
    }
}

/// Appends `count` copies of `piece`.
pub fn push_repeated(out: &mut String, piece: &str, count: u16)
    ensures
        final(out)@ == old(out)@ + repeated(piece@, count as nat),
{
    let mut i: u16 = 0;
    while i < count
        invariant
            i <= count,
            out@ == old(out)@ + repeated(piece@, i as nat),
        decreases count - i,
    {
        out.append(piece);
        proof {
            assert(old(out)@ + repeated(piece@, i as nat) + piece@ =~= old(out)@ + repeated(
                piece@,
                (i + 1) as nat,
            ));
        }
        i += 1;
    }
}

/// The characters of a string slice, one by one.
pub fn chars_of(text: &str) -> (chars: Vec<char>)
    ensures
        chars@ == text@,
{
    let mut chars: Vec<char> = Vec::new();
    for c in it: text.chars()
        invariant
            chars@ == it.seq().take(it.index() as int),
            it.seq() == text@,
    {
        chars.push(c);
        proof {
            assert(it.seq().take(it.index() + 1) =~= it.seq().take(it.index() as int).push(c));
        }
    }
    chars
}

} // verus!
