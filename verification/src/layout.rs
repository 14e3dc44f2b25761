//! Space allocation along one axis.
//!
//! A container hands out a total length to its children according to one
//! sizing directive per child. Children with an exact length are served
//! first, in index order; then children sized by their content hint, in
//! index order; children with a weight share what is left.

use vstd::prelude::*;

verus! {

/// The axis along which a container lines up its children.
#[derive(Clone, Copy, Debug, PartialEq, Eq, Structural)]
pub enum Direction {
    Vertical,
    Horizontal,
}

/// How much of the container's length a child asks for.
#[derive(Clone, Copy, Debug, PartialEq, Eq, PartialOrd, Ord, Structural)]
pub enum Size {
    /// Exactly this many cells.
    Length(u16),
    /// As many cells as the child's content hint says.
    Auto,
    /// A share of the cells left over by `Length` and `Auto` children,
    /// proportional to this weight among all weighted children.
    Fraction(u16),
}

/// A description of nested containers: a direction, the node's own size
/// directive, and the nodes laid out inside it.
#[derive(Debug)]
pub struct Layout {
    pub direction: Direction,
    pub size: Size,
    pub children: Vec<Layout>,
}

impl Layout {
    /// A node with the given direction, size directive and children.
    pub fn new(direction: Direction, size: Size, children: Vec<Layout>) -> (node: Layout)
        ensures
            node.direction == direction,
            node.size == size,
            node.children == children,
    {
        Layout { direction, size, children }
    }
}

/// Whether `node` is a childless, vertical node with the size directive
/// `size`.
pub open spec fn is_leaf_of(node: Layout, size: Size) -> bool {
    &&& node.direction == Direction::Vertical
    &&& node.size == size
    &&& node.children@.len() == 0
}

/// A childless node sized by its content.
pub fn auto() -> (node: Layout)
    ensures
        is_leaf_of(node, Size::Auto),
{
    Layout::new(Direction::Vertical, Size::Auto, Vec::new())
}

/// A childless node of exactly `len` cells.
pub fn length(len: u16) -> (node: Layout)
    ensures
        is_leaf_of(node, Size::Length(len)),
{
    Layout::new(Direction::Vertical, Size::Length(len), Vec::new())
}

/// A childless node with weight `frac`.
pub fn fraction(frac: u16) -> (node: Layout)
    ensures
        is_leaf_of(node, Size::Fraction(frac)),
{
    Layout::new(Direction::Vertical, Size::Fraction(frac), Vec::new())
}

impl From<Layout> for Size {
    fn from(value: Layout) -> (size: Size) {
        value.size
    }
}

impl vstd::std_specs::convert::FromSpecImpl<Layout> for Size {
    open spec fn obeys_from_spec() -> bool {
        true
    }

    open spec fn from_spec(value: Layout) -> Size {
        value.size
    }
}

impl From<Size> for Layout {
    fn from(value: Size) -> (node: Layout)
        ensures
            is_leaf_of(node, value),
    {
        Layout { direction: Direction::Vertical, size: value, children: Vec::new() }
    }
}

// A node holds a vector, which a specification cannot build: `from` says
// itself what it returns, and `from_spec` only names such a node.
impl vstd::std_specs::convert::FromSpecImpl<Size> for Layout {
    open spec fn obeys_from_spec() -> bool {
        false
    }

    open spec fn from_spec(value: Size) -> Layout {
        choose|node: Layout| is_leaf_of(node, value)
    }
}

/// The cells a child asks for by an exact length; zero for other directives.
pub open spec fn fixed_length(size: Size) -> int {
    match size {
        Size::Length(n) => n as int,
        _ => 0,
    }
}

/// The cells a child asks for by its content hint; zero for other directives.
pub open spec fn auto_length(size: Size, hint: u16) -> int {
    match size {
        Size::Auto => hint as int,
        _ => 0,
    }
}

/// The weight of a child; zero for other directives.
pub open spec fn weight(size: Size) -> int {
    match size {
        Size::Fraction(w) => w as int,
        _ => 0,
    }
}

/// The exact lengths asked for by the first `k` children, added up.
pub open spec fn length_sum(sizes: Seq<Size>, k: int) -> int
    decreases k,
{
    if k <= 0 {
        0
    } else {
        length_sum(sizes, k - 1) + fixed_length(sizes[k - 1])
    }
}

/// The content hints of the `Auto` children among the first `k`, added up.
pub open spec fn auto_sum(sizes: Seq<Size>, hints: Seq<u16>, k: int) -> int
    decreases k,
{
    if k <= 0 {
        0
    } else {
        auto_sum(sizes, hints, k - 1) + auto_length(sizes[k - 1], hints[k - 1])
    }
}

/// The weights of the first `k` children, added up.
pub open spec fn weight_sum(sizes: Seq<Size>, k: int) -> int
    decreases k,
{
    if k <= 0 {
        0
    } else {
        weight_sum(sizes, k - 1) + weight(sizes[k - 1])
    }
}

/// How many of the first `k` children carry a weight above zero.
pub open spec fn positive_count(sizes: Seq<Size>, k: int) -> int
    decreases k,
{
    if k <= 0 {
        0
    } else {
        positive_count(sizes, k - 1) + if weight(sizes[k - 1]) > 0 { 1int } else { 0int }
    }
}

/// The rounded-down shares of `room` of the first `k` children, added up,
/// where `whole` is the sum of all weights.
pub open spec fn floor_sum(sizes: Seq<Size>, room: int, whole: int, k: int) -> int
    decreases k,
{
    if k <= 0 {
        0
    } else {
        floor_sum(sizes, room, whole, k - 1) + (room * weight(sizes[k - 1])) / whole
    }
}

/// `want` cut down to what `room` still offers.
pub open spec fn clip(want: int, room: int) -> int {
    if room <= 0 {
        0
    } else if want <= room {
        want
    } else {
        room
    }
}

/// Everything the `Length` and `Auto` children ask for.
pub open spec fn demand(sizes: Seq<Size>, hints: Seq<u16>) -> int {
    length_sum(sizes, sizes.len() as int) + auto_sum(sizes, hints, sizes.len() as int)
}

/// What is left of `total` for the weighted children.
pub open spec fn fraction_room(sizes: Seq<Size>, hints: Seq<u16>, total: int) -> int {
    if total <= demand(sizes, hints) {
        0
    } else {
        total - demand(sizes, hints)
    }
}

/// The cells that rounding down leaves unassigned among the weighted children.
pub open spec fn leftover(sizes: Seq<Size>, hints: Seq<u16>, total: int) -> int {
    let room = fraction_room(sizes, hints, total);
    let whole = weight_sum(sizes, sizes.len() as int);
    room - floor_sum(sizes, room, whole, sizes.len() as int)
}

/// The length that child `i` receives out of `total`.
///
/// A `Length` child gets what it asks for, cut down to what earlier `Length`
/// children left. An `Auto` child gets its hint, cut down to what all
/// `Length` children and earlier `Auto` children left. A weighted child gets
/// its proportional share of the rest, rounded down, plus one of the cells
/// lost to rounding if it is among the first weighted children with a weight
/// above zero.
pub open spec fn share(sizes: Seq<Size>, hints: Seq<u16>, total: int, i: int) -> int {
    let n = sizes.len() as int;
    match sizes[i] {
        Size::Length(want) => clip(want as int, total - length_sum(sizes, i)),
        Size::Auto => clip(
            hints[i] as int,
            total - length_sum(sizes, n) - auto_sum(sizes, hints, i),
        ),
        Size::Fraction(w) => {
            if w == 0 {
                0
            } else {
                (fraction_room(sizes, hints, total) * w) / weight_sum(sizes, n) + if positive_count(
                    sizes,
                    i,
                ) < leftover(sizes, hints, total) {
                    1int
                } else {
                    0int
                }
            }
        },
    }
}

/// The lengths of all children, by index.
pub open spec fn allocation(sizes: Seq<Size>, hints: Seq<u16>, total: int) -> Seq<int> {
    Seq::new(sizes.len(), |i: int| share(sizes, hints, total, i))
}

/// The first `k` entries of `lengths`, added up.
pub open spec fn prefix_total(lengths: Seq<int>, k: int) -> int
    decreases k,
{
    if k <= 0 {
        0
    } else {
        prefix_total(lengths, k - 1) + lengths[k - 1]
    }
}

/// All entries of `lengths`, added up.
pub open spec fn total_of(lengths: Seq<int>) -> int {
    prefix_total(lengths, lengths.len() as int)
}

/// Cell counts as mathematical integers.
pub open spec fn as_lengths(cells: Seq<u16>) -> Seq<int> {
    cells.map_values(|c: u16| c as int)
}

/// What is left of `total` once `used` cells are taken.
pub open spec fn rest(total: int, used: int) -> int {
    if used >= total {
        0
    } else {
        total - used
    }
}

/// The running sums never shrink and start at zero.
pub proof fn lemma_sums_grow(sizes: Seq<Size>, hints: Seq<u16>, j: int, k: int)
    requires
        0 <= j <= k,
    ensures
        0 <= length_sum(sizes, j) <= length_sum(sizes, k),
        0 <= auto_sum(sizes, hints, j) <= auto_sum(sizes, hints, k),
        0 <= weight_sum(sizes, j) <= weight_sum(sizes, k),
        0 <= positive_count(sizes, j) <= positive_count(sizes, k),
        positive_count(sizes, k) <= k,
        weight_sum(sizes, k) <= k * 65535,
    decreases k,
{
    if k > 0 {
        if j < k {
            lemma_sums_grow(sizes, hints, j, k - 1);
        } else {
            lemma_sums_grow(sizes, hints, j - 1, k - 1);
        }
    }
}

/// No weight exceeds the sum of the weights.
pub proof fn lemma_weight_within(sizes: Seq<Size>, hints: Seq<u16>, j: int, k: int)
    requires
        0 <= j < k,
    ensures
        0 <= weight(sizes[j]) <= weight_sum(sizes, k),
{
    lemma_sums_grow(sizes, hints, j, j + 1);
    lemma_sums_grow(sizes, hints, j + 1, k);
    lemma_sums_grow(sizes, hints, 0, j);
}

/// A rounded-down share is at most the exact share.
pub proof fn lemma_floor_share(room: int, w: int, whole: int)
    requires
        0 <= room,
        0 <= w,
        0 < whole,
    ensures
        0 <= (room * w) / whole,
        ((room * w) / whole) * whole <= room * w,
        room * w < ((room * w) / whole) * whole + whole,
        w <= whole ==> (room * w) / whole <= room,
        w == 0 ==> (room * w) / whole == 0,
{
    let p = room * w;
    assert(0 <= p) by (nonlinear_arith)
        requires
            0 <= room,
            0 <= w,
            p == room * w,
    ;
    assert(0 <= p / whole && (p / whole) * whole <= p && p < (p / whole) * whole + whole)
        by (nonlinear_arith)
        requires
            0 <= p,
            0 < whole,
    ;
    if w <= whole {
        assert(p <= room * whole) by (nonlinear_arith)
            requires
                0 <= room,
                0 <= w <= whole,
                p == room * w,
        ;
        assert(p / whole <= room) by (nonlinear_arith)
            requires
                0 <= p <= room * whole,
                0 < whole,
                0 <= room,
        ;
    }
    if w == 0 {
        assert(p == 0) by (nonlinear_arith)
            requires
                w == 0,
                p == room * w,
        ;
    }
}

/// The rounded-down shares never add up to more than the exact shares, and
/// fall short of them by less than one cell per child with a positive weight.
pub proof fn lemma_floor_sum_bounds(sizes: Seq<Size>, hints: Seq<u16>, room: int, whole: int, j: int, k: int)
    requires
        0 <= room,
        0 < whole,
        0 <= j <= k,
    ensures
        0 <= floor_sum(sizes, room, whole, j) <= floor_sum(sizes, room, whole, k),
        floor_sum(sizes, room, whole, k) * whole <= room * weight_sum(sizes, k),
        room * weight_sum(sizes, k) <= floor_sum(sizes, room, whole, k) * whole + positive_count(
            sizes,
            k,
        ) * (whole - 1),
    decreases k,
{
    if k > 0 {
        if j < k {
            lemma_floor_sum_bounds(sizes, hints, room, whole, j, k - 1);
        } else {
            lemma_floor_sum_bounds(sizes, hints, room, whole, j - 1, k - 1);
        }
        let w = weight(sizes[k - 1]);
        let q = (room * w) / whole;
        let f = floor_sum(sizes, room, whole, k - 1);
        let ws = weight_sum(sizes, k - 1);
        let pc = positive_count(sizes, k - 1);
        lemma_floor_share(room, w, whole);
        assert((f + q) * whole == f * whole + q * whole) by (nonlinear_arith);
        assert(room * (ws + w) == room * ws + room * w) by (nonlinear_arith);
        if w > 0 {
            assert((pc + 1) * (whole - 1) == pc * (whole - 1) + (whole - 1)) by (nonlinear_arith);
        } else {
            assert(room * w == 0) by (nonlinear_arith)
                requires
                    w == 0,
            ;
        }
    } else {
        assert(room * 0 == 0) by (nonlinear_arith);
        assert(0 * whole == 0) by (nonlinear_arith);
        assert(0 * (whole - 1) == 0) by (nonlinear_arith);
    }
}

/// Hands out `total` cells to the children described by `sizes`, where
/// `hints[i]` is the content hint of child `i` along the axis.
pub fn allocate(sizes: &Vec<Size>, hints: &Vec<u16>, total: u16) -> (cells: Vec<u16>)
    requires
        sizes.len() == hints.len(),
    ensures
        as_lengths(cells@) == allocation(sizes@, hints@, total as int),
        total_of(as_lengths(cells@)) <= total,
        weight_sum(sizes@, sizes.len() as int) > 0 ==> total_of(as_lengths(cells@)) == total,
        weight_sum(sizes@, sizes.len() as int) == 0 ==> total_of(as_lengths(cells@)) == capped(
            total as int,
            demand(sizes@, hints@),
        ),
{
    proof {
        lemma_allocation_total(sizes@, hints@, total as int);
    }
    let n = sizes.len();
    let mut cells: Vec<u16> = Vec::new();
    let mut remaining: u16 = total;
    let mut i: usize = 0;
    while i < n
        invariant
            n == sizes.len(),
            n == hints.len(),
            i <= n,
            cells.len() == i,
            remaining as int == rest(total as int, length_sum(sizes@, i as int)),
            forall|j: int|
                0 <= j < i ==> cells[j] as int == (match sizes[j] {
                    Size::Length(_) => share(sizes@, hints@, total as int, j),
                    _ => 0,
                }),
        decreases n - i,
    {
        proof {
            lemma_sums_grow(sizes@, hints@, 0, i as int);
        }
        match sizes[i] {
            Size::Length(want) => {
                let given: u16 = if want <= remaining {
                    want
                } else {
                    remaining
                };
                remaining = remaining - given;
                cells.push(given);
            },
            _ => {
                cells.push(0);
            },
        }
        i += 1;
    }
    i = 0;
    while i < n
        invariant
            n == sizes.len(),
            n == hints.len(),
            i <= n,
            cells.len() == n,
            remaining as int == rest(
                total as int,
                length_sum(sizes@, n as int) + auto_sum(sizes@, hints@, i as int),
            ),
            forall|j: int|
                0 <= j < n ==> cells[j] as int == (match sizes[j] {
                    Size::Length(_) => share(sizes@, hints@, total as int, j),
                    Size::Auto => if j < i {
                        share(sizes@, hints@, total as int, j)
                    } else {
                        0
                    },
                    _ => 0,
                }),
        decreases n - i,
    {
        proof {
            lemma_sums_grow(sizes@, hints@, 0, i as int);
            lemma_sums_grow(sizes@, hints@, 0, n as int);
        }
        match sizes[i] {
            Size::Auto => {
                let want: u16 = hints[i];
                let given: u16 = if want <= remaining {
                    want
                } else {
                    remaining
                };
                remaining = remaining - given;
                cells.set(i, given);
            },
            _ => {},
        }
        i += 1;
    }
    let mut whole: u128 = 0;
    i = 0;
    while i < n
        invariant
            n == sizes.len(),
            i <= n,
            whole as int == weight_sum(sizes@, i as int),
        decreases n - i,
    {
        proof {
            lemma_sums_grow(sizes@, hints@, 0, i as int);
            lemma_sums_grow(sizes@, hints@, 0, i as int + 1);
            assert((i as int + 1) * 65535 <= 0x1_0000_0000_0000_0000 * 65535) by (nonlinear_arith)
                requires
                    i as int + 1 <= 0x1_0000_0000_0000_0000,
            ;
        }
        match sizes[i] {
            Size::Fraction(w) => {
                whole = whole + w as u128;
            },
            _ => {},
        }
        i += 1;
    }
    proof {
        lemma_sums_grow(sizes@, hints@, 0, n as int);
        assert(remaining as int == fraction_room(sizes@, hints@, total as int));
    }
    if whole == 0 {
        proof {
            assert forall|j: int| 0 <= j < n implies cells[j] as int == share(
                sizes@,
                hints@,
                total as int,
                j,
            ) by {
                lemma_weight_within(sizes@, hints@, j, n as int);
            }
            assert(as_lengths(cells@) =~= allocation(sizes@, hints@, total as int));
        }
        return cells;
    }
    let room: u16 = remaining;
    let mut floors: u16 = 0;
    i = 0;
    while i < n
        invariant
            n == sizes.len(),
            n == hints.len(),
            i <= n,
            cells.len() == n,
            whole > 0,
            whole as int == weight_sum(sizes@, n as int),
            room as int == fraction_room(sizes@, hints@, total as int),
            floors as int == floor_sum(sizes@, room as int, whole as int, i as int),
            forall|j: int|
                0 <= j < n ==> cells[j] as int == (match sizes[j] {
                    Size::Fraction(w) => if j < i {
                        (room as int * w as int) / (whole as int)
                    } else {
                        0
                    },
                    _ => share(sizes@, hints@, total as int, j),
                }),
        decreases n - i,
    {
        proof {
            lemma_weight_within(sizes@, hints@, i as int, n as int);
            lemma_floor_share(room as int, weight(sizes@[i as int]), whole as int);
        }
        match sizes[i] {
            Size::Fraction(w) => {
                proof {
                    lemma_floor_sum_bounds(sizes@, hints@, room as int, whole as int, i as int + 1, n as int);
                    lemma_floor_sum_bounds(sizes@, hints@, room as int, whole as int, 0, i as int);
                    lemma_room_covers_floors(sizes@, hints@, room as int, whole as int);
                    assert(room as int * w as int <= 65535 * 65535) by (nonlinear_arith)
                        requires
                            0 <= room as int <= 65535,
                            0 <= w as int <= 65535,
                    ;
                }
                let base: u128 = (room as u128 * w as u128) / whole;
                let base: u16 = base as u16;
                floors = floors + base;
                cells.set(i, base);
            },
            _ => {},
        }
        i += 1;
    }
    proof {
        lemma_room_covers_floors(sizes@, hints@, room as int, whole as int);
    }
    let spare: u16 = room - floors;
    let mut handed: u16 = 0;
    i = 0;
    while i < n
        invariant
            n == sizes.len(),
            n == hints.len(),
            i <= n,
            cells.len() == n,
            whole > 0,
            whole as int == weight_sum(sizes@, n as int),
            room as int == fraction_room(sizes@, hints@, total as int),
            spare as int == leftover(sizes@, hints@, total as int),
            handed as int == clip(positive_count(sizes@, i as int), spare as int),
            forall|j: int|
                0 <= j < n ==> cells[j] as int == (match sizes[j] {
                    Size::Fraction(w) => if j < i {
                        share(sizes@, hints@, total as int, j)
                    } else {
                        (room as int * w as int) / (whole as int)
                    },
                    _ => share(sizes@, hints@, total as int, j),
                }),
        decreases n - i,
    {
        proof {
            lemma_sums_grow(sizes@, hints@, 0, i as int);
        }
        match sizes[i] {
            Size::Fraction(w) => {
                proof {
                    lemma_floor_share(room as int, w as int, whole as int);
                }
                if w > 0 && handed < spare {
                    proof {
                        lemma_floor_sum_bounds(sizes@, hints@, room as int, whole as int, i as int + 1, n as int);
                        lemma_floor_sum_bounds(sizes@, hints@, room as int, whole as int, 0, i as int);
                    }
                    let bumped: u16 = cells[i] + 1;
                    cells.set(i, bumped);
                    handed = handed + 1;
                }
            },
            _ => {},
        }
        i += 1;
    }
    proof {
        assert(as_lengths(cells@) =~= allocation(sizes@, hints@, total as int));
    }
    cells
}

/// The rounded-down shares of all children fit into the room they divide.
pub proof fn lemma_room_covers_floors(sizes: Seq<Size>, hints: Seq<u16>, room: int, whole: int)
    requires
        0 <= room,
        0 < whole,
        whole == weight_sum(sizes, sizes.len() as int),
    ensures
        floor_sum(sizes, room, whole, sizes.len() as int) <= room,
{
    let n = sizes.len() as int;
    lemma_floor_sum_bounds(sizes, hints, room, whole, 0, n);
    let f = floor_sum(sizes, room, whole, n);
    assert(f <= room) by (nonlinear_arith)
        requires
            f * whole <= room * whole,
            0 < whole,
    ;
}

/// `used` cut down to `total`.
pub open spec fn capped(total: int, used: int) -> int {
    if used >= total {
        total
    } else {
        used
    }
}

/// What the first `k` children receive together, in closed form: the exact
/// lengths as far as `total` reaches, then the hints as far as the rest
/// reaches, then the rounded-down shares and the cells handed out on top.
pub open spec fn served(sizes: Seq<Size>, hints: Seq<u16>, total: int, k: int) -> int {
    let n = sizes.len() as int;
    let whole = weight_sum(sizes, n);
    capped(total, length_sum(sizes, k)) + capped(
        total,
        length_sum(sizes, n) + auto_sum(sizes, hints, k),
    ) - capped(total, length_sum(sizes, n)) + if whole > 0 {
        floor_sum(sizes, fraction_room(sizes, hints, total), whole, k) + clip(
            positive_count(sizes, k),
            leftover(sizes, hints, total),
        )
    } else {
        0
    }
}

/// Rounding down loses fewer cells than there are children with a positive
/// weight, so every lost cell finds a child.
pub proof fn lemma_leftover_bounds(sizes: Seq<Size>, hints: Seq<u16>, total: int)
    requires
        0 <= total,
        weight_sum(sizes, sizes.len() as int) > 0,
    ensures
        0 <= leftover(sizes, hints, total) <= positive_count(sizes, sizes.len() as int),
{
    let n = sizes.len() as int;
    let whole = weight_sum(sizes, n);
    let room = fraction_room(sizes, hints, total);
    let f = floor_sum(sizes, room, whole, n);
    let pc = positive_count(sizes, n);
    let left = room - f;
    lemma_sums_grow(sizes, hints, 0, n);
    lemma_floor_sum_bounds(sizes, hints, room, whole, 0, n);
    lemma_room_covers_floors(sizes, hints, room, whole);
    assert(left <= pc) by (nonlinear_arith)
        requires
            room * whole <= f * whole + pc * (whole - 1),
            left == room - f,
            0 < whole,
            0 <= pc,
    ;
}

/// Each child receives between nothing and `total`.
pub proof fn lemma_share_bounds(sizes: Seq<Size>, hints: Seq<u16>, total: int, i: int)
    requires
        0 <= total,
        0 <= i < sizes.len(),
    ensures
        0 <= share(sizes, hints, total, i) <= total,
{
    let n = sizes.len() as int;
    lemma_sums_grow(sizes, hints, 0, i);
    lemma_sums_grow(sizes, hints, 0, n);
    match sizes[i] {
        Size::Fraction(w) => {
            if w > 0 {
                let whole = weight_sum(sizes, n);
                let room = fraction_room(sizes, hints, total);
                lemma_weight_within(sizes, hints, i, n);
                lemma_floor_share(room, w as int, whole);
                lemma_leftover_bounds(sizes, hints, total);
                lemma_floor_sum_bounds(sizes, hints, room, whole, i + 1, n);
                lemma_floor_sum_bounds(sizes, hints, room, whole, 0, i);
            }
        },
        _ => {},
    }
}

/// The first `k` children receive together what the closed form says.
pub proof fn lemma_prefix_served(sizes: Seq<Size>, hints: Seq<u16>, total: int, k: int)
    requires
        0 <= total,
        0 <= k <= sizes.len(),
    ensures
        prefix_total(allocation(sizes, hints, total), k) == served(sizes, hints, total, k),
    decreases k,
{
    let n = sizes.len() as int;
    let whole = weight_sum(sizes, n);
    let room = fraction_room(sizes, hints, total);
    lemma_sums_grow(sizes, hints, 0, n);
    if k > 0 {
        lemma_prefix_served(sizes, hints, total, k - 1);
        lemma_sums_grow(sizes, hints, 0, k - 1);
        lemma_sums_grow(sizes, hints, k, n);
        lemma_weight_within(sizes, hints, k - 1, n);
        assert(allocation(sizes, hints, total)[k - 1] == share(sizes, hints, total, k - 1));
        if whole > 0 {
            lemma_floor_share(room, weight(sizes[k - 1]), whole);
            lemma_leftover_bounds(sizes, hints, total);
        }
    }
}

/// The lengths handed out never exceed `total`. They use it up exactly when
/// some child carries a positive weight; otherwise they add up to what the
/// `Length` and `Auto` children ask for, as far as `total` reaches.
pub proof fn lemma_allocation_total(sizes: Seq<Size>, hints: Seq<u16>, total: int)
    requires
        0 <= total,
    ensures
        total_of(allocation(sizes, hints, total)) <= total,
        weight_sum(sizes, sizes.len() as int) > 0 ==> total_of(allocation(sizes, hints, total))
            == total,
        weight_sum(sizes, sizes.len() as int) == 0 ==> total_of(allocation(sizes, hints, total))
            == capped(total, demand(sizes, hints)),
{
    let n = sizes.len() as int;
    lemma_prefix_served(sizes, hints, total, n);
    lemma_sums_grow(sizes, hints, 0, n);
    if weight_sum(sizes, n) > 0 {
        lemma_leftover_bounds(sizes, hints, total);
    }
}

/// Whenever a child asks by hint or weight for more than nothing and `total`
/// exceeds the exact lengths asked for, the whole of `total` is handed out,
/// provided that a weight is positive or that the `Length` and `Auto`
/// children together ask for at least `total`.
pub proof fn lemma_allocation_fills(sizes: Seq<Size>, hints: Seq<u16>, total: int)
    requires
        0 <= total,
        sizes.len() == hints.len(),
        exists|i: int|
            0 <= i < sizes.len() && (auto_length(#[trigger] sizes[i], hints[i]) > 0 || weight(
                sizes[i],
            ) > 0),
        total > length_sum(sizes, sizes.len() as int),
        weight_sum(sizes, sizes.len() as int) > 0 || demand(sizes, hints) >= total,
    ensures
        total_of(allocation(sizes, hints, total)) == total,
{
    lemma_sums_grow(sizes, hints, 0, sizes.len() as int);
    lemma_allocation_total(sizes, hints, total);
}

/// What the children before child `k` receive together grows with `k` and
/// never exceeds `total`.
pub proof fn lemma_prefix_bounds(sizes: Seq<Size>, hints: Seq<u16>, total: int, j: int, k: int)
    requires
        0 <= total,
        0 <= j <= k <= sizes.len(),
    ensures
        0 <= prefix_total(allocation(sizes, hints, total), j) <= prefix_total(
            allocation(sizes, hints, total),
            k,
        ) <= total,
    decreases sizes.len() - j,
{
    let n = sizes.len() as int;
    let lengths = allocation(sizes, hints, total);
    if j < n {
        lemma_share_bounds(sizes, hints, total, j);
        assert(lengths[j] == share(sizes, hints, total, j));
        if j < k {
            lemma_prefix_bounds(sizes, hints, total, j + 1, k);
        } else {
            lemma_prefix_bounds(sizes, hints, total, j + 1, k + 1);
        }
        lemma_prefix_start(sizes, hints, total, j);
    } else {
        lemma_allocation_total(sizes, hints, total);
        lemma_prefix_start(sizes, hints, total, j);
    }
}

/// No prefix of the lengths adds up to less than nothing.
proof fn lemma_prefix_start(sizes: Seq<Size>, hints: Seq<u16>, total: int, k: int)
    requires
        0 <= total,
        0 <= k <= sizes.len(),
    ensures
        0 <= prefix_total(allocation(sizes, hints, total), k),
    decreases k,
{
    if k > 0 {
        lemma_prefix_start(sizes, hints, total, k - 1);
        lemma_share_bounds(sizes, hints, total, k - 1);
        assert(allocation(sizes, hints, total)[k - 1] == share(sizes, hints, total, k - 1));
    }
}

/// Once the children served before child `i` have asked for all of
/// `total`, child `i` receives nothing.
pub proof fn lemma_exhausted_gives_nothing(
    sizes: Seq<Size>,
    hints: Seq<u16>,
    total: int,
    i: int,
)
    requires
        0 <= total,
        0 <= i < sizes.len(),
        match sizes[i] {
            Size::Length(_) => length_sum(sizes, i) >= total,
            Size::Auto => length_sum(sizes, sizes.len() as int) + auto_sum(sizes, hints, i)
                >= total,
            Size::Fraction(_) => demand(sizes, hints) >= total,
        },
    ensures
        share(sizes, hints, total, i) == 0,
{
    let n = sizes.len() as int;
    match sizes[i] {
        Size::Fraction(w) => {
            if w > 0 {
                let whole = weight_sum(sizes, n);
                lemma_weight_within(sizes, hints, i, n);
                lemma_floor_share(0, w as int, whole);
                lemma_leftover_bounds(sizes, hints, total);
                lemma_floor_sum_bounds(sizes, hints, 0, whole, 0, n);
                lemma_room_covers_floors(sizes, hints, 0, whole);
                lemma_sums_grow(sizes, hints, 0, i);
            }
        },
        _ => {},
    }
}

} // verus!
