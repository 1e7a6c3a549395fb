//! Parting the screen into areas.

use ratatui::layout::{Constraint, Direction, Layout, Rect};
use vstd::prelude::*;

verus! {

/// A part of the screen, in cells.
#[derive(Clone, Copy, Debug, PartialEq, Eq, Structural)]
pub struct Area {
    pub x: u16,
    pub y: u16,
    pub width: u16,
    pub height: u16,
}

/// Which way an area is parted.
#[derive(Clone, Copy, Debug, PartialEq, Eq, Structural)]
pub enum Axis {
    /// Side by side.
    Horizontal,
    /// One above the other.
    Vertical,
}

/// What size a part of an area should have.
#[derive(Clone, Copy, Debug, PartialEq, Eq, Structural)]
pub enum Size {
    Min(u16),
    Length(u16),
    Percentage(u16),
    Fill(u16),
}

impl Area {
    /// No cell lies outside the other area.
    pub open spec fn is_within(self, other: Area) -> bool {
        &&& other.x <= self.x
        &&& self.x + self.width <= other.x + other.width
        &&& other.y <= self.y
        &&& self.y + self.height <= other.y + other.height
    }
}

/// Where an area starts along an axis.
pub open spec fn start(area: Area, axis: Axis) -> nat {
    match axis {
        Axis::Horizontal => area.x as nat,
        Axis::Vertical => area.y as nat,
    }
}

/// How large an area is along an axis.
pub open spec fn extent(area: Area, axis: Axis) -> nat {
    match axis {
        Axis::Horizontal => area.width as nat,
        Axis::Vertical => area.height as nat,
    }
}

/// The smaller of two numbers.
pub open spec fn least(left: nat, right: nat) -> nat {
    if left < right {
        left
    } else {
        right
    }
}

/// How much of an area lies where coordinates have numbers: all of it, unless it runs over
/// the largest one.
pub open spec fn reach(area: Area, axis: Axis) -> nat {
    least(extent(area, axis), (u16::MAX - start(area, axis)) as nat)
}

/// The least height of what stands above a footer.
pub const LEAST_BODY: u16 = 3;

/// The sizes are that of a body, which has a least size and takes what is left, and that of a
/// footer.
pub open spec fn is_body_and_footer(sizes: Seq<Size>) -> bool {
    sizes.len() == 2 && sizes[0] == Size::Min(LEAST_BODY) && sizes[1] is Length
}

/// The sizes are those of something of a given length in the middle of even margins.
pub open spec fn is_middle(sizes: Seq<Size>) -> bool {
    sizes.len() == 3 && sizes[0] == Size::Fill(1) && sizes[1] is Length && sizes[2] == Size::Fill(1)
}

/// The first `n` of shares together, in percent.
pub open spec fn shares(sizes: Seq<Size>, n: int) -> nat
    decreases n,
{
    if n <= 0 {
        0
    } else {
        shares(sizes, n - 1) + sizes[n - 1]->Percentage_0 as nat
    }
}

/// The sizes are up to three shares of no more than everything.
pub open spec fn are_shares(sizes: Seq<Size>) -> bool {
    &&& 0 < sizes.len() <= 3
    &&& forall|i: int| 0 <= i < sizes.len() ==> #[trigger] sizes[i] is Percentage
    &&& shares(sizes, sizes.len() as int) <= 100
}

/// The sizes are ones that the explorer parts an area by.
pub open spec fn can_split(sizes: Seq<Size>) -> bool {
    is_body_and_footer(sizes) || is_middle(sizes) || are_shares(sizes)
}

/// How large the body is above a footer. Where both do not fit, the body keeps its least size
/// as far as there is room.
pub open spec fn body_size(total: nat, footer: nat) -> nat {
    if LEAST_BODY + footer <= total {
        (total - footer) as nat
    } else {
        least(LEAST_BODY as nat, total)
    }
}

/// How large the margin before something in the middle is: half of what is left, and the
/// larger half where that is odd.
pub open spec fn margin(total: nat, length: nat) -> nat {
    ((total - least(length, total) + 1) / 2) as nat
}

/// A share of a number, rounded to the nearest whole number, and up from the middle.
pub open spec fn rounded_share(total: nat, percent: nat) -> nat {
    (total * percent + 50) / 100
}

/// How far behind the start of an area of size `total` the part at place `i` begins, and the
/// part before it ends.
pub open spec fn cut(sizes: Seq<Size>, total: nat, i: int) -> nat {
    if is_body_and_footer(sizes) {
        if i <= 0 {
            0
        } else if i == 1 {
            body_size(total, sizes[1]->Length_0 as nat)
        } else {
            total
        }
    } else if is_middle(sizes) {
        let length = sizes[1]->Length_0 as nat;
        if i <= 0 {
            0
        } else if i == 1 {
            margin(total, length)
        } else if i == 2 {
            margin(total, length) + least(length, total)
        } else {
            total
        }
    } else {
        rounded_share(total, shares(sizes, i))
    }
}

/// The parts are those that sizes part an area into. They stand one behind the other along
/// the axis, and across it each is as large as the area.
pub open spec fn is_split(axis: Axis, sizes: Seq<Size>, area: Area, parts: Seq<Area>) -> bool {
    &&& parts.len() == sizes.len()
    &&& forall|i: int|
        0 <= i < parts.len() ==> {
            let total = reach(area, axis);
            &&& start(#[trigger] parts[i], axis) == start(area, axis) + cut(sizes, total, i)
            &&& extent(parts[i], axis) == cut(sizes, total, i + 1) - cut(sizes, total, i)
            &&& match axis {
                Axis::Horizontal => parts[i].y == area.y && parts[i].height == area.height,
                Axis::Vertical => parts[i].x == area.x && parts[i].width == area.width,
            }
        }
}

/// Calls `ratatui::layout::Layout::split` with the axis and the sizes. Claimed of it, for the
/// three kinds of sizes that are handed to it: the parts stand one behind the other from the
/// start of the area on, and across the axis each is as large as the area. A length is kept,
/// the minimum before it takes what is left, and where both do not fit the minimum comes
/// first. Two even fills share what a length between them leaves, and percentages of no more
/// than everything are kept. Ends are rounded to whole cells.
#[verifier::external_body]
pub(crate) fn split(axis: Axis, sizes: &Vec<Size>, area: Area) -> (r: Vec<Area>)
    requires
        can_split(sizes@),
    ensures
        is_split(axis, sizes@, area, r@),
{
    let direction = match axis {
        Axis::Horizontal => Direction::Horizontal,
        Axis::Vertical => Direction::Vertical,
    };
    let constraints = sizes.iter().map(|size| match size {
        Size::Min(n) => Constraint::Min(*n),
        Size::Length(n) => Constraint::Length(*n),
        Size::Percentage(n) => Constraint::Percentage(*n),
        Size::Fill(n) => Constraint::Fill(*n),
    });
    let rect = Rect { x: area.x, y: area.y, width: area.width, height: area.height };
    let parts = Layout::default().direction(direction).constraints(constraints).split(rect);
    parts.iter().map(|p| Area { x: p.x, y: p.y, width: p.width, height: p.height }).collect()
}

/// What a footer of some height leaves of an area.
pub open spec fn body_area(area: Area, footer: u16) -> Area {
    let total = reach(area, Axis::Vertical);
    Area { height: body_size(total, footer as nat) as u16, ..area }
}

/// The footer of an area, below the body.
pub open spec fn footer_area(area: Area, footer: u16) -> Area {
    let total = reach(area, Axis::Vertical);
    let body = body_size(total, footer as nat);
    Area { y: (area.y + body) as u16, height: (total - body) as u16, ..area }
}

/// Parts an area into a body and a footer below it.
pub fn split_body_and_footer(area: Area, footer: u16) -> (r: (Area, Area))
    ensures
        r == (body_area(area, footer), footer_area(area, footer)),
{
    let mut sizes: Vec<Size> = Vec::new();
    sizes.push(Size::Min(LEAST_BODY));
    sizes.push(Size::Length(footer));
    let parts = split(Axis::Vertical, &sizes, area);
    assert(start(parts@[0], Axis::Vertical) == area.y);
    assert(start(parts@[1], Axis::Vertical) == area.y + body_area(area, footer).height);
    (parts[0], parts[1])
}

/// The share of the width on either side of a popup, in percent.
pub open spec fn side_share(percent_x: u16) -> nat {
    ((100 - percent_x) / 2) as nat
}

/// The place for a popup: in the middle, as high as it should be and as wide as its share, as
/// far as there is room.
pub open spec fn popup_area(percent_x: u16, height: u16, area: Area) -> Area {
    let rows = reach(area, Axis::Vertical);
    let columns = reach(area, Axis::Horizontal);
    let left = rounded_share(columns, side_share(percent_x));
    let right = rounded_share(columns, side_share(percent_x) + percent_x as nat);
    Area {
        x: (area.x + left) as u16,
        y: (area.y + margin(rows, height as nat)) as u16,
        width: (right - left) as u16,
        height: least(height as nat, rows) as u16,
    }
}

proof fn shares_are_bounded(total: nat, percent: nat)
    requires
        percent <= 100,
    ensures
        rounded_share(total, percent) <= total,
{
    assert(total * percent <= total * 100) by (nonlinear_arith)
        requires
            percent <= 100,
    ;
}

proof fn shares_grow(total: nat, less: nat, more: nat)
    requires
        less <= more,
    ensures
        rounded_share(total, less) <= rounded_share(total, more),
{
    assert(total * less <= total * more) by (nonlinear_arith)
        requires
            less <= more,
    ;
}

/// Finds the place for a popup that takes some part of the width and has some height, as far
/// as there is room.
pub fn centered_rect(percent_x: u16, height: u16, area: Area) -> (r: Area)
    requires
        percent_x <= 100,
    ensures
        r == popup_area(percent_x, height, area),
{
    let inner = if height < area.height {
        height
    } else {
        area.height
    };
    let mut heights: Vec<Size> = Vec::new();
    heights.push(Size::Fill(1));
    heights.push(Size::Length(inner));
    heights.push(Size::Fill(1));
    let rows = split(Axis::Vertical, &heights, area);
    let side: u16 = (100 - percent_x) / 2;
    let mut widths: Vec<Size> = Vec::new();
    widths.push(Size::Percentage(side));
    widths.push(Size::Percentage(percent_x));
    widths.push(Size::Percentage(side));
    let ghost total = reach(area, Axis::Horizontal);
    proof {
        reveal_with_fuel(shares, 4);
        assert(shares(widths@, 1) == side);
        assert(shares(widths@, 2) == side + percent_x);
        assert(shares(widths@, 3) <= 100);
        shares_are_bounded(total, (side + percent_x) as nat);
        shares_grow(total, side as nat, (side + percent_x) as nat);
    }
    let columns = split(Axis::Horizontal, &widths, rows[1]);
    assert(start(rows@[1], Axis::Vertical) == area.y + margin(
        reach(area, Axis::Vertical),
        height as nat,
    ));
    assert(start(columns@[1], Axis::Horizontal) == area.x + rounded_share(total, side as nat));
    columns[1]
}

/// The parts of an area lie within it, each ends where the next begins, and the first begins
/// where the area begins.
pub proof fn parts_stand_one_behind_the_other(
    axis: Axis,
    sizes: Seq<Size>,
    area: Area,
    parts: Seq<Area>,
    i: int,
)
    requires
        can_split(sizes),
        is_split(axis, sizes, area, parts),
        0 <= i < parts.len(),
    ensures
        parts[i].is_within(area),
        start(parts[0], axis) == start(area, axis),
        i + 1 < parts.len() ==> start(parts[i + 1], axis) == start(parts[i], axis) + extent(
            parts[i],
            axis,
        ),
{
    let total = reach(area, axis);
    assert(start(parts[i], axis) == start(area, axis) + cut(sizes, total, i));
    if i + 1 < parts.len() {
        assert(start(parts[i + 1], axis) == start(area, axis) + cut(sizes, total, i + 1));
    }
    reveal_with_fuel(shares, 4);
    assert(start(parts[0], axis) == start(area, axis) + cut(sizes, total, 0));
    if !is_body_and_footer(sizes) && !is_middle(sizes) {
        assert(sizes[i] is Percentage);
        assert(total * 0 == 0);
        shares_are_bounded(total, shares(sizes, i + 1));
        shares_grow(total, shares(sizes, i), shares(sizes, i + 1));
    }
}

/// A footer stands below its body: it begins where the body ends. With room for both it has
/// its height, and the body no less than its least one.
pub proof fn footers_stand_below_the_body(area: Area, footer: u16)
    ensures
        footer_area(area, footer).y == area.y + body_area(area, footer).height,
        body_area(area, footer).is_within(area),
        footer_area(area, footer).is_within(area),
        LEAST_BODY + footer <= reach(area, Axis::Vertical) ==> footer_area(area, footer).height
            == footer && body_area(area, footer).height >= LEAST_BODY,
{
}

/// A popup lies within the area that it is centered in, and is as high as was asked for, or
/// as high as the area where that is not enough.
pub proof fn popups_have_their_height(percent_x: u16, height: u16, area: Area)
    requires
        percent_x <= 100,
    ensures
        popup_area(percent_x, height, area).is_within(area),
        popup_area(percent_x, height, area).height == least(
            height as nat,
            reach(area, Axis::Vertical),
        ),
{
    let total = reach(area, Axis::Horizontal);
    let side = side_share(percent_x);
    shares_are_bounded(total, side + percent_x as nat);
    shares_grow(total, side, side + percent_x as nat);
}

/// A popup is as wide as its share of the area, to within one cell.
pub proof fn popups_have_their_width(percent_x: u16, height: u16, area: Area)
    requires
        percent_x <= 100,
    ensures
        ({
            let total = reach(area, Axis::Horizontal);
            let width = popup_area(percent_x, height, area).width;
            &&& 100 * width < total * percent_x + 100
            &&& total * percent_x < 100 * width + 100
        }),
{
    let total = reach(area, Axis::Horizontal);
    let side = side_share(percent_x);
    shares_are_bounded(total, side + percent_x as nat);
    shares_grow(total, side, side + percent_x as nat);
    assert(total * (side + percent_x as nat) == total * side + total * (percent_x as nat))
        by (nonlinear_arith);
}

/// A popup stands in the middle: what is left above and below it differs by at most one
/// cell, and so does what is left beside it where its share is even.
pub proof fn popups_stand_in_the_middle(percent_x: u16, height: u16, area: Area)
    requires
        percent_x <= 100,
    ensures
        ({
            let popup = popup_area(percent_x, height, area);
            let above = popup.y - area.y;
            let below = reach(area, Axis::Vertical) - popup.height - above;
            let left = popup.x - area.x;
            let right = reach(area, Axis::Horizontal) - popup.width - left;
            &&& 0 <= above - below <= 1
            &&& percent_x % 2 == 0 ==> -1 <= left - right <= 1
        }),
{
    let total = reach(area, Axis::Horizontal);
    let side = side_share(percent_x);
    shares_are_bounded(total, side + percent_x as nat);
    shares_grow(total, side, side + percent_x as nat);
    if percent_x % 2 == 0 {
        assert(side + percent_x as nat == 100 - side);
        assert(total * (100 - side) == total * 100 - total * side) by (nonlinear_arith);
    }
}

/// A body and its footer are as wide as the area. The footer has its height where three rows
/// are left above it; else the body has these, or all rows where there are fewer, and the
/// footer what is left.
pub proof fn bodies_and_footers_share_the_rows(area: Area, footer: u16)
    requires
        area.y + area.height <= u16::MAX,
    ensures
        ({
            let body = body_area(area, footer);
            let below = footer_area(area, footer);
            &&& body.x == area.x && body.y == area.y && body.width == area.width
            &&& below.x == area.x && below.width == area.width
            &&& below.y == area.y + body.height
            &&& body.height + below.height == area.height
            &&& footer + 3 <= area.height ==> below.height == footer
            &&& footer + 3 > area.height && area.height >= 3 ==> body.height == 3
            &&& area.height < 3 ==> below.height == 0
        }),
{
}

} // verus!
