//! How a part of the screen is divided.

use vstd::prelude::*;

use crate::screen;
use crate::screen::Rect;

verus! {

/// How much of a part of the screen something gets.
#[derive(Debug, Clone, Copy, PartialEq, Eq, Structural)]
pub enum Portion {
    /// So many rows or columns.
    Length(u16),
    /// What is left, but so many rows or columns at least.
    Min(u16),
    /// So many hundredths.
    Percentage(u16),
}

/// What a portion asks for as a number of rows or columns.
pub open spec fn asked(portion: Portion) -> int {
    match portion {
        Portion::Length(size) => size as int,
        Portion::Min(size) => size as int,
        Portion::Percentage(size) => 0,
    }
}

/// What some portions ask for together.
pub open spec fn asked_together(portions: Seq<Portion>) -> int
    decreases portions.len(),
{
    if portions.len() == 0 {
        0
    } else {
        asked_together(portions.drop_last()) + asked(portions.last())
    }
}

/// The hundredths that some portions ask for together.
pub open spec fn hundredths(portions: Seq<Portion>) -> int
    decreases portions.len(),
{
    if portions.len() == 0 {
        0
    } else {
        hundredths(portions.drop_last()) + (match portions.last() {
            Portion::Percentage(size) => size as int,
            _ => 0,
        })
    }
}

/// How many of some portions get what is left.
pub open spec fn takers(portions: Seq<Portion>) -> int
    decreases portions.len(),
{
    if portions.len() == 0 {
        0
    } else {
        takers(portions.drop_last()) + (if portions.last() is Min {
            1int
        } else {
            0
        })
    }
}

/// Whether the portions are hundredths that make up the whole.
pub open spec fn shares(portions: Seq<Portion>) -> bool {
    &&& forall|i: int| 0 <= i < portions.len() ==> (#[trigger] portions[i]) is Percentage
    &&& hundredths(portions) == 100
}

/// Whether the portions fit into `size` rows or columns, with one of them to
/// take what is left.
pub open spec fn fits(portions: Seq<Portion>, size: int) -> bool {
    &&& forall|i: int| 0 <= i < portions.len() ==> !((#[trigger] portions[i]) is Percentage)
    &&& forall|i: int| 0 <= i < portions.len() ==> asked(#[trigger] portions[i]) <= i16::MAX
    &&& takers(portions) == 1
    &&& asked_together(portions) <= size
}

/// Where the part for the portion at place `i` begins, counted from where the
/// whole of `size` rows or columns does. Hundredths are rounded; of the other
/// portions the one that takes what is left makes up the difference.
pub open spec fn begins(portions: Seq<Portion>, size: int, i: int) -> int {
    if shares(portions) {
        (size * hundredths(portions.take(i)) + 50) / 100
    } else {
        asked_together(portions.take(i)) + takers(portions.take(i)) * (size - asked_together(
            portions,
        ))
    }
}

/// Whether the portions say exactly how `size` rows or columns are divided.
pub open spec fn settled(portions: Seq<Portion>, size: int) -> bool {
    shares(portions) || fits(portions, size)
}

/// The parts of a part of the screen that lie below each other, where the
/// portions settle them.
pub open spec fn rows_of(area: Rect, portions: Seq<Portion>) -> Seq<Rect> {
    Seq::new(
        portions.len(),
        |i: int|
            Rect {
                x: area.x,
                y: (area.y + begins(portions, area.height as int, i)) as u16,
                width: area.width,
                height: (begins(portions, area.height as int, i + 1) - begins(
                    portions,
                    area.height as int,
                    i,
                )) as u16,
            },
    )
}

/// The parts of a part of the screen that lie beside each other, where the
/// portions settle them.
pub open spec fn columns_of(area: Rect, portions: Seq<Portion>) -> Seq<Rect> {
    Seq::new(
        portions.len(),
        |i: int|
            Rect {
                x: (area.x + begins(portions, area.width as int, i)) as u16,
                y: area.y,
                width: (begins(portions, area.width as int, i + 1) - begins(
                    portions,
                    area.width as int,
                    i,
                )) as u16,
                height: area.height,
            },
    )
}

/// `Layout::vertical` of `ratatui`, with `Layout::split`: one part for each
/// portion, as wide as the whole. Where the portions settle it, a length gets
/// just that, a minimum gets what is left, and hundredths are rounded to whole
/// rows. Where they conflict the solver behind it is free to choose, and
/// nothing is said of where the parts begin and end.
#[verifier::external_body]
pub(crate) fn split_rows(area: Rect, portions: &Vec<Portion>) -> (parts: Vec<Rect>)
    ensures
        parts.len() == portions.len(),
        forall|i: int|
            0 <= i < parts.len() ==> (#[trigger] parts[i]).x == area.x && parts[i].width
                == area.width,
        area.y + area.height <= u16::MAX && settled(portions@, area.height as int) ==> parts@
            == rows_of(area, portions@),
{
    let constraints = portions.iter().map(|portion| match portion {
        Portion::Length(size) => ratatui::layout::Constraint::Length(*size),
        Portion::Min(size) => ratatui::layout::Constraint::Min(*size),
        Portion::Percentage(size) => ratatui::layout::Constraint::Percentage(*size),
    });
    let Rect { x, y, width, height } = area;
    let parts = ratatui::layout::Layout::vertical(constraints)
        .split(ratatui::layout::Rect { x, y, width, height });
    parts
        .iter()
        .map(|part| Rect { x: part.x, y: part.y, width: part.width, height: part.height })
        .collect()
}

/// `Layout::horizontal` of `ratatui`, with `Layout::split`: one part for each
/// portion, as high as the whole, divided as `Layout::vertical` divides rows.
#[verifier::external_body]
pub(crate) fn split_columns(area: Rect, portions: &Vec<Portion>) -> (parts: Vec<Rect>)
    ensures
        parts.len() == portions.len(),
        forall|i: int|
            0 <= i < parts.len() ==> (#[trigger] parts[i]).y == area.y && parts[i].height
                == area.height,
        area.x + area.width <= u16::MAX && settled(portions@, area.width as int) ==> parts@
            == columns_of(area, portions@),
{
    let constraints = portions.iter().map(|portion| match portion {
        Portion::Length(size) => ratatui::layout::Constraint::Length(*size),
        Portion::Min(size) => ratatui::layout::Constraint::Min(*size),
        Portion::Percentage(size) => ratatui::layout::Constraint::Percentage(*size),
    });
    let Rect { x, y, width, height } = area;
    let parts = ratatui::layout::Layout::horizontal(constraints)
        .split(ratatui::layout::Rect { x, y, width, height });
    parts
        .iter()
        .map(|part| Rect { x: part.x, y: part.y, width: part.width, height: part.height })
        .collect()
}

/// The rows from `from` up to `to` of a part of the screen.
pub open spec fn band(area: Rect, from: int, to: int) -> Rect {
    Rect { y: (area.y + from) as u16, height: (to - from) as u16, ..area }
}

/// The columns from `from` up to `to` of a part of the screen.
pub open spec fn strip(area: Rect, from: int, to: int) -> Rect {
    Rect { x: (area.x + from) as u16, width: (to - from) as u16, ..area }
}

/// One where a part of the screen holds a place, and zero where it does not.
pub open spec fn held(area: Rect, x: u16, y: u16) -> int {
    if screen::lies_in(area, x, y) {
        1
    } else {
        0
    }
}

/// So many hundredths of some rows or columns, rounded to whole ones.
pub open spec fn share(size: int, percent: int) -> int {
    (size * percent + 50) / 100
}

/// What the first portions ask for, with one more of them.
pub proof fn sums_grow(portions: Seq<Portion>, i: int)
    requires
        0 <= i < portions.len(),
    ensures
        asked_together(portions.take(i + 1)) == asked_together(portions.take(i)) + asked(
            portions[i],
        ),
        takers(portions.take(i + 1)) == takers(portions.take(i)) + (if portions[i] is Min {
            1int
        } else {
            0
        }),
        hundredths(portions.take(i + 1)) == hundredths(portions.take(i)) + (match portions[i] {
            Portion::Percentage(size) => size as int,
            _ => 0,
        }),
{
    assert(portions.take(i + 1).drop_last() =~= portions.take(i));
}

proof fn two_shares(portions: Seq<Portion>, size: int, percent: int)
    requires
        0 <= percent <= 100,
        size >= 0,
        portions.len() == 2,
        portions[0] == Portion::Percentage(percent as u16),
        portions[1] == Portion::Percentage((100 - percent) as u16),
    ensures
        shares(portions),
        begins(portions, size, 0) == 0,
        begins(portions, size, 1) == share(size, percent),
        begins(portions, size, 2) == size,
{
    assert(portions.take(2) =~= portions);
    sums_grow(portions, 0);
    sums_grow(portions, 1);
}

/// Divides a part of the screen into `first` rows and the rest.
pub fn rows_and_rest(area: Rect, first: u16, least: u16) -> (parts: (Rect, Rect))
    ensures
        parts.0.x == area.x && parts.0.width == area.width && parts.1.x == area.x
            && parts.1.width == area.width,
        least <= i16::MAX && first <= i16::MAX && first + least <= area.height && area.y
            + area.height <= u16::MAX ==> parts.0 == band(area, 0, first as int) && parts.1
            == band(area, first as int, area.height as int),
{
    let mut portions: Vec<Portion> = Vec::new();
    portions.push(Portion::Length(first));
    portions.push(Portion::Min(least));
    let parts = split_rows(area, &portions);
    proof {
        let list = portions@;
        assert(list.take(2) =~= list);
        sums_grow(list, 0);
        sums_grow(list, 1);
        if least <= i16::MAX && first <= i16::MAX && first + least <= area.height && area.y
            + area.height <= u16::MAX {
            assert(!(list[0] is Percentage));
            assert(fits(list, area.height as int));
            assert(!shares(list));
            assert(begins(list, area.height as int, 0) == 0);
            assert(begins(list, area.height as int, 1) == first);
            assert(begins(list, area.height as int, 2) == area.height);
            assert(parts@[0] == rows_of(area, list)[0]);
            assert(parts@[1] == rows_of(area, list)[1]);
        }
    }
    (parts[0], parts[1])
}

/// Divides a part of the screen into two that lie below each other, the upper
/// one with so many hundredths of the rows.
pub fn shared_rows(area: Rect, percent: u16) -> (parts: (Rect, Rect))
    requires
        percent <= 100,
    ensures
        parts.0.x == area.x && parts.0.width == area.width && parts.1.x == area.x
            && parts.1.width == area.width,
        area.y + area.height <= u16::MAX ==> {
            let at = share(area.height as int, percent as int);
            parts.0 == band(area, 0, at) && parts.1 == band(area, at, area.height as int)
        },
{
    let mut portions: Vec<Portion> = Vec::new();
    portions.push(Portion::Percentage(percent));
    portions.push(Portion::Percentage(100 - percent));
    let parts = split_rows(area, &portions);
    proof {
        two_shares(portions@, area.height as int, percent as int);
        if area.y + area.height <= u16::MAX {
            assert(parts@[0] == rows_of(area, portions@)[0]);
            assert(parts@[1] == rows_of(area, portions@)[1]);
        }
    }
    (parts[0], parts[1])
}

/// Divides a part of the screen into two that lie beside each other, the left
/// one with so many hundredths of the columns.
pub fn shared_columns(area: Rect, percent: u16) -> (parts: (Rect, Rect))
    requires
        percent <= 100,
    ensures
        parts.0.y == area.y && parts.0.height == area.height && parts.1.y == area.y
            && parts.1.height == area.height,
        area.x + area.width <= u16::MAX ==> {
            let at = share(area.width as int, percent as int);
            parts.0 == strip(area, 0, at) && parts.1 == strip(area, at, area.width as int)
        },
{
    let mut portions: Vec<Portion> = Vec::new();
    portions.push(Portion::Percentage(percent));
    portions.push(Portion::Percentage(100 - percent));
    let parts = split_columns(area, &portions);
    proof {
        two_shares(portions@, area.width as int, percent as int);
        if area.x + area.width <= u16::MAX {
            assert(parts@[0] == columns_of(area, portions@)[0]);
            assert(parts@[1] == columns_of(area, portions@)[1]);
        }
    }
    (parts[0], parts[1])
}

} // verus!
