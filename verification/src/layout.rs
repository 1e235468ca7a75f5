//! Screen areas and the placement of the pop-up entry box.

use vstd::prelude::*;

verus! {

/// A rectangle of terminal cells: top-left corner and size.
#[derive(Debug, Clone, Copy, PartialEq, Eq, Structural)]
pub struct Area {
    pub x: u16,
    pub y: u16,
    pub width: u16,
    pub height: u16,
}

/// The direction in which an area is divided.
#[derive(Debug, Clone, Copy, PartialEq, Eq, Structural)]
pub enum SplitDirection {
    Horizontal,
    Vertical,
}

/// `part` is a piece of `area` cut along `direction`: it spans `area`
/// across the cut and lies within it along the cut.
pub open spec fn split_piece(direction: SplitDirection, part: Area, area: Area) -> bool {
    match direction {
        SplitDirection::Horizontal => {
            &&& part.y == area.y
            &&& part.height == area.height
            &&& area.x <= part.x
            &&& part.x + part.width <= area.x + area.width
        },
        SplitDirection::Vertical => {
            &&& part.x == area.x
            &&& part.width == area.width
            &&& area.y <= part.y
            &&& part.y + part.height <= area.y + area.height
        },
    }
}

/// `a` lies within `r`.
pub open spec fn inside(a: Area, r: Area) -> bool {
    &&& r.x <= a.x
    &&& a.x + a.width <= r.x + r.width
    &&& r.y <= a.y
    &&& a.y + a.height <= r.y + r.height
}

/// Where `a` starts along `direction`.
pub open spec fn start_on(direction: SplitDirection, a: Area) -> int {
    match direction {
        SplitDirection::Horizontal => a.x as int,
        SplitDirection::Vertical => a.y as int,
    }
}

/// How long `a` is along `direction`.
pub open spec fn len_on(direction: SplitDirection, a: Area) -> int {
    match direction {
        SplitDirection::Horizontal => a.width as int,
        SplitDirection::Vertical => a.height as int,
    }
}

/// The sum of the percentages.
pub open spec fn percent_sum(p: Seq<u16>) -> int
    decreases p.len(),
{
    if p.len() == 0 {
        0
    } else {
        percent_sum(p.drop_last()) + p.last()
    }
}

/// `area` reaches no further than the largest coordinate along `direction`.
pub open spec fn fits_on(direction: SplitDirection, area: Area) -> bool {
    start_on(direction, area) + len_on(direction, area) <= 65535
}

/// `parts` divide `area` along `direction` by `percents`: one piece per
/// percentage, the first at the start of `area`, each ending where the next
/// starts, and each within one cell of its share of the length of `area`.
pub open spec fn laid_out(direction: SplitDirection, percents: Seq<u16>, area: Area, parts: Seq<Area>) -> bool {
    &&& parts.len() == percents.len()
    &&& parts.len() > 0 ==> start_on(direction, parts[0]) == start_on(direction, area)
    &&& forall|i: int|
        0 <= i < parts.len() - 1 ==> start_on(direction, #[trigger] parts[i]) + len_on(direction, parts[i])
            == start_on(direction, parts[i + 1])
    &&& forall|i: int|
        0 <= i < parts.len() ==> -100 <= 100 * len_on(direction, #[trigger] parts[i]) - len_on(direction, area)
            * percents[i] <= 100
}

/// Divides `area` by percentages with ratatui's `Layout::split` (default
/// margin, spacing and flex, the flex being `Start`). Stated: one area per
/// percentage, as the solver builds one segment per constraint; each keeps
/// the position and size of `area` across the cut, as the areas are built
/// from the unmargined `area`; and each lies within `area` along the cut, as
/// every segment border is a required constraint between the area's start
/// and end. When the percentages add up to at most 100 and `area` does not
/// reach past the largest coordinate, every percentage can be met at once
/// with no space between segments and the rest left after the last one,
/// which is the solver's single best solution (percentage sizes are strong
/// constraints, the gaps between segments near-required, the growth of the
/// trailing space and the balancing of segments weak); borders are then
/// rounded to whole cells, so the pieces are [`laid_out`]. Otherwise where
/// each border falls is not stated: with conflicting percentages the solver's
/// choice rests on hash maps seeded per process.
#[verifier::external_body]
fn split_by_percentages(direction: SplitDirection, percents: &Vec<u16>, area: Area) -> (r: Vec<Area>)
    ensures
        r@.len() == percents@.len(),
        forall|i: int| 0 <= i < r@.len() ==> split_piece(direction, #[trigger] r@[i], area),
        percent_sum(percents@) <= 100 && fits_on(direction, area) ==> laid_out(direction, percents@, area, r@),
{
    let dir = match direction {
        SplitDirection::Horizontal => ratatui::layout::Direction::Horizontal,
        SplitDirection::Vertical => ratatui::layout::Direction::Vertical,
    };
    let rect = ratatui::layout::Rect { x: area.x, y: area.y, width: area.width, height: area.height };
    let constraints = percents.iter().map(|p| ratatui::layout::Constraint::Percentage(*p));
    let parts = ratatui::layout::Layout::default().direction(dir).constraints(constraints).split(rect);
    parts.iter().map(|r| Area { x: r.x, y: r.y, width: r.width, height: r.height }).collect()
}

/// The box of `percent_x` by `percent_y` percent in the middle of `r`: the
/// middle band of a vertical split in (100 - p) / 2, p, (100 - p) / 2
/// percent, split the same way horizontally. The box lies within `r`; when
/// `r` does not reach past the largest coordinate, its size and its offset
/// from the corner of `r` are each within one cell of their shares of the
/// size of `r`.
pub fn centered_rect(percent_x: u16, percent_y: u16, r: Area) -> (a: Area)
    requires
        percent_x <= 100,
        percent_y <= 100,
    ensures
        inside(a, r),
        r.x + r.width <= 65535 ==> {
            &&& -100 <= 100 * (a.x - r.x) - r.width * ((100 - percent_x) / 2) <= 100
            &&& -100 <= 100 * a.width - r.width * percent_x <= 100
        },
        r.y + r.height <= 65535 ==> {
            &&& -100 <= 100 * (a.y - r.y) - r.height * ((100 - percent_y) / 2) <= 100
            &&& -100 <= 100 * a.height - r.height * percent_y <= 100
        },
{
    let side_y = (100 - percent_y) / 2;
    let side_x = (100 - percent_x) / 2;
    let mut rows: Vec<u16> = Vec::new();
    rows.push(side_y);
    rows.push(percent_y);
    rows.push(side_y);
    assert(rows@ =~= seq![side_y, percent_y, side_y]);
    proof {
        lemma_three_percents(side_y, percent_y);
    }
    let bands = split_by_percentages(SplitDirection::Vertical, &rows, r);
    let band = bands[1];
    let mut cols: Vec<u16> = Vec::new();
    cols.push(side_x);
    cols.push(percent_x);
    cols.push(side_x);
    assert(cols@ =~= seq![side_x, percent_x, side_x]);
    proof {
        lemma_three_percents(side_x, percent_x);
    }
    let parts = split_by_percentages(SplitDirection::Horizontal, &cols, band);
    let a = parts[1];
    proof {
        assert(split_piece(SplitDirection::Vertical, bands@[1], r));
        assert(split_piece(SplitDirection::Horizontal, parts@[1], band));
        if r.y + r.height <= 65535 {
            assert(laid_out(SplitDirection::Vertical, rows@, r, bands@));
            assert(start_on(SplitDirection::Vertical, bands@[0]) + len_on(SplitDirection::Vertical, bands@[0])
                == start_on(SplitDirection::Vertical, bands@[1]));
            assert(rows@[0] == side_y && rows@[1] == percent_y);
        }
        if r.x + r.width <= 65535 {
            assert(laid_out(SplitDirection::Horizontal, cols@, band, parts@));
            assert(start_on(SplitDirection::Horizontal, parts@[0]) + len_on(SplitDirection::Horizontal, parts@[0])
                == start_on(SplitDirection::Horizontal, parts@[1]));
            assert(cols@[0] == side_x && cols@[1] == percent_x);
        }
    }
    a
}

/// The side, middle and side shares of a centered split add up to at most
/// 100.
proof fn lemma_three_percents(side: u16, p: u16)
    requires
        p <= 100,
        side == (100 - p) / 2,
    ensures
        percent_sum(seq![side, p, side]) <= 100,
{
    let s = seq![side, p, side];
    assert(s.drop_last() =~= seq![side, p]);
    assert(s.drop_last().drop_last() =~= seq![side]);
    assert(s.drop_last().drop_last().drop_last() =~= Seq::<u16>::empty());
    reveal_with_fuel(percent_sum, 4);
}

} // verus!
