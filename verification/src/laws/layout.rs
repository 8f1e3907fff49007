//! Where the panels and popups are on the screen.

use vstd::prelude::*;

use crate::grid::are_panel_areas;
use crate::grid::bottom_panels;
use crate::grid::centered;
use crate::grid::equal_shares;
use crate::grid::is_centered;
use crate::grid::is_row_split;
use crate::grid::is_split;
use crate::grid::no_areas;
use crate::grid::row_areas;
use crate::grid::row_is_placed;
use crate::grid::shared;
use crate::grid::shown_panels;
use crate::grid::top_panels;
use crate::grid::Area;
use crate::grid::Axis;
use crate::grid::Constraint;
use crate::grid::PanelAreas;
use crate::grid::PerPanel;
use crate::panel::PanelId;

verus! {

/// The constraints of parts with these percentages.
pub open spec fn percents(list: Seq<u16>) -> Seq<Constraint> {
    Seq::new(list.len(), |i: int| Constraint::Percentage(list[i]))
}

/// The constraints of two parts, of a percentage and of the rest.
pub open spec fn part_and_rest(percent: u16) -> Seq<Constraint> {
    percents(seq![percent, (100 - percent) as u16])
}

/// The constraints of three parts, of a percentage in the middle and half of the rest on each side.
pub open spec fn in_the_middle(percent: u16) -> Seq<Constraint> {
    percents(seq![((100 - percent) / 2) as u16, percent, ((100 - percent) / 2) as u16])
}

/// The constraints of three equal parts.
pub open spec fn thirds() -> Seq<Constraint> {
    seq![Constraint::Ratio(1, 3), Constraint::Ratio(1, 3), Constraint::Ratio(1, 3)]
}

/// Where all panels are shown, the jobs and the nodes share the top row, which has the percentage of the
/// height that is set, and the jobs the percentage of its width; the GPUs, the disks and the summary
/// share the row below in equal parts.
#[verifier::rlimit(40)]
pub proof fn law_all_panels_placed(areas: PanelAreas, area: Area, left: u16, top: u16)
    requires
        left <= 100,
        top <= 100,
        are_panel_areas(
            areas,
            area,
            PerPanel { jobs: true, nodes: true, gpus: true, disks: true, summary: true },
            left,
            top,
        ),
    ensures
        exists|rows: Seq<Area>, upper: Seq<Area>, lower: Seq<Area>|
            {
                &&& #[trigger] is_split(area, Axis::Vertical, part_and_rest(top), 0, rows)
                &&& #[trigger] is_split(
                    rows[0],
                    Axis::Horizontal,
                    part_and_rest(left),
                    0,
                    upper,
                )
                &&& #[trigger] is_split(
                    rows[1],
                    Axis::Horizontal,
                    thirds(),
                    0,
                    lower,
                )
                &&& areas.jobs == Some(upper[0])
                &&& areas.nodes == Some(upper[1])
                &&& areas.gpus == Some(lower[0])
                &&& areas.disks == Some(lower[1])
                &&& areas.summary == Some(lower[2])
            },
{
    let visible = PerPanel { jobs: true, nodes: true, gpus: true, disks: true, summary: true };
    let first = top_panels();
    let second = bottom_panels();
    lemma_all_shown(first, visible);
    lemma_all_shown(second, visible);
    let (rows, middle) = choose|rows: Seq<Area>, middle: PanelAreas|
        {
            &&& #[trigger] is_split(area, Axis::Vertical, shared(top), 0, rows)
            &&& #[trigger] row_is_placed(no_areas(), middle, rows[0], first, left)
            &&& row_is_placed(middle, areas, rows[1], second, left)
        };
    let (upper, e1) = choose|halves: Seq<Area>, equal: Seq<Area>| #[trigger]
        is_row_split(rows[0], first.len(), left, halves, equal) && middle == row_areas(
            no_areas(),
            rows[0],
            first,
            halves,
            equal,
            first.len() as int,
        );
    let (h2, lower) = choose|halves: Seq<Area>, equal: Seq<Area>| #[trigger]
        is_row_split(rows[1], second.len(), left, halves, equal) && areas == row_areas(
            middle,
            rows[1],
            second,
            halves,
            equal,
            second.len() as int,
        );
    reveal_with_fuel(row_areas, 4);
    assert(shared(top) =~= part_and_rest(top));
    assert(shared(left) =~= part_and_rest(left));
    assert(equal_shares(3) =~= thirds());
    assert(is_split(area, Axis::Vertical, part_and_rest(top), 0, rows));
    assert(is_split(rows[0], Axis::Horizontal, part_and_rest(left), 0, upper));
    assert(is_split(
        rows[1],
        Axis::Horizontal,
        thirds(),
        0,
        lower,
    ));
}

proof fn lemma_all_shown(panels: Seq<PanelId>, visible: PerPanel<bool>)
    requires
        forall|p: PanelId| #[trigger] visible.at(p),
    ensures
        shown_panels(panels, visible) == panels,
    decreases panels.len(),
{
    reveal(Seq::filter);
    if panels.len() > 0 {
        lemma_all_shown(panels.drop_last(), visible);
        assert(panels.drop_last().push(panels.last()) =~= panels);
        assert(visible.at(panels.last()));
    } else {
        assert(shown_panels(panels, visible) =~= panels);
    }
}

/// A popup is the middle one of three rows and of three columns, with the same percentages on both
/// sides.
pub proof fn law_popup_is_in_the_middle(r: Area, x: u16, y: u16, area: Area)
    requires
        x <= 100,
        y <= 100,
        is_centered(r, x, y, area),
    ensures
        exists|rows: Seq<Area>, columns: Seq<Area>|
            {
                &&& #[trigger] is_split(
                    area,
                    Axis::Vertical,
                    in_the_middle(y),
                    0,
                    rows,
                )
                &&& #[trigger] is_split(
                    rows[1],
                    Axis::Horizontal,
                    in_the_middle(x),
                    0,
                    columns,
                )
                &&& r == columns[1]
            },
{
    assert(centered(y) =~= in_the_middle(y));
    assert(centered(x) =~= in_the_middle(x));
}

} // verus!
