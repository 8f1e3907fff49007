//! Areas of the screen, how they are split, and which panel takes which.

use ratatui::layout::Constraint as Extent;
use ratatui::layout::Direction;
use ratatui::layout::Layout;
use ratatui::layout::Rect;
use vstd::prelude::*;

use crate::panel::PanelId;

verus! {

/// A rectangle of the screen.
#[derive(Debug, Clone, Copy, PartialEq, Eq, Structural)]
pub struct Area {
    pub x: u16,
    pub y: u16,
    pub width: u16,
    pub height: u16,
}

impl Area {
    /// Whether the edges of the area can be numbered.
    pub open spec fn fits(self) -> bool {
        self.x + self.width <= u16::MAX && self.y + self.height <= u16::MAX
    }

    /// Whether the area lies in another.
    pub open spec fn within(self, outer: Area) -> bool {
        &&& outer.x <= self.x
        &&& outer.y <= self.y
        &&& self.x + self.width <= outer.x + outer.width
        &&& self.y + self.height <= outer.y + outer.height
    }

    /// Whether a point lies in the area.
    pub open spec fn holds(self, x: u16, y: u16) -> bool {
        self.x <= x < self.x + self.width && self.y <= y < self.y + self.height
    }

    /// What a border of one cell leaves of the area.
    pub open spec fn shrunk(self) -> Area {
        Area {
            x: (self.x + 1) as u16,
            y: (self.y + 1) as u16,
            width: (self.width - 2) as u16,
            height: (self.height - 2) as u16,
        }
    }
}

/// Whether a point lies in the area.
pub fn contains(area: Area, x: u16, y: u16) -> (r: bool)
    requires
        area.fits(),
    ensures
        r == area.holds(x, y),
{
    x >= area.x && x < area.x + area.width && y >= area.y && y < area.y + area.height
}

/// `a + b`, or the last number of a cell where it would be larger.
pub open spec fn edge(a: u16, b: u16) -> int {
    if a + b <= u16::MAX {
        a + b
    } else {
        u16::MAX as int
    }
}

/// The row of the body of a table that a point is on: inside the border, below the header.
pub open spec fn body_row(area: Area, x: u16, y: u16) -> Option<usize> {
    if edge(area.x, 1) <= x < edge(area.x, area.width) - 1 && edge(area.y, 2) <= y < edge(
        area.y,
        area.height,
    ) - 1 {
        Some((y - edge(area.y, 2)) as usize)
    } else {
        None
    }
}

/// The row of the body of a table that a point is on.
pub fn table_body_row_at(area: Area, x: u16, y: u16) -> (r: Option<usize>)
    ensures
        r == body_row(area, x, y),
{
    let content_left: u16 = area.x.saturating_add(1);
    let content_right: u16 = area.x.saturating_add(area.width).saturating_sub(1);
    let first_row_y: u16 = area.y.saturating_add(2);
    let after_last_row_y: u16 = area.y.saturating_add(area.height).saturating_sub(1);
    if x < content_left || x >= content_right || y < first_row_y || y >= after_last_row_y {
        return None;
    }
    Some(y.saturating_sub(first_row_y) as usize)
}

/// How long a part of a split is to be.
#[derive(Debug, Clone, Copy, PartialEq, Eq, Structural)]
pub enum Constraint {
    Percentage(u16),
    Length(u16),
    Min(u16),
    Ratio(u32, u32),
}

/// The direction in which the parts of a split follow each other.
#[derive(Debug, Clone, Copy, PartialEq, Eq, Structural)]
pub enum Axis {
    Horizontal,
    Vertical,
}

/// Whether a part of a split lies in the area and takes all of it across the split.
pub open spec fn is_part(area: Area, axis: Axis, part: Area) -> bool {
    &&& part.within(area)
    &&& axis == Axis::Horizontal ==> part.y == area.y && part.height == area.height
    &&& axis == Axis::Vertical ==> part.x == area.x && part.width == area.width
}

/// Whether `ratatui::layout::Layout::split` may answer with these parts, given the constraints and
/// the spacing between parts. Its solver walks hash maps, whose order differs from process to
/// process, so one split may come out in several ways.
pub uninterp spec fn may_split(
    area: Area,
    axis: Axis,
    constraints: Seq<Constraint>,
    spacing: u16,
    parts: Seq<Area>,
) -> bool;

/// Whether these are the parts of a split: one for each constraint.
pub open spec fn is_split(
    area: Area,
    axis: Axis,
    constraints: Seq<Constraint>,
    spacing: u16,
    parts: Seq<Area>,
) -> bool {
    &&& may_split(area, axis, constraints, spacing, parts)
    &&& parts.len() == constraints.len()
    &&& forall|i: int| 0 <= i < parts.len() ==> is_part(area, axis, #[trigger] parts[i])
}

/// The constraints of two parts, of which the first takes a percentage.
pub open spec fn shared(percent: u16) -> Seq<Constraint> {
    seq![Constraint::Percentage(percent), Constraint::Percentage((100 - percent) as u16)]
}

/// The constraints of three parts, of which the middle one takes a percentage.
pub open spec fn centered(percent: u16) -> Seq<Constraint> {
    let side = Constraint::Percentage(((100 - percent) / 2) as u16);
    seq![side, Constraint::Percentage(percent), side]
}

/// The constraints of parts of the same size; at least one.
pub open spec fn equal_shares(count: nat) -> Seq<Constraint> {
    let n = if count == 0 {
        1
    } else {
        count
    };
    let share = if n <= u32::MAX {
        n as u32
    } else {
        1
    };
    Seq::new(n, |i: int| Constraint::Ratio(1, share))
}

/// `ratatui::layout::Layout::split`, with the constraints and the spacing between parts: one part
/// for each constraint, inside the area and as broad as it. How long each part comes out is the
/// choice of a solver in floating point: it is one that `may_split` allows, and nothing more is said.
#[verifier::external_body]
fn split_area(area: Area, axis: Axis, constraints: &[Constraint], spacing: u16) -> (r: Vec<Area>)
    requires
        area.fits(),
    ensures
        may_split(area, axis, constraints@, spacing, r@),
        r@.len() == constraints@.len(),
        forall|i: int| 0 <= i < r@.len() ==> is_part(area, axis, #[trigger] r@[i]),
{
    let extents = constraints.iter().map(|c| match *c {
        Constraint::Percentage(p) => Extent::Percentage(p),
        Constraint::Length(n) => Extent::Length(n),
        Constraint::Min(n) => Extent::Min(n),
        Constraint::Ratio(a, b) => Extent::Ratio(a, b),
    });
    let direction = match axis {
        Axis::Horizontal => Direction::Horizontal,
        Axis::Vertical => Direction::Vertical,
    };
    let rect = Rect::new(area.x, area.y, area.width, area.height);
    let parts = Layout::new(direction, extents).spacing(spacing).split(rect);
    parts.iter().map(|p| Area { x: p.x, y: p.y, width: p.width, height: p.height }).collect()
}

/// The parts of a split with constraints, and no space between them.
pub fn split_plain(area: Area, axis: Axis, constraints: &[Constraint]) -> (r: Vec<Area>)
    requires
        area.fits(),
    ensures
        is_split(area, axis, constraints@, 0, r@),
{
    split_area(area, axis, constraints, 0)
}

/// Whether an area is in the middle of another, with the given percentages of its width and height.
pub open spec fn is_centered(r: Area, percent_x: u16, percent_y: u16, area: Area) -> bool {
    exists|rows: Seq<Area>, columns: Seq<Area>|
        {
            &&& #[trigger] is_split(area, Axis::Vertical, centered(percent_y), 0, rows)
            &&& #[trigger] is_split(rows[1], Axis::Horizontal, centered(percent_x), 0, columns)
            &&& r == columns[1]
        }
}

/// The area in the middle of another, with the given percentages of its width and height.
pub fn centered_rect(percent_x: u16, percent_y: u16, area: Area) -> (r: Area)
    requires
        percent_x <= 100,
        percent_y <= 100,
        area.fits(),
    ensures
        is_centered(r, percent_x, percent_y, area),
        r.within(area),
{
    let vertical = split_plain(
        area,
        Axis::Vertical,
        &[
            Constraint::Percentage((100 - percent_y) / 2),
            Constraint::Percentage(percent_y),
            Constraint::Percentage((100 - percent_y) / 2),
        ],
    );
    assert(is_split(area, Axis::Vertical, centered(percent_y), 0, vertical@));
    assert(is_part(area, Axis::Vertical, vertical@[1]));
    let middle = vertical[1];
    let horizontal = split_plain(
        middle,
        Axis::Horizontal,
        &[
            Constraint::Percentage((100 - percent_x) / 2),
            Constraint::Percentage(percent_x),
            Constraint::Percentage((100 - percent_x) / 2),
        ],
    );
    assert(is_split(middle, Axis::Horizontal, centered(percent_x), 0, horizontal@));
    assert(is_part(middle, Axis::Horizontal, horizontal@[1]));
    horizontal[1]
}

/// One value for each panel.
#[derive(Debug)]
pub struct PerPanel<T> {
    pub jobs: T,
    pub nodes: T,
    pub gpus: T,
    pub disks: T,
    pub summary: T,
}

impl<T> PerPanel<T> {
    /// The value of a panel.
    pub open spec fn at(self, panel: PanelId) -> T {
        match panel {
            PanelId::Jobs => self.jobs,
            PanelId::Nodes => self.nodes,
            PanelId::Gpus => self.gpus,
            PanelId::Disks => self.disks,
            PanelId::Summary => self.summary,
        }
    }

    /// The values with another one for a panel.
    pub open spec fn with(self, panel: PanelId, value: T) -> PerPanel<T> {
        match panel {
            PanelId::Jobs => PerPanel { jobs: value, ..self },
            PanelId::Nodes => PerPanel { nodes: value, ..self },
            PanelId::Gpus => PerPanel { gpus: value, ..self },
            PanelId::Disks => PerPanel { disks: value, ..self },
            PanelId::Summary => PerPanel { summary: value, ..self },
        }
    }

    /// The value of a panel.
    pub fn get(&self, panel: PanelId) -> (r: &T)
        ensures
            *r == self.at(panel),
    {
        match panel {
            PanelId::Jobs => &self.jobs,
            PanelId::Nodes => &self.nodes,
            PanelId::Gpus => &self.gpus,
            PanelId::Disks => &self.disks,
            PanelId::Summary => &self.summary,
        }
    }

    /// The value of a panel, to be changed.
    pub fn get_mut(&mut self, panel: PanelId) -> (r: &mut T)
        ensures
            *r == old(self).at(panel),
            *final(self) == old(self).with(panel, *final(r)),
    {
        match panel {
            PanelId::Jobs => &mut self.jobs,
            PanelId::Nodes => &mut self.nodes,
            PanelId::Gpus => &mut self.gpus,
            PanelId::Disks => &mut self.disks,
            PanelId::Summary => &mut self.summary,
        }
    }

    /// Sets the value of a panel.
    pub fn set(&mut self, panel: PanelId, value: T)
        ensures
            *final(self) == old(self).with(panel, value),
    {
        match panel {
            PanelId::Jobs => {
                self.jobs = value;
            },
            PanelId::Nodes => {
                self.nodes = value;
            },
            PanelId::Gpus => {
                self.gpus = value;
            },
            PanelId::Disks => {
                self.disks = value;
            },
            PanelId::Summary => {
                self.summary = value;
            },
        }
    }
}

/// Setting the value of one panel leaves the others.
pub proof fn law_panels_apart<T>(values: PerPanel<T>, panel: PanelId, other: PanelId, value: T)
    ensures
        values.with(panel, value).at(panel) == value,
        other != panel ==> values.with(panel, value).at(other) == values.at(other),
{
}

/// The areas of the panels, where they have one.
pub type PanelAreas = PerPanel<Option<Area>>;

/// The areas of a row of panels: alone a panel takes the row, two share it by `halves`, and more
/// share it by `equal`.
pub open spec fn row_areas(
    areas: PanelAreas,
    row: Area,
    panels: Seq<PanelId>,
    halves: Seq<Area>,
    equal: Seq<Area>,
    n: int,
) -> PanelAreas
    decreases n,
{
    if n <= 0 {
        areas
    } else {
        let part = if panels.len() == 1 {
            row
        } else if panels.len() == 2 {
            halves[n - 1]
        } else {
            equal[n - 1]
        };
        row_areas(areas, row, panels, halves, equal, n - 1).with(panels[n - 1], Some(part))
    }
}

/// Gives the panels of a row their areas.
pub fn assign_row(
    areas: &mut PanelAreas,
    row: Area,
    panels: &Vec<PanelId>,
    halves: &Vec<Area>,
    equal: &Vec<Area>,
)
    requires
        panels@.len() == 2 ==> halves@.len() == 2,
        panels@.len() > 2 ==> equal@.len() == panels@.len(),
    ensures
        *final(areas) == row_areas(*old(areas), row, panels@, halves@, equal@, panels@.len() as int),
{
    let ghost start = *areas;
    let mut i: usize = 0;
    while i < panels.len()
        invariant
            i <= panels@.len(),
            panels@.len() == 2 ==> halves@.len() == 2,
            panels@.len() > 2 ==> equal@.len() == panels@.len(),
            *areas == row_areas(start, row, panels@, halves@, equal@, i as int),
        decreases panels@.len() - i,
    {
        let part = if panels.len() == 1 {
            row
        } else if panels.len() == 2 {
            halves[i]
        } else {
            equal[i]
        };
        areas.set(panels[i], Some(part));
        i += 1;
    }
}

/// Whether a row is split for so many panels: by a percentage for two, and equally for more.
pub open spec fn is_row_split(row: Area, n: nat, left_percent: u16, halves: Seq<Area>, equal: Seq<Area>) -> bool {
    &&& n == 2 ==> is_split(row, Axis::Horizontal, shared(left_percent), 0, halves)
    &&& n > 2 ==> is_split(row, Axis::Horizontal, equal_shares(n), 0, equal)
}

/// Whether the panels of a row have the parts of a split of it, and the other panels what they had.
pub open spec fn row_is_placed(
    before: PanelAreas,
    after: PanelAreas,
    row: Area,
    panels: Seq<PanelId>,
    left_percent: u16,
) -> bool {
    exists|halves: Seq<Area>, equal: Seq<Area>| #[trigger]
        is_row_split(row, panels.len(), left_percent, halves, equal) && after == row_areas(
            before,
            row,
            panels,
            halves,
            equal,
            panels.len() as int,
        )
}

/// The panels of a row have parts of it, and the other panels what they had.
proof fn lemma_row(before: PanelAreas, after: PanelAreas, row: Area, panels: Seq<PanelId>, left_percent: u16)
    requires
        row_is_placed(before, after, row, panels, left_percent),
    ensures
        forall|p: PanelId| #![trigger after.at(p)]
            if panels.contains(p) {
                &&& after.at(p) is Some
                &&& is_part(row, Axis::Horizontal, after.at(p)->0)
                &&& panels.len() == 1 ==> after.at(p) == Some(row)
            } else {
                after.at(p) == before.at(p)
            },
{
    let (halves, equal) = choose|halves: Seq<Area>, equal: Seq<Area>| #[trigger]
        is_row_split(row, panels.len(), left_percent, halves, equal) && after == row_areas(
            before,
            row,
            panels,
            halves,
            equal,
            panels.len() as int,
        );
    assert(panels.take(panels.len() as int) =~= panels);
    assert forall|p: PanelId| #![trigger after.at(p)]
        if panels.contains(p) {
            &&& after.at(p) is Some
            &&& is_part(row, Axis::Horizontal, after.at(p)->0)
            &&& panels.len() == 1 ==> after.at(p) == Some(row)
        } else {
            after.at(p) == before.at(p)
        } by {
        lemma_row_placed(before, row, panels, left_percent, halves, equal, panels.len() as int, p);
    }
}

proof fn lemma_row_placed(
    areas: PanelAreas,
    row: Area,
    panels: Seq<PanelId>,
    left_percent: u16,
    halves: Seq<Area>,
    equal: Seq<Area>,
    n: int,
    p: PanelId,
)
    requires
        0 <= n <= panels.len(),
        is_row_split(row, panels.len(), left_percent, halves, equal),
    ensures
        ({
            let after = row_areas(areas, row, panels, halves, equal, n);
            if panels.take(n).contains(p) {
                &&& after.at(p) is Some
                &&& is_part(row, Axis::Horizontal, after.at(p)->0)
                &&& panels.len() == 1 ==> after.at(p) == Some(row)
            } else {
                after.at(p) == areas.at(p)
            }
        }),
    decreases n,
{
    if n > 0 {
        lemma_row_placed(areas, row, panels, left_percent, halves, equal, n - 1, p);
        let fewer = panels.take(n - 1);
        let more = panels.take(n);
        assert(more =~= fewer.push(panels[n - 1]));
        law_panels_apart(
            row_areas(areas, row, panels, halves, equal, n - 1),
            panels[n - 1],
            p,
            row_areas(areas, row, panels, halves, equal, n).at(panels[n - 1]),
        );
        if p == panels[n - 1] {
            assert(more[n - 1] == p);
        } else {
            if fewer.contains(p) {
                let k = choose|k: int| 0 <= k < fewer.len() && fewer[k] == p;
                assert(more[k] == p);
            }
            if more.contains(p) {
                let k = choose|k: int| 0 <= k < more.len() && more[k] == p;
                assert(fewer[k] == p);
            }
        }
    }
}

/// Gives the panels of a row their areas, where the first of two takes `left_percent` of the row.
pub fn place_row(areas: &mut PanelAreas, row: Area, panels: &Vec<PanelId>, left_percent: u16)
    requires
        row.fits(),
        left_percent <= 100,
    ensures
        row_is_placed(*old(areas), *final(areas), row, panels@, left_percent),
{
    let halves = split_plain(
        row,
        Axis::Horizontal,
        &[Constraint::Percentage(left_percent), Constraint::Percentage(100 - left_percent)],
    );
    let shares = equal_widths(panels.len());
    let equal = split_plain(row, Axis::Horizontal, shares.as_slice());
    assert(is_split(row, Axis::Horizontal, shared(left_percent), 0, halves@));
    assign_row(areas, row, panels, &halves, &equal);
    assert(is_row_split(row, panels@.len(), left_percent, halves@, equal@));
}

/// Constraints that give each of `count` parts the same share; at least one part.
pub fn equal_widths(count: usize) -> (r: Vec<Constraint>)
    ensures
        r@ == equal_shares(count as nat),
{
    let n: usize = if count == 0 {
        1
    } else {
        count
    };
    let share: u32 = if n <= u32::MAX as usize {
        n as u32
    } else {
        1
    };
    let mut out: Vec<Constraint> = Vec::new();
    let mut i: usize = 0;
    while i < n
        invariant
            i <= n,
            out@.len() == i,
            forall|k: int| 0 <= k < i ==> #[trigger] out@[k] == Constraint::Ratio(1, share),
        decreases n - i,
    {
        out.push(Constraint::Ratio(1, share));
        i += 1;
    }
    assert(out@ =~= equal_shares(count as nat));
    out
}

/// The panels of a list that are shown, in its order.
pub open spec fn shown_panels(panels: Seq<PanelId>, visible: PerPanel<bool>) -> Seq<PanelId> {
    panels.filter(|p: PanelId| visible.at(p))
}

/// The panels of a list that are shown.
fn pick_shown(panels: &[PanelId], visible: &PerPanel<bool>) -> (r: Vec<PanelId>)
    ensures
        r@ == shown_panels(panels@, *visible),
        forall|p: PanelId| #[trigger] r@.contains(p) <==> panels@.contains(p) && visible.at(p),
        r@.len() <= panels@.len(),
{
    let ghost keep = |p: PanelId| visible.at(p);
    let mut out: Vec<PanelId> = Vec::new();
    let mut i: usize = 0;
    assert(out@ =~= panels@.take(0).filter(keep));
    while i < panels.len()
        invariant
            i <= panels@.len(),
            keep == (|p: PanelId| visible.at(p)),
            out@ == panels@.take(i as int).filter(keep),
            forall|p: PanelId| #[trigger]
                out@.contains(p) <==> panels@.take(i as int).contains(p) && visible.at(p),
            out@.len() <= i,
        decreases panels@.len() - i,
    {
        let ghost before = out@;
        let ghost fewer = panels@.take(i as int);
        let ghost more = panels@.take(i + 1);
        proof {
            assert(more.drop_last() =~= fewer);
            reveal(Seq::filter);
        }
        if *visible.get(panels[i]) {
            out.push(panels[i]);
        }
        proof {
            let last = panels@[i as int];
            assert forall|p: PanelId| #[trigger] out@.contains(p) <==> more.contains(p) && visible.at(p) by {
                assert(before.contains(p) <==> fewer.contains(p) && visible.at(p));
                assert(more =~= fewer.push(last));
                lemma_contains_push(fewer, last, p);
                if visible.at(last) {
                    lemma_contains_push(before, last, p);
                }
            }
        }
        i += 1;
    }
    assert(panels@.take(i as int) =~= panels@);
    out
}

proof fn lemma_contains_push(list: Seq<PanelId>, last: PanelId, p: PanelId)
    ensures
        list.push(last).contains(p) <==> list.contains(p) || p == last,
{
    let more = list.push(last);
    if list.contains(p) {
        let k = choose|k: int| 0 <= k < list.len() && list[k] == p;
        assert(more[k] == p);
    }
    if p == last {
        assert(more[list.len() as int] == p);
    }
    if more.contains(p) && p != last {
        let k = choose|k: int| 0 <= k < more.len() && more[k] == p;
        assert(list[k] == p);
    }
}

/// Whether every panel that is shown has an area inside `area`, and no other has one.
pub open spec fn panels_placed(areas: PanelAreas, area: Area, visible: PerPanel<bool>) -> bool {
    forall|p: PanelId| #![trigger areas.at(p)]
        if visible.at(p) {
            areas.at(p) is Some && areas.at(p)->0.within(area)
        } else {
            areas.at(p) is None
        }
}

/// No panel has an area.
pub open spec fn no_areas() -> PanelAreas {
    PerPanel { jobs: None, nodes: None, gpus: None, disks: None, summary: None }
}

/// No panel has an area.
fn empty_areas() -> (r: PanelAreas)
    ensures
        r == no_areas(),
{
    PerPanel { jobs: None, nodes: None, gpus: None, disks: None, summary: None }
}

/// Whether exactly one panel is shown.
pub open spec fn only_shown(panel: PanelId, visible: PerPanel<bool>) -> bool {
    forall|p: PanelId| #![trigger visible.at(p)] visible.at(p) <==> p == panel
}

/// The panels of the top row.
pub open spec fn top_panels() -> Seq<PanelId> {
    seq![PanelId::Jobs, PanelId::Nodes]
}

/// The panels of the bottom row.
pub open spec fn bottom_panels() -> Seq<PanelId> {
    seq![PanelId::Gpus, PanelId::Disks, PanelId::Summary]
}

/// All panels, from the left of the top row to the right of the bottom row.
pub open spec fn all_panels() -> Seq<PanelId> {
    seq![PanelId::Jobs, PanelId::Nodes, PanelId::Gpus, PanelId::Disks, PanelId::Summary]
}

/// Whether the panels that are shown have these areas: jobs and nodes in a row at the top, which
/// takes `top_percent` of the height, and the others in a row below. Where one of the rows would be
/// empty, the other panels make one row of the full height.
pub open spec fn are_panel_areas(
    areas: PanelAreas,
    area: Area,
    visible: PerPanel<bool>,
    left_percent: u16,
    top_percent: u16,
) -> bool {
    let top = shown_panels(top_panels(), visible);
    let bottom = shown_panels(bottom_panels(), visible);
    if top.len() == 0 || bottom.len() == 0 {
        row_is_placed(no_areas(), areas, area, shown_panels(all_panels(), visible), left_percent)
    } else {
        exists|rows: Seq<Area>, middle: PanelAreas|
            {
                &&& #[trigger] is_split(area, Axis::Vertical, shared(top_percent), 0, rows)
                &&& #[trigger] row_is_placed(no_areas(), middle, rows[0], top, left_percent)
                &&& row_is_placed(middle, areas, rows[1], bottom, left_percent)
            }
    }
}

/// The areas of the panels that are shown: jobs and nodes in a row at the top, which takes
/// `top_percent` of the height, and the others in a row below. Where one of the rows would be empty,
/// the other panels make one row of the full height, and a single panel takes the whole area.
pub fn compute_panel_areas(area: Area, visible: &PerPanel<bool>, left_percent: u16, top_percent: u16) -> (r:
    PanelAreas)
    requires
        area.fits(),
        left_percent <= 100,
        top_percent <= 100,
    ensures
        are_panel_areas(r, area, *visible, left_percent, top_percent),
        panels_placed(r, area, *visible),
        forall|p: PanelId| #![trigger visible.at(p)] only_shown(p, *visible) ==> r.at(p) == Some(area),
{
    let top = pick_shown(&[PanelId::Jobs, PanelId::Nodes], visible);
    let bottom = pick_shown(&[PanelId::Gpus, PanelId::Disks, PanelId::Summary], visible);
    let mut areas = empty_areas();
    proof {
        assert(visible.jobs <==> top@.contains(PanelId::Jobs)) by {
            assert(seq![PanelId::Jobs, PanelId::Nodes][0] == PanelId::Jobs);
        }
        assert(visible.nodes <==> top@.contains(PanelId::Nodes)) by {
            assert(seq![PanelId::Jobs, PanelId::Nodes][1] == PanelId::Nodes);
        }
        assert(visible.gpus <==> bottom@.contains(PanelId::Gpus)) by {
            assert(seq![PanelId::Gpus, PanelId::Disks, PanelId::Summary][0] == PanelId::Gpus);
        }
        assert(visible.disks <==> bottom@.contains(PanelId::Disks)) by {
            assert(seq![PanelId::Gpus, PanelId::Disks, PanelId::Summary][1] == PanelId::Disks);
        }
        assert(visible.summary <==> bottom@.contains(PanelId::Summary)) by {
            assert(seq![PanelId::Gpus, PanelId::Disks, PanelId::Summary][2] == PanelId::Summary);
        }
    }
    if top.len() == 0 || bottom.len() == 0 {
        let all = pick_shown(
            &[PanelId::Jobs, PanelId::Nodes, PanelId::Gpus, PanelId::Disks, PanelId::Summary],
            visible,
        );
        proof {
            let list = seq![
                PanelId::Jobs,
                PanelId::Nodes,
                PanelId::Gpus,
                PanelId::Disks,
                PanelId::Summary,
            ];
            assert(list[0] == PanelId::Jobs && list[1] == PanelId::Nodes && list[2] == PanelId::Gpus
                && list[3] == PanelId::Disks && list[4] == PanelId::Summary);
            assert forall|p: PanelId| all@.contains(p) <==> visible.at(p) by {
                assert(list.contains(p));
            }
            if top@.len() == 0 {
                assert(!top@.contains(PanelId::Jobs) && !top@.contains(PanelId::Nodes));
            } else {
                assert(!bottom@.contains(PanelId::Gpus) && !bottom@.contains(PanelId::Disks)
                    && !bottom@.contains(PanelId::Summary));
            }
            lemma_single(list, *visible, all@);
        }
        place_row(&mut areas, area, &all, left_percent);
        proof {
            lemma_row(no_areas(), areas, area, all@, left_percent);
        }
        return areas;
    }
    let rows = split_plain(
        area,
        Axis::Vertical,
        &[Constraint::Percentage(top_percent), Constraint::Percentage(100 - top_percent)],
    );
    assert(is_split(area, Axis::Vertical, shared(top_percent), 0, rows@));
    assert(is_part(area, Axis::Vertical, rows@[0]) && is_part(area, Axis::Vertical, rows@[1]));
    place_row(&mut areas, rows[0], &top, left_percent);
    let ghost middle = areas;
    place_row(&mut areas, rows[1], &bottom, left_percent);
    proof {
        lemma_row(no_areas(), middle, rows@[0], top@, left_percent);
        lemma_row(middle, areas, rows@[1], bottom@, left_percent);
        assert(top@.contains(top@[0]));
        assert(bottom@.contains(bottom@[0]));
        assert forall|p: PanelId| #![trigger areas.at(p)]
            if visible.at(p) {
                &&& areas.at(p) is Some
                &&& is_part(
                    if p == PanelId::Jobs || p == PanelId::Nodes {
                        rows@[0]
                    } else {
                        rows@[1]
                    },
                    Axis::Horizontal,
                    areas.at(p)->0,
                )
            } else {
                areas.at(p) is None
            } by {
            assert(top@.contains(p) ==> middle.at(p) is Some);
            assert(!top@.contains(p) ==> middle.at(p) is None);
            if p == PanelId::Jobs || p == PanelId::Nodes {
                assert(!bottom@.contains(p));
            } else {
                assert(!top@.contains(p));
            }
        }
        assert forall|p: PanelId| #![trigger visible.at(p)] only_shown(p, *visible) implies areas.at(p) == Some(
            area,
        ) by {
            assert(visible.at(top@[0]));
            assert(visible.at(bottom@[0]));
            assert(top@[0] == p && bottom@[0] == p);
        }
    }
    areas
}

/// Of a list that holds every panel once, a single shown panel is all that is picked.
proof fn lemma_single(list: Seq<PanelId>, visible: PerPanel<bool>, picked: Seq<PanelId>)
    requires
        list == seq![
            PanelId::Jobs,
            PanelId::Nodes,
            PanelId::Gpus,
            PanelId::Disks,
            PanelId::Summary,
        ],
        picked == shown_panels(list, visible),
        forall|p: PanelId| picked.contains(p) <==> visible.at(p),
    ensures
        forall|p: PanelId| #![trigger visible.at(p)] only_shown(p, visible) ==> picked.len() == 1,
{
    let keep = |p: PanelId| visible.at(p);
    reveal_with_fuel(Seq::filter, 6);
    assert(list.drop_last().drop_last().drop_last().drop_last().drop_last() =~= Seq::empty());
    assert(list.last() == PanelId::Summary);
    assert(list.drop_last().last() == PanelId::Disks);
    assert(list.drop_last().drop_last().last() == PanelId::Gpus);
    assert(list.drop_last().drop_last().drop_last().last() == PanelId::Nodes);
    assert(list.drop_last().drop_last().drop_last().drop_last().last() == PanelId::Jobs);
    assert forall|p: PanelId| #![trigger visible.at(p)] only_shown(p, visible) implies picked.len() == 1 by {
        assert(visible.at(PanelId::Jobs) <==> p == PanelId::Jobs);
        assert(visible.at(PanelId::Nodes) <==> p == PanelId::Nodes);
        assert(visible.at(PanelId::Gpus) <==> p == PanelId::Gpus);
        assert(visible.at(PanelId::Disks) <==> p == PanelId::Disks);
        assert(visible.at(PanelId::Summary) <==> p == PanelId::Summary);
    }
}

/// The header of a column on the screen: its row, and the columns of cells from `x_start` up to
/// `x_end`.
#[derive(Debug, Clone, Copy, PartialEq, Eq, Structural)]
pub struct HeaderSpan {
    pub column: usize,
    pub x_start: u16,
    pub x_end: u16,
    pub y: u16,
}

impl HeaderSpan {
    /// Whether a point is on the header.
    pub open spec fn holds(self, x: u16, y: u16) -> bool {
        y == self.y && self.x_start <= x < self.x_end
    }

    /// Whether a point is on the header.
    pub fn contains(self, x: u16, y: u16) -> (r: bool)
        ensures
            r == self.holds(x, y),
    {
        y == self.y && x >= self.x_start && x < self.x_end
    }
}

/// The headers over columns of a table, with the cell behind each.
pub open spec fn spans_over(columns: Seq<Area>, y: u16) -> Seq<HeaderSpan> {
    Seq::new(
        columns.len(),
        |i: int|
            HeaderSpan {
                column: i as usize,
                x_start: columns[i].x,
                x_end: (columns[i].x + columns[i].width + 1) as u16,
                y,
            },
    )
}

/// The headers over columns of a table.
pub fn spans_from(columns: &Vec<Area>, y: u16) -> (r: Vec<HeaderSpan>)
    requires
        forall|i: int| 0 <= i < columns@.len() ==> (#[trigger] columns@[i]).x + columns@[i].width < u16::MAX,
    ensures
        r@ == spans_over(columns@, y),
{
    let mut out: Vec<HeaderSpan> = Vec::new();
    let mut i: usize = 0;
    while i < columns.len()
        invariant
            i <= columns@.len(),
            forall|k: int|
                0 <= k < columns@.len() ==> (#[trigger] columns@[k]).x + columns@[k].width < u16::MAX,
            out@.len() == i,
            forall|k: int| 0 <= k < i ==> #[trigger] out@[k] == spans_over(columns@, y)[k],
        decreases columns@.len() - i,
    {
        let c = columns[i];
        assert(columns@[i as int].x + columns@[i as int].width < u16::MAX);
        out.push(HeaderSpan { column: i, x_start: c.x, x_end: c.x + c.width + 1, y });
        i += 1;
    }
    assert(out@ =~= spans_over(columns@, y));
    out
}

/// Whether these are the headers of a table with a border in an area: none where the border leaves
/// no room, and else one for each column of a split of the room.
pub open spec fn are_headers(spans: Seq<HeaderSpan>, area: Area, widths: Seq<Constraint>) -> bool {
    if widths.len() == 0 || area.width <= 2 || area.height <= 2 {
        spans.len() == 0
    } else {
        exists|columns: Seq<Area>| #[trigger]
            is_split(area.shrunk(), Axis::Horizontal, widths, 1, columns) && spans == spans_over(
                columns,
                area.shrunk().y,
            )
    }
}

/// The headers of a table with a border in an area.
pub fn header_spans(area: Area, constraints: &[Constraint]) -> (r: Vec<HeaderSpan>)
    requires
        area.fits(),
    ensures
        are_headers(r@, area, constraints@),
{
    if constraints.len() == 0 || area.width <= 2 || area.height <= 2 {
        return Vec::new();
    }
    let inner = Area {
        x: area.x + 1,
        y: area.y + 1,
        width: area.width - 2,
        height: area.height - 2,
    };
    assert(inner == area.shrunk());
    let columns = split_area(inner, Axis::Horizontal, constraints, 1);
    assert forall|i: int| 0 <= i < columns@.len() implies (#[trigger] columns@[i]).x + columns@[i].width
        < u16::MAX by {
        assert(is_part(inner, Axis::Horizontal, columns@[i]));
    }
    assert(is_split(inner, Axis::Horizontal, constraints@, 1, columns@));
    spans_from(&columns, inner.y)
}

} // verus!
