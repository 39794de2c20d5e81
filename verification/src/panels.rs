//! What the screen's panels show, as styled lines of text: the FO task
//! queue panel, the ATC panel, and the layout of the screen's regions.
use vstd::prelude::*;
use vstd::string::*;
use crate::atc::constraints::{ClearanceType, all_clearances, clearance_name};
use crate::atc::controller::{ClearanceState, Controller};
use crate::crew::queue::TaskQueue;
use crate::crew::task::Task;
use crate::text::{decimal_text, format_u64};
use crate::sim_core::time::whole_secs;
use ratatui::layout::{Constraint, Direction, Layout, Rect};

verus! {

/// How a panel line is drawn.
#[derive(Debug, Clone, Copy, PartialEq, Eq, Structural)]
pub enum LineStyle {
    Plain,
    Title,
    Placeholder,
}

/// One line of a panel.
#[derive(Debug, Clone, PartialEq)]
pub struct PanelLine {
    pub text: String,
    pub style: LineStyle,
}

/// A panel line as text and style.
pub open spec fn line_view(line: PanelLine) -> (Seq<char>, LineStyle) {
    (line.text@, line.style)
}

pub open spec fn lines_view(lines: Seq<PanelLine>) -> Seq<(Seq<char>, LineStyle)> {
    lines.map_values(|line: PanelLine| line_view(line))
}

/// The FO task queue panel: the executing task with its whole seconds
/// remaining, or an idle note; then, when tasks wait, a separator and
/// each waiting task in order.
pub open spec fn fo_queue_text(q: TaskQueue) -> Seq<(Seq<char>, LineStyle)> {
    let head = match q.spec_executing() {
        Some(e) => seq![
            ("[Executing]"@, LineStyle::Title),
            (e.task.description@, LineStyle::Plain),
            (decimal_text(whole_secs(e.remaining.nanos as int) as nat) + " sec remaining"@, LineStyle::Plain),
        ],
        None => seq![("[Idle]"@, LineStyle::Placeholder)],
    };
    if q.spec_pending().len() == 0 {
        head
    } else {
        head + seq![("------------------------"@, LineStyle::Plain), ("[Pending]"@, LineStyle::Title)]
            + q.spec_pending().map_values(|t: Task| (t.description@, LineStyle::Plain))
    }
}

/// The FO panel lists the whole lineup in the order the FO will work it:
/// an idle FO shows only `[Idle]`; otherwise the task being worked comes
/// second, after `[Executing]`, and then, when more wait, each waiting
/// task follows the separator and `[Pending]` at its place in the lineup,
/// one line each and nothing after the last.
pub proof fn law_fo_panel_lists_the_lineup_in_order(q: TaskQueue)
    requires
        q.wf(),
    ensures
        ({
            let text = fo_queue_text(q);
            let lineup = q.lineup();
            &&& lineup.len() == 0 ==> text == seq![("[Idle]"@, LineStyle::Placeholder)]
            &&& lineup.len() > 0 ==> {
                &&& text[0] == ("[Executing]"@, LineStyle::Title)
                &&& text[1] == (lineup[0].description@, LineStyle::Plain)
                &&& text.len() == if lineup.len() == 1 {
                    3
                } else {
                    lineup.len() + 4
                }
            }
            &&& lineup.len() > 1 ==> {
                &&& text[3] == ("------------------------"@, LineStyle::Plain)
                &&& text[4] == ("[Pending]"@, LineStyle::Title)
                &&& forall|i: int|
                    1 <= i < lineup.len() ==> #[trigger] text[i + 4] == (
                        lineup[i].description@,
                        LineStyle::Plain,
                    )
            }
        }),
{
    let text = fo_queue_text(q);
    let lineup = q.lineup();
    match q.spec_executing() {
        Some(e) => {
            assert(lineup[0] == e.task);
            assert forall|i: int| 1 <= i < lineup.len() implies #[trigger] text[i + 4] == (
                lineup[i].description@,
                LineStyle::Plain,
            ) by {
                assert(lineup[i] == q.spec_pending()[i - 1]);
            }
        },
        None => {
            assert(lineup.len() == 0);
        },
    }
}

fn push_line(lines: &mut Vec<PanelLine>, text: String, style: LineStyle)
    ensures
        lines_view(final(lines)@) == lines_view(old(lines)@).push((text@, style)),
{
    let ghost before = lines_view(lines@);
    lines.push(PanelLine { text, style });
    assert(lines_view(lines@) =~= before.push((text@, style)));
}

/// The lines of the FO task queue panel.
pub fn fo_queue_lines(queue: &TaskQueue) -> (r: Vec<PanelLine>)
    ensures
        lines_view(r@) == fo_queue_text(*queue),
{
    let mut lines: Vec<PanelLine> = Vec::new();
    match queue.executing() {
        Some(e) => {
            push_line(&mut lines, String::from_str("[Executing]"), LineStyle::Title);
            push_line(&mut lines, e.task.description.clone(), LineStyle::Plain);
            let secs = format_u64(e.remaining.as_secs());
            push_line(&mut lines, secs.concat(" sec remaining"), LineStyle::Plain);
        },
        None => {
            push_line(&mut lines, String::from_str("[Idle]"), LineStyle::Placeholder);
        },
    }
    let ghost head = lines_view(lines@);
    let pending = queue.pending();
    let n = pending.len();
    if n > 0 {
        push_line(&mut lines, String::from_str("------------------------"), LineStyle::Plain);
        push_line(&mut lines, String::from_str("[Pending]"), LineStyle::Title);
        let ghost top = lines_view(lines@);
        let mut k: usize = 0;
        while k < n
            invariant
                n == pending@.len(),
                k <= n,
                lines_view(lines@) == top + pending@.take(k as int).map_values(
                    |t: Task| (t.description@, LineStyle::Plain),
                ),
            decreases n - k,
        {
            push_line(&mut lines, pending[k].description.clone(), LineStyle::Plain);
            assert(pending@.take(k + 1) =~= pending@.take(k as int).push(pending@[k as int]));
            assert(top + pending@.take(k + 1).map_values(
                |t: Task| (t.description@, LineStyle::Plain),
            ) =~= (top + pending@.take(k as int).map_values(
                |t: Task| (t.description@, LineStyle::Plain),
            )).push((pending@[k as int].description@, LineStyle::Plain)));
            k = k + 1;
        }
        assert(pending@.take(n as int) =~= pending@);
        assert(lines_view(lines@) =~= fo_queue_text(*queue));
    } else {
        assert(lines_view(lines@) =~= fo_queue_text(*queue));
    }
    lines
}

/// `cleared: NAME` for each clearance of `cs` that `atc` has granted, in
/// order.
pub open spec fn cleared_lines(atc: Controller, cs: Seq<ClearanceType>) -> Seq<Seq<char>>
    decreases cs.len(),
{
    if cs.len() == 0 {
        seq![]
    } else {
        let w = cleared_lines(atc, cs.drop_last());
        if atc.spec_state(cs.last()) == ClearanceState::Granted {
            w.push("cleared: "@ + clearance_name(cs.last()))
        } else {
            w
        }
    }
}

/// The ATC panel: a line per granted clearance, or a note that none is.
pub open spec fn atc_panel_text(atc: Controller) -> Seq<(Seq<char>, LineStyle)> {
    let cleared = cleared_lines(atc, all_clearances());
    if cleared.len() == 0 {
        seq![("no clearances granted"@, LineStyle::Placeholder)]
    } else {
        cleared.map_values(|t: Seq<char>| (t, LineStyle::Plain))
    }
}

/// The lines of the ATC panel.
pub fn granted_lines(atc: &Controller) -> (r: Vec<PanelLine>)
    ensures
        lines_view(r@) == atc_panel_text(*atc),
{
    let mut lines: Vec<PanelLine> = Vec::new();
    let all = ClearanceType::all();
    let ghost cs = all_clearances();
    let mut i: usize = 0;
    while i < 6
        invariant
            all@ == cs,
            cs == all_clearances(),
            i <= 6,
            lines_view(lines@) == cleared_lines(*atc, cs.take(i as int)).map_values(
                |t: Seq<char>| (t, LineStyle::Plain),
            ),
        decreases 6 - i,
    {
        let c = all[i];
        assert(cs.take(i + 1).drop_last() =~= cs.take(i as int));
        assert(cs.take(i + 1).last() == c);
        if atc.is_granted(c) {
            let ghost before = cleared_lines(*atc, cs.take(i as int));
            push_line(&mut lines, String::from_str("cleared: ").concat(c.name()), LineStyle::Plain);
            assert(cleared_lines(*atc, cs.take(i + 1)) == before.push("cleared: "@ + clearance_name(c)));
            assert(lines_view(lines@) =~= before.push("cleared: "@ + clearance_name(c)).map_values(
                |t: Seq<char>| (t, LineStyle::Plain),
            ));
        }
        i = i + 1;
    }
    assert(cs.take(6) =~= cs);
    if lines.len() == 0 {
        push_line(&mut lines, String::from_str("no clearances granted"), LineStyle::Placeholder);
        assert(lines_view(lines@) =~= atc_panel_text(*atc));
    }
    lines
}

/// A rectangle of terminal cells.
#[derive(Debug, Clone, Copy, PartialEq, Eq, Structural)]
pub struct Area {
    pub x: u16,
    pub y: u16,
    pub width: u16,
    pub height: u16,
}

impl Area {
    /// How many cells the rectangle covers.
    pub fn area(&self) -> (r: u32)
        ensures
            r == self.width * self.height,
    {
        assert(self.width * self.height <= 0xffff * 0xffff) by (nonlinear_arith)
            requires
                self.width <= 0xffff,
                self.height <= 0xffff,
        ;
        (self.width as u32) * (self.height as u32)
    }
}

/// How much of the split direction one region asks for.
#[derive(Debug, Clone, Copy, PartialEq, Eq, Structural)]
pub enum ConstraintSpec {
    /// Exactly this many cells.
    Length(u16),
    /// At least this many cells.
    Min(u16),
    /// This fraction of the whole.
    Ratio(u32, u32),
}

/// `parts` lie inside `area`, one after another along the split
/// direction (top to bottom when `vertical`, else left to right) without
/// overlapping, each spanning the whole of `area` across that direction.
pub open spec fn tiles_in_order(area: Area, vertical: bool, parts: Seq<Area>) -> bool {
    &&& forall|i: int|
        0 <= i < parts.len() ==> if vertical {
            &&& #[trigger] parts[i].x == area.x
            &&& parts[i].width == area.width
            &&& area.y <= parts[i].y
            &&& parts[i].y + parts[i].height <= area.y + area.height
        } else {
            &&& parts[i].y == area.y
            &&& parts[i].height == area.height
            &&& area.x <= parts[i].x
            &&& parts[i].x + parts[i].width <= area.x + area.width
        }
    &&& forall|i: int, j: int|
        0 <= i < j < parts.len() ==> if vertical {
            #[trigger] parts[i].y + parts[i].height <= #[trigger] parts[j].y
        } else {
            parts[i].x + parts[i].width <= parts[j].x
        }
}

/// Where `a` starts along the split direction.
pub open spec fn start_of(a: Area, vertical: bool) -> int {
    if vertical {
        a.y as int
    } else {
        a.x as int
    }
}

/// Where `a` ends along the split direction.
pub open spec fn end_of(a: Area, vertical: bool) -> int {
    if vertical {
        a.y + a.height
    } else {
        a.x + a.width
    }
}

/// Where `area` ends along the split direction, as ratatui's
/// `right()`/`bottom()` give it: saturating at the largest coordinate.
pub open spec fn saturated_end(area: Area, vertical: bool) -> int {
    if end_of(area, vertical) <= 0xffff {
        end_of(area, vertical)
    } else {
        0xffff
    }
}

/// `parts` follow each other without gaps, the first starting where
/// `area` starts.
pub open spec fn contiguous(area: Area, vertical: bool, parts: Seq<Area>) -> bool {
    &&& parts.len() > 0 ==> start_of(parts[0], vertical) == start_of(area, vertical)
    &&& forall|i: int, j: int|
        0 <= i && j == i + 1 && j < parts.len() ==> end_of(#[trigger] parts[i], vertical) == start_of(
            #[trigger] parts[j],
            vertical,
        )
}

/// Some constraint asks for at least so many cells.
pub open spec fn has_min(constraints: Seq<ConstraintSpec>) -> bool {
    exists|i: int| 0 <= i < constraints.len() && #[trigger] constraints[i] is Min
}

/// Every constraint asks for the same share: one `n`-th of the whole, with
/// `n` the number of constraints.
pub open spec fn equal_shares(constraints: Seq<ConstraintSpec>) -> bool {
    forall|i: int|
        0 <= i < constraints.len() ==> #[trigger] constraints[i] == ConstraintSpec::Ratio(
            1,
            constraints.len() as u32,
        )
}

/// `size` cells is a fair `n`-th of `total`: within one cell of
/// `total / n`.
pub open spec fn fair_share(size: int, total: int, n: int) -> bool {
    n * size <= total + n && total <= n * size + n
}

/// `size` cells is a third of `total` rounded to a neighbouring whole
/// number: `total / 3` rounded down or up.
pub open spec fn near_third(size: int, total: int) -> bool {
    3 * size <= total + 2 && total <= 3 * size + 2
}

/// A third of three or more cells, rounded down or up, is at least one
/// cell: on a screen at least three cells wide no panel of the first two
/// rows vanishes.
pub proof fn law_thirds_are_never_empty(size: int, total: int)
    requires
        near_third(size, total),
        total >= 3,
    ensures
        size >= 1,
{
}

/// Length of `area` along the split direction, up to its saturated end.
pub open spec fn span(area: Area, vertical: bool) -> int {
    saturated_end(area, vertical) - start_of(area, vertical)
}

/// Splits `area` with `ratatui::layout::Layout::split` (default margin,
/// spacing and flex). The solver's exact sizes are not a function of the
/// arguments alone (ratatui documents ratios mixed with other constraints
/// as indeterminate, and the solver iterates hash maps), so the contract
/// states only what holds of every outcome, as the source shows it: one
/// region per constraint, each spanning `area` across the split direction,
/// all inside `area` and in order along it without overlap (the solver's
/// required constraints keep every boundary inside the area and in
/// ascending order, and rounding keeps that order). With the default
/// `Flex::Start` and no spacing, the first spacer is held empty and the
/// others to zero, so the regions follow each other from the area's start
/// without gaps; the last spacer grows only at `GROW` strength while a
/// `Min` region grows toward the whole area at the stronger `FILL_GROW`,
/// so when some constraint is `Min` the regions reach the area's end. So
/// they do when the constraints are equal shares: each share is held at
/// `RATIO_SIZE_EQ` strength, above the last spacer's `GROW`, and the
/// shares together make up the whole area, so the last spacer stays empty
/// up to a float error far below the half cell that rounding drops.
/// Then every share is held at exactly `span / n` and each boundary lies
/// at `start + k * span / n`, rounded twice (to hundredths of a cell,
/// then to a cell), so within `0.505` of it: each region is a fair `n`-th
/// of the span. For three shares the ideal boundaries sit at a whole
/// number or a third away from one, so the rounding lands on the nearest
/// cell and each region is the span's third rounded down or up.
#[verifier::external_body]
fn split(area: Area, vertical: bool, constraints: &[ConstraintSpec]) -> (r: Vec<Area>)
    ensures
        r@.len() == constraints@.len(),
        tiles_in_order(area, vertical, r@),
        contiguous(area, vertical, r@),
        has_min(constraints@) && r@.len() > 0 ==> end_of(r@.last(), vertical) == saturated_end(
            area,
            vertical,
        ),
        equal_shares(constraints@) && r@.len() > 0 ==> end_of(r@.last(), vertical)
            == saturated_end(area, vertical),
        equal_shares(constraints@) ==> forall|i: int|
            0 <= i < r@.len() ==> fair_share(
                #[trigger] end_of(r@[i], vertical) - start_of(r@[i], vertical),
                span(area, vertical),
                r@.len() as int,
            ),
        equal_shares(constraints@) && r@.len() == 3 ==> forall|i: int|
            0 <= i < 3 ==> near_third(
                #[trigger] end_of(r@[i], vertical) - start_of(r@[i], vertical),
                span(area, vertical),
            ),
{
    let direction = if vertical { Direction::Vertical } else { Direction::Horizontal };
    let rects = Layout::default().direction(direction).constraints(constraints.iter().map(|c| match *c {
        ConstraintSpec::Length(n) => Constraint::Length(n),
        ConstraintSpec::Min(n) => Constraint::Min(n),
        ConstraintSpec::Ratio(a, b) => Constraint::Ratio(a, b),
    })).split(Rect { x: area.x, y: area.y, width: area.width, height: area.height });
    rects.iter().map(|r| Area { x: r.x, y: r.y, width: r.width, height: r.height }).collect()
}

/// The named regions of the screen.
#[derive(Debug, Clone, Copy, PartialEq, Eq)]
pub struct AppLayout {
    pub pfd: Area,
    pub engine: Area,
    pub aircraft_status: Area,
    pub atc: Area,
    pub weather: Area,
    pub fo_queue: Area,
    pub log: Area,
    pub command_line: Area,
}

/// The screen's rows, top to bottom: instruments, ATC/weather/FO, the
/// log taking what is left, and the command line.
pub open spec fn row_constraints() -> Seq<ConstraintSpec> {
    seq![
        ConstraintSpec::Length(8),
        ConstraintSpec::Length(8),
        ConstraintSpec::Min(3),
        ConstraintSpec::Length(3),
    ]
}

/// Three equal columns.
pub open spec fn third_constraints() -> Seq<ConstraintSpec> {
    seq![ConstraintSpec::Ratio(1, 3), ConstraintSpec::Ratio(1, 3), ConstraintSpec::Ratio(1, 3)]
}

/// The full-width band of `area` at the height of `a`.
pub open spec fn band(area: Area, a: Area) -> Area {
    Area { x: area.x, y: a.y, width: area.width, height: a.height }
}

/// Turns the terminal's area into the named regions, asking the layout
/// solver for four rows (8 rows of instruments, 8 of ATC/weather/FO, at
/// least 3 of log, 3 of command line) and three equal columns in each of
/// the first two. Whatever sizes the solver picks: the rows lie top to
/// bottom, each the full width, the first at the area's top, each where
/// the one above ends, and the command line ending at the area's bottom;
/// PFD, engine and aircraft status lie left to right across the whole of
/// the first row without gaps, and ATC, weather and FO queue across the
/// whole of the second, each a third of the width rounded down or up.
pub fn compute(area: Area) -> (r: AppLayout)
    ensures
        tiles_in_order(
            area,
            true,
            seq![band(area, r.pfd), band(area, r.atc), r.log, r.command_line],
        ),
        contiguous(area, true, seq![band(area, r.pfd), band(area, r.atc), r.log, r.command_line]),
        r.command_line.y + r.command_line.height == saturated_end(area, true),
        tiles_in_order(band(area, r.pfd), false, seq![r.pfd, r.engine, r.aircraft_status]),
        contiguous(band(area, r.pfd), false, seq![r.pfd, r.engine, r.aircraft_status]),
        tiles_in_order(band(area, r.atc), false, seq![r.atc, r.weather, r.fo_queue]),
        contiguous(band(area, r.atc), false, seq![r.atc, r.weather, r.fo_queue]),
        end_of(r.aircraft_status, false) == saturated_end(band(area, r.pfd), false),
        end_of(r.fo_queue, false) == saturated_end(band(area, r.atc), false),
        near_third(r.pfd.width as int, span(area, false)),
        near_third(r.engine.width as int, span(area, false)),
        near_third(r.aircraft_status.width as int, span(area, false)),
        near_third(r.atc.width as int, span(area, false)),
        near_third(r.weather.width as int, span(area, false)),
        near_third(r.fo_queue.width as int, span(area, false)),
{
    let row_specs = [
        ConstraintSpec::Length(8),
        ConstraintSpec::Length(8),
        ConstraintSpec::Min(3),
        ConstraintSpec::Length(3),
    ];
    let thirds = [
        ConstraintSpec::Ratio(1, 3),
        ConstraintSpec::Ratio(1, 3),
        ConstraintSpec::Ratio(1, 3),
    ];
    assert(row_specs@ =~= row_constraints());
    assert(thirds@ =~= third_constraints());
    assert(row_specs@[2] is Min);
    assert(has_min(row_specs@));
    assert(equal_shares(thirds@));
    let rows = split(area, true, &row_specs);
    let top = split(rows[0], false, &thirds);
    let middle = split(rows[1], false, &thirds);
    let r = AppLayout {
        pfd: top[0],
        engine: top[1],
        aircraft_status: top[2],
        atc: middle[0],
        weather: middle[1],
        fo_queue: middle[2],
        log: rows[2],
        command_line: rows[3],
    };
    proof {
        assert(rows@[0].x == area.x && rows@[0].width == area.width);
        assert(rows@[1].x == area.x && rows@[1].width == area.width);
        assert(top@[0].x >= rows@[0].x);
        assert(middle@[0].x >= rows@[1].x);
        assert(top@[0].y == rows@[0].y && top@[0].height == rows@[0].height);
        assert(middle@[0].y == rows@[1].y && middle@[0].height == rows@[1].height);
        assert(band(area, r.pfd) == rows@[0]);
        assert(band(area, r.atc) == rows@[1]);
        assert(seq![band(area, r.pfd), band(area, r.atc), r.log, r.command_line] =~= rows@);
        assert(seq![r.pfd, r.engine, r.aircraft_status] =~= top@);
        assert(seq![r.atc, r.weather, r.fo_queue] =~= middle@);
        assert(rows@.last() == rows@[3]);
        assert(top@.last() == top@[2]);
        assert(near_third(end_of(top@[0], false) - start_of(top@[0], false), span(rows@[0], false)));
        assert(near_third(end_of(top@[1], false) - start_of(top@[1], false), span(rows@[0], false)));
        assert(near_third(end_of(top@[2], false) - start_of(top@[2], false), span(rows@[0], false)));
        assert(near_third(end_of(middle@[0], false) - start_of(middle@[0], false), span(rows@[1], false)));
        assert(near_third(end_of(middle@[1], false) - start_of(middle@[1], false), span(rows@[1], false)));
        assert(near_third(end_of(middle@[2], false) - start_of(middle@[2], false), span(rows@[1], false)));
        assert(middle@.last() == middle@[2]);
    }
    r
}

} // verus!
