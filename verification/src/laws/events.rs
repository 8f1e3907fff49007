//! What messages and the mouse change, said of what is seen before and after.

use vstd::prelude::*;

use crate::clock::Timestamp;
use crate::columns::disk_column_place;
use crate::columns::gpu_column_place;
use crate::columns::is_shown;
use crate::columns::job_column_place;
use crate::columns::law_header_click_finds_column;
use crate::columns::node_column_place;
use crate::columns::shown_before;
use crate::cursor::TableCursor;
use crate::dashboard::AppState;
use crate::events::header_at;
use crate::events::Effect;
use crate::events::Moment;
use crate::events::MouseKind;
use crate::events::MousePress;
use crate::events::Now;
use crate::events::RowClick;
use crate::events::UiMessage;
use crate::grid::Area;
use crate::laws::keys::bare;
use crate::laws::keys::lies;
use crate::model::opt_view;
use crate::model::views;
use crate::mouse::panel_under;
use crate::number::decimal;
use crate::panel::PanelId;
use crate::text::join;
use crate::text::strings;

verus! {

/// A new snapshot takes the place of the old one; its warnings are shown, and without warnings none is.
/// An error is shown and leaves the snapshot. The result of an action is shown.
pub proof fn law_messages_are_shown(pre: AppState, post: AppState, message: UiMessage, now: Timestamp, keep: bool)
    requires
        pre.told(post, message, now, keep),
    ensures
        message matches UiMessage::Snapshot(envelope) ==> {
            let warnings = strings(envelope.snapshot.warnings@);
            &&& post.snapshot == Some(envelope)
            &&& warnings.len() == 0 ==> post.notes.last_error is None
            &&& warnings.len() > 0 ==> opt_view(post.notes.last_error) == Some(join(warnings, " | "@))
            &&& post.notes.status@ == "Refreshed "@ + decimal(envelope.snapshot.jobs@.len()) + " jobs, "@
                + decimal(envelope.snapshot.nodes@.len()) + " nodes in "@ + decimal(
                (envelope.telemetry.elapsed.secs * 1000 + envelope.telemetry.elapsed.nanos / 1_000_000) as nat,
            ) + "ms; interval "@ + pre.setup.refresh_label@ + "s"@
        },
        message matches UiMessage::Error(error) ==> post.snapshot == pre.snapshot && opt_view(
            post.notes.last_error,
        ) == Some(error@) && post.notes.status@ == "Refresh failed: "@ + error@,
        message matches UiMessage::ActionResult(text) ==> post.snapshot == pre.snapshot && post.notes.status
            == text && post.popups.action is None,
        !(message is Snapshot) ==> post.snapshot == pre.snapshot,
        post.board == pre.board && post.sorting == pre.sorting && post.typing == pre.typing,
{
}

/// The result of the scan that runs is kept with its time, an error of it is kept too, and neither runs
/// any longer; what it reports is kept while it runs. Only a result is written to the disk.
#[verifier::rlimit(40)]
pub proof fn law_scan_messages(pre: AppState, post: AppState, message: UiMessage, now: Timestamp, keep: bool)
    requires
        pre.told(post, message, now, keep),
    ensures
        message matches UiMessage::DiskUsage { key, scan_id, result } ==> {
            let running = pre.book.scans@.contains_key(key@) && pre.book.scans@[key@].id == scan_id;
            &&& keep <==> running && result is Ok
            &&& !running ==> post == pre
            &&& running ==> !post.book.scans@.contains_key(key@)
            &&& running && result is Ok ==> {
                let (given, kept) = (views(result->Ok_0@), views(post.book.cache@[key@].rows@));
                &&& post.book.cache@.contains_key(key@)
                &&& post.book.cache@[key@].captured_at == now
                &&& !(given.len() == 1 && given[0].bytes == 0 && given[0].entries == 0) ==> kept == given
                &&& given.len() == 1 && given[0].bytes == 0 && given[0].entries == 0 ==> kept.len() == 0
                &&& !post.book.errors@.contains_key(key@)
            }
            &&& running && result is Err ==> {
                &&& post.book.errors@.contains_key(key@)
                &&& post.book.errors@[key@].message@ == result->Err_0@
                &&& post.book.errors@[key@].occurred_at == now
                &&& post.book.cache@ == pre.book.cache@
            }
        },
        message matches UiMessage::DiskUsageProgress { key, scan_id, progress } ==> {
            let running = pre.book.scans@.contains_key(key@) && pre.book.scans@[key@].id == scan_id;
            &&& !keep
            &&& running ==> post.book.scans@[key@].progress == Some(progress)
            &&& !running ==> post.book.scans@ == pre.book.scans@
            &&& post.book.cache == pre.book.cache
        },
        !(message is DiskUsage) ==> !keep,
{
}

/// A click on the header of a column sorts its panel by that column, turns its direction, goes back to
/// the first row, and leaves the other panels as they are. The panel gets the focus.
pub proof fn law_header_click(pre: AppState, post: AppState, mouse: MousePress, now: Now, effect: Effect)
    requires
        bare(pre),
        mouse.kind == MouseKind::LeftDown,
        pre.moused(post, mouse, now, effect),
        header_at(pre.hits.headers@, mouse.column, mouse.row) is Some,
    ensures
        ({
            let panel = header_at(pre.hits.headers@, mouse.column, mouse.row)->0.panel;
            &&& effect is Nothing
            &&& pre.board.panels.at(panel).visible ==> post.board.focus == panel
            &&& post.cursors.panels.at(panel) == (TableCursor { offset: 0, selected: Some(0) })
            &&& forall|p: PanelId|
                (#[trigger] post.sorting.directions.at(p) != pre.sorting.directions.at(p)) == (p == panel)
            &&& panel != PanelId::Jobs ==> post.sorting.columns.jobs == pre.sorting.columns.jobs
            &&& panel != PanelId::Nodes ==> post.sorting.columns.nodes == pre.sorting.columns.nodes
            &&& panel != PanelId::Gpus ==> post.sorting.columns.gpus == pre.sorting.columns.gpus
            &&& panel != PanelId::Disks ==> post.sorting.columns.disks == pre.sorting.columns.disks
            &&& post.popups == pre.popups
        }),
{
}

/// Whether a column is shown, with so many shown columns in front of it.
pub open spec fn stands_at(columns: Seq<bool>, column: int, place: int) -> bool {
    0 <= column < 50 && is_shown(columns, column) && shown_before(columns, column)
        == place
}

/// The column that a click on a header sorts by is the one that the header is over, whatever columns are
/// hidden: the shown column with as many shown ones in front of it as headers are in front of the one
/// that was clicked.
pub proof fn law_header_click_column(
    pre: AppState,
    post: AppState,
    mouse: MousePress,
    now: Now,
    effect: Effect,
    column: int,
)
    requires
        bare(pre),
        mouse.kind == MouseKind::LeftDown,
        pre.moused(post, mouse, now, effect),
        header_at(pre.hits.headers@, mouse.column, mouse.row) is Some,
        ({
            let hit = header_at(pre.hits.headers@, mouse.column, mouse.row)->0;
            stands_at(pre.board.panels.at(hit.panel).columns@, column, hit.span.column as int)
        }),
    ensures
        ({
            let panel = header_at(pre.hits.headers@, mouse.column, mouse.row)->0.panel;
            &&& panel == PanelId::Jobs && column < 12 ==> job_column_place(
                post.sorting.columns.jobs,
            ) == column
            &&& panel == PanelId::Nodes && column < 8 ==> node_column_place(
                post.sorting.columns.nodes,
            ) == column
            &&& panel == PanelId::Gpus && column < 5 ==> gpu_column_place(
                post.sorting.columns.gpus,
            ) == column
            &&& panel == PanelId::Disks && column < 4 ==> disk_column_place(
                post.sorting.columns.disks,
            ) == column
        }),
{
    let hit = header_at(pre.hits.headers@, mouse.column, mouse.row)->0;
    law_header_click_finds_column(pre.board.panels.at(hit.panel).columns@, column);
}

/// A click on a row of a table selects the row that is seen there, counted from the first row that is
/// seen below the border and the header, and gives its panel the focus.
#[verifier::rlimit(40)]
pub proof fn law_row_click(
    pre: AppState,
    post: AppState,
    mouse: MousePress,
    now: Now,
    effect: Effect,
    panel: PanelId,
    area: Area,
)
    requires
        bare(pre),
        mouse.kind == MouseKind::LeftDown,
        pre.moused(post, mouse, now, effect),
        header_at(pre.hits.headers@, mouse.column, mouse.row) is None,
        pre.hits.last_click is None,
        pre.hits.areas.at(panel) == Some(area),
        area.x + area.width <= u16::MAX && area.y + area.height <= u16::MAX,
        area.x < mouse.column < area.x + area.width - 1,
        area.y + 1 < mouse.row < area.y + area.height - 1,
        forall|p: PanelId|
            p != panel ==> (#[trigger] pre.hits.areas.at(p) is None || !pre.hits.areas.at(p)->0.holds(
                mouse.column,
                mouse.row,
            )),
        pre.row_count(panel) <= usize::MAX,
    ensures
        effect is Nothing,
        post.popups == pre.popups,
        pre.board.panels.at(panel).visible ==> post.board.focus == panel,
        ({
            let cursor = pre.cursors.panels.at(panel);
            let row = cursor.offset + (mouse.row - area.y - 2);
            &&& row < pre.row_count(panel) ==> post.cursors.panels.at(panel).selected == Some(row as usize)
                && post.cursors.panels.at(panel).offset == cursor.offset
            &&& row >= pre.row_count(panel) && pre.row_count(panel) > 0 ==> post.cursors.panels.at(panel)
                == cursor
        }),
{
    assert(pre.hits.areas.at(PanelId::Jobs) == pre.hits.areas.jobs);
    assert(pre.hits.areas.at(PanelId::Nodes) == pre.hits.areas.nodes);
    assert(pre.hits.areas.at(PanelId::Gpus) == pre.hits.areas.gpus);
    assert(pre.hits.areas.at(PanelId::Disks) == pre.hits.areas.disks);
    assert(pre.hits.areas.at(PanelId::Summary) == pre.hits.areas.summary);
    assert(area.holds(mouse.column, mouse.row));
    assert(panel_under(pre.hits.areas, mouse.column, mouse.row) == Some((panel, area)));
}

/// A second click on the same row, not more than 450 milliseconds after the first, opens it as enter
/// does; a click on another row or panel, or a later one, does not.
pub proof fn law_second_click(click: RowClick, panel: PanelId, row: usize, at: Moment)
    requires
        at.nanos >= click.at.nanos,
    ensures
        click.paired(panel, row, at) <==> click.panel == panel && click.row == row && at.nanos - click.at.nanos
            <= 450 * 1_000_000,
{
}

/// The wheel moves the selection in the popup of a disk by three rows, and in the panels it does
/// nothing.
pub proof fn law_wheel(pre: AppState, post: AppState, mouse: MousePress, now: Now, effect: Effect)
    requires
        pre.moused(post, mouse, now, effect),
        pre.active_usage().len() <= usize::MAX,
    ensures
        effect is Nothing || mouse.kind == MouseKind::LeftDown,
        bare(pre) && mouse.kind != MouseKind::LeftDown ==> post == pre,
        pre.popups.user is None && pre.popups.disk is Some && mouse.kind == MouseKind::ScrollDown ==> lies(
            pre.cursors.usage,
            post.cursors.usage,
            pre.active_usage().len() as int,
            3,
        ),
        pre.popups.user is None && pre.popups.disk is Some && mouse.kind == MouseKind::ScrollUp ==> lies(
            pre.cursors.usage,
            post.cursors.usage,
            pre.active_usage().len() as int,
            -3,
        ),
{
}

} // verus!
