//! What the dashboard is told, and what it asks for.

use vstd::prelude::*;

use crate::clock::Span;
use crate::clock::Timestamp;
use crate::columns::UserJobSection;
use crate::commands::JobAction;
use crate::grid::contains;
use crate::grid::Area;
use crate::grid::HeaderSpan;
use crate::keyed::DiskUsageKey;
use crate::model::DiskUserUsage;
use crate::panel::PanelId;
use crate::slurm::DiskUsageProgress;
use crate::slurm::SlurmError;
use crate::slurm::SnapshotEnvelope;

verus! {

/// A moment of a clock that never goes back, in nanoseconds.
#[derive(Debug, Clone, Copy, PartialEq, Eq, Structural)]
pub struct Moment {
    pub nanos: u64,
}

impl Moment {
    /// The nanoseconds from an earlier moment to this one; none from a later one.
    pub open spec fn since(self, earlier: Moment) -> int {
        if self.nanos >= earlier.nanos {
            self.nanos - earlier.nanos
        } else {
            0
        }
    }

    /// The nanoseconds from an earlier moment to this one.
    pub fn nanos_since(self, earlier: Moment) -> (r: u64)
        ensures
            r == self.since(earlier),
    {
        self.nanos.saturating_sub(earlier.nanos)
    }
}

/// The time of an event, by both clocks.
#[derive(Debug, Clone, Copy, PartialEq, Eq, Structural)]
pub struct Now {
    pub moment: Moment,
    pub time: Timestamp,
}

/// A key.
#[derive(Debug, Clone, Copy, PartialEq, Eq, Structural)]
pub enum KeyCode {
    Char(char),
    Enter,
    Esc,
    Tab,
    BackTab,
    Backspace,
    Up,
    Down,
    PageUp,
    PageDown,
    Home,
    End,
    Other,
}

/// A key that is pressed or released.
#[derive(Debug, Clone, Copy, PartialEq, Eq, Structural)]
pub struct KeyPress {
    pub code: KeyCode,
    pub released: bool,
    pub control: bool,
}

/// What a mouse does.
#[derive(Debug, Clone, Copy, PartialEq, Eq, Structural)]
pub enum MouseKind {
    LeftDown,
    ScrollUp,
    ScrollDown,
    Other,
}

/// A mouse that does something at a place.
#[derive(Debug, Clone, Copy, PartialEq, Eq, Structural)]
pub struct MousePress {
    pub kind: MouseKind,
    pub column: u16,
    pub row: u16,
}

/// What typing means.
#[derive(Debug, Clone, Copy, PartialEq, Eq, Structural)]
pub enum InputMode {
    Normal,
    Search,
    Filter,
}

/// An action on a job that is not confirmed yet.
#[derive(Debug)]
pub struct PendingAction {
    pub action: JobAction,
    pub job_id: String,
}

/// What the background tells the dashboard.
#[derive(Debug)]
pub enum UiMessage {
    Snapshot(SnapshotEnvelope),
    Error(String),
    ActionResult(String),
    DiskUsage { key: DiskUsageKey, scan_id: u64, result: Result<Vec<DiskUserUsage>, String> },
    DiskUsageProgress { key: DiskUsageKey, scan_id: u64, progress: DiskUsageProgress },
}

/// What the dashboard asks for.
#[derive(Debug)]
pub enum Effect {
    /// Nothing.
    Nothing,
    /// To end.
    Quit,
    /// A snapshot, now.
    Refresh,
    /// An action on a job.
    RunAction(PendingAction),
    /// A scan of a disk, in place of the one that `replaces` names.
    StartScan { key: DiskUsageKey, scan_id: u64, timeout: Option<Span>, replaces: Option<u64> },
}

/// What is told of an action on a job.
pub open spec fn action_report(action: JobAction, job_id: Seq<char>, message: Seq<char>) -> Seq<char> {
    action.name() + " "@ + job_id + ": "@ + message
}

/// What is told of a failed action on a job.
pub open spec fn action_failure(action: JobAction, job_id: Seq<char>, error: Seq<char>) -> Seq<char> {
    action.name() + " "@ + job_id + " failed: "@ + error
}

/// What is told of an action on a job.
pub fn report_action(
    action: JobAction,
    job_id: &str,
    result: Result<String, SlurmError>,
) -> (r: UiMessage)
    requires
        result matches Err(e) ==> e.wf(),
    ensures
        match result {
            Ok(message) => r matches UiMessage::ActionResult(text) && text@ == action_report(
                action,
                job_id@,
                message@,
            ),
            Err(error) => r matches UiMessage::Error(text) && text@ == action_failure(
                action,
                job_id@,
                error.words(),
            ),
        },
{
    let mut out = action.label().to_string();
    out.append(" ");
    out.append(job_id);
    match result {
        Ok(message) => {
            out.append(": ");
            out.append(message.as_str());
            UiMessage::ActionResult(out)
        },
        Err(error) => {
            out.append(" failed: ");
            out.append(error.message().as_str());
            UiMessage::Error(out)
        },
    }
}

/// What is told of a refresh.
pub fn report_refresh(result: Result<SnapshotEnvelope, SlurmError>) -> (r: UiMessage)
    requires
        result matches Err(e) ==> e.wf(),
    ensures
        match result {
            Ok(envelope) => r == UiMessage::Snapshot(envelope),
            Err(error) => r matches UiMessage::Error(text) && text@ == error.words(),
        },
{
    match result {
        Ok(envelope) => UiMessage::Snapshot(envelope),
        Err(error) => UiMessage::Error(error.message()),
    }
}

/// A click on a row of a panel.
#[derive(Debug, Clone, Copy, PartialEq, Eq, Structural)]
pub struct RowClick {
    pub panel: PanelId,
    pub row: usize,
    pub at: Moment,
}

/// The longest time between the clicks of a double click, in nanoseconds.
pub const DOUBLE_CLICK_NANOS: u64 = 450_000_000;

impl RowClick {
    /// Whether a click makes a double click with this one: on the same row, and soon enough.
    pub open spec fn paired(self, panel: PanelId, row: usize, at: Moment) -> bool {
        self.panel == panel && self.row == row && at.since(self.at) <= 450_000_000
    }

    /// Whether a click makes a double click with this one.
    pub fn matches(self, panel: PanelId, row: usize, at: Moment) -> (r: bool)
        ensures
            r == self.paired(panel, row, at),
    {
        self.panel == panel && self.row == row && at.nanos_since(self.at) <= DOUBLE_CLICK_NANOS
    }
}

/// The header of a column of a panel, on the screen.
#[derive(Debug, Clone, Copy, PartialEq, Eq, Structural)]
pub struct HeaderHit {
    pub panel: PanelId,
    pub span: HeaderSpan,
}

/// A table of a popup.
#[derive(Debug, Clone, Copy, PartialEq, Eq, Structural)]
pub enum ModalTable {
    UserRunning,
    UserPending,
    DiskUsage,
}

impl ModalTable {
    /// The section of a user's jobs that the table shows.
    pub open spec fn section(self) -> Option<UserJobSection> {
        match self {
            ModalTable::UserRunning => Some(UserJobSection::Running),
            ModalTable::UserPending => Some(UserJobSection::Pending),
            ModalTable::DiskUsage => None,
        }
    }

    /// The section of a user's jobs that the table shows.
    pub fn user_section(self) -> (r: Option<UserJobSection>)
        ensures
            r == self.section(),
    {
        match self {
            ModalTable::UserRunning => Some(UserJobSection::Running),
            ModalTable::UserPending => Some(UserJobSection::Pending),
            ModalTable::DiskUsage => None,
        }
    }
}

/// The header of a column of a popup, on the screen.
#[derive(Debug, Clone, Copy, PartialEq, Eq, Structural)]
pub struct ModalHeaderHit {
    pub table: ModalTable,
    pub span: HeaderSpan,
}

/// A table of a popup, on the screen.
#[derive(Debug, Clone, Copy, PartialEq, Eq, Structural)]
pub struct ModalTableHit {
    pub table: ModalTable,
    pub area: Area,
}

/// The first header of a panel at a point.
pub open spec fn header_at(hits: Seq<HeaderHit>, x: u16, y: u16) -> Option<HeaderHit>
    decreases hits.len(),
{
    if hits.len() == 0 {
        None
    } else if hits[0].span.holds(x, y) {
        Some(hits[0])
    } else {
        header_at(hits.drop_first(), x, y)
    }
}

/// The first header of a popup at a point.
pub open spec fn modal_header_at(hits: Seq<ModalHeaderHit>, x: u16, y: u16) -> Option<ModalHeaderHit>
    decreases hits.len(),
{
    if hits.len() == 0 {
        None
    } else if hits[0].span.holds(x, y) {
        Some(hits[0])
    } else {
        modal_header_at(hits.drop_first(), x, y)
    }
}

/// The first table of a popup at a point.
pub open spec fn table_at(hits: Seq<ModalTableHit>, x: u16, y: u16) -> Option<ModalTableHit>
    decreases hits.len(),
{
    if hits.len() == 0 {
        None
    } else if hits[0].area.holds(x, y) {
        Some(hits[0])
    } else {
        table_at(hits.drop_first(), x, y)
    }
}

/// The first header of a panel at a point.
pub fn find_header(hits: &Vec<HeaderHit>, x: u16, y: u16) -> (r: Option<HeaderHit>)
    ensures
        r == header_at(hits@, x, y),
{
    let mut i: usize = 0;
    assert(hits@.skip(0) =~= hits@);
    while i < hits.len()
        invariant
            i <= hits@.len(),
            header_at(hits@, x, y) == header_at(hits@.skip(i as int), x, y),
        decreases hits@.len() - i,
    {
        if hits[i].span.contains(x, y) {
            return Some(hits[i]);
        }
        assert(hits@.skip(i as int).drop_first() =~= hits@.skip(i + 1));
        i += 1;
    }
    None
}

/// The first header of a popup at a point.
pub fn find_modal_header(hits: &Vec<ModalHeaderHit>, x: u16, y: u16) -> (r: Option<ModalHeaderHit>)
    ensures
        r == modal_header_at(hits@, x, y),
{
    let mut i: usize = 0;
    assert(hits@.skip(0) =~= hits@);
    while i < hits.len()
        invariant
            i <= hits@.len(),
            modal_header_at(hits@, x, y) == modal_header_at(hits@.skip(i as int), x, y),
        decreases hits@.len() - i,
    {
        if hits[i].span.contains(x, y) {
            return Some(hits[i]);
        }
        assert(hits@.skip(i as int).drop_first() =~= hits@.skip(i + 1));
        i += 1;
    }
    None
}

/// The first table of a popup at a point.
pub fn find_table(hits: &Vec<ModalTableHit>, x: u16, y: u16) -> (r: Option<ModalTableHit>)
    requires
        forall|i: int| 0 <= i < hits@.len() ==> (#[trigger] hits@[i]).area.fits(),
    ensures
        r == table_at(hits@, x, y),
{
    let mut i: usize = 0;
    assert(hits@.skip(0) =~= hits@);
    while i < hits.len()
        invariant
            i <= hits@.len(),
            forall|k: int| 0 <= k < hits@.len() ==> (#[trigger] hits@[k]).area.fits(),
            table_at(hits@, x, y) == table_at(hits@.skip(i as int), x, y),
        decreases hits@.len() - i,
    {
        if contains(hits[i].area, x, y) {
            return Some(hits[i]);
        }
        assert(hits@.skip(i as int).drop_first() =~= hits@.skip(i + 1));
        i += 1;
    }
    None
}

} // verus!
