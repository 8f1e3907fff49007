//! The panels of the dashboard.

use vstd::prelude::*;

verus! {

/// What went wrong in the model.
#[derive(Debug)]
pub enum CoreError {
    UnknownPanel(String),
}

impl CoreError {
    /// The error in words.
    pub open spec fn words(self) -> Seq<char> {
        match self {
            CoreError::UnknownPanel(name) => "unknown panel: "@ + name@,
        }
    }

    /// The error in words.
    pub fn message(&self) -> (r: String)
        ensures
            r@ == self.words(),
    {
        match self {
            CoreError::UnknownPanel(name) => {
                let mut out = "unknown panel: ".to_string();
                out.append(name.as_str());
                out
            },
        }
    }
}

/// A panel of the dashboard.
#[derive(Debug, Clone, Copy, PartialEq, Eq, Structural)]
pub enum PanelId {
    Jobs,
    Nodes,
    Gpus,
    Disks,
    Summary,
}

impl Default for PanelId {
    fn default() -> (r: Self)
        ensures
            r == PanelId::Jobs,
    {
        PanelId::Jobs
    }
}

impl PanelId {
    /// Every panel, in the order of their indices.
    pub const ALL: [PanelId; 5] = [
        PanelId::Jobs,
        PanelId::Nodes,
        PanelId::Gpus,
        PanelId::Disks,
        PanelId::Summary,
    ];

    /// The title of the panel.
    pub open spec fn heading(self) -> Seq<char> {
        match self {
            PanelId::Jobs => "Jobs"@,
            PanelId::Nodes => "Nodes"@,
            PanelId::Gpus => "GPUs / Resources"@,
            PanelId::Disks => "Disks"@,
            PanelId::Summary => "Summary / Accounting"@,
        }
    }

    /// The place of the panel among the panels.
    pub open spec fn place(self) -> int {
        match self {
            PanelId::Jobs => 0,
            PanelId::Nodes => 1,
            PanelId::Gpus => 2,
            PanelId::Disks => 3,
            PanelId::Summary => 4,
        }
    }

    /// The title of the panel.
    #[must_use]
    pub fn title(self) -> (r: &'static str)
        ensures
            r@ == self.heading(),
    {
        match self {
            PanelId::Jobs => "Jobs",
            PanelId::Nodes => "Nodes",
            PanelId::Gpus => "GPUs / Resources",
            PanelId::Disks => "Disks",
            PanelId::Summary => "Summary / Accounting",
        }
    }

    /// The place of the panel among the panels.
    #[must_use]
    pub fn index(self) -> (r: usize)
        ensures
            r == self.place(),
    {
        match self {
            PanelId::Jobs => 0,
            PanelId::Nodes => 1,
            PanelId::Gpus => 2,
            PanelId::Disks => 3,
            PanelId::Summary => 4,
        }
    }
}

/// The panel at a place.
pub open spec fn panel_at(i: int) -> PanelId {
    if i == 0 {
        PanelId::Jobs
    } else if i == 1 {
        PanelId::Nodes
    } else if i == 2 {
        PanelId::Gpus
    } else if i == 3 {
        PanelId::Disks
    } else {
        PanelId::Summary
    }
}

/// Every panel stands once among the panels, at its own index.
pub proof fn law_panel_indices(panel: PanelId)
    ensures
        0 <= panel.place() < 5,
        panel_at(panel.place()) == panel,
        PanelId::ALL[panel.place()] == panel,
{
}

} // verus!
