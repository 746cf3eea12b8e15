//! The kinds of tab that the dock area shows.

use vstd::prelude::*;

verus! {

/// Define the tabs for the DockArea.
#[derive(Clone, Copy, Debug, PartialEq, Eq, Structural)]
pub enum TabKind {
    ViewSettings,
    DRC,
    GerberView,
    EventLog,
    Project,
    Settings,
    BOM,
}

impl TabKind {
    /// The title of a tab of this kind.
    pub open spec fn spec_title(self) -> Seq<char> {
        match self {
            TabKind::ViewSettings => "View Settings"@,
            TabKind::DRC => "DRC"@,
            TabKind::GerberView => "Gerber View"@,
            TabKind::EventLog => "Event Log"@,
            TabKind::Project => "Project"@,
            TabKind::Settings => "Settings"@,
            TabKind::BOM => "BOM"@,
        }
    }

    /// The title shown on a tab of this kind.
    pub fn title(&self) -> (title: String)
        ensures
            title@ == self.spec_title(),
    {
        match self {
            TabKind::ViewSettings => "View Settings".to_owned(),
            TabKind::DRC => "DRC".to_owned(),
            TabKind::GerberView => "Gerber View".to_owned(),
            TabKind::EventLog => "Event Log".to_owned(),
            TabKind::Project => "Project".to_owned(),
            TabKind::Settings => "Settings".to_owned(),
            TabKind::BOM => "BOM".to_owned(),
        }
    }
}

} // verus!
