use vstd::prelude::*;

verus! {

/// Which tab of a front-end is active. The store itself renders nothing;
/// this is shared state vocabulary for interface collaborators, with the
/// cycling rules kept here so they are checked.
#[derive(Debug, Clone, Copy, PartialEq, Eq, Structural)]
pub enum SelectedTab {
    CreateLog,
    ViewLogs,
    SpectrumViewer,
}

impl SelectedTab {
    /// The tab one step to the left; the first tab stays put.
    pub open spec fn spec_previous(self) -> SelectedTab {
        match self {
            SelectedTab::CreateLog => SelectedTab::CreateLog,
            SelectedTab::ViewLogs => SelectedTab::CreateLog,
            SelectedTab::SpectrumViewer => SelectedTab::ViewLogs,
        }
    }

    /// The tab one step to the right; the last tab stays put.
    pub open spec fn spec_next(self) -> SelectedTab {
        match self {
            SelectedTab::CreateLog => SelectedTab::ViewLogs,
            SelectedTab::ViewLogs => SelectedTab::SpectrumViewer,
            SelectedTab::SpectrumViewer => SelectedTab::SpectrumViewer,
        }
    }

    /// Steps to the previous tab, saturating at the first one.
    pub fn previous(self) -> (r: SelectedTab)
        ensures
            r == self.spec_previous(),
    {
        match self {
            SelectedTab::CreateLog => SelectedTab::CreateLog,
            SelectedTab::ViewLogs => SelectedTab::CreateLog,
            SelectedTab::SpectrumViewer => SelectedTab::ViewLogs,
        }
    }

    /// Steps to the next tab, saturating at the last one.
    pub fn next(self) -> (r: SelectedTab)
        ensures
            r == self.spec_next(),
    {
        match self {
            SelectedTab::CreateLog => SelectedTab::ViewLogs,
            SelectedTab::ViewLogs => SelectedTab::SpectrumViewer,
            SelectedTab::SpectrumViewer => SelectedTab::SpectrumViewer,
        }
    }
}

impl Default for SelectedTab {
    /// The create-log tab is shown first.
    fn default() -> (r: SelectedTab)
        ensures
            r == SelectedTab::CreateLog,
    {
        SelectedTab::CreateLog
    }
}

} // verus!
