//! Where the user is: the tab shown, the pane with the focus, and any modal dialog.

use vstd::prelude::*;
use crate::flatpak_service::types::Installation;

verus! {

/// The tabs of the main window, in the order they are shown.
#[derive(Debug, Clone, Copy, PartialEq, Eq, Structural)]
pub enum Tab {
    Apps,
    Runtimes,
    Remotes,
    History,
    Install,
}

/// The title a tab shows in the tab bar: its number key, a point and its name.
pub open spec fn tab_title(t: Tab) -> Seq<char> {
    match t {
        Tab::Apps => "1.Apps"@,
        Tab::Runtimes => "2.Runtimes"@,
        Tab::Remotes => "3.Remotes"@,
        Tab::History => "4.History"@,
        Tab::Install => "5.Install"@,
    }
}

impl Tab {
    /// Every tab, in tab-bar order.
    pub fn all() -> (r: &'static [Tab])
        ensures
            r@ == seq![Tab::Apps, Tab::Runtimes, Tab::Remotes, Tab::History, Tab::Install],
    {
        let r: &'static [Tab] = &[Tab::Apps, Tab::Runtimes, Tab::Remotes, Tab::History, Tab::Install];
        assert(r@ =~= seq![Tab::Apps, Tab::Runtimes, Tab::Remotes, Tab::History, Tab::Install]);
        r
    }

    /// The tab's title in the tab bar.
    pub fn title(&self) -> (r: &'static str)
        ensures
            r@ == tab_title(*self),
    {
        match self {
            Tab::Apps => "1.Apps",
            Tab::Runtimes => "2.Runtimes",
            Tab::Remotes => "3.Remotes",
            Tab::History => "4.History",
            Tab::Install => "5.Install",
        }
    }
}

/// The pane that receives the keys.
#[derive(Debug, Clone, Copy, PartialEq, Eq, Structural)]
pub enum Focus {
    Tabs,
    List,
    Detail,
    Search,
}

/// A dialog drawn over the main window.
#[derive(Debug, Clone, PartialEq, Eq)]
pub enum Modal {
    Help,
    Jobs,
    Confirm(ConfirmAction),
    Permissions { id: String },
}

/// A destructive action that waits for confirmation.
#[derive(Debug, Clone, PartialEq, Eq)]
pub enum ConfirmAction {
    Uninstall { ref_: String, inst: Installation },
}

/// Whether a modal dialog is open.
#[derive(Debug, Clone, PartialEq, Eq)]
pub enum Mode {
    Normal,
    Modal(Modal),
}

} // verus!
