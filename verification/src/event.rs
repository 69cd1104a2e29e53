use vstd::prelude::*;
use vstd::string::*;

verus! {

/// A message between the parts of the wizard: a package card, the install window and the
/// main window. `name` says what happened, `package_id` to which package.
#[derive(Debug, Clone)]
pub struct Event {
    pub name: String,
    pub package_id: String,
}

/// What an event's name stands for.
#[derive(Debug, Clone, Copy, PartialEq, Eq, Structural)]
pub enum EventKind {
    SelectPackage,
    UnselectPackage,
    InstallCompleted,
    Unknown,
}

pub open spec fn select_package_name() -> Seq<char> {
    "select-package"@
}

pub open spec fn unselect_package_name() -> Seq<char> {
    "unselect-package"@
}

pub open spec fn install_completed_name() -> Seq<char> {
    "install-completed"@
}

/// The kind an event name stands for.
pub open spec fn kind_of_name(name: Seq<char>) -> EventKind {
    if name == select_package_name() {
        EventKind::SelectPackage
    } else if name == unselect_package_name() {
        EventKind::UnselectPackage
    } else if name == install_completed_name() {
        EventKind::InstallCompleted
    } else {
        EventKind::Unknown
    }
}

/// The events that a card and the install window send are read back as what they are: a
/// selection toggle, an unselection and the end of a run.
pub proof fn lemma_event_names_read_back()
    ensures
        kind_of_name(select_package_name()) == EventKind::SelectPackage,
        kind_of_name(unselect_package_name()) == EventKind::UnselectPackage,
        kind_of_name(install_completed_name()) == EventKind::InstallCompleted,
{
    reveal_strlit("select-package");
    reveal_strlit("unselect-package");
    reveal_strlit("install-completed");
    assert(select_package_name()[0] != unselect_package_name()[0]);
    assert(select_package_name()[0] != install_completed_name()[0]);
    assert(unselect_package_name()[0] != install_completed_name()[0]);
}

impl Event {
    /// A card asks to toggle the selection of `package_id`.
    pub fn select_package(package_id: String) -> (e: Event)
        ensures
            e.name@ == select_package_name(),
            e.package_id@ == package_id@,
    {
        Event { name: String::from_str("select-package"), package_id }
    }

    /// The install window reports that `package_id` was installed.
    pub fn unselect_package(package_id: String) -> (e: Event)
        ensures
            e.name@ == unselect_package_name(),
            e.package_id@ == package_id@,
    {
        Event { name: String::from_str("unselect-package"), package_id }
    }

    /// The install window reports that it has gone through all packages.
    pub fn install_completed() -> (e: Event)
        ensures
            e.name@ == install_completed_name(),
            e.package_id@ == Seq::<char>::empty(),
    {
        Event { name: String::from_str("install-completed"), package_id: String::new() }
    }

    /// What this event's name stands for.
    pub fn kind(&self) -> (k: EventKind)
        ensures
            k == kind_of_name(self.name@),
    {
        let select = String::from_str("select-package");
        let unselect = String::from_str("unselect-package");
        let completed = String::from_str("install-completed");
        if self.name == select {
            EventKind::SelectPackage
        } else if self.name == unselect {
            EventKind::UnselectPackage
        } else if self.name == completed {
            EventKind::InstallCompleted
        } else {
            EventKind::Unknown
        }
    }
}

} // verus!
