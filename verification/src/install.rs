use vstd::prelude::*;
use vstd::string::*;

use crate::event::{Event, install_completed_name, unselect_package_name};
use crate::package_info::PackageInfo;
use crate::package_service::result_view;
use crate::selection::ids_view;
use crate::text::{nat_digits, push_digits};

verus! {

/// Where an installation run stands.
#[derive(Debug, Clone, Copy, PartialEq, Eq, Structural)]
pub enum InstallPhase {
    /// Waiting for the result of the authentication command.
    Authenticating,
    /// Waiting for the result of the package with this index.
    Installing(usize),
    /// Every package has been through; the run is over.
    Done,
    /// Authentication failed; nothing was installed.
    Failed,
}

/// One thing for the install window to do.
#[derive(Debug, Clone)]
pub enum InstallAction {
    /// Show the error screen with this message.
    ShowError(String),
    /// Add a row for the package with this index and name, marked as being installed, and show
    /// the progress `done` of `total`; then install the package.
    BeginPackage { index: usize, name: String, done: usize, total: usize },
    /// Mark the row of this package as installed.
    MarkInstalled { index: usize },
    /// Mark the row of this package as failed, with this text.
    MarkFailed { index: usize, message: String },
    /// Send this event to the main window.
    Send(Event),
    /// Show the finished screen.
    ShowDone,
}

/// The next phase after package `i` of `total` has a result.
pub open spec fn phase_after_package(i: nat, total: nat) -> InstallPhase {
    if i + 1 < total {
        InstallPhase::Installing((i + 1) as usize)
    } else {
        InstallPhase::Done
    }
}

/// The phase after a successful authentication, with `total` packages to install.
pub open spec fn phase_after_authentication(total: nat) -> InstallPhase {
    if total > 0 {
        InstallPhase::Installing(0)
    } else {
        InstallPhase::Done
    }
}

/// The actions that start package `i` (of `names`) or, past the last one, end the run.
pub open spec fn next_actions_ok(acts: Seq<InstallAction>, names: Seq<Seq<char>>, i: nat) -> bool {
    if i < names.len() {
        &&& acts.len() == 1
        &&& acts[0] matches InstallAction::BeginPackage { index, name, done, total }
        &&& index == i && name@ == names[i as int] && done == i + 1 && total == names.len()
    } else {
        &&& acts.len() == 2
        &&& acts[0] is ShowDone
        &&& acts[1] matches InstallAction::Send(e)
        &&& e.name@ == install_completed_name() && e.package_id@ == Seq::<char>::empty()
    }
}

/// The installation of a list of packages, one after the other, as the install window runs
/// it: authenticate, then each package in order, reporting each result; at the end the main
/// window is told the run is over. The window performs the actions and reports the results.
pub struct InstallSession {
    ids: Vec<String>,
    names: Vec<String>,
    phase: InstallPhase,
}

impl InstallSession {
    #[verifier::type_invariant]
    closed spec fn consistent(&self) -> bool {
        &&& self.ids@.len() == self.names@.len()
        &&& self.phase matches InstallPhase::Installing(i) ==> i < self.ids@.len()
    }

    /// The ids of the packages, in the order they are installed.
    pub closed spec fn package_ids(&self) -> Seq<Seq<char>> {
        ids_view(self.ids@)
    }

    /// The names of the packages, in the order they are installed.
    pub closed spec fn package_names(&self) -> Seq<Seq<char>> {
        ids_view(self.names@)
    }

    /// Where the run stands.
    pub closed spec fn current_phase(&self) -> InstallPhase {
        self.phase
    }

    /// A run over `packages`, waiting for authentication.
    pub fn new(packages: &Vec<PackageInfo>) -> (s: InstallSession)
        ensures
            s.package_ids().len() == packages@.len(),
            s.package_names().len() == packages@.len(),
            forall|m: int| 0 <= m < packages@.len() ==> #[trigger] s.package_ids()[m] == packages@[m].id@
                && s.package_names()[m] == packages@[m].name@,
            s.current_phase() == InstallPhase::Authenticating,
    {
        let mut ids: Vec<String> = Vec::new();
        let mut names: Vec<String> = Vec::new();
        let mut k: usize = 0;
        while k < packages.len()
            invariant
                k <= packages@.len(),
                ids@.len() == k,
                names@.len() == k,
                forall|m: int| 0 <= m < k ==> #[trigger] ids@[m]@ == packages@[m].id@,
                forall|m: int| 0 <= m < k ==> #[trigger] names@[m]@ == packages@[m].name@,
            decreases packages@.len() - k,
        {
            ids.push(packages[k].id.clone());
            names.push(packages[k].name.clone());
            k = k + 1;
        }
        InstallSession { ids, names, phase: InstallPhase::Authenticating }
    }

    /// Where the run stands.
    pub fn phase(&self) -> (p: InstallPhase)
        ensures
            p == self.current_phase(),
    {
        self.phase
    }

    /// The actions that start package `i`, or end the run past the last one.
    fn next_actions(&self, i: usize) -> (acts: Vec<InstallAction>)
        requires
            i <= self.package_names().len(),
        ensures
            next_actions_ok(acts@, self.package_names(), i as nat),
    {
        proof { use_type_invariant(self); }
        let mut acts: Vec<InstallAction> = Vec::new();
        if i < self.names.len() {
            acts.push(InstallAction::BeginPackage {
                index: i,
                name: self.names[i].clone(),
                done: i + 1,
                total: self.names.len(),
            });
        } else {
            acts.push(InstallAction::ShowDone);
            acts.push(InstallAction::Send(Event::install_completed()));
        }
        acts
    }

    /// The result of the authentication: on failure the error screen shows its message and the
    /// run ends; on success the first package starts (or, with none, the run ends at once).
    /// Outside the authentication phase nothing happens.
    pub fn on_authenticated(&mut self, result: Result<(), String>) -> (acts: Vec<InstallAction>)
        ensures
            final(self).package_ids() == old(self).package_ids(),
            final(self).package_names() == old(self).package_names(),
            old(self).current_phase() != InstallPhase::Authenticating ==> {
                &&& final(self).current_phase() == old(self).current_phase()
                &&& acts@.len() == 0
            },
            old(self).current_phase() == InstallPhase::Authenticating ==> match result_view(result) {
                Err(e) => {
                    &&& final(self).current_phase() == InstallPhase::Failed
                    &&& acts@.len() == 1
                    &&& acts@[0] matches InstallAction::ShowError(m) && m@ == e
                },
                Ok(()) => {
                    &&& final(self).current_phase() == phase_after_authentication(old(self).package_ids().len())
                    &&& next_actions_ok(acts@, old(self).package_names(), 0)
                },
            },
    {
        proof { use_type_invariant(&*self); }
        if self.phase != InstallPhase::Authenticating {
            return Vec::new();
        }
        match result {
            Err(e) => {
                self.phase = InstallPhase::Failed;
                let mut acts: Vec<InstallAction> = Vec::new();
                acts.push(InstallAction::ShowError(e));
                acts
            },
            Ok(()) => {
                let acts = self.next_actions(0);
                if self.ids.len() > 0 {
                    self.phase = InstallPhase::Installing(0);
                } else {
                    self.phase = InstallPhase::Done;
                }
                acts
            },
        }
    }

    /// The result of the package being installed: its row is marked installed (and the main
    /// window told to unselect it) or failed with `Error: ` and the message; then the next
    /// package starts, or after the last one the run ends. Outside the installing phase nothing
    /// happens.
    pub fn on_package_result(&mut self, result: Result<(), String>) -> (acts: Vec<InstallAction>)
        ensures
            final(self).package_ids() == old(self).package_ids(),
            final(self).package_names() == old(self).package_names(),
            !(old(self).current_phase() is Installing) ==> {
                &&& final(self).current_phase() == old(self).current_phase()
                &&& acts@.len() == 0
            },
            old(self).current_phase() matches InstallPhase::Installing(i) ==> {
                let rest = match result_view(result) {
                    Ok(()) => acts@.skip(2),
                    Err(_) => acts@.skip(1),
                };
                &&& final(self).current_phase() == phase_after_package(i as nat, old(self).package_ids().len())
                &&& match result_view(result) {
                    Ok(()) => {
                        &&& acts@.len() >= 2
                        &&& acts@[0] matches InstallAction::MarkInstalled { index } && index == i
                        &&& acts@[1] matches InstallAction::Send(e)
                        &&& e.name@ == unselect_package_name()
                        &&& e.package_id@ == old(self).package_ids()[i as int]
                    },
                    Err(m) => {
                        &&& acts@.len() >= 1
                        &&& acts@[0] matches InstallAction::MarkFailed { index, message }
                        &&& index == i && message@ == "Error: "@ + m
                    },
                }
                &&& next_actions_ok(rest, old(self).package_names(), (i + 1) as nat)
            },
    {
        proof { use_type_invariant(&*self); }
        let i: usize = match self.phase {
            InstallPhase::Installing(i) => i,
            _ => {
                return Vec::new();
            },
        };
        let mut acts: Vec<InstallAction> = Vec::new();
        match result {
            Ok(()) => {
                acts.push(InstallAction::MarkInstalled { index: i });
                acts.push(InstallAction::Send(Event::unselect_package(self.ids[i].clone())));
            },
            Err(e) => {
                let mut message = String::from_str("Error: ");
                message.append(e.as_str());
                acts.push(InstallAction::MarkFailed { index: i, message });
            },
        }
        let ghost head = acts@;
        assert(i < self.ids.len());
        let mut next = self.next_actions(i + 1);
        let ghost tail = next@;
        acts.append(&mut next);
        assert(acts@.skip(head.len() as int) =~= tail);
        if i + 1 < self.ids.len() {
            self.phase = InstallPhase::Installing(i + 1);
        } else {
            self.phase = InstallPhase::Done;
        }
        acts
    }
}

/// The phase reached from `p` after `k` more package results, with `total` packages.
pub open spec fn phase_after(p: InstallPhase, k: nat, total: nat) -> InstallPhase
    decreases k,
{
    if k == 0 {
        p
    } else {
        match p {
            InstallPhase::Installing(i) => phase_after(phase_after_package(i as nat, total), (k - 1) as nat, total),
            _ => p,
        }
    }
}

/// After a successful authentication, a run over `total` packages waits for the packages one by
/// one, in order, and is over exactly when each has had its result.
pub proof fn lemma_run_covers_every_package(total: nat, k: nat)
    requires
        total <= usize::MAX,
    ensures
        k < total ==> phase_after(phase_after_authentication(total), k, total) == InstallPhase::Installing(k as usize),
        k >= total ==> phase_after(phase_after_authentication(total), k, total) == InstallPhase::Done,
{
    if total > 0 {
        lemma_results_from(0, k, total);
    } else {
        lemma_done_stays(k, total);
    }
}

proof fn lemma_done_stays(k: nat, total: nat)
    ensures
        phase_after(InstallPhase::Done, k, total) == InstallPhase::Done,
    decreases k,
{
    if k > 0 {
        lemma_done_stays((k - 1) as nat, total);
    }
}

proof fn lemma_results_from(start: nat, k: nat, total: nat)
    requires
        start < total <= usize::MAX,
    ensures
        start + k < total ==> phase_after(InstallPhase::Installing(start as usize), k, total)
            == InstallPhase::Installing((start + k) as usize),
        start + k >= total ==> phase_after(InstallPhase::Installing(start as usize), k, total) == InstallPhase::Done,
    decreases k,
{
    if k > 0 {
        if start + 1 < total {
            lemma_results_from(start + 1, (k - 1) as nat, total);
        } else {
            lemma_done_stays((k - 1) as nat, total);
        }
    }
}

/// What a finished install task reports: its own result, or `Install task error` when the task
/// itself could not run to its end.
pub fn task_outcome(joined: Option<Result<(), String>>) -> (r: Result<(), String>)
    ensures
        match joined {
            Some(inner) => result_view(r) == result_view(inner),
            None => result_view(r) == Err::<(), Seq<char>>("Install task error"@),
        },
{
    match joined {
        Some(inner) => inner,
        None => Err(String::from_str("Install task error")),
    }
}

/// The texts of the install window's header, status line and closing button.
#[derive(Debug, Clone)]
pub struct StatusView {
    pub header: String,
    pub status: String,
    pub button: String,
}

/// The error screen: header `Error`, the message, and a `Close` button.
pub fn error_status(message: &String) -> (v: StatusView)
    ensures
        v.header@ == "Error"@,
        v.status@ == message@,
        v.button@ == "Close"@,
{
    StatusView {
        header: String::from_str("Error"),
        status: message.clone(),
        button: String::from_str("Close"),
    }
}

/// The finished screen: header `Done`, no status line, and a `Done` button.
pub fn done_status() -> (v: StatusView)
    ensures
        v.header@ == "Done"@,
        v.status@ == Seq::<char>::empty(),
        v.button@ == "Done"@,
{
    StatusView { header: String::from_str("Done"), status: String::new(), button: String::from_str("Done") }
}

/// The subtitle of a row whose package is being installed.
pub fn installing_subtitle() -> (s: String)
    ensures
        s@ == "Installing ..."@,
{
    String::from_str("Installing ...")
}

/// The subtitle of a row whose package was installed.
pub fn installed_subtitle() -> (s: String)
    ensures
        s@ == "Installed"@,
{
    String::from_str("Installed")
}

/// The status line of the plain install window while package `current` of `total` is being
/// installed: `(2/5) Installing Firefox`.
pub fn progress_label(current: usize, total: usize, name: &String) -> (s: String)
    ensures
        s@ == progress_text(current as nat, total as nat, name@),
{
    let mut s = String::from_str("(");
    push_digits(&mut s, current as u64);
    s.append("/");
    push_digits(&mut s, total as u64);
    s.append(") Installing ");
    s.append(name.as_str());
    s
}

/// The status line of the plain install window at the end: `Success: 4 | Error: 1`.
pub fn summary_label(total: usize, failures: usize) -> (s: String)
    requires
        failures <= total,
    ensures
        s@ == summary_text(total as nat, failures as nat),
{
    let mut s = String::from_str("Success: ");
    push_digits(&mut s, (total - failures) as u64);
    s.append(" | Error: ");
    push_digits(&mut s, failures as u64);
    s
}

/// The progress line shown while package `current` (counted from 1) of `total` is installed.
pub open spec fn progress_text(current: nat, total: nat, name: Seq<char>) -> Seq<char> {
    "("@ + nat_digits(current) + "/"@ + nat_digits(total) + ") Installing "@ + name
}

/// The line shown at the end of a run over `total` packages of which `failures` failed.
pub open spec fn summary_text(total: nat, failures: nat) -> Seq<char> {
    "Success: "@ + nat_digits((total - failures) as nat) + " | Error: "@ + nat_digits(failures)
}

/// One thing for the plain install window to do.
#[derive(Debug, Clone)]
pub enum PlainAction {
    /// Show `label` with the progress of the package with this index, then install it.
    Begin { index: usize, label: String },
    /// The run is over: show `label`, the header `header` and the closing button `button`.
    Finish { label: String, header: String, button: String },
}

/// `a` is what the plain install window does once `next` of the packages `names` are through,
/// `failures` of them failed: begin the next one, or finish.
pub open spec fn plain_action_ok(a: PlainAction, names: Seq<Seq<char>>, next: nat, failures: nat) -> bool {
    if next < names.len() {
        a matches PlainAction::Begin { index, label } && index == next
            && label@ == progress_text(next + 1, names.len(), names[next as int])
    } else {
        a matches PlainAction::Finish { label, header, button } && label@ == summary_text(names.len(), failures)
            && header@ == "Done"@ && button@ == "Done"@
    }
}

/// The run of the plain install window: every package is installed in turn (the result of the
/// authentication does not stop it), failures are counted, and the counts are shown at the end.
pub struct PlainInstallRun {
    names: Vec<String>,
    next: usize,
    failures: usize,
}

impl PlainInstallRun {
    #[verifier::type_invariant]
    closed spec fn counts_fit(&self) -> bool {
        self.failures <= self.next <= self.names@.len()
    }

    /// The names of the packages, in the order they are installed.
    pub closed spec fn package_names(&self) -> Seq<Seq<char>> {
        ids_view(self.names@)
    }

    /// How many packages are through.
    pub closed spec fn done_count(&self) -> nat {
        self.next as nat
    }

    /// How many of them failed.
    pub closed spec fn failure_count(&self) -> nat {
        self.failures as nat
    }

    /// A run over `packages`, before the first one.
    pub fn new(packages: &Vec<PackageInfo>) -> (r: PlainInstallRun)
        ensures
            r.package_names().len() == packages@.len(),
            forall|m: int| 0 <= m < packages@.len() ==> #[trigger] r.package_names()[m] == packages@[m].name@,
            r.done_count() == 0,
            r.failure_count() == 0,
    {
        let mut names: Vec<String> = Vec::new();
        let mut k: usize = 0;
        while k < packages.len()
            invariant
                k <= packages@.len(),
                names@.len() == k,
                forall|m: int| 0 <= m < k ==> #[trigger] names@[m]@ == packages@[m].name@,
            decreases packages@.len() - k,
        {
            names.push(packages[k].name.clone());
            k = k + 1;
        }
        PlainInstallRun { names, next: 0, failures: 0 }
    }

    /// How many packages there are.
    pub fn total(&self) -> (n: usize)
        ensures
            n == self.package_names().len(),
    {
        self.names.len()
    }

    /// How many packages are through.
    pub fn done(&self) -> (n: usize)
        ensures
            n == self.done_count(),
    {
        self.next
    }

    fn action(&self) -> (a: PlainAction)
        ensures
            plain_action_ok(a, self.package_names(), self.done_count(), self.failure_count()),
    {
        proof { use_type_invariant(self); }
        if self.next < self.names.len() {
            let label = progress_label(self.next + 1, self.names.len(), &self.names[self.next]);
            PlainAction::Begin { index: self.next, label }
        } else {
            let label = summary_label(self.names.len(), self.failures);
            PlainAction::Finish { label, header: String::from_str("Done"), button: String::from_str("Done") }
        }
    }

    /// What to do first: begin the first package, or finish at once when there is none.
    pub fn start(&self) -> (a: PlainAction)
        ensures
            plain_action_ok(a, self.package_names(), self.done_count(), self.failure_count()),
    {
        self.action()
    }

    /// The package being installed is through, successfully or not: it is counted, and the next
    /// one begins, or the run finishes with the counts.
    pub fn on_package_result(&mut self, ok: bool) -> (a: PlainAction)
        requires
            old(self).done_count() < old(self).package_names().len(),
        ensures
            final(self).package_names() == old(self).package_names(),
            final(self).done_count() == old(self).done_count() + 1,
            final(self).failure_count() == old(self).failure_count() + (if ok { 0nat } else { 1nat }),
            plain_action_ok(a, final(self).package_names(), final(self).done_count(), final(self).failure_count()),
    {
        proof { use_type_invariant(&*self); }
        assert(self.next < self.names.len());
        self.next = self.next + 1;
        if !ok {
            self.failures = self.failures + 1;
        }
        self.action()
    }
}

} // verus!
