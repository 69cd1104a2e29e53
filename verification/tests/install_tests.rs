use devwizard::install::{
    PlainAction, PlainInstallRun,
    done_status, error_status, installed_subtitle, installing_subtitle, progress_label, summary_label,
    task_outcome, InstallAction, InstallPhase, InstallSession,
};
use devwizard::package_info::{PackageGroup, PackageInfo};

fn pkg(id: &str, name: &str) -> PackageInfo {
    PackageInfo {
        id: id.to_string(),
        name: name.to_string(),
        description: String::new(),
        url: String::new(),
        icon: None,
        group: PackageGroup::Other,
        install_steps: vec![],
    }
}

#[test]
fn a_run_goes_through_every_package() {
    let mut s = InstallSession::new(&vec![pkg("org.mozilla.firefox", "Firefox"), pkg("rust", "Rust")]);
    assert_eq!(s.phase(), InstallPhase::Authenticating);
    assert!(s.on_package_result(Ok(())).is_empty());

    let acts = s.on_authenticated(Ok(()));
    assert_eq!(acts.len(), 1);
    assert!(matches!(&acts[0], InstallAction::BeginPackage { index: 0, name, done: 1, total: 2 } if name == "Firefox"));
    assert_eq!(s.phase(), InstallPhase::Installing(0));

    let acts = s.on_package_result(Ok(()));
    assert_eq!(acts.len(), 3);
    assert!(matches!(&acts[0], InstallAction::MarkInstalled { index: 0 }));
    assert!(matches!(&acts[1], InstallAction::Send(e) if e.name == "unselect-package" && e.package_id == "org.mozilla.firefox"));
    assert!(matches!(&acts[2], InstallAction::BeginPackage { index: 1, name, done: 2, total: 2 } if name == "Rust"));
    assert_eq!(s.phase(), InstallPhase::Installing(1));

    let acts = s.on_package_result(Err("Pacman installation failed with exit code: Some(1)".to_string()));
    assert_eq!(acts.len(), 3);
    assert!(matches!(&acts[0], InstallAction::MarkFailed { index: 1, message }
        if message == "Error: Pacman installation failed with exit code: Some(1)"));
    assert!(matches!(&acts[1], InstallAction::ShowDone));
    assert!(matches!(&acts[2], InstallAction::Send(e) if e.name == "install-completed" && e.package_id.is_empty()));
    assert_eq!(s.phase(), InstallPhase::Done);

    assert!(s.on_package_result(Ok(())).is_empty());
    assert!(s.on_authenticated(Ok(())).is_empty());
    assert_eq!(s.phase(), InstallPhase::Done);
}

#[test]
fn failed_authentication_ends_the_run() {
    let mut s = InstallSession::new(&vec![pkg("rust", "Rust")]);
    let acts = s.on_authenticated(Err("Installation failed with exit code: Some(1)".to_string()));
    assert_eq!(acts.len(), 1);
    assert!(matches!(&acts[0], InstallAction::ShowError(m) if m == "Installation failed with exit code: Some(1)"));
    assert_eq!(s.phase(), InstallPhase::Failed);
    assert!(s.on_package_result(Ok(())).is_empty());
}

#[test]
fn a_run_without_packages_ends_at_once() {
    let mut s = InstallSession::new(&vec![]);
    let acts = s.on_authenticated(Ok(()));
    assert_eq!(acts.len(), 2);
    assert!(matches!(&acts[0], InstallAction::ShowDone));
    assert!(matches!(&acts[1], InstallAction::Send(e) if e.name == "install-completed"));
    assert_eq!(s.phase(), InstallPhase::Done);
}

#[test]
fn task_outcomes() {
    assert_eq!(task_outcome(Some(Ok(()))), Ok(()));
    assert_eq!(task_outcome(Some(Err("boom".to_string()))), Err("boom".to_string()));
    assert_eq!(task_outcome(None), Err("Install task error".to_string()));
}

#[test]
fn status_screens_and_rows() {
    let e = error_status(&"no network".to_string());
    assert_eq!((e.header.as_str(), e.status.as_str(), e.button.as_str()), ("Error", "no network", "Close"));
    let d = done_status();
    assert_eq!((d.header.as_str(), d.status.as_str(), d.button.as_str()), ("Done", "", "Done"));
    assert_eq!(installing_subtitle(), "Installing ...");
    assert_eq!(installed_subtitle(), "Installed");
}

#[test]
fn first_window_labels() {
    assert_eq!(progress_label(2, 5, &"Firefox".to_string()), "(2/5) Installing Firefox");
    assert_eq!(progress_label(10, 12, &"Rust".to_string()), "(10/12) Installing Rust");
    assert_eq!(summary_label(5, 1), "Success: 4 | Error: 1");
    assert_eq!(summary_label(3, 0), "Success: 3 | Error: 0");
}

#[test]
fn plain_run_counts_failures() {
    let mut run = PlainInstallRun::new(&vec![pkg("a", "Firefox"), pkg("b", "Rust"), pkg("c", "Go")]);
    assert_eq!(run.total(), 3);
    assert!(matches!(run.start(), PlainAction::Begin { index: 0, label } if label == "(1/3) Installing Firefox"));
    assert!(matches!(run.on_package_result(true), PlainAction::Begin { index: 1, label } if label == "(2/3) Installing Rust"));
    assert!(matches!(run.on_package_result(false), PlainAction::Begin { index: 2, label } if label == "(3/3) Installing Go"));
    match run.on_package_result(true) {
        PlainAction::Finish { label, header, button } => {
            assert_eq!(label, "Success: 2 | Error: 1");
            assert_eq!(header, "Done");
            assert_eq!(button, "Done");
        }
        other => panic!("unexpected {:?}", other),
    }
    assert_eq!(run.done(), 3);
}

#[test]
fn plain_run_without_packages_finishes_at_once() {
    let run = PlainInstallRun::new(&vec![]);
    assert!(matches!(run.start(), PlainAction::Finish { label, .. } if label == "Success: 0 | Error: 0"));
}
