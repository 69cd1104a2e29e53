use devwizard::package_info::{
    InstallFromFlathubConfig, InstallFromPacmanConfig, PackageGroup, PackageInfo, PackageInstallStep,
    RunCustomScriptConfig, RunInTerminalConfig,
};
use devwizard::package_service::{CommandOutcome, InstallStatus, PackageService};

fn flathub(id: &str) -> PackageInstallStep {
    PackageInstallStep::InstallFromFlathub(InstallFromFlathubConfig { id: id.to_string(), repository: None })
}

fn pacman(id: &str) -> PackageInstallStep {
    PackageInstallStep::InstallFromPacman(InstallFromPacmanConfig { id: id.to_string(), repository: None })
}

fn script(s: &str) -> PackageInstallStep {
    PackageInstallStep::RunCustomScript(RunCustomScriptConfig { script: s.to_string() })
}

fn terminal(s: &str) -> PackageInstallStep {
    PackageInstallStep::RunInTerminal(RunInTerminalConfig { script: s.to_string() })
}

fn package(steps: Vec<PackageInstallStep>) -> PackageInfo {
    PackageInfo {
        id: "rust".to_string(),
        name: "Rust".to_string(),
        description: "A language".to_string(),
        url: "https://rust-lang.org".to_string(),
        icon: None,
        group: PackageGroup::ProgrammingLanguage,
        install_steps: steps,
    }
}

fn ok() -> CommandOutcome {
    CommandOutcome::Exited { success: true, code: Some(0) }
}

fn failed(code: Option<i32>) -> CommandOutcome {
    CommandOutcome::Exited { success: false, code }
}

#[test]
fn commands_of_each_step() {
    let c = PackageService::step_command(&flathub("org.mozilla.firefox"));
    assert_eq!(c.program, "flatpak");
    assert_eq!(c.args, vec!["install", "-y", "flathub", "org.mozilla.firefox"]);
    assert!(!c.inherit_output);

    let c = PackageService::step_command(&pacman("rustup"));
    assert_eq!(c.program, "pkexec");
    assert_eq!(c.args, vec!["pacman", "-S", "--noconfirm", "rustup"]);
    assert!(c.inherit_output);

    let c = PackageService::step_command(&script("echo hi"));
    assert_eq!(c.program, "sh");
    assert_eq!(c.args, vec!["-c", "echo hi"]);
    assert!(!c.inherit_output);

    let c = PackageService::step_command(&terminal("rustup init"));
    assert_eq!(c.program, "kgx");
    assert_eq!(c.args, vec!["-e", "rustup init"]);
    assert!(!c.inherit_output);

    let c = PackageService::authenticate_command();
    assert_eq!(c.program, "true");
    assert!(c.args.is_empty());
}

#[test]
fn run_step_succeeds_when_the_command_succeeds() {
    for step in [flathub("a"), pacman("b"), script("c"), terminal("d")] {
        assert_eq!(PackageService::run_step(&step, &ok()), Ok(()));
    }
}

#[test]
fn run_step_reports_failed_exit_codes() {
    assert_eq!(
        PackageService::run_step(&flathub("a"), &failed(Some(1))),
        Err("Flatpak installation failed with exit code: Some(1)".to_string())
    );
    assert_eq!(
        PackageService::run_step(&pacman("a"), &failed(Some(127))),
        Err("Pacman installation failed with exit code: Some(127)".to_string())
    );
    assert_eq!(
        PackageService::run_step(&script("a"), &failed(None)),
        Err("Custom script execution failed with exit code: None".to_string())
    );
    assert_eq!(
        PackageService::run_step(&terminal("a"), &failed(Some(-2))),
        Err("Script execution failed with exit code: Some(-2)".to_string())
    );
}

#[test]
fn run_step_reports_commands_that_could_not_start() {
    let why = CommandOutcome::LaunchFailed("No such file or directory (os error 2)".to_string());
    assert_eq!(
        PackageService::run_step(&flathub("a"), &why),
        Err("Failed to execute: No such file or directory (os error 2)".to_string())
    );
    assert_eq!(
        PackageService::run_step(&pacman("a"), &why),
        Err("Failed to execute pacman: No such file or directory (os error 2)".to_string())
    );
    assert_eq!(
        PackageService::run_step(&script("a"), &why),
        Err("Failed to execute custom script: No such file or directory (os error 2)".to_string())
    );
    assert_eq!(
        PackageService::run_step(&terminal("a"), &why),
        Err("Failed to execute script: No such file or directory (os error 2)".to_string())
    );
}

#[test]
fn authenticate_reports_its_outcome() {
    assert_eq!(PackageService::authenticate(&ok()), Ok(()));
    assert_eq!(
        PackageService::authenticate(&failed(Some(126))),
        Err("Installation failed with exit code: Some(126)".to_string())
    );
    assert_eq!(
        PackageService::authenticate(&CommandOutcome::LaunchFailed("denied".to_string())),
        Err("Failed to execute: denied".to_string())
    );
}

fn status(pkg: &PackageInfo, outcomes: &[CommandOutcome]) -> Result<usize, Result<(), String>> {
    match PackageService::install_pkg(pkg, &outcomes.to_vec()) {
        InstallStatus::RunStep(i) => Ok(i),
        InstallStatus::Finished(r) => Err(r),
    }
}

#[test]
fn install_pkg_runs_the_steps_in_order() {
    let pkg = package(vec![pacman("rustup"), script("rustup default stable"), terminal("rustup init")]);
    assert_eq!(status(&pkg, &[]), Ok(0));
    assert_eq!(status(&pkg, &[ok()]), Ok(1));
    assert_eq!(status(&pkg, &[ok(), ok()]), Ok(2));
    assert_eq!(status(&pkg, &[ok(), ok(), ok()]), Err(Ok(())));
}

#[test]
fn install_pkg_stops_at_the_first_failure() {
    let pkg = package(vec![pacman("rustup"), script("rustup default stable"), terminal("rustup init")]);
    assert_eq!(
        status(&pkg, &[ok(), failed(Some(3))]),
        Err(Err("Custom script execution failed with exit code: Some(3)".to_string()))
    );
    assert_eq!(
        status(&pkg, &[failed(Some(1))]),
        Err(Err("Pacman installation failed with exit code: Some(1)".to_string()))
    );
    assert_eq!(
        status(&pkg, &[failed(Some(1)), failed(Some(2))]),
        Err(Err("Pacman installation failed with exit code: Some(1)".to_string()))
    );
}

#[test]
fn install_pkg_without_steps_succeeds_at_once() {
    let pkg = package(vec![]);
    assert_eq!(status(&pkg, &[]), Err(Ok(())));
    assert_eq!(status(&pkg, &[failed(Some(1))]), Err(Ok(())));
}

#[test]
fn install_pkg_ignores_outcomes_past_the_last_step() {
    let pkg = package(vec![flathub("a")]);
    assert_eq!(status(&pkg, &[ok(), failed(Some(9))]), Err(Ok(())));
}

#[test]
fn load_error_message_names_the_file() {
    assert_eq!(
        PackageService::load_error_message("expected value at line 1 column 1"),
        "Failed to parse packages.json: expected value at line 1 column 1"
    );
}

#[test]
fn defaults_of_the_model() {
    assert_eq!(PackageGroup::default(), PackageGroup::Other);
    match PackageInstallStep::default() {
        PackageInstallStep::RunCustomScript(c) => assert_eq!(c.script, ""),
        other => panic!("unexpected default step {:?}", other),
    }
    let p = PackageInfo::default();
    assert_eq!(p.group, PackageGroup::Other);
    assert!(p.install_steps.is_empty());
}

fn finished(pkg: &PackageInfo, outcomes: &[CommandOutcome]) -> Result<(), String> {
    match PackageService::install_pkg(pkg, &outcomes.to_vec()) {
        InstallStatus::Finished(r) => r,
        InstallStatus::RunStep(i) => panic!("step {} still to run", i),
    }
}

#[test]
fn joined_step_lists_run_one_after_the_other() {
    let s1 = vec![pacman("rustup"), script("rustup default stable")];
    let s2 = vec![terminal("cargo --version")];
    let p1 = package(s1.clone());
    let p2 = package(s2.clone());
    let p12 = package(s1.into_iter().chain(s2).collect());
    let cases: Vec<(Vec<CommandOutcome>, Vec<CommandOutcome>)> = vec![
        (vec![ok(), ok()], vec![ok()]),
        (vec![ok(), ok()], vec![failed(Some(4))]),
        (vec![ok(), failed(Some(2))], vec![ok()]),
        (vec![failed(None), ok()], vec![failed(Some(4))]),
    ];
    for (o1, o2) in cases {
        let joined: Vec<CommandOutcome> = o1.iter().chain(o2.iter()).cloned().collect();
        let expected = finished(&p1, &o1).and_then(|()| finished(&p2, &o2));
        assert_eq!(finished(&p12, &joined), expected);
    }
}
