use vstd::prelude::*;

verus! {

/// The section of the catalogue that a package is shown in.
#[derive(Debug, Clone, Copy, PartialEq, Eq, Structural)]
pub enum PackageGroup {
    CodeEditor,
    ProgrammingLanguage,
    Framework,
    Tooling,
    AIAgent,
    Browser,
    Other,
}

impl Default for PackageGroup {
    /// A package that names no group is listed under `Other`.
    fn default() -> (g: Self)
        ensures
            g == PackageGroup::Other,
    {
        PackageGroup::Other
    }
}

/// Installs the Flatpak application `id` from Flathub.
#[derive(Debug, Clone, Default)]
pub struct InstallFromFlathubConfig {
    pub id: String,
    pub repository: Option<String>,
}

/// Installs the system package `id` with pacman.
#[derive(Debug, Clone, Default)]
pub struct InstallFromPacmanConfig {
    pub id: String,
    pub repository: Option<String>,
}

/// Runs `script` with `sh -c`.
#[derive(Debug, Clone, Default)]
pub struct RunCustomScriptConfig {
    pub script: String,
}

/// Runs `script` interactively in a terminal window.
#[derive(Debug, Clone, Default)]
pub struct RunInTerminalConfig {
    pub script: String,
}

/// One step of a package's installation.
#[derive(Debug, Clone)]
pub enum PackageInstallStep {
    InstallFromFlathub(InstallFromFlathubConfig),
    InstallFromPacman(InstallFromPacmanConfig),
    RunCustomScript(RunCustomScriptConfig),
    RunInTerminal(RunInTerminalConfig),
}

impl Default for PackageInstallStep {
    /// The default step runs an empty custom script.
    fn default() -> (s: Self)
        ensures
            s matches PackageInstallStep::RunCustomScript(c) && c.script@ == Seq::<char>::empty(),
    {
        PackageInstallStep::RunCustomScript(RunCustomScriptConfig { script: String::new() })
    }
}

/// A package of the catalogue, with the steps that install it.
#[derive(Debug, Clone, Default)]
pub struct PackageInfo {
    pub id: String,
    pub name: String,
    pub description: String,
    pub url: String,
    pub icon: Option<String>,
    pub group: PackageGroup,
    pub install_steps: Vec<PackageInstallStep>,
}

} // verus!
