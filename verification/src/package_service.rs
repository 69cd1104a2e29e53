use vstd::prelude::*;
use vstd::string::*;

use crate::package_info::{
    InstallFromFlathubConfig, InstallFromPacmanConfig, PackageInfo, PackageInstallStep,
    RunCustomScriptConfig, RunInTerminalConfig,
};
use crate::text::{debug_optional_code, debug_optional_code_text};

verus! {

/// A program to start, with its arguments. With `inherit_output` the program writes to the
/// wizard's own standard output and error.
#[derive(Debug, Clone)]
pub struct CommandSpec {
    pub program: String,
    pub args: Vec<String>,
    pub inherit_output: bool,
}

/// What came of starting a command: it could not be started (with the reason), or it ran and
/// ended with an exit status.
#[derive(Debug, Clone)]
pub enum CommandOutcome {
    LaunchFailed(String),
    Exited { success: bool, code: Option<i32> },
}

/// The text views of a command's arguments.
pub open spec fn args_view(args: Seq<String>) -> Seq<Seq<char>> {
    args.map_values(|a: String| a@)
}

/// A step's result with its message as text.
pub open spec fn result_view(r: Result<(), String>) -> Result<(), Seq<char>> {
    match r {
        Ok(()) => Ok(()),
        Err(e) => Err(e@),
    }
}

/// How an outcome is reported: `launch` before the reason a command could not start,
/// `failure` before the exit code (written as `{:?}` writes it) of a command that failed.
pub open spec fn outcome_result(launch: Seq<char>, failure: Seq<char>, o: CommandOutcome) -> Result<(), Seq<char>> {
    match o {
        CommandOutcome::LaunchFailed(reason) => Err(launch + reason@),
        CommandOutcome::Exited { success, code } => if success {
            Ok(())
        } else {
            Err(failure + debug_optional_code(code))
        },
    }
}

fn report(launch: &str, failure: &str, outcome: &CommandOutcome) -> (r: Result<(), String>)
    ensures
        result_view(r) == outcome_result(launch@, failure@, *outcome),
{
    match outcome {
        CommandOutcome::LaunchFailed(reason) => {
            let mut m = String::from_str(launch);
            m.append(reason.as_str());
            Err(m)
        },
        CommandOutcome::Exited { success, code } => {
            if *success {
                Ok(())
            } else {
                let mut m = String::from_str(failure);
                let c = debug_optional_code_text(*code);
                m.append(c.as_str());
                Err(m)
            }
        },
    }
}

/// The text put before the reason a step's command could not start.
pub open spec fn launch_prefix(step: PackageInstallStep) -> Seq<char> {
    match step {
        PackageInstallStep::InstallFromFlathub(_) => "Failed to execute: "@,
        PackageInstallStep::InstallFromPacman(_) => "Failed to execute pacman: "@,
        PackageInstallStep::RunCustomScript(_) => "Failed to execute custom script: "@,
        PackageInstallStep::RunInTerminal(_) => "Failed to execute script: "@,
    }
}

/// The text put before the exit code of a step's command that failed.
pub open spec fn failure_prefix(step: PackageInstallStep) -> Seq<char> {
    match step {
        PackageInstallStep::InstallFromFlathub(_) => "Flatpak installation failed with exit code: "@,
        PackageInstallStep::InstallFromPacman(_) => "Pacman installation failed with exit code: "@,
        PackageInstallStep::RunCustomScript(_) => "Custom script execution failed with exit code: "@,
        PackageInstallStep::RunInTerminal(_) => "Script execution failed with exit code: "@,
    }
}

/// The result of a step whose command came to `o`.
pub open spec fn step_result(step: PackageInstallStep, o: CommandOutcome) -> Result<(), Seq<char>> {
    outcome_result(launch_prefix(step), failure_prefix(step), o)
}

/// The command that carries out a step.
pub open spec fn step_command(step: PackageInstallStep) -> (Seq<char>, Seq<Seq<char>>, bool) {
    match step {
        PackageInstallStep::InstallFromFlathub(c) => (
            "flatpak"@,
            seq!["install"@, "-y"@, "flathub"@, c.id@],
            false,
        ),
        PackageInstallStep::InstallFromPacman(c) => (
            "pkexec"@,
            seq!["pacman"@, "-S"@, "--noconfirm"@, c.id@],
            true,
        ),
        PackageInstallStep::RunCustomScript(c) => ("sh"@, seq!["-c"@, c.script@], false),
        PackageInstallStep::RunInTerminal(c) => ("kgx"@, seq!["-e"@, c.script@], false),
    }
}

/// A Flathub step runs `flatpak install -y flathub <id>` and a pacman step
/// `pkexec pacman -S --noconfirm <id>`: the remote and the command depend on the id alone, never on
/// the `repository` field.
pub proof fn lemma_repository_is_not_used(
    f1: InstallFromFlathubConfig,
    f2: InstallFromFlathubConfig,
    p1: InstallFromPacmanConfig,
    p2: InstallFromPacmanConfig,
)
    ensures
        step_command(PackageInstallStep::InstallFromFlathub(f1)).0 == "flatpak"@,
        step_command(PackageInstallStep::InstallFromFlathub(f1)).1.len() == 4,
        step_command(PackageInstallStep::InstallFromFlathub(f1)).1[2] == "flathub"@,
        step_command(PackageInstallStep::InstallFromFlathub(f1)).1[3] == f1.id@,
        f1.id@ == f2.id@ ==> step_command(PackageInstallStep::InstallFromFlathub(f1))
            == step_command(PackageInstallStep::InstallFromFlathub(f2)),
        step_command(PackageInstallStep::InstallFromPacman(p1)).0 == "pkexec"@,
        step_command(PackageInstallStep::InstallFromPacman(p1)).1.len() == 4,
        step_command(PackageInstallStep::InstallFromPacman(p1)).1[3] == p1.id@,
        p1.id@ == p2.id@ ==> step_command(PackageInstallStep::InstallFromPacman(p1))
            == step_command(PackageInstallStep::InstallFromPacman(p2)),
{
}

/// The view of a command spec: program, arguments, whether output is inherited.
pub open spec fn command_view(c: CommandSpec) -> (Seq<char>, Seq<Seq<char>>, bool) {
    (c.program@, args_view(c.args@), c.inherit_output)
}

/// What `PackageService::install_pkg` says to do next.
#[derive(Debug)]
pub enum InstallStatus {
    /// Run the step with this index and report what came of it.
    RunStep(usize),
    /// The installation is over, with this result.
    Finished(Result<(), String>),
}

/// The step with index `k` failed, given the outcomes of the steps run so far.
pub open spec fn step_failed(steps: Seq<PackageInstallStep>, outcomes: Seq<CommandOutcome>, k: int) -> bool {
    step_result(steps[k], outcomes[k]) is Err
}

/// The result of running `steps` in order, where step `k`'s command comes to `outcomes[k]`:
/// the first failing step's message, or `Ok` when every step succeeds.
pub open spec fn run_result(steps: Seq<PackageInstallStep>, outcomes: Seq<CommandOutcome>) -> Result<(), Seq<char>>
    decreases steps.len(),
{
    if steps.len() == 0 {
        Ok(())
    } else {
        match step_result(steps[0], outcomes[0]) {
            Err(e) => Err(e),
            Ok(()) => run_result(steps.drop_first(), outcomes.drop_first()),
        }
    }
}

/// `run_result` is `Ok` when no step fails, and the first failure's result otherwise.
proof fn lemma_run_result_first_failure(steps: Seq<PackageInstallStep>, outcomes: Seq<CommandOutcome>)
    requires
        outcomes.len() >= steps.len(),
    ensures
        (forall|j: int| 0 <= j < steps.len() ==> !step_failed(steps, outcomes, j)) ==> run_result(steps, outcomes) == Ok::<(), Seq<char>>(()),
        forall|k: int| 0 <= k < steps.len() && step_failed(steps, outcomes, k)
            && (forall|j: int| 0 <= j < k ==> !step_failed(steps, outcomes, j))
            ==> run_result(steps, outcomes) == step_result(steps[k], outcomes[k]),
    decreases steps.len(),
{
    if steps.len() > 0 {
        let ts = steps.drop_first();
        let to = outcomes.drop_first();
        lemma_run_result_first_failure(ts, to);
        assert forall|j: int| 0 <= j < ts.len() implies (step_failed(ts, to, j) == step_failed(steps, outcomes, j + 1)) by {
            assert(ts[j] == steps[j + 1] && to[j] == outcomes[j + 1]);
        }
        assert forall|k: int| 0 <= k < steps.len() && step_failed(steps, outcomes, k)
            && (forall|j: int| 0 <= j < k ==> !step_failed(steps, outcomes, j))
            implies run_result(steps, outcomes) == step_result(steps[k], outcomes[k]) by {
            if k > 0 {
                assert(!step_failed(steps, outcomes, 0));
                assert(step_failed(ts, to, k - 1));
                assert forall|j: int| 0 <= j < k - 1 implies !step_failed(ts, to, j) by {
                    assert(!step_failed(steps, outcomes, j + 1));
                }
                assert(ts[k - 1] == steps[k] && to[k - 1] == outcomes[k]);
            }
        }
        if forall|j: int| 0 <= j < steps.len() ==> !step_failed(steps, outcomes, j) {
            assert(!step_failed(steps, outcomes, 0));
            assert forall|j: int| 0 <= j < ts.len() implies !step_failed(ts, to, j) by {
                assert(!step_failed(steps, outcomes, j + 1));
            }
        }
    }
}

/// Installing a package whose steps are those of `s1` followed by those of `s2` runs the steps of
/// `s1`, then, only if they all succeeded, the steps of `s2`: its result is `s1`'s failure, or
/// else `s2`'s result.
pub proof fn lemma_run_result_concat(
    s1: Seq<PackageInstallStep>,
    s2: Seq<PackageInstallStep>,
    o1: Seq<CommandOutcome>,
    o2: Seq<CommandOutcome>,
)
    requires
        o1.len() == s1.len(),
    ensures
        run_result(s1 + s2, o1 + o2) == match run_result(s1, o1) {
            Ok(()) => run_result(s2, o2),
            Err(e) => Err(e),
        },
    decreases s1.len(),
{
    if s1.len() > 0 {
        assert((s1 + s2).drop_first() =~= s1.drop_first() + s2);
        assert((o1 + o2).drop_first() =~= o1.drop_first() + o2);
        assert((s1 + s2)[0] == s1[0]);
        assert((o1 + o2)[0] == o1[0]);
        lemma_run_result_concat(s1.drop_first(), s2, o1.drop_first(), o2);
    } else {
        assert(s1 + s2 =~= s2);
        assert(o1 + o2 =~= o2);
    }
}

/// Installs the packages of the catalogue: the commands that each step runs, and how what came of
/// them is reported.
pub struct PackageService;

impl PackageService {
    /// The command that checks the user may install: `true`, with no arguments.
    pub fn authenticate_command() -> (c: CommandSpec)
        ensures
            command_view(c) == ("true"@, Seq::<Seq<char>>::empty(), false),
    {
        let c = CommandSpec { program: String::from_str("true"), args: Vec::new(), inherit_output: false };
        assert(args_view(c.args@) =~= Seq::<Seq<char>>::empty());
        c
    }

    /// What came of the authentication command, as the install window reports it.
    pub fn authenticate(outcome: &CommandOutcome) -> (r: Result<(), String>)
        ensures
            result_view(r) == outcome_result(
                "Failed to execute: "@,
                "Installation failed with exit code: "@,
                *outcome,
            ),
    {
        report("Failed to execute: ", "Installation failed with exit code: ", outcome)
    }

    /// `flatpak install -y flathub <id>`.
    pub fn install_from_flathub(config: &InstallFromFlathubConfig) -> (c: CommandSpec)
        ensures
            command_view(c) == step_command(PackageInstallStep::InstallFromFlathub(*config)),
    {
        let args = vec![
            String::from_str("install"),
            String::from_str("-y"),
            String::from_str("flathub"),
            config.id.clone(),
        ];
        let c = CommandSpec { program: String::from_str("flatpak"), args, inherit_output: false };
        assert(args_view(c.args@) =~= seq!["install"@, "-y"@, "flathub"@, config.id@]);
        c
    }

    /// `pkexec pacman -S --noconfirm <id>`, writing to the wizard's own output.
    pub fn install_from_pacman(config: &InstallFromPacmanConfig) -> (c: CommandSpec)
        ensures
            command_view(c) == step_command(PackageInstallStep::InstallFromPacman(*config)),
    {
        let args = vec![
            String::from_str("pacman"),
            String::from_str("-S"),
            String::from_str("--noconfirm"),
            config.id.clone(),
        ];
        let c = CommandSpec { program: String::from_str("pkexec"), args, inherit_output: true };
        assert(args_view(c.args@) =~= seq!["pacman"@, "-S"@, "--noconfirm"@, config.id@]);
        c
    }

    /// `sh -c <script>`.
    pub fn run_custom_script(config: &RunCustomScriptConfig) -> (c: CommandSpec)
        ensures
            command_view(c) == step_command(PackageInstallStep::RunCustomScript(*config)),
    {
        let args = vec![String::from_str("-c"), config.script.clone()];
        let c = CommandSpec { program: String::from_str("sh"), args, inherit_output: false };
        assert(args_view(c.args@) =~= seq!["-c"@, config.script@]);
        c
    }

    /// `kgx -e <script>`: the script runs in a terminal window.
    pub fn run_in_terminal(config: &RunInTerminalConfig) -> (c: CommandSpec)
        ensures
            command_view(c) == step_command(PackageInstallStep::RunInTerminal(*config)),
    {
        let args = vec![String::from_str("-e"), config.script.clone()];
        let c = CommandSpec { program: String::from_str("kgx"), args, inherit_output: false };
        assert(args_view(c.args@) =~= seq!["-e"@, config.script@]);
        c
    }

    /// The command that carries out `step`.
    pub fn step_command(step: &PackageInstallStep) -> (c: CommandSpec)
        ensures
            command_view(c) == step_command(*step),
    {
        match step {
            PackageInstallStep::InstallFromFlathub(config) => PackageService::install_from_flathub(config),
            PackageInstallStep::InstallFromPacman(config) => PackageService::install_from_pacman(config),
            PackageInstallStep::RunCustomScript(config) => PackageService::run_custom_script(config),
            PackageInstallStep::RunInTerminal(config) => PackageService::run_in_terminal(config),
        }
    }

    /// The result of `step`, whose command (`step_command`) came to `outcome`: `Ok` exactly when
    /// the command ran and exited successfully, else the step's own error message.
    pub fn run_step(step: &PackageInstallStep, outcome: &CommandOutcome) -> (r: Result<(), String>)
        ensures
            result_view(r) == step_result(*step, *outcome),
            r is Ok <==> (*outcome matches CommandOutcome::Exited { success, .. } && success),
    {
        match step {
            PackageInstallStep::InstallFromFlathub(_) => report(
                "Failed to execute: ",
                "Flatpak installation failed with exit code: ",
                outcome,
            ),
            PackageInstallStep::InstallFromPacman(_) => report(
                "Failed to execute pacman: ",
                "Pacman installation failed with exit code: ",
                outcome,
            ),
            PackageInstallStep::RunCustomScript(_) => report(
                "Failed to execute custom script: ",
                "Custom script execution failed with exit code: ",
                outcome,
            ),
            PackageInstallStep::RunInTerminal(_) => report(
                "Failed to execute script: ",
                "Script execution failed with exit code: ",
                outcome,
            ),
        }
    }

    /// Installs `pkg` step by step, in order, stopping at the first step that fails.
    /// `outcomes[k]` is what came of the command of step `k`, for the steps run so far.
    /// The answer is the next step to run, or the end: the first failure's message, or `Ok`
    /// once every step has succeeded. Outcomes beyond the last step are not looked at.
    pub fn install_pkg(pkg: &PackageInfo, outcomes: &Vec<CommandOutcome>) -> (s: InstallStatus)
        ensures
            ({
                let steps = pkg.install_steps@;
                let m: int = if outcomes@.len() < steps.len() { outcomes@.len() as int } else { steps.len() as int };
                match s {
                    InstallStatus::RunStep(i) => {
                        &&& i == outcomes@.len()
                        &&& i < steps.len()
                        &&& forall|j: int| 0 <= j < i ==> !step_failed(steps, outcomes@, j)
                    },
                    InstallStatus::Finished(Ok(())) => {
                        &&& outcomes@.len() >= steps.len()
                        &&& forall|j: int| 0 <= j < steps.len() ==> !step_failed(steps, outcomes@, j)
                    },
                    InstallStatus::Finished(Err(e)) => exists|k: int| {
                        &&& 0 <= k < m
                        &&& forall|j: int| 0 <= j < k ==> !step_failed(steps, outcomes@, j)
                        &&& step_result(steps[k], outcomes@[k]) == Err::<(), Seq<char>>(e@)
                    },
                }
            }),
            outcomes@.len() >= pkg.install_steps@.len() ==> (s matches InstallStatus::Finished(r)
                && result_view(r) == run_result(pkg.install_steps@, outcomes@)),
    {
        let n: usize = pkg.install_steps.len();
        let m: usize = if outcomes.len() < n { outcomes.len() } else { n };
        let mut k: usize = 0;
        while k < m
            invariant
                n == pkg.install_steps@.len(),
                m <= n,
                m <= outcomes@.len(),
                m == outcomes@.len() || m == n,
                k <= m,
                forall|j: int| 0 <= j < k ==> !step_failed(pkg.install_steps@, outcomes@, j),
            decreases m - k,
        {
            let r = PackageService::run_step(&pkg.install_steps[k], &outcomes[k]);
            match r {
                Err(e) => {
                    assert(step_result(pkg.install_steps@[k as int], outcomes@[k as int]) == Err::<(), Seq<char>>(e@));
                    proof {
                        if outcomes@.len() >= n {
                            lemma_run_result_first_failure(pkg.install_steps@, outcomes@);
                            assert(step_failed(pkg.install_steps@, outcomes@, k as int));
                        }
                    }
                    return InstallStatus::Finished(Err(e));
                },
                Ok(()) => {},
            }
            k = k + 1;
        }
        proof {
            if outcomes@.len() >= n {
                lemma_run_result_first_failure(pkg.install_steps@, outcomes@);
            }
        }
        if outcomes.len() < n {
            InstallStatus::RunStep(outcomes.len())
        } else {
            InstallStatus::Finished(Ok(()))
        }
    }

    /// The message shown when the package list cannot be read.
    pub fn load_error_message(detail: &str) -> (m: String)
        ensures
            m@ == "Failed to parse packages.json: "@ + detail@,
    {
        let mut m = String::from_str("Failed to parse packages.json: ");
        m.append(detail);
        m
    }
}

} // verus!
