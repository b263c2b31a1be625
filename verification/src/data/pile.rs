//! The Pile dataset build: its configuration, and the steps that clone
//! `EleutherAI/the-pile`, prepare a Python environment for it and run its
//! replication script, one outside action at a time.

use vstd::prelude::*;

use crate::data::job::{
    action_view, at_percent, cat, cat3, ends_properly, fail, failure_notes, is_final_note,
    lemma_ends_after, log, no_final, notes_view, percent, phase, phase_notes, strs, yes, ActionV,
    BuildAction, BuildEvent, BuildNote, CommandSpec, NoteV, Progress,
};
use crate::text::{decimal, str_eq, trim, trim_ws, usize_to_decimal};
use crate::training::{join_path, path_join};

verus! {

/// Configuration for a Pile build job.
#[derive(Debug, Clone)]
pub struct PileConfig {
    /// Directory where the repository is cloned and the data stored.
    pub target_dir: String,
    /// Python executable to use (`"python3"`, `"python"`, …).
    pub python_cmd: String,
    /// Component ids passed to `pile.py --using`, one run each;
    /// `["pile_reprod"]` downloads the full Pile in one pass.
    pub components: Vec<String>,
    /// `--interleave_output` argument.
    pub interleave_output: u32,
    /// Skip the `git clone` step when the repository directory exists.
    pub skip_clone_if_exists: bool,
}

impl PileConfig {
    /// The default build into `target_dir` with `python_cmd`: the full Pile
    /// in one pass, interleaved over 30 outputs, reusing an existing clone.
    pub fn default_with(target_dir: String, python_cmd: String) -> (c: Self)
        ensures
            c.target_dir@ == target_dir@,
            c.python_cmd@ == python_cmd@,
            c.components@.len() == 1,
            c.components@[0]@ == "pile_reprod"@,
            c.interleave_output == 30,
            c.skip_clone_if_exists,
    {
        let mut components: Vec<String> = Vec::new();
        components.push("pile_reprod".to_owned());
        PileConfig { target_dir, python_cmd, components, interleave_output: 30, skip_clone_if_exists: true }
    }
}


/// Where the build clones the repository.
pub open spec fn pile_repo(target: Seq<char>) -> Seq<char> {
    path_join(target, "the-pile"@)
}

/// Where the build keeps its Python virtual environment.
pub open spec fn pile_venv(target: Seq<char>) -> Seq<char> {
    path_join(target, "pile-venv"@)
}

/// The Python interpreter of the virtual environment `venv`.
pub open spec fn venv_python(venv: Seq<char>) -> Seq<char> {
    path_join(path_join(venv, "bin"@), "python"@)
}

/// The file whose content marks the installed dependencies.
pub open spec fn deps_stamp(venv: Seq<char>) -> Seq<char> {
    path_join(venv, ".quark-deps-installed"@)
}

/// The optional shuffle script of the repository.
pub open spec fn pass2_script(repo: Seq<char>) -> Seq<char> {
    path_join(path_join(repo, "processing_scripts"@), "pass2.py"@)
}

/// The version written to the stamp; a stamp holding another one means the
/// dependencies must be installed again.
pub open spec fn deps_version() -> Seq<char> {
    "v3"@
}

/// The repository's address.
pub open spec fn pile_url() -> Seq<char> {
    "https://github.com/EleutherAI/the-pile.git"@
}

/// A stand-in for the `fasttext` module, written when it cannot be built:
/// it always predicts English, which is all the download needs.
pub open spec fn fasttext_stub() -> Seq<char> {
    "# Auto-generated by Quark: pure-Python fasttext stub.\n# The real fasttext C extension could not be compiled on this Python version.\n# predict() always returns English so the Pile download is unaffected.\nclass _Model:\n    def predict(self, text, k=1):\n        return (['__label__en'], [1.0])\n    def get_word_vector(self, word):\n        return [0.0] * 100\ndef load_model(path):\n    return _Model()\n"@
}

/// The components the build runs: those configured, or the full Pile when
/// none is.
pub open spec fn run_components(c: Seq<Seq<char>>) -> Seq<Seq<char>> {
    if c.len() == 0 {
        seq!["pile_reprod"@]
    } else {
        c
    }
}

/// Where a Pile build stands: the answer it waits for.
#[derive(Debug)]
pub enum PileStage {
    Start,
    FindGit,
    FindPython,
    CheckRepo,
    MakeTarget,
    CloneRepo,
    CheckVenv,
    MakeVenv,
    ReadStamp,
    InstallBase,
    InstallFasttext,
    LocateSitePackages,
    /// Writing the `fasttext` stand-in at this path.
    WriteStub(String),
    InstallSupplemental,
    WriteStamp,
    /// Running the component with this index.
    RunComponent(usize),
    CheckPass2,
    RunPass2,
    Finished,
}

/// A stage as plain values.
pub enum PileStageV {
    Start,
    FindGit,
    FindPython,
    CheckRepo,
    MakeTarget,
    CloneRepo,
    CheckVenv,
    MakeVenv,
    ReadStamp,
    InstallBase,
    InstallFasttext,
    LocateSitePackages,
    WriteStub(Seq<char>),
    InstallSupplemental,
    WriteStamp,
    RunComponent(usize),
    CheckPass2,
    RunPass2,
    Finished,
}

pub open spec fn stage_view(s: PileStage) -> PileStageV {
    match s {
        PileStage::Start => PileStageV::Start,
        PileStage::FindGit => PileStageV::FindGit,
        PileStage::FindPython => PileStageV::FindPython,
        PileStage::CheckRepo => PileStageV::CheckRepo,
        PileStage::MakeTarget => PileStageV::MakeTarget,
        PileStage::CloneRepo => PileStageV::CloneRepo,
        PileStage::CheckVenv => PileStageV::CheckVenv,
        PileStage::MakeVenv => PileStageV::MakeVenv,
        PileStage::ReadStamp => PileStageV::ReadStamp,
        PileStage::InstallBase => PileStageV::InstallBase,
        PileStage::InstallFasttext => PileStageV::InstallFasttext,
        PileStage::LocateSitePackages => PileStageV::LocateSitePackages,
        PileStage::WriteStub(p) => PileStageV::WriteStub(p@),
        PileStage::InstallSupplemental => PileStageV::InstallSupplemental,
        PileStage::WriteStamp => PileStageV::WriteStamp,
        PileStage::RunComponent(i) => PileStageV::RunComponent(i),
        PileStage::CheckPass2 => PileStageV::CheckPass2,
        PileStage::RunPass2 => PileStageV::RunPass2,
        PileStage::Finished => PileStageV::Finished,
    }
}

/// A step of a build as plain values: the next stage, the reports, the
/// action.
pub type PileStepV = (PileStageV, Seq<NoteV>, ActionV);

/// `notes` reported before the step `t`.
pub open spec fn after(notes: Seq<NoteV>, t: PileStepV) -> PileStepV {
    (t.0, notes + t.1, t.2)
}

/// A failed build.
pub open spec fn failed(msg: Seq<char>) -> PileStepV {
    (PileStageV::Finished, failure_notes(msg), ActionV::Stop)
}

/// A command of the virtual environment's Python, run in the repository.
pub open spec fn venv_run(cfg: PileConfig, args: Seq<Seq<char>>, from: Progress, to: Progress) -> ActionV {
    ActionV::Run {
        program: venv_python(pile_venv(cfg.target_dir@)),
        args,
        cwd: Some(pile_repo(cfg.target_dir@)),
        from,
        to,
    }
}

/// On to the virtual environment: look whether it exists.
pub open spec fn to_venv(cfg: PileConfig) -> PileStepV {
    (PileStageV::CheckVenv, Seq::empty(), ActionV::PathExists(pile_venv(cfg.target_dir@)))
}

/// On to the dependencies: read the stamp.
pub open spec fn to_stamp(cfg: PileConfig) -> PileStepV {
    (PileStageV::ReadStamp, Seq::empty(), ActionV::ReadFile(deps_stamp(pile_venv(cfg.target_dir@))))
}

/// Mark the dependencies installed.
pub open spec fn to_write_stamp(cfg: PileConfig) -> PileStepV {
    (
        PileStageV::WriteStamp,
        Seq::empty(),
        ActionV::WriteFile(deps_stamp(pile_venv(cfg.target_dir@)), deps_version()),
    )
}

/// Where component `idx` of `n` starts in the progress.
pub open spec fn component_from(idx: nat, n: nat) -> Progress {
    Progress { percent: 20, band: 70, index: idx as u64, count: n as u64 }
}

/// Start component `idx`: report it and run `pile.py` for it.
pub open spec fn start_component(cfg: PileConfig, idx: nat) -> PileStepV {
    let comps = run_components(strs(cfg.components@));
    let n = comps.len();
    let comp = comps[idx as int];
    let from = component_from(idx, n);
    let to = component_from(idx + 1, n);
    let py = venv_python(pile_venv(cfg.target_dir@));
    let inter = decimal(cfg.interleave_output as nat);
    let head = if n > 1 {
        phase_notes(
            "Downloading component "@ + decimal(idx + 1) + "/"@ + decimal(n) + ": "@ + comp + "…"@,
            from,
        )
    } else {
        phase_notes("Downloading & building The Pile — this can take many hours…"@, from)
    };
    let running = seq![
        NoteV::Log(
            "Running: "@ + py + " the_pile/pile.py --interleave_output "@ + inter + " --using "@ + comp,
        ),
    ];
    let warn = if comp == "pile_reprod"@ {
        seq![NoteV::Log("⚠  The full Pile is ~825 GiB compressed. Make sure you have enough disk space."@)]
    } else {
        Seq::empty()
    };
    (
        PileStageV::RunComponent(idx as usize),
        head + running + warn,
        venv_run(cfg, seq!["the_pile/pile.py"@, "--interleave_output"@, inter, "--using"@, comp], from, to),
    )
}

/// The end of a successful build.
pub open spec fn finish(cfg: PileConfig) -> PileStepV {
    (
        PileStageV::Finished,
        phase_notes("Complete!"@, at_percent(100)) + seq![
            NoteV::Log("✅  The Pile build finished.  Data is in: "@ + pile_repo(cfg.target_dir@)),
            NoteV::Done,
        ],
        ActionV::Stop,
    )
}

/// One step of a Pile build: from the stage it is at and the answer to its
/// last action, the next stage, what it reports, and the next action.
pub open spec fn pile_next(cfg: PileConfig, stage: PileStageV, ev: BuildEvent) -> PileStepV {
    let target = cfg.target_dir@;
    let py = cfg.python_cmd@;
    let repo = pile_repo(target);
    let venv = pile_venv(target);
    let vpy = venv_python(venv);
    match stage {
        PileStageV::Start => (
            PileStageV::FindGit,
            phase_notes("Checking prerequisites…"@, at_percent(2)) + seq![NoteV::Log("Looking for git…"@)],
            ActionV::FindProgram("git"@),
        ),
        PileStageV::FindGit => if !yes(ev) {
            failed("'git' not found on PATH. Install git and try again."@)
        } else {
            (
                PileStageV::FindPython,
                seq![NoteV::Log("✔  git OK"@), NoteV::Log("Looking for "@ + py + " …"@)],
                ActionV::FindProgram(py),
            )
        },
        PileStageV::FindPython => if !yes(ev) {
            failed("'"@ + py + "' not found on PATH. Install Python 3 and try again."@)
        } else {
            (PileStageV::CheckRepo, seq![NoteV::Log("✔  "@ + py + " OK"@)], ActionV::PathExists(repo))
        },
        PileStageV::CheckRepo => if yes(ev) && cfg.skip_clone_if_exists {
            after(seq![NoteV::Log("ℹ  Repo already at "@ + repo + "; skipping clone."@)], to_venv(cfg))
        } else {
            (
                PileStageV::MakeTarget,
                phase_notes("Cloning EleutherAI/the-pile…"@, at_percent(5)) + seq![
                    NoteV::Log("git clone "@ + pile_url() + " → "@ + repo),
                ],
                ActionV::CreateDir(target),
            )
        },
        PileStageV::MakeTarget => match ev {
            BuildEvent::Wrote(Err(e)) => failed("Cannot create target directory: "@ + e@),
            _ => (
                PileStageV::CloneRepo,
                Seq::empty(),
                ActionV::Run {
                    program: "git"@,
                    args: seq!["clone"@, pile_url(), repo],
                    cwd: None,
                    from: at_percent(5),
                    to: at_percent(12),
                },
            ),
        },
        PileStageV::CloneRepo => if !yes(ev) {
            failed("git clone failed — see log above."@)
        } else {
            after(seq![NoteV::Log("✔  Repository cloned."@)], to_venv(cfg))
        },
        PileStageV::CheckVenv => if yes(ev) {
            after(seq![NoteV::Log("ℹ  Virtual environment already at "@ + venv + "; reusing."@)], to_stamp(cfg))
        } else {
            (
                PileStageV::MakeVenv,
                phase_notes("Creating Python virtual environment…"@, at_percent(10)) + seq![
                    NoteV::Log("Creating venv at "@ + venv + " …"@),
                ],
                ActionV::Run {
                    program: py,
                    args: seq!["-m"@, "venv"@, venv],
                    cwd: None,
                    from: at_percent(10),
                    to: at_percent(12),
                },
            )
        },
        PileStageV::MakeVenv => if !yes(ev) {
            failed("python -m venv failed — see log above."@)
        } else {
            after(seq![NoteV::Log("✔  Virtual environment created."@)], to_stamp(cfg))
        },
        PileStageV::ReadStamp => if (ev matches BuildEvent::Text(Some(t)) && trim(t@) == deps_version()) {
            after(
                seq![NoteV::Log("ℹ  Dependencies already installed ("@ + deps_stamp(venv) + "); skipping."@)],
                start_component(cfg, 0),
            )
        } else {
            (
                PileStageV::InstallBase,
                phase_notes("Installing Python dependencies (pip install -e .)…"@, at_percent(12)) + seq![
                    NoteV::Log("Using venv Python: "@ + vpy),
                ],
                venv_run(cfg, seq!["-m"@, "pip"@, "install"@, "-e"@, "."@], at_percent(12), at_percent(16)),
            )
        },
        PileStageV::InstallBase => if !yes(ev) {
            failed("pip install failed — see log above."@)
        } else {
            (
                PileStageV::InstallFasttext,
                seq![NoteV::Log("✔  Base Python dependencies installed."@)] + phase_notes(
                    "Installing fasttext + supplemental dependencies…"@,
                    at_percent(16),
                ) + seq![NoteV::Log("pip install fasttext zstandard datasets pytablewriter …"@)],
                venv_run(
                    cfg,
                    seq!["-m"@, "pip"@, "install"@, "fasttext"@, "zstandard"@, "datasets"@, "pytablewriter"@],
                    at_percent(16),
                    at_percent(19),
                ),
            )
        },
        PileStageV::InstallFasttext => if yes(ev) {
            after(seq![NoteV::Log("✔  fasttext + supplemental dependencies installed."@)], to_write_stamp(cfg))
        } else {
            (
                PileStageV::LocateSitePackages,
                seq![
                    NoteV::Log("⚠  fasttext pip install failed (likely C++ build error on Python 3.13+)."@),
                    NoteV::Log(
                        "ℹ  Writing pure-Python fasttext stub — language filtering disabled, download unaffected."@,
                    ),
                ],
                ActionV::SitePackages(venv),
            )
        },
        PileStageV::LocateSitePackages => {
            let sp = match ev {
                BuildEvent::Found(p) => p@,
                _ => Seq::empty(),
            };
            let stub = path_join(sp, "fasttext.py"@);
            (PileStageV::WriteStub(stub), Seq::empty(), ActionV::WriteFile(stub, fasttext_stub()))
        },
        PileStageV::WriteStub(stub) => {
            let first = match ev {
                BuildEvent::Wrote(Err(e)) => NoteV::Log("⚠  Could not write fasttext stub: "@ + e@),
                _ => NoteV::Log("✔  fasttext stub written to "@ + stub + "."@),
            };
            (
                PileStageV::InstallSupplemental,
                seq![first, NoteV::Log("pip install zstandard datasets pytablewriter …"@)],
                venv_run(
                    cfg,
                    seq!["-m"@, "pip"@, "install"@, "zstandard"@, "datasets"@, "pytablewriter"@],
                    at_percent(19),
                    at_percent(20),
                ),
            )
        },
        PileStageV::InstallSupplemental => after(
            seq![
                if yes(ev) {
                    NoteV::Log("✔  zstandard + datasets installed."@)
                } else {
                    NoteV::Log("⚠  zstandard/datasets install failed; some components may not work."@)
                },
            ],
            to_write_stamp(cfg),
        ),
        PileStageV::WriteStamp => start_component(cfg, 0),
        PileStageV::RunComponent(idx) => {
            let comps = run_components(strs(cfg.components@));
            let n = comps.len();
            if idx >= n {
                (PileStageV::Finished, Seq::empty(), ActionV::Stop)
            } else if !yes(ev) {
                failed("pile.py failed for component '"@ + comps[idx as int] + "' — see log above."@)
            } else {
                let done = NoteV::Log(
                    "✔  Component '"@ + comps[idx as int] + "' complete ("@ + decimal((idx + 1) as nat) + "/"@
                        + decimal(n) + ")."@,
                );
                if idx + 1 < n {
                    after(seq![done], start_component(cfg, (idx + 1) as nat))
                } else {
                    (
                        PileStageV::CheckPass2,
                        seq![done, NoteV::Log("✔  Pile data generation complete."@)],
                        ActionV::PathExists(pass2_script(repo)),
                    )
                }
            }
        },
        PileStageV::CheckPass2 => if yes(ev) {
            (
                PileStageV::RunPass2,
                phase_notes("Running pass-2 shuffle script…"@, at_percent(90)) + seq![
                    NoteV::Log("Running: "@ + vpy + " "@ + pass2_script(repo)),
                ],
                venv_run(cfg, seq![pass2_script(repo)], at_percent(90), at_percent(99)),
            )
        } else {
            after(seq![NoteV::Log("ℹ  No pass-2 script found; skipping shuffle step."@)], finish(cfg))
        },
        PileStageV::RunPass2 => after(
            seq![
                if yes(ev) {
                    NoteV::Log("✔  Pass-2 shuffle complete."@)
                } else {
                    NoteV::Log("⚠  pass2.py returned non-zero; continuing anyway."@)
                },
            ],
            finish(cfg),
        ),
        PileStageV::Finished => (PileStageV::Finished, Seq::empty(), ActionV::Stop),
    }
}

/// A step as plain values.
pub open spec fn step_view(r: (PileStage, Vec<BuildNote>, BuildAction)) -> PileStepV {
    (stage_view(r.0), notes_view(r.1@), action_view(r.2))
}

/// Owned copies of `parts`.
fn owned_all(parts: Vec<&str>) -> (r: Vec<String>)
    ensures
        strs(r@) == parts@.map_values(|s: &str| s@),
{
    let mut r: Vec<String> = Vec::new();
    let mut i: usize = 0;
    while i < parts.len()
        invariant
            i <= parts.len(),
            strs(r@) == parts@.take(i as int).map_values(|s: &str| s@),
        decreases parts.len() - i,
    {
        let ghost prev = r@;
        let x = parts[i].to_owned();
        r.push(x);
        assert(strs(r@) =~= strs(prev).push(parts@[i as int]@));
        assert(parts@.take(i + 1) =~= parts@.take(i as int).push(parts@[i as int]));
        i = i + 1;
        assert(strs(r@) =~= parts@.take(i as int).map_values(|s: &str| s@));
    }
    assert(parts@.take(i as int) =~= parts@);
    r
}

/// The components the build runs.
fn components_of(cfg: &PileConfig) -> (r: Vec<String>)
    ensures
        strs(r@) == run_components(strs(cfg.components@)),
{
    if cfg.components.len() == 0 {
        let mut r: Vec<String> = Vec::new();
        r.push("pile_reprod".to_owned());
        assert(strs(r@) =~= seq!["pile_reprod"@]);
        r
    } else {
        let mut r: Vec<String> = Vec::new();
        let mut i: usize = 0;
        while i < cfg.components.len()
            invariant
                i <= cfg.components.len(),
                strs(r@) == strs(cfg.components@).take(i as int),
            decreases cfg.components.len() - i,
        {
            let ghost prev = r@;
            let x = cfg.components[i].clone();
            r.push(x);
            assert(strs(r@) =~= strs(prev).push(cfg.components@[i as int]@));
            i = i + 1;
            assert(strs(r@) =~= strs(cfg.components@).take(i as int));
        }
        assert(strs(cfg.components@).take(i as int) =~= strs(cfg.components@));
        r
    }
}

/// A command of the virtual environment's Python, run in the repository.
fn venv_command(cfg: &PileConfig, args: Vec<String>, from: Progress, to: Progress) -> (r: BuildAction)
    ensures
        action_view(r) == venv_run(*cfg, strs(args@), from, to),
{
    let venv = join_path(cfg.target_dir.as_str(), "pile-venv");
    let bin = join_path(venv.as_str(), "bin");
    let program = join_path(bin.as_str(), "python");
    let cwd = join_path(cfg.target_dir.as_str(), "the-pile");
    BuildAction::Run(CommandSpec { program, args, cwd: Some(cwd), from, to })
}

/// The build's end after a failure with `msg`.
fn failed_step(msg: String) -> (r: (PileStage, Vec<BuildNote>, BuildAction))
    ensures
        step_view(r) == failed(msg@),
{
    let mut notes: Vec<BuildNote> = Vec::new();
    fail(&mut notes, msg);
    assert(notes_view(notes@) =~= failure_notes(msg@));
    (PileStage::Finished, notes, BuildAction::Stop)
}

/// `notes` reported before the step `t`.
fn prepend(notes: Vec<BuildNote>, t: (PileStage, Vec<BuildNote>, BuildAction)) -> (r: (
    PileStage,
    Vec<BuildNote>,
    BuildAction,
))
    ensures
        step_view(r) == after(notes_view(notes@), step_view(t)),
{
    let (stage, mut rest, action) = t;
    let mut all = notes;
    let ghost start = all@;
    let ghost tail = rest@;
    all.append(&mut rest);
    assert(notes_view(all@) =~= notes_view(start) + notes_view(tail));
    (stage, all, action)
}

/// On to the virtual environment.
fn venv_check(cfg: &PileConfig) -> (r: (PileStage, Vec<BuildNote>, BuildAction))
    ensures
        step_view(r) == to_venv(*cfg),
{
    let notes: Vec<BuildNote> = Vec::new();
    assert(notes_view(notes@) =~= Seq::<NoteV>::empty());
    (PileStage::CheckVenv, notes, BuildAction::PathExists(join_path(cfg.target_dir.as_str(), "pile-venv")))
}

/// The stamp file.
fn stamp_path(cfg: &PileConfig) -> (r: String)
    ensures
        r@ == deps_stamp(pile_venv(cfg.target_dir@)),
{
    let venv = join_path(cfg.target_dir.as_str(), "pile-venv");
    join_path(venv.as_str(), ".quark-deps-installed")
}

/// On to the dependencies.
fn stamp_check(cfg: &PileConfig) -> (r: (PileStage, Vec<BuildNote>, BuildAction))
    ensures
        step_view(r) == to_stamp(*cfg),
{
    let notes: Vec<BuildNote> = Vec::new();
    assert(notes_view(notes@) =~= Seq::<NoteV>::empty());
    (PileStage::ReadStamp, notes, BuildAction::ReadFile(stamp_path(cfg)))
}

/// Mark the dependencies installed.
fn stamp_write(cfg: &PileConfig) -> (r: (PileStage, Vec<BuildNote>, BuildAction))
    ensures
        step_view(r) == to_write_stamp(*cfg),
{
    let notes: Vec<BuildNote> = Vec::new();
    assert(notes_view(notes@) =~= Seq::<NoteV>::empty());
    (PileStage::WriteStamp, notes, BuildAction::WriteFile { path: stamp_path(cfg), content: "v3".to_owned() })
}

/// Start component `idx`.
fn component_step(cfg: &PileConfig, idx: usize) -> (r: (PileStage, Vec<BuildNote>, BuildAction))
    requires
        idx < run_components(strs(cfg.components@)).len(),
    ensures
        step_view(r) == start_component(*cfg, idx as nat),
{
    let comps = components_of(cfg);
    let n = comps.len();
    let ghost cv = strs(comps@);
    assert(cv[idx as int] == comps@[idx as int]@);
    let comp = comps[idx].as_str();
    let from = Progress { percent: 20, band: 70, index: idx as u64, count: n as u64 };
    let to = Progress { percent: 20, band: 70, index: (idx + 1) as u64, count: n as u64 };
    let venv = join_path(cfg.target_dir.as_str(), "pile-venv");
    let bin = join_path(venv.as_str(), "bin");
    let py = join_path(bin.as_str(), "python");
    let inter = usize_to_decimal(cfg.interleave_output as usize);
    let mut notes: Vec<BuildNote> = Vec::new();
    if n > 1 {
        let mut t = "Downloading component ".to_owned();
        t.append(usize_to_decimal(idx + 1).as_str());
        t.append("/");
        t.append(usize_to_decimal(n).as_str());
        t.append(": ");
        t.append(comp);
        t.append("…");
        phase(&mut notes, t, from);
    } else {
        phase(&mut notes, "Downloading & building The Pile — this can take many hours…".to_owned(), from);
    }
    let mut t = "Running: ".to_owned();
    t.append(py.as_str());
    t.append(" the_pile/pile.py --interleave_output ");
    t.append(inter.as_str());
    t.append(" --using ");
    t.append(comp);
    log(&mut notes, t);
    if str_eq(comp, "pile_reprod") {
        log(
            &mut notes,
            "⚠  The full Pile is ~825 GiB compressed. Make sure you have enough disk space.".to_owned(),
        );
    }
    let mut args: Vec<String> = Vec::new();
    args.push("the_pile/pile.py".to_owned());
    args.push("--interleave_output".to_owned());
    args.push(inter);
    args.push("--using".to_owned());
    args.push(comp.to_owned());
    assert(strs(args@) =~= seq![
        "the_pile/pile.py"@,
        "--interleave_output"@,
        decimal(cfg.interleave_output as nat),
        "--using"@,
        cv[idx as int],
    ]);
    let action = venv_command(cfg, args, from, to);
    proof {
        let s = start_component(*cfg, idx as nat);
        assert(notes_view(notes@) =~= s.1);
    }
    (PileStage::RunComponent(idx), notes, action)
}

/// The end of a successful build.
fn finish_step(cfg: &PileConfig) -> (r: (PileStage, Vec<BuildNote>, BuildAction))
    ensures
        step_view(r) == finish(*cfg),
{
    let mut notes: Vec<BuildNote> = Vec::new();
    phase(&mut notes, "Complete!".to_owned(), percent(100));
    let repo = join_path(cfg.target_dir.as_str(), "the-pile");
    log(&mut notes, cat("✅  The Pile build finished.  Data is in: ", repo.as_str()));
    let ghost before = notes@;
    notes.push(BuildNote::Done);
    assert(notes_view(notes@) =~= notes_view(before).push(NoteV::Done));
    assert(notes_view(notes@) =~= finish(*cfg).1);
    (PileStage::Finished, notes, BuildAction::Stop)
}


/// One step of a Pile build (see `pile_next`): the program performs the
/// returned action, answers with the event, and calls this again until the
/// action is `Stop`.
pub fn pile_step(cfg: &PileConfig, stage: PileStage, event: BuildEvent) -> (r: (
    PileStage,
    Vec<BuildNote>,
    BuildAction,
))
    ensures
        step_view(r) == pile_next(*cfg, stage_view(stage), event),
{
    let ok = matches!(event, BuildEvent::Flag(true));
    let target = cfg.target_dir.as_str();
    let py = cfg.python_cmd.as_str();
    let repo = join_path(target, "the-pile");
    let venv = join_path(target, "pile-venv");
    let bin = join_path(venv.as_str(), "bin");
    let vpy = join_path(bin.as_str(), "python");
    let mut notes: Vec<BuildNote> = Vec::new();
    let ghost expected = pile_next(*cfg, stage_view(stage), event);
    assert(notes_view(notes@) =~= Seq::<NoteV>::empty());
    match stage {
        PileStage::Start => {
            phase(&mut notes, "Checking prerequisites…".to_owned(), percent(2));
            log(&mut notes, "Looking for git…".to_owned());
            assert(notes_view(notes@) =~= expected.1);
            (PileStage::FindGit, notes, BuildAction::FindProgram("git".to_owned()))
        },
        PileStage::FindGit => {
            if !ok {
                return failed_step("'git' not found on PATH. Install git and try again.".to_owned());
            }
            log(&mut notes, "✔  git OK".to_owned());
            log(&mut notes, cat3("Looking for ", py, " …"));
            (PileStage::FindPython, notes, BuildAction::FindProgram(py.to_owned()))
        },
        PileStage::FindPython => {
            if !ok {
                return failed_step(cat3("'", py, "' not found on PATH. Install Python 3 and try again."));
            }
            log(&mut notes, cat3("✔  ", py, " OK"));
            (PileStage::CheckRepo, notes, BuildAction::PathExists(repo))
        },
        PileStage::CheckRepo => {
            if ok && cfg.skip_clone_if_exists {
                log(&mut notes, cat3("ℹ  Repo already at ", repo.as_str(), "; skipping clone."));
                prepend(notes, venv_check(cfg))
            } else {
                phase(&mut notes, "Cloning EleutherAI/the-pile…".to_owned(), percent(5));
                let mut t = "git clone ".to_owned();
                t.append("https://github.com/EleutherAI/the-pile.git");
                t.append(" → ");
                t.append(repo.as_str());
                log(&mut notes, t);
                assert(notes_view(notes@) =~= expected.1);
                (PileStage::MakeTarget, notes, BuildAction::CreateDir(target.to_owned()))
            }
        },
        PileStage::MakeTarget => {
            match event {
                BuildEvent::Wrote(Err(e)) => failed_step(cat("Cannot create target directory: ", e.as_str())),
                _ => {
                    let mut args: Vec<String> = Vec::new();
                    args.push("clone".to_owned());
                    args.push("https://github.com/EleutherAI/the-pile.git".to_owned());
                    args.push(repo);
                    proof {
                        reveal_strlit("https://github.com/EleutherAI/the-pile.git");
                    }
                    assert(strs(args@) =~= seq!["clone"@, pile_url(), pile_repo(cfg.target_dir@)]);
                    assert(notes_view(notes@) =~= Seq::<NoteV>::empty());
                    (
                        PileStage::CloneRepo,
                        notes,
                        BuildAction::Run(
                            CommandSpec {
                                program: "git".to_owned(),
                                args,
                                cwd: None,
                                from: percent(5),
                                to: percent(12),
                            },
                        ),
                    )
                },
            }
        },
        PileStage::CloneRepo => {
            if !ok {
                return failed_step("git clone failed — see log above.".to_owned());
            }
            log(&mut notes, "✔  Repository cloned.".to_owned());
            prepend(notes, venv_check(cfg))
        },
        PileStage::CheckVenv => {
            if ok {
                log(&mut notes, cat3("ℹ  Virtual environment already at ", venv.as_str(), "; reusing."));
                prepend(notes, stamp_check(cfg))
            } else {
                phase(&mut notes, "Creating Python virtual environment…".to_owned(), percent(10));
                log(&mut notes, cat3("Creating venv at ", venv.as_str(), " …"));
                assert(notes_view(notes@) =~= expected.1);
                let mut args: Vec<String> = Vec::new();
                args.push("-m".to_owned());
                args.push("venv".to_owned());
                args.push(venv);
                assert(strs(args@) =~= seq!["-m"@, "venv"@, pile_venv(cfg.target_dir@)]);
                (
                    PileStage::MakeVenv,
                    notes,
                    BuildAction::Run(
                        CommandSpec {
                            program: py.to_owned(),
                            args,
                            cwd: None,
                            from: percent(10),
                            to: percent(12),
                        },
                    ),
                )
            }
        },
        PileStage::MakeVenv => {
            if !ok {
                return failed_step("python -m venv failed — see log above.".to_owned());
            }
            log(&mut notes, "✔  Virtual environment created.".to_owned());
            prepend(notes, stamp_check(cfg))
        },
        PileStage::ReadStamp => {
            let current = match &event {
                BuildEvent::Text(Some(t)) => {
                    let tt = trim_ws(t.as_str());
                    proof {
                        reveal_strlit("v3");
                    }
                    str_eq(tt.as_str(), "v3")
                },
                _ => false,
            };
            if current {
                let stamp = stamp_path(cfg);
                log(&mut notes, cat3("ℹ  Dependencies already installed (", stamp.as_str(), "); skipping."));
                prepend(notes, component_step(cfg, 0))
            } else {
                phase(
                    &mut notes,
                    "Installing Python dependencies (pip install -e .)…".to_owned(),
                    percent(12),
                );
                log(&mut notes, cat("Using venv Python: ", vpy.as_str()));
                assert(notes_view(notes@) =~= expected.1);
                let args = owned_all(vec!["-m", "pip", "install", "-e", "."]);
                assert(strs(args@) =~= seq!["-m"@, "pip"@, "install"@, "-e"@, "."@]);
                (PileStage::InstallBase, notes, venv_command(cfg, args, percent(12), percent(16)))
            }
        },
        PileStage::InstallBase => {
            if !ok {
                return failed_step("pip install failed — see log above.".to_owned());
            }
            log(&mut notes, "✔  Base Python dependencies installed.".to_owned());
            phase(&mut notes, "Installing fasttext + supplemental dependencies…".to_owned(), percent(16));
            log(&mut notes, "pip install fasttext zstandard datasets pytablewriter …".to_owned());
            assert(notes_view(notes@) =~= expected.1);
            let args = owned_all(
                vec!["-m", "pip", "install", "fasttext", "zstandard", "datasets", "pytablewriter"],
            );
            assert(strs(args@) =~= seq![
                "-m"@,
                "pip"@,
                "install"@,
                "fasttext"@,
                "zstandard"@,
                "datasets"@,
                "pytablewriter"@,
            ]);
            (PileStage::InstallFasttext, notes, venv_command(cfg, args, percent(16), percent(19)))
        },
        PileStage::InstallFasttext => {
            if ok {
                log(&mut notes, "✔  fasttext + supplemental dependencies installed.".to_owned());
                prepend(notes, stamp_write(cfg))
            } else {
                log(
                    &mut notes,
                    "⚠  fasttext pip install failed (likely C++ build error on Python 3.13+).".to_owned(),
                );
                log(
                    &mut notes,
                    "ℹ  Writing pure-Python fasttext stub — language filtering disabled, download unaffected.".to_owned(),
                );
                (PileStage::LocateSitePackages, notes, BuildAction::SitePackages(venv))
            }
        },
        PileStage::LocateSitePackages => {
            let stub = match &event {
                BuildEvent::Found(p) => join_path(p.as_str(), "fasttext.py"),
                _ => join_path("", "fasttext.py"),
            };
            proof {
                reveal_strlit("");
            }
            let content = "# Auto-generated by Quark: pure-Python fasttext stub.\n# The real fasttext C extension could not be compiled on this Python version.\n# predict() always returns English so the Pile download is unaffected.\nclass _Model:\n    def predict(self, text, k=1):\n        return (['__label__en'], [1.0])\n    def get_word_vector(self, word):\n        return [0.0] * 100\ndef load_model(path):\n    return _Model()\n".to_owned();
            assert(notes_view(notes@) =~= Seq::<NoteV>::empty());
            let path = stub.clone();
            (PileStage::WriteStub(stub), notes, BuildAction::WriteFile { path, content })
        },
        PileStage::WriteStub(stub) => {
            match &event {
                BuildEvent::Wrote(Err(e)) => log(&mut notes, cat("⚠  Could not write fasttext stub: ", e.as_str())),
                _ => log(&mut notes, cat3("✔  fasttext stub written to ", stub.as_str(), ".")),
            }
            log(&mut notes, "pip install zstandard datasets pytablewriter …".to_owned());
            let args = owned_all(vec!["-m", "pip", "install", "zstandard", "datasets", "pytablewriter"]);
            assert(strs(args@) =~= seq!["-m"@, "pip"@, "install"@, "zstandard"@, "datasets"@, "pytablewriter"@]);
            (PileStage::InstallSupplemental, notes, venv_command(cfg, args, percent(19), percent(20)))
        },
        PileStage::InstallSupplemental => {
            if ok {
                log(&mut notes, "✔  zstandard + datasets installed.".to_owned());
            } else {
                log(&mut notes, "⚠  zstandard/datasets install failed; some components may not work.".to_owned());
            }
            prepend(notes, stamp_write(cfg))
        },
        PileStage::WriteStamp => component_step(cfg, 0),
        PileStage::RunComponent(idx) => {
            let comps = components_of(cfg);
            let n = comps.len();
            if idx >= n {
                assert(notes_view(notes@) =~= Seq::<NoteV>::empty());
                return (PileStage::Finished, notes, BuildAction::Stop);
            }
            let comp = comps[idx].as_str();
            if !ok {
                let mut m = "pile.py failed for component '".to_owned();
                m.append(comp);
                m.append("' — see log above.");
                return failed_step(m);
            }
            let mut m = "✔  Component '".to_owned();
            m.append(comp);
            m.append("' complete (");
            m.append(usize_to_decimal(idx + 1).as_str());
            m.append("/");
            m.append(usize_to_decimal(n).as_str());
            m.append(").");
            log(&mut notes, m);
            if idx + 1 < n {
                prepend(notes, component_step(cfg, idx + 1))
            } else {
                log(&mut notes, "✔  Pile data generation complete.".to_owned());
                let scripts = join_path(repo.as_str(), "processing_scripts");
                let pass2 = join_path(scripts.as_str(), "pass2.py");
                (PileStage::CheckPass2, notes, BuildAction::PathExists(pass2))
            }
        },
        PileStage::CheckPass2 => {
            if ok {
                let scripts = join_path(repo.as_str(), "processing_scripts");
                let pass2 = join_path(scripts.as_str(), "pass2.py");
                phase(&mut notes, "Running pass-2 shuffle script…".to_owned(), percent(90));
                let mut m = "Running: ".to_owned();
                m.append(vpy.as_str());
                m.append(" ");
                m.append(pass2.as_str());
                log(&mut notes, m);
                assert(notes_view(notes@) =~= expected.1);
                let mut args: Vec<String> = Vec::new();
                args.push(pass2);
                assert(strs(args@) =~= seq![pass2_script(pile_repo(cfg.target_dir@))]);
                (PileStage::RunPass2, notes, venv_command(cfg, args, percent(90), percent(99)))
            } else {
                log(&mut notes, "ℹ  No pass-2 script found; skipping shuffle step.".to_owned());
                prepend(notes, finish_step(cfg))
            }
        },
        PileStage::RunPass2 => {
            if ok {
                log(&mut notes, "✔  Pass-2 shuffle complete.".to_owned());
            } else {
                log(&mut notes, "⚠  pass2.py returned non-zero; continuing anyway.".to_owned());
            }
            prepend(notes, finish_step(cfg))
        },
        PileStage::Finished => {
            assert(notes_view(notes@) =~= Seq::<NoteV>::empty());
            (PileStage::Finished, notes, BuildAction::Stop)
        },
    }
}


/// Starting a component reports nothing that ends the build, and runs a
/// command.
proof fn lemma_start_component_ends(cfg: PileConfig, idx: nat)
    requires
        idx < run_components(strs(cfg.components@)).len(),
    ensures
        no_final(start_component(cfg, idx).1),
        ends_properly(start_component(cfg, idx).1, start_component(cfg, idx).2),
        start_component(cfg, idx).2 is Run,
{
    let t = start_component(cfg, idx);
    assert forall|i: int| 0 <= i < t.1.len() implies !is_final_note(#[trigger] t.1[i]) by {}
}

/// A Pile build stops exactly when it finishes, and then its last report
/// says how it ended (`Done` or `Error`); no earlier report of a step ends
/// it. (A component index past the list, which no build reaches, is left
/// out.)
pub proof fn law_pile_build_ends_with_its_last_report(cfg: PileConfig, stage: PileStageV, ev: BuildEvent)
    requires
        !(stage is Finished),
        stage matches PileStageV::RunComponent(i) ==> i < run_components(strs(cfg.components@)).len(),
    ensures
        ends_properly(pile_next(cfg, stage, ev).1, pile_next(cfg, stage, ev).2),
        pile_next(cfg, stage, ev).2 is Stop <==> pile_next(cfg, stage, ev).0 is Finished,
{
    let t = pile_next(cfg, stage, ev);
    let n = run_components(strs(cfg.components@)).len();
    assert(n > 0);
    match stage {
        PileStageV::ReadStamp => {
            lemma_start_component_ends(cfg, 0);
        },
        PileStageV::WriteStamp => {
            lemma_start_component_ends(cfg, 0);
        },
        PileStageV::RunComponent(i) => {
            if (i + 1) < n {
                lemma_start_component_ends(cfg, (i + 1) as nat);
            }
        },
        _ => {},
    }
    match stage {
        PileStageV::ReadStamp => {
            if !(t.0 is InstallBase) {
                lemma_ends_after(
                    seq![NoteV::Log("ℹ  Dependencies already installed ("@ + deps_stamp(pile_venv(cfg.target_dir@)) + "); skipping."@)],
                    start_component(cfg, 0).1,
                    start_component(cfg, 0).2,
                );
            }
        },
        PileStageV::RunComponent(i) => {
            if yes(ev) && (i + 1) < n {
                let comps = run_components(strs(cfg.components@));
                let done = NoteV::Log(
                    "✔  Component '"@ + comps[i as int] + "' complete ("@ + decimal((i + 1) as nat) + "/"@
                        + decimal(n) + ")."@,
                );
                lemma_ends_after(seq![done], start_component(cfg, (i + 1) as nat).1, start_component(cfg, (i + 1) as nat).2);
            }
        },
        _ => {},
    }
    assert forall|i: int| 0 <= i < t.1.len() - 1 implies !is_final_note(#[trigger] t.1[i]) by {}
}

} // verus!
