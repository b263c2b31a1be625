//! The HuggingFace dataset download: reading the download script's output,
//! choosing the selected datasets from the catalogue, and the steps that
//! prepare a Python environment and run the script for each dataset.

use vstd::prelude::*;

use crate::checkpoint::{has_prefix, split_once, split_once_from};
use crate::data::job::{
    action_view, at_percent, cat, cat3, ends_properly, fail, failure_notes, is_final_note,
    lemma_ends_after, log, notes_view, percent, phase, phase_notes, strs, yes, ActionV, BuildAction,
    BuildEvent, BuildNote, CommandSpec, NoteV, Progress,
};
use crate::text::{
    chars_of, decimal, parse_unsigned, parse_unsigned_exec, starts_with, str_eq, string_of, trim, trim_ws,
    usize_to_decimal,
};
use crate::training::{join_path, path_join};

verus! {

/// What one line of the download script's output means.
#[derive(Debug, Clone)]
pub enum OutputLine {
    /// `PROGRESS:<fraction>`: the text of the fraction, trimmed (the
    /// program reads it as a float).
    Progress(String),
    /// `SPEED:<bytes per second>`: the text of the speed, trimmed.
    Speed(String),
    /// `BYTES:<downloaded>/<total>`.
    Bytes { downloaded: u64, total: u64 },
    /// `FILE:<name>`: the file being downloaded, trimmed.
    File(String),
    /// A line for the log.
    Log(String),
    /// A line that reports nothing (blank, `DONE`, or a malformed `BYTES:`).
    Nothing,
}

/// A line's meaning as plain values.
pub enum OutputLineV {
    Progress(Seq<char>),
    Speed(Seq<char>),
    Bytes(nat, nat),
    File(Seq<char>),
    Log(Seq<char>),
    Nothing,
}

pub open spec fn output_view(o: OutputLine) -> OutputLineV {
    match o {
        OutputLine::Progress(t) => OutputLineV::Progress(t@),
        OutputLine::Speed(t) => OutputLineV::Speed(t@),
        OutputLine::Bytes { downloaded, total } => OutputLineV::Bytes(downloaded as nat, total as nat),
        OutputLine::File(t) => OutputLineV::File(t@),
        OutputLine::Log(t) => OutputLineV::Log(t@),
        OutputLine::Nothing => OutputLineV::Nothing,
    }
}

/// The meaning of `line`, by its prefix: `PROGRESS:`, `SPEED:`, `BYTES:`
/// (two `u64`s around the first `/`), `FILE:`, `LOG:` (the rest as is);
/// otherwise a non-blank line other than `DONE` goes to the log as it is.
pub open spec fn output_line(line: Seq<char>) -> OutputLineV {
    if starts_with(line, "PROGRESS:"@) {
        OutputLineV::Progress(trim(line.skip(9)))
    } else if starts_with(line, "SPEED:"@) {
        OutputLineV::Speed(trim(line.skip(6)))
    } else if starts_with(line, "BYTES:"@) {
        match split_once(trim(line.skip(6)), '/') {
            Some((d, t)) => match (parse_unsigned(d, u64::MAX as nat), parse_unsigned(t, u64::MAX as nat)) {
                (Some(a), Some(b)) => OutputLineV::Bytes(a, b),
                _ => OutputLineV::Nothing,
            },
            None => OutputLineV::Nothing,
        }
    } else if starts_with(line, "FILE:"@) {
        OutputLineV::File(trim(line.skip(5)))
    } else if starts_with(line, "LOG:"@) {
        OutputLineV::Log(line.skip(4))
    } else if trim(line) == "DONE"@ || trim(line).len() == 0 {
        OutputLineV::Nothing
    } else {
        OutputLineV::Log(line)
    }
}

/// The characters of `v` from index `k` on, as a string.
fn rest_from(v: &Vec<char>, k: usize) -> (r: String)
    requires
        k <= v@.len(),
    ensures
        r@ == v@.skip(k as int),
{
    let mut tail: Vec<char> = Vec::new();
    let mut i = k;
    while i < v.len()
        invariant
            k <= i <= v@.len(),
            tail@ == v@.subrange(k as int, i as int),
        decreases v@.len() - i,
    {
        tail.push(v[i]);
        i = i + 1;
        assert(tail@ =~= v@.subrange(k as int, i as int));
    }
    assert(tail@ =~= v@.skip(k as int));
    string_of(&tail)
}

/// Reads one line of the download script's output.
pub fn classify_output_line(line: &str) -> (r: OutputLine)
    ensures
        output_view(r) == output_line(line@),
{
    let cs = chars_of(line);
    proof {
        reveal_strlit("PROGRESS:");
        reveal_strlit("SPEED:");
        reveal_strlit("BYTES:");
        reveal_strlit("FILE:");
        reveal_strlit("LOG:");
    }
    if has_prefix(&cs, "PROGRESS:") {
        let rest = rest_from(&cs, 9);
        OutputLine::Progress(trim_ws(rest.as_str()))
    } else if has_prefix(&cs, "SPEED:") {
        let rest = rest_from(&cs, 6);
        OutputLine::Speed(trim_ws(rest.as_str()))
    } else if has_prefix(&cs, "BYTES:") {
        let rest = rest_from(&cs, 6);
        let t = trim_ws(rest.as_str());
        let tc = chars_of(t.as_str());
        assert(tc@.skip(0) =~= tc@);
        match split_once_from(&tc, 0, '/') {
            Some((d, tot)) => {
                let ds = string_of(&d);
                let ts = string_of(&tot);
                match (parse_unsigned_exec(ds.as_str(), u64::MAX), parse_unsigned_exec(ts.as_str(), u64::MAX)) {
                    (Some(a), Some(b)) => OutputLine::Bytes { downloaded: a, total: b },
                    _ => OutputLine::Nothing,
                }
            },
            None => OutputLine::Nothing,
        }
    } else if has_prefix(&cs, "FILE:") {
        let rest = rest_from(&cs, 5);
        OutputLine::File(trim_ws(rest.as_str()))
    } else if has_prefix(&cs, "LOG:") {
        OutputLine::Log(rest_from(&cs, 4))
    } else {
        let t = trim_ws(line);
        if crate::text::str_eq(t.as_str(), "DONE") || t.as_str().unicode_len() == 0 {
            OutputLine::Nothing
        } else {
            OutputLine::Log(line.to_owned())
        }
    }
}


/// A dataset of the catalogue, as far as downloading it goes.
#[derive(Debug, Clone)]
pub struct HfJob {
    /// Short stable identifier, used to select the dataset.
    pub id: String,
    /// HuggingFace repository / dataset id.
    pub hf_id: String,
    /// Human-readable name.
    pub label: String,
    /// Whether downloading needs a HuggingFace token.
    pub token_required: bool,
    /// Dataset subset / configuration name.
    pub subset: Option<String>,
    /// The split to stream.
    pub split: String,
    /// The field to take as text (`None`: the script guesses).
    pub text_field: Option<String>,
}

/// A HuggingFace download job.
#[derive(Debug, Clone)]
pub struct HfBuild {
    /// Where the environment and the JSONL output go.
    pub target_dir: String,
    /// The Python executable to use.
    pub python_cmd: String,
    /// Ids of the catalogue's datasets to download, in order.
    pub selected_ids: Vec<String>,
    /// The catalogue the ids refer to.
    pub catalogue: Vec<HfJob>,
    /// The `--max-gb` argument, when downloads are capped.
    pub max_gb: Option<String>,
    /// Parallel connections per file.
    pub parallel_workers: u8,
    /// HuggingFace API token (empty: none).
    pub hf_token: String,
}

/// The index of the first dataset of `cat` from index `i` on whose id is
/// `id`.
pub open spec fn index_from(cat: Seq<HfJob>, id: Seq<char>, i: int) -> Option<nat>
    decreases cat.len() - i,
{
    if i < 0 || i >= cat.len() {
        None
    } else if cat[i].id@ == id {
        Some(i as nat)
    } else {
        index_from(cat, id, i + 1)
    }
}

/// A found index is that of a dataset with the id, at or after `i`.
pub proof fn lemma_index_from(cat: Seq<HfJob>, id: Seq<char>, i: int)
    ensures
        index_from(cat, id, i) matches Some(k) ==> i <= k < cat.len() && cat[k as int].id@ == id,
    decreases cat.len() - i,
{
    if 0 <= i < cat.len() && cat[i].id@ != id {
        lemma_index_from(cat, id, i + 1);
    }
}

/// The catalogue indices of the selected datasets: for each selected id in
/// order, the first dataset with that id; ids not in the catalogue are
/// passed over.
pub open spec fn selection(cat: Seq<HfJob>, ids: Seq<Seq<char>>) -> Seq<nat>
    decreases ids.len(),
{
    if ids.len() == 0 {
        Seq::empty()
    } else {
        let r = selection(cat, ids.drop_last());
        match index_from(cat, ids.last(), 0) {
            Some(i) => r.push(i),
            None => r,
        }
    }
}

/// Every selected index is one of the catalogue.
pub proof fn lemma_selection_in_catalogue(cat: Seq<HfJob>, ids: Seq<Seq<char>>)
    ensures
        forall|k: int| 0 <= k < selection(cat, ids).len() ==> #[trigger] selection(cat, ids)[k] < cat.len(),
    decreases ids.len(),
{
    if ids.len() > 0 {
        lemma_selection_in_catalogue(cat, ids.drop_last());
        lemma_index_from(cat, ids.last(), 0);
        let r = selection(cat, ids.drop_last());
        assert forall|k: int| 0 <= k < selection(cat, ids).len() implies #[trigger] selection(cat, ids)[k]
            < cat.len() by {
            if k < r.len() {
                assert(selection(cat, ids)[k] == r[k]);
            }
        }
    }
}

/// The selected datasets of `b`.
pub open spec fn selected(b: HfBuild) -> Seq<nat> {
    selection(b.catalogue@, strs(b.selected_ids@))
}

/// Where the job keeps its Python virtual environment.
pub open spec fn hf_venv(target: Seq<char>) -> Seq<char> {
    path_join(target, "hf-venv"@)
}

/// The Python of the virtual environment.
pub open spec fn hf_python(target: Seq<char>) -> Seq<char> {
    path_join(path_join(hf_venv(target), "bin"@), "python"@)
}

/// The file whose content marks the installed dependencies.
pub open spec fn hf_stamp(target: Seq<char>) -> Seq<char> {
    path_join(hf_venv(target), ".quark-hf-deps"@)
}

/// Where the download script is written.
pub open spec fn hf_script(target: Seq<char>) -> Seq<char> {
    path_join(target, "hf_download.py"@)
}

/// Where the JSONL files go.
pub open spec fn hf_out(target: Seq<char>) -> Seq<char> {
    path_join(target, "datasets"@)
}

/// Where a download job stands: the answer it waits for.
#[derive(Debug, Clone, Copy, PartialEq, Eq, Structural)]
pub enum HfStage {
    Start,
    FindPython,
    CheckVenv,
    MakeTarget,
    MakeVenv,
    ReadStamp,
    InstallDeps,
    WriteStamp,
    WriteScript,
    MakeOut,
    /// Downloading the selected dataset with this position.
    RunDataset(usize),
    Finished,
}

/// A step of a download job as plain values.
pub type HfStepV = (HfStage, Seq<NoteV>, ActionV);

/// `notes` reported before the step `t`.
pub open spec fn hf_after(notes: Seq<NoteV>, t: HfStepV) -> HfStepV {
    (t.0, notes + t.1, t.2)
}

/// A failed job.
pub open spec fn hf_failed(msg: Seq<char>) -> HfStepV {
    (HfStage::Finished, failure_notes(msg), ActionV::Stop)
}

/// On to the dependencies: read the stamp.
pub open spec fn hf_to_stamp(b: HfBuild) -> HfStepV {
    (HfStage::ReadStamp, Seq::empty(), ActionV::ReadFile(hf_stamp(b.target_dir@)))
}

/// On to the script.
pub open spec fn hf_to_script(b: HfBuild) -> HfStepV {
    (HfStage::WriteScript, Seq::empty(), ActionV::WriteDownloader(hf_script(b.target_dir@)))
}

/// The end of the job.
pub open spec fn hf_finish(b: HfBuild) -> HfStepV {
    (
        HfStage::Finished,
        phase_notes("Complete!"@, at_percent(100)) + seq![
            NoteV::Log("✅  Download complete.  JSONL files are in: "@ + hf_out(b.target_dir@)),
            NoteV::Done,
        ],
        ActionV::Stop,
    )
}

/// `[flag, value]` when there is a value, else nothing.
pub open spec fn opt_arg(flag: Seq<char>, v: Option<Seq<char>>) -> Seq<Seq<char>> {
    match v {
        Some(x) => seq![flag, x],
        None => Seq::empty(),
    }
}

/// An optional string as an optional character sequence.
pub open spec fn opt_str(o: Option<String>) -> Option<Seq<char>> {
    match o {
        Some(s) => Some(s@),
        None => None,
    }
}

/// The arguments of the download script for `job`.
pub open spec fn download_args(b: HfBuild, job: HfJob) -> Seq<Seq<char>> {
    seq![
        hf_script(b.target_dir@),
        "--dataset-id"@,
        job.hf_id@,
        "--output-dir"@,
        hf_out(b.target_dir@),
        "--split"@,
        job.split@,
    ] + opt_arg("--max-gb"@, opt_str(b.max_gb)) + opt_arg("--subset"@, opt_str(job.subset)) + opt_arg(
        "--text-field"@,
        opt_str(job.text_field),
    ) + opt_arg("--hf-token"@, if b.hf_token@.len() > 0 { Some(b.hf_token@) } else { None }) + seq![
        "--workers"@,
        decimal(b.parallel_workers as nat),
    ]
}

/// Where dataset `k` of `n` starts in the progress.
pub open spec fn dataset_from(k: nat, n: nat) -> Progress {
    Progress { percent: 10, band: 89, index: k as u64, count: n as u64 }
}

/// The reports that open dataset `k` of `n`.
pub open spec fn dataset_head(job: HfJob, k: nat, n: nat) -> Seq<NoteV> {
    phase_notes(
        "Downloading "@ + decimal(k + 1) + "/"@ + decimal(n) + ": "@ + job.label@ + "…"@,
        dataset_from(k, n),
    ) + seq![
        NoteV::Log(
            "━━  Dataset "@ + decimal(k + 1) + "/"@ + decimal(n) + ": "@ + job.label@ + " ("@ + job.hf_id@
                + ")"@,
        ),
    ]
}

/// The reports of a dataset passed over for want of a token.
pub open spec fn token_skip(job: HfJob) -> Seq<NoteV> {
    seq![
        NoteV::Log("⚠  '"@ + job.hf_id@ + "' requires a HuggingFace token. Skipping."@),
        NoteV::Log("   Enter your token in the Dataset panel and re-run."@),
    ]
}

/// Start the selected dataset at position `k`, passing over those that
/// need a token when there is none; finish after the last.
pub open spec fn start_dataset(b: HfBuild, k: nat) -> HfStepV
    decreases selected(b).len() - k,
{
    let sel = selected(b);
    let n = sel.len();
    if k >= n {
        hf_finish(b)
    } else {
        let job = b.catalogue@[sel[k as int] as int];
        let head = dataset_head(job, k, n);
        if job.token_required && b.hf_token@.len() == 0 {
            hf_after(head + token_skip(job), start_dataset(b, k + 1))
        } else {
            (
                HfStage::RunDataset(k as usize),
                head,
                ActionV::Run {
                    program: hf_python(b.target_dir@),
                    args: download_args(b, job),
                    cwd: None,
                    from: dataset_from(k, n),
                    to: dataset_from(k + 1, n),
                },
            )
        }
    }
}

/// One step of a download job: from the stage it is at and the answer to
/// its last action, the next stage, what it reports, and the next action.
pub open spec fn hf_next(b: HfBuild, stage: HfStage, ev: BuildEvent) -> HfStepV {
    let target = b.target_dir@;
    let py = b.python_cmd@;
    let venv = hf_venv(target);
    match stage {
        HfStage::Start => (
            HfStage::FindPython,
            phase_notes("Checking prerequisites…"@, at_percent(1)) + seq![NoteV::Log("Looking for "@ + py + " …"@)],
            ActionV::FindProgram(py),
        ),
        HfStage::FindPython => if !yes(ev) {
            hf_failed("'"@ + py + "' not found on PATH. Install Python 3 and try again."@)
        } else if b.selected_ids@.len() == 0 {
            hf_after(seq![NoteV::Log("✔  "@ + py + " OK"@)], hf_failed("No datasets selected."@))
        } else {
            (HfStage::CheckVenv, seq![NoteV::Log("✔  "@ + py + " OK"@)], ActionV::PathExists(venv))
        },
        HfStage::CheckVenv => if yes(ev) {
            hf_after(seq![NoteV::Log("ℹ  Virtual environment already at "@ + venv + "; reusing."@)], hf_to_stamp(b))
        } else {
            (
                HfStage::MakeTarget,
                phase_notes("Creating Python virtual environment…"@, at_percent(3)) + seq![
                    NoteV::Log("Creating venv at "@ + venv + " …"@),
                ],
                ActionV::CreateDir(target),
            )
        },
        HfStage::MakeTarget => match ev {
            BuildEvent::Wrote(Err(e)) => hf_failed("Cannot create target directory: "@ + e@),
            _ => (
                HfStage::MakeVenv,
                Seq::empty(),
                ActionV::Run {
                    program: py,
                    args: seq!["-m"@, "venv"@, venv],
                    cwd: None,
                    from: at_percent(3),
                    to: at_percent(6),
                },
            ),
        },
        HfStage::MakeVenv => if !yes(ev) {
            hf_failed("python -m venv failed — see log above."@)
        } else {
            hf_after(seq![NoteV::Log("✔  Virtual environment created."@)], hf_to_stamp(b))
        },
        HfStage::ReadStamp => if (ev matches BuildEvent::Text(Some(t)) && trim(t@) == "hf-v1"@) {
            hf_after(seq![NoteV::Log("ℹ  Dependencies already installed; skipping."@)], hf_to_script(b))
        } else {
            (
                HfStage::InstallDeps,
                phase_notes("Installing Python dependencies…"@, at_percent(6)) + seq![
                    NoteV::Log("pip install datasets huggingface_hub tqdm …"@),
                ],
                ActionV::Run {
                    program: hf_python(target),
                    args: seq!["-m"@, "pip"@, "install"@, "--upgrade"@, "datasets"@, "huggingface_hub"@, "tqdm"@],
                    cwd: None,
                    from: at_percent(6),
                    to: at_percent(10),
                },
            )
        },
        HfStage::InstallDeps => if !yes(ev) {
            hf_failed("pip install failed — see log above."@)
        } else {
            (
                HfStage::WriteStamp,
                seq![NoteV::Log("✔  Python dependencies installed."@)],
                ActionV::WriteFile(hf_stamp(target), "hf-v1"@),
            )
        },
        HfStage::WriteStamp => hf_to_script(b),
        HfStage::WriteScript => match ev {
            BuildEvent::Wrote(Err(e)) => hf_failed("Could not write hf_download.py: "@ + e@),
            _ => (
                HfStage::MakeOut,
                seq![NoteV::Log("ℹ  Script written to "@ + hf_script(target) + "."@)],
                ActionV::CreateDir(hf_out(target)),
            ),
        },
        HfStage::MakeOut => match ev {
            BuildEvent::Wrote(Err(e)) => hf_failed("Cannot create datasets directory: "@ + e@),
            _ => start_dataset(b, 0),
        },
        HfStage::RunDataset(k) => {
            let sel = selected(b);
            let n = sel.len();
            if k >= n {
                (HfStage::Finished, Seq::empty(), ActionV::Stop)
            } else {
                let job = b.catalogue@[sel[k as int] as int];
                let note = if yes(ev) {
                    NoteV::Log(
                        "✔  '"@ + job.label@ + "' done ("@ + decimal((k + 1) as nat) + "/"@ + decimal(n) + ")."@,
                    )
                } else {
                    NoteV::Log("⚠  '"@ + job.hf_id@ + "' failed — skipping and continuing with next dataset."@)
                };
                hf_after(seq![note], start_dataset(b, (k + 1) as nat))
            }
        },
        HfStage::Finished => (HfStage::Finished, Seq::empty(), ActionV::Stop),
    }
}


/// A step as plain values.
pub open spec fn hf_step_view(r: (HfStage, Vec<BuildNote>, BuildAction)) -> HfStepV {
    (r.0, notes_view(r.1@), action_view(r.2))
}

/// The index of the first dataset of `cat` whose id is `id`.
fn find_job(cat: &Vec<HfJob>, id: &str) -> (r: Option<usize>)
    ensures
        match r {
            Some(i) => index_from(cat@, id@, 0) == Some(i as nat),
            None => index_from(cat@, id@, 0) is None,
        },
{
    let mut i: usize = 0;
    while i < cat.len()
        invariant
            i <= cat@.len(),
            index_from(cat@, id@, 0) == index_from(cat@, id@, i as int),
        decreases cat@.len() - i,
    {
        if str_eq(cat[i].id.as_str(), id) {
            return Some(i);
        }
        i = i + 1;
    }
    None
}

/// The catalogue indices of the selected datasets.
pub fn selected_indices(b: &HfBuild) -> (r: Vec<usize>)
    ensures
        r@.map_values(|i: usize| i as nat) == selected(*b),
        forall|k: int| 0 <= k < r@.len() ==> #[trigger] r@[k] < b.catalogue@.len(),
{
    let ghost ids = strs(b.selected_ids@);
    let mut r: Vec<usize> = Vec::new();
    let mut j: usize = 0;
    while j < b.selected_ids.len()
        invariant
            j <= b.selected_ids@.len(),
            ids == strs(b.selected_ids@),
            r@.map_values(|i: usize| i as nat) == selection(b.catalogue@, ids.take(j as int)),
        decreases b.selected_ids@.len() - j,
    {
        assert(ids.take(j + 1).drop_last() =~= ids.take(j as int));
        assert(ids.take(j + 1).last() == b.selected_ids@[j as int]@);
        match find_job(&b.catalogue, b.selected_ids[j].as_str()) {
            Some(i) => {
                let ghost prev = r@;
                r.push(i);
                assert(r@.map_values(|i: usize| i as nat) =~= prev.map_values(|i: usize| i as nat).push(
                    i as nat,
                ));
            },
            None => {},
        }
        j = j + 1;
    }
    assert(ids.take(j as int) =~= ids);
    proof {
        lemma_selection_in_catalogue(b.catalogue@, ids);
        assert forall|k: int| 0 <= k < r@.len() implies #[trigger] r@[k] < b.catalogue@.len() by {
            assert(r@.map_values(|i: usize| i as nat)[k] == r@[k] as nat);
        }
    }
    r
}

/// `[flag, value]` appended when there is a value.
fn push_opt(args: &mut Vec<String>, flag: &str, v: &Option<String>)
    ensures
        strs(final(args)@) == strs(old(args)@) + opt_arg(flag@, opt_str(*v)),
{
    match v {
        Some(x) => {
            args.push(flag.to_owned());
            args.push(x.clone());
            assert(strs(args@) =~= strs(old(args)@) + opt_arg(flag@, opt_str(*v)));
        },
        None => {
            assert(strs(args@) =~= strs(old(args)@) + opt_arg(flag@, opt_str(*v)));
        },
    }
}

/// The arguments of the download script for `job`.
fn download_arguments(b: &HfBuild, job: &HfJob) -> (r: Vec<String>)
    ensures
        strs(r@) == download_args(*b, *job),
{
    let target = b.target_dir.as_str();
    let mut args: Vec<String> = Vec::new();
    args.push(join_path(target, "hf_download.py"));
    args.push("--dataset-id".to_owned());
    args.push(job.hf_id.clone());
    args.push("--output-dir".to_owned());
    args.push(join_path(target, "datasets"));
    args.push("--split".to_owned());
    args.push(job.split.clone());
    assert(strs(args@) =~= seq![
        hf_script(b.target_dir@),
        "--dataset-id"@,
        job.hf_id@,
        "--output-dir"@,
        hf_out(b.target_dir@),
        "--split"@,
        job.split@,
    ]);
    push_opt(&mut args, "--max-gb", &b.max_gb);
    push_opt(&mut args, "--subset", &job.subset);
    push_opt(&mut args, "--text-field", &job.text_field);
    let token = if b.hf_token.as_str().unicode_len() > 0 {
        Some(b.hf_token.clone())
    } else {
        None
    };
    push_opt(&mut args, "--hf-token", &token);
    let ghost before = args@;
    args.push("--workers".to_owned());
    args.push(usize_to_decimal(b.parallel_workers as usize));
    assert(strs(args@) =~= strs(before) + seq!["--workers"@, decimal(b.parallel_workers as nat)]);
    args
}

/// The end of the job.
fn hf_finish_step(b: &HfBuild) -> (r: (HfStage, Vec<BuildNote>, BuildAction))
    ensures
        hf_step_view(r) == hf_finish(*b),
{
    let mut notes: Vec<BuildNote> = Vec::new();
    phase(&mut notes, "Complete!".to_owned(), percent(100));
    let out = join_path(b.target_dir.as_str(), "datasets");
    log(&mut notes, cat("✅  Download complete.  JSONL files are in: ", out.as_str()));
    let ghost before = notes@;
    notes.push(BuildNote::Done);
    assert(notes_view(notes@) =~= notes_view(before).push(NoteV::Done));
    assert(notes_view(notes@) =~= hf_finish(*b).1);
    (HfStage::Finished, notes, BuildAction::Stop)
}

/// `notes` reported before the step `t`.
fn hf_prepend(notes: Vec<BuildNote>, t: (HfStage, Vec<BuildNote>, BuildAction)) -> (r: (
    HfStage,
    Vec<BuildNote>,
    BuildAction,
))
    ensures
        hf_step_view(r) == hf_after(notes_view(notes@), hf_step_view(t)),
{
    let (stage, mut rest, action) = t;
    let mut all = notes;
    let ghost start = all@;
    let ghost tail = rest@;
    all.append(&mut rest);
    assert(notes_view(all@) =~= notes_view(start) + notes_view(tail));
    (stage, all, action)
}

/// Starts the selected dataset at position `k` (see `start_dataset`), after
/// the reports already in `notes`.
fn dataset_step(b: &HfBuild, sel: &Vec<usize>, k0: usize, notes0: Vec<BuildNote>) -> (r: (
    HfStage,
    Vec<BuildNote>,
    BuildAction,
))
    requires
        sel@.map_values(|i: usize| i as nat) == selected(*b),
        forall|j: int| 0 <= j < sel@.len() ==> #[trigger] sel@[j] < b.catalogue@.len(),
        k0 <= sel@.len(),
    ensures
        hf_step_view(r) == hf_after(notes_view(notes0@), start_dataset(*b, k0 as nat)),
{
    let n = sel.len();
    let mut k = k0;
    let mut notes = notes0;
    let ghost goal = hf_after(notes_view(notes@), start_dataset(*b, k as nat));
    assert(sel@.map_values(|i: usize| i as nat).len() == n);
    while k < n
        invariant
            k <= n == sel@.len(),
            sel@.map_values(|i: usize| i as nat) == selected(*b),
            forall|j: int| 0 <= j < sel@.len() ==> #[trigger] sel@[j] < b.catalogue@.len(),
            hf_after(notes_view(notes@), start_dataset(*b, k as nat)) == goal,
            goal == hf_after(notes_view(notes0@), start_dataset(*b, k0 as nat)),
        decreases n - k,
    {
        let ghost before = notes_view(notes@);
        assert(sel@.map_values(|i: usize| i as nat)[k as int] == sel@[k as int] as nat);
        let job = &b.catalogue[sel[k]];
        let from = Progress { percent: 10, band: 89, index: k as u64, count: n as u64 };
        let to = Progress { percent: 10, band: 89, index: (k + 1) as u64, count: n as u64 };
        let mut t = "Downloading ".to_owned();
        t.append(usize_to_decimal(k + 1).as_str());
        t.append("/");
        t.append(usize_to_decimal(n).as_str());
        t.append(": ");
        t.append(job.label.as_str());
        t.append("…");
        phase(&mut notes, t, from);
        let mut m = "━━  Dataset ".to_owned();
        m.append(usize_to_decimal(k + 1).as_str());
        m.append("/");
        m.append(usize_to_decimal(n).as_str());
        m.append(": ");
        m.append(job.label.as_str());
        m.append(" (");
        m.append(job.hf_id.as_str());
        m.append(")");
        log(&mut notes, m);
        assert(notes_view(notes@) =~= before + dataset_head(*job, k as nat, n as nat));
        if job.token_required && b.hf_token.as_str().unicode_len() == 0 {
            log(&mut notes, cat3("⚠  '", job.hf_id.as_str(), "' requires a HuggingFace token. Skipping."));
            log(&mut notes, "   Enter your token in the Dataset panel and re-run.".to_owned());
            assert(notes_view(notes@) =~= before + (dataset_head(*job, k as nat, n as nat) + token_skip(*job)));
            proof {
                let t2 = start_dataset(*b, (k + 1) as nat);
                assert((before + (dataset_head(*job, k as nat, n as nat) + token_skip(*job))) + t2.1 =~= before
                    + ((dataset_head(*job, k as nat, n as nat) + token_skip(*job)) + t2.1));
            }
            k = k + 1;
        } else {
            let args = download_arguments(b, job);
            let venv = join_path(b.target_dir.as_str(), "hf-venv");
            let bin = join_path(venv.as_str(), "bin");
            let program = join_path(bin.as_str(), "python");
            let action = BuildAction::Run(CommandSpec { program, args, cwd: None, from, to });
            proof {
                let st = start_dataset(*b, k as nat);
                assert(selected(*b)[k as int] == sel@[k as int] as nat);
                assert(st.0 == HfStage::RunDataset(k));
                assert(st.1 == dataset_head(*job, k as nat, n as nat));
                assert(action_view(action) == st.2);
            }
            return (HfStage::RunDataset(k), notes, action);
        }
    }
    hf_prepend(notes, hf_finish_step(b))
}


/// A failed job.
fn hf_failed_step(msg: String) -> (r: (HfStage, Vec<BuildNote>, BuildAction))
    ensures
        hf_step_view(r) == hf_failed(msg@),
{
    let mut notes: Vec<BuildNote> = Vec::new();
    fail(&mut notes, msg);
    assert(notes_view(notes@) =~= failure_notes(msg@));
    (HfStage::Finished, notes, BuildAction::Stop)
}

/// On to the dependencies.
fn hf_stamp_step(b: &HfBuild) -> (r: (HfStage, Vec<BuildNote>, BuildAction))
    ensures
        hf_step_view(r) == hf_to_stamp(*b),
{
    let notes: Vec<BuildNote> = Vec::new();
    assert(notes_view(notes@) =~= Seq::<NoteV>::empty());
    let venv = join_path(b.target_dir.as_str(), "hf-venv");
    (HfStage::ReadStamp, notes, BuildAction::ReadFile(join_path(venv.as_str(), ".quark-hf-deps")))
}

/// On to the script.
fn hf_script_step(b: &HfBuild) -> (r: (HfStage, Vec<BuildNote>, BuildAction))
    ensures
        hf_step_view(r) == hf_to_script(*b),
{
    let notes: Vec<BuildNote> = Vec::new();
    assert(notes_view(notes@) =~= Seq::<NoteV>::empty());
    (HfStage::WriteScript, notes, BuildAction::WriteDownloader(join_path(b.target_dir.as_str(), "hf_download.py")))
}

/// One step of a download job (see `hf_next`): the program performs the
/// returned action, answers with the event, and calls this again until the
/// action is `Stop`.
pub fn hf_step(b: &HfBuild, stage: HfStage, event: BuildEvent) -> (r: (HfStage, Vec<BuildNote>, BuildAction))
    ensures
        hf_step_view(r) == hf_next(*b, stage, event),
{
    let ok = matches!(event, BuildEvent::Flag(true));
    let target = b.target_dir.as_str();
    let py = b.python_cmd.as_str();
    let venv = join_path(target, "hf-venv");
    let mut notes: Vec<BuildNote> = Vec::new();
    let ghost expected = hf_next(*b, stage, event);
    assert(notes_view(notes@) =~= Seq::<NoteV>::empty());
    match stage {
        HfStage::Start => {
            phase(&mut notes, "Checking prerequisites…".to_owned(), percent(1));
            log(&mut notes, cat3("Looking for ", py, " …"));
            assert(notes_view(notes@) =~= expected.1);
            (HfStage::FindPython, notes, BuildAction::FindProgram(py.to_owned()))
        },
        HfStage::FindPython => {
            if !ok {
                return hf_failed_step(cat3("'", py, "' not found on PATH. Install Python 3 and try again."));
            }
            log(&mut notes, cat3("✔  ", py, " OK"));
            if b.selected_ids.len() == 0 {
                return hf_prepend(notes, hf_failed_step("No datasets selected.".to_owned()));
            }
            (HfStage::CheckVenv, notes, BuildAction::PathExists(venv))
        },
        HfStage::CheckVenv => {
            if ok {
                log(&mut notes, cat3("ℹ  Virtual environment already at ", venv.as_str(), "; reusing."));
                hf_prepend(notes, hf_stamp_step(b))
            } else {
                phase(&mut notes, "Creating Python virtual environment…".to_owned(), percent(3));
                log(&mut notes, cat3("Creating venv at ", venv.as_str(), " …"));
                assert(notes_view(notes@) =~= expected.1);
                (HfStage::MakeTarget, notes, BuildAction::CreateDir(target.to_owned()))
            }
        },
        HfStage::MakeTarget => {
            match event {
                BuildEvent::Wrote(Err(e)) => hf_failed_step(cat("Cannot create target directory: ", e.as_str())),
                _ => {
                    let mut args: Vec<String> = Vec::new();
                    args.push("-m".to_owned());
                    args.push("venv".to_owned());
                    args.push(venv);
                    assert(strs(args@) =~= seq!["-m"@, "venv"@, hf_venv(b.target_dir@)]);
                    (
                        HfStage::MakeVenv,
                        notes,
                        BuildAction::Run(
                            CommandSpec {
                                program: py.to_owned(),
                                args,
                                cwd: None,
                                from: percent(3),
                                to: percent(6),
                            },
                        ),
                    )
                },
            }
        },
        HfStage::MakeVenv => {
            if !ok {
                return hf_failed_step("python -m venv failed — see log above.".to_owned());
            }
            log(&mut notes, "✔  Virtual environment created.".to_owned());
            hf_prepend(notes, hf_stamp_step(b))
        },
        HfStage::ReadStamp => {
            let current = match &event {
                BuildEvent::Text(Some(t)) => {
                    let tt = trim_ws(t.as_str());
                    str_eq(tt.as_str(), "hf-v1")
                },
                _ => false,
            };
            if current {
                log(&mut notes, "ℹ  Dependencies already installed; skipping.".to_owned());
                hf_prepend(notes, hf_script_step(b))
            } else {
                phase(&mut notes, "Installing Python dependencies…".to_owned(), percent(6));
                log(&mut notes, "pip install datasets huggingface_hub tqdm …".to_owned());
                assert(notes_view(notes@) =~= expected.1);
                let mut args: Vec<String> = Vec::new();
                args.push("-m".to_owned());
                args.push("pip".to_owned());
                args.push("install".to_owned());
                args.push("--upgrade".to_owned());
                args.push("datasets".to_owned());
                args.push("huggingface_hub".to_owned());
                args.push("tqdm".to_owned());
                assert(strs(args@) =~= seq![
                    "-m"@,
                    "pip"@,
                    "install"@,
                    "--upgrade"@,
                    "datasets"@,
                    "huggingface_hub"@,
                    "tqdm"@,
                ]);
                let bin = join_path(venv.as_str(), "bin");
                let program = join_path(bin.as_str(), "python");
                (
                    HfStage::InstallDeps,
                    notes,
                    BuildAction::Run(CommandSpec { program, args, cwd: None, from: percent(6), to: percent(10) }),
                )
            }
        },
        HfStage::InstallDeps => {
            if !ok {
                return hf_failed_step("pip install failed — see log above.".to_owned());
            }
            log(&mut notes, "✔  Python dependencies installed.".to_owned());
            let stamp = join_path(venv.as_str(), ".quark-hf-deps");
            (HfStage::WriteStamp, notes, BuildAction::WriteFile { path: stamp, content: "hf-v1".to_owned() })
        },
        HfStage::WriteStamp => hf_script_step(b),
        HfStage::WriteScript => {
            match event {
                BuildEvent::Wrote(Err(e)) => hf_failed_step(cat("Could not write hf_download.py: ", e.as_str())),
                _ => {
                    let script = join_path(target, "hf_download.py");
                    log(&mut notes, cat3("ℹ  Script written to ", script.as_str(), "."));
                    (HfStage::MakeOut, notes, BuildAction::CreateDir(join_path(target, "datasets")))
                },
            }
        },
        HfStage::MakeOut => {
            match event {
                BuildEvent::Wrote(Err(e)) => hf_failed_step(cat("Cannot create datasets directory: ", e.as_str())),
                _ => {
                    let sel = selected_indices(b);
                    dataset_step(b, &sel, 0, notes)
                },
            }
        },
        HfStage::RunDataset(k) => {
            let sel = selected_indices(b);
            let n = sel.len();
            assert(sel@.map_values(|i: usize| i as nat).len() == n);
            if k >= n {
                return (HfStage::Finished, notes, BuildAction::Stop);
            }
            assert(sel@.map_values(|i: usize| i as nat)[k as int] == sel@[k as int] as nat);
            let job = &b.catalogue[sel[k]];
            if ok {
                let mut m = "✔  '".to_owned();
                m.append(job.label.as_str());
                m.append("' done (");
                m.append(usize_to_decimal(k + 1).as_str());
                m.append("/");
                m.append(usize_to_decimal(n).as_str());
                m.append(").");
                log(&mut notes, m);
            } else {
                log(
                    &mut notes,
                    cat3("⚠  '", job.hf_id.as_str(), "' failed — skipping and continuing with next dataset."),
                );
            }
            dataset_step(b, &sel, k + 1, notes)
        },
        HfStage::Finished => (HfStage::Finished, notes, BuildAction::Stop),
    }
}


/// Starting a dataset either runs the download, reporting nothing that ends
/// the job, or (past the last) finishes it.
proof fn lemma_start_dataset_ends(b: HfBuild, k: nat)
    ensures
        ends_properly(start_dataset(b, k).1, start_dataset(b, k).2),
        start_dataset(b, k).2 is Stop <==> start_dataset(b, k).0 is Finished,
    decreases selected(b).len() - k,
{
    let sel = selected(b);
    let n = sel.len();
    let t = start_dataset(b, k);
    if k < n {
        let job = b.catalogue@[sel[k as int] as int];
        let head = dataset_head(job, k, n);
        if job.token_required && b.hf_token@.len() == 0 {
            lemma_start_dataset_ends(b, k + 1);
            let skip = head + token_skip(job);
            assert forall|i: int| 0 <= i < skip.len() implies !is_final_note(#[trigger] skip[i]) by {}
            lemma_ends_after(skip, start_dataset(b, k + 1).1, start_dataset(b, k + 1).2);
        } else {
            assert forall|i: int| 0 <= i < t.1.len() implies !is_final_note(#[trigger] t.1[i]) by {}
        }
    } else {
        assert forall|i: int| 0 <= i < t.1.len() - 1 implies !is_final_note(#[trigger] t.1[i]) by {}
    }
}

/// A download job stops exactly when it finishes, and then its last report
/// says how it ended (`Done` or `Error`); no earlier report of a step ends
/// it.
pub proof fn law_hf_job_ends_with_its_last_report(b: HfBuild, stage: HfStage, ev: BuildEvent)
    requires
        !(stage is Finished),
        stage matches HfStage::RunDataset(k) ==> k < selected(b).len(),
    ensures
        ends_properly(hf_next(b, stage, ev).1, hf_next(b, stage, ev).2),
        hf_next(b, stage, ev).2 is Stop <==> hf_next(b, stage, ev).0 is Finished,
{
    let t = hf_next(b, stage, ev);
    match stage {
        HfStage::MakeOut => {
            lemma_start_dataset_ends(b, 0);
        },
        HfStage::RunDataset(k) => {
            lemma_start_dataset_ends(b, (k + 1) as nat);
            let sel = selected(b);
            let job = b.catalogue@[sel[k as int] as int];
            let note = if yes(ev) {
                NoteV::Log(
                    "✔  '"@ + job.label@ + "' done ("@ + decimal((k + 1) as nat) + "/"@ + decimal(sel.len()) + ")."@,
                )
            } else {
                NoteV::Log("⚠  '"@ + job.hf_id@ + "' failed — skipping and continuing with next dataset."@)
            };
            lemma_ends_after(seq![note], start_dataset(b, (k + 1) as nat).1, start_dataset(b, (k + 1) as nat).2);
        },
        HfStage::FindPython => {
            if yes(ev) && b.selected_ids@.len() == 0 {
                let fnotes = failure_notes("No datasets selected."@);
                assert forall|i: int| 0 <= i < fnotes.len() - 1 implies !is_final_note(#[trigger] fnotes[i]) by {}
                lemma_ends_after(seq![NoteV::Log("✔  "@ + b.python_cmd@ + " OK"@)], fnotes, ActionV::Stop);
            }
        },
        _ => {},
    }
    assert forall|i: int| 0 <= i < t.1.len() - 1 implies !is_final_note(#[trigger] t.1[i]) by {}
}

} // verus!
