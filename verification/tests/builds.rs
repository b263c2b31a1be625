use quark::data::hf::{classify_output_line, hf_step, selected_indices, HfBuild, HfJob, HfStage, OutputLine};
use quark::data::job::{BuildAction, BuildEvent, BuildNote, Progress};
use quark::data::pile::{pile_step, PileConfig, PileStage};
use quark::tokenizer::{sample_line, SampleTally};

fn pile_cfg() -> PileConfig {
    PileConfig::default_with("/t".to_owned(), "python3".to_owned())
}

fn logs(notes: &[BuildNote]) -> Vec<String> {
    notes
        .iter()
        .filter_map(|n| match n {
            BuildNote::Log(t) => Some(t.clone()),
            _ => None,
        })
        .collect()
}

#[test]
fn output_lines_are_read_by_prefix() {
    assert!(matches!(classify_output_line("PROGRESS: 0.5 "), OutputLine::Progress(t) if t == "0.5"));
    assert!(matches!(classify_output_line("SPEED:1024"), OutputLine::Speed(t) if t == "1024"));
    assert!(matches!(
        classify_output_line("BYTES: 10/20"),
        OutputLine::Bytes { downloaded: 10, total: 20 }
    ));
    assert!(matches!(classify_output_line("BYTES:x/2"), OutputLine::Nothing));
    assert!(matches!(classify_output_line("BYTES:12"), OutputLine::Nothing));
    assert!(matches!(classify_output_line("FILE: part-0.jsonl"), OutputLine::File(t) if t == "part-0.jsonl"));
    assert!(matches!(classify_output_line("LOG:  hello"), OutputLine::Log(t) if t == "  hello"));
    assert!(matches!(classify_output_line("  DONE "), OutputLine::Nothing));
    assert!(matches!(classify_output_line("   "), OutputLine::Nothing));
    assert!(matches!(classify_output_line("plain text"), OutputLine::Log(t) if t == "plain text"));
}

#[test]
fn pile_build_starts_by_looking_for_git() {
    let cfg = pile_cfg();
    let (stage, notes, action) = pile_step(&cfg, PileStage::Start, BuildEvent::Begin);
    assert!(matches!(stage, PileStage::FindGit));
    assert!(matches!(&notes[0], BuildNote::Phase(t) if t == "Checking prerequisites…"));
    assert!(matches!(&notes[1], BuildNote::Progress(Progress { percent: 2, band: 0, index: 0, count: 1 })));
    assert_eq!(logs(&notes), vec!["Looking for git…".to_owned()]);
    assert!(matches!(action, BuildAction::FindProgram(p) if p == "git"));
}

#[test]
fn pile_build_fails_without_git() {
    let cfg = pile_cfg();
    let (stage, notes, action) = pile_step(&cfg, PileStage::FindGit, BuildEvent::Flag(false));
    assert!(matches!(stage, PileStage::Finished));
    assert!(matches!(action, BuildAction::Stop));
    let msg = "'git' not found on PATH. Install git and try again.";
    assert!(matches!(&notes[0], BuildNote::Log(t) if *t == format!("❌  {msg}")));
    assert!(matches!(notes.last(), Some(BuildNote::Error(t)) if t == msg));
}

#[test]
fn pile_build_reuses_an_existing_clone() {
    let cfg = pile_cfg();
    let (stage, notes, action) = pile_step(&cfg, PileStage::CheckRepo, BuildEvent::Flag(true));
    assert!(matches!(stage, PileStage::CheckVenv));
    assert_eq!(logs(&notes), vec!["ℹ  Repo already at /t/the-pile; skipping clone.".to_owned()]);
    assert!(matches!(action, BuildAction::PathExists(p) if p == "/t/pile-venv"));

    let mut fresh = pile_cfg();
    fresh.skip_clone_if_exists = false;
    let (stage, _, action) = pile_step(&fresh, PileStage::CheckRepo, BuildEvent::Flag(true));
    assert!(matches!(stage, PileStage::MakeTarget));
    assert!(matches!(action, BuildAction::CreateDir(p) if p == "/t"));
    let (stage, _, action) = pile_step(&fresh, PileStage::MakeTarget, BuildEvent::Wrote(Ok(())));
    assert!(matches!(stage, PileStage::CloneRepo));
    match action {
        BuildAction::Run(c) => {
            assert_eq!(c.program, "git");
            assert_eq!(c.args, vec!["clone", "https://github.com/EleutherAI/the-pile.git", "/t/the-pile"]);
            assert_eq!(c.cwd, None);
        }
        other => panic!("unexpected {other:?}"),
    }
}

#[test]
fn pile_build_skips_installed_dependencies() {
    let cfg = pile_cfg();
    let (stage, notes, action) = pile_step(&cfg, PileStage::ReadStamp, BuildEvent::Text(Some("v3\n".to_owned())));
    assert!(matches!(stage, PileStage::RunComponent(0)));
    assert_eq!(
        logs(&notes)[0],
        "ℹ  Dependencies already installed (/t/pile-venv/.quark-deps-installed); skipping."
    );
    assert!(logs(&notes).contains(&"⚠  The full Pile is ~825 GiB compressed. Make sure you have enough disk space.".to_owned()));
    match action {
        BuildAction::Run(c) => {
            assert_eq!(c.program, "/t/pile-venv/bin/python");
            assert_eq!(c.args, vec!["the_pile/pile.py", "--interleave_output", "30", "--using", "pile_reprod"]);
            assert_eq!(c.cwd.as_deref(), Some("/t/the-pile"));
            assert_eq!(c.from, Progress { percent: 20, band: 70, index: 0, count: 1 });
            assert_eq!(c.to, Progress { percent: 20, band: 70, index: 1, count: 1 });
        }
        other => panic!("unexpected {other:?}"),
    }
    let (stage, _, _) = pile_step(&cfg, PileStage::ReadStamp, BuildEvent::Text(Some("v2".to_owned())));
    assert!(matches!(stage, PileStage::InstallBase));
}

#[test]
fn pile_build_falls_back_to_a_fasttext_stub() {
    let cfg = pile_cfg();
    let (stage, _, action) = pile_step(&cfg, PileStage::InstallFasttext, BuildEvent::Flag(false));
    assert!(matches!(stage, PileStage::LocateSitePackages));
    assert!(matches!(action, BuildAction::SitePackages(p) if p == "/t/pile-venv"));
    let (stage, _, action) =
        pile_step(&cfg, PileStage::LocateSitePackages, BuildEvent::Found("/t/pile-venv/lib/python3.12/site-packages".to_owned()));
    let stub = "/t/pile-venv/lib/python3.12/site-packages/fasttext.py";
    assert!(matches!(&stage, PileStage::WriteStub(p) if p == stub));
    assert!(matches!(&action, BuildAction::WriteFile { path, content } if path == stub && content.contains("def load_model(path):")));
    let (stage, notes, _) = pile_step(&cfg, stage, BuildEvent::Wrote(Ok(())));
    assert!(matches!(stage, PileStage::InstallSupplemental));
    assert_eq!(logs(&notes)[0], format!("✔  fasttext stub written to {stub}."));
}

#[test]
fn pile_build_runs_each_component_then_finishes() {
    let mut cfg = pile_cfg();
    cfg.components = vec!["arxiv".to_owned(), "github".to_owned()];
    let (stage, notes, action) = pile_step(&cfg, PileStage::WriteStamp, BuildEvent::Wrote(Ok(())));
    assert!(matches!(stage, PileStage::RunComponent(0)));
    assert!(matches!(&notes[0], BuildNote::Phase(t) if t == "Downloading component 1/2: arxiv…"));
    assert!(matches!(&action, BuildAction::Run(c) if c.from == Progress { percent: 20, band: 70, index: 0, count: 2 }));
    let (stage, notes, _) = pile_step(&cfg, stage, BuildEvent::Flag(true));
    assert!(matches!(stage, PileStage::RunComponent(1)));
    assert_eq!(logs(&notes)[0], "✔  Component 'arxiv' complete (1/2).");
    let (stage, _, action) = pile_step(&cfg, stage, BuildEvent::Flag(true));
    assert!(matches!(stage, PileStage::CheckPass2));
    assert!(matches!(action, BuildAction::PathExists(p) if p == "/t/the-pile/processing_scripts/pass2.py"));
    let (stage, notes, action) = pile_step(&cfg, stage, BuildEvent::Flag(false));
    assert!(matches!(stage, PileStage::Finished));
    assert!(matches!(action, BuildAction::Stop));
    assert!(matches!(notes.last(), Some(BuildNote::Done)));
    assert!(logs(&notes).contains(&"✅  The Pile build finished.  Data is in: /t/the-pile".to_owned()));
}

#[test]
fn pile_build_stops_when_a_component_fails() {
    let cfg = pile_cfg();
    let (stage, notes, action) = pile_step(&cfg, PileStage::RunComponent(0), BuildEvent::Flag(false));
    assert!(matches!(stage, PileStage::Finished));
    assert!(matches!(action, BuildAction::Stop));
    assert!(matches!(notes.last(), Some(BuildNote::Error(t)) if t == "pile.py failed for component 'pile_reprod' — see log above."));
}

fn job(id: &str, token: bool) -> HfJob {
    HfJob {
        id: id.to_owned(),
        hf_id: format!("org/{id}"),
        label: id.to_uppercase(),
        token_required: token,
        subset: None,
        split: "train".to_owned(),
        text_field: None,
    }
}

fn hf_build(ids: &[&str]) -> HfBuild {
    let mut wiki = job("wiki", false);
    wiki.subset = Some("20231101.en".to_owned());
    wiki.text_field = Some("text".to_owned());
    HfBuild {
        target_dir: "/d".to_owned(),
        python_cmd: "python3".to_owned(),
        selected_ids: ids.iter().map(|s| s.to_string()).collect(),
        catalogue: vec![job("code", false), wiki, job("gated", true)],
        max_gb: Some("10.00".to_owned()),
        parallel_workers: 10,
        hf_token: String::new(),
    }
}

#[test]
fn hf_selection_follows_the_selected_ids() {
    let b = hf_build(&["wiki", "missing", "code", "wiki"]);
    assert_eq!(selected_indices(&b), vec![1, 0, 1]);
}

#[test]
fn hf_job_needs_a_selection() {
    let b = hf_build(&[]);
    let (stage, notes, action) = hf_step(&b, HfStage::FindPython, BuildEvent::Flag(true));
    assert_eq!(stage, HfStage::Finished);
    assert!(matches!(action, BuildAction::Stop));
    assert_eq!(logs(&notes)[0], "✔  python3 OK");
    assert!(matches!(notes.last(), Some(BuildNote::Error(t)) if t == "No datasets selected."));
}

#[test]
fn hf_job_runs_the_script_with_the_dataset_arguments() {
    let b = hf_build(&["wiki"]);
    let (stage, notes, action) = hf_step(&b, HfStage::MakeOut, BuildEvent::Wrote(Ok(())));
    assert_eq!(stage, HfStage::RunDataset(0));
    assert!(matches!(&notes[0], BuildNote::Phase(t) if t == "Downloading 1/1: WIKI…"));
    assert_eq!(logs(&notes), vec!["━━  Dataset 1/1: WIKI (org/wiki)".to_owned()]);
    match action {
        BuildAction::Run(c) => {
            assert_eq!(c.program, "/d/hf-venv/bin/python");
            assert_eq!(
                c.args,
                vec![
                    "/d/hf_download.py", "--dataset-id", "org/wiki", "--output-dir", "/d/datasets", "--split",
                    "train", "--max-gb", "10.00", "--subset", "20231101.en", "--text-field", "text", "--workers",
                    "10",
                ]
            );
            assert_eq!(c.from, Progress { percent: 10, band: 89, index: 0, count: 1 });
        }
        other => panic!("unexpected {other:?}"),
    }
}

#[test]
fn hf_job_skips_gated_datasets_without_a_token() {
    let b = hf_build(&["gated", "code"]);
    let (stage, notes, action) = hf_step(&b, HfStage::MakeOut, BuildEvent::Wrote(Ok(())));
    assert_eq!(stage, HfStage::RunDataset(1));
    let l = logs(&notes);
    assert_eq!(l[1], "⚠  'org/gated' requires a HuggingFace token. Skipping.");
    assert_eq!(l[2], "   Enter your token in the Dataset panel and re-run.");
    assert!(matches!(action, BuildAction::Run(c) if c.args[2] == "org/code"));

    let mut with_token = hf_build(&["gated"]);
    with_token.hf_token = "hf_abc".to_owned();
    let (_, _, action) = hf_step(&with_token, HfStage::MakeOut, BuildEvent::Wrote(Ok(())));
    assert!(matches!(action, BuildAction::Run(c) if c.args.contains(&"--hf-token".to_owned())));
}

#[test]
fn hf_job_goes_on_after_a_failed_dataset_and_finishes() {
    let b = hf_build(&["code"]);
    let (stage, notes, action) = hf_step(&b, HfStage::RunDataset(0), BuildEvent::Flag(false));
    assert_eq!(stage, HfStage::Finished);
    assert_eq!(logs(&notes)[0], "⚠  'org/code' failed — skipping and continuing with next dataset.");
    assert!(matches!(notes.last(), Some(BuildNote::Done)));
    assert!(matches!(action, BuildAction::Stop));
}

#[test]
fn tokenizer_sample_takes_trimmed_texts_up_to_the_cap() {
    let mut tally = SampleTally::new();
    assert_eq!(sample_line(&mut tally, "  hello  ", false, 0), Some("hello".to_owned()));
    assert_eq!((tally.written_bytes, tally.docs, tally.hit_cap), (6, 1, false));
    assert_eq!(sample_line(&mut tally, "   ", false, 0), None);
    assert_eq!(tally.docs, 1);
    assert_eq!(sample_line(&mut tally, r#"{"text": " héllo "}"#, true, 0), Some("héllo".to_owned()));
    assert_eq!(tally.written_bytes, 13);
    assert_eq!(sample_line(&mut tally, " not json ", true, 0), Some("not json".to_owned()));
    let mut capped = SampleTally::new();
    assert_eq!(sample_line(&mut capped, "abcd", false, 5), Some("abcd".to_owned()));
    assert!(capped.hit_cap);
}
