//! The vocabulary of the dataset builds, which run outside programs (git,
//! Python, pip) one after another: what a build asks the program to do, what
//! it reports, and what the program answers.

use vstd::prelude::*;

verus! {

/// A point of a build's progress: `(percent + band * index / count) / 100`
/// of the whole, i.e. `percent` per cent plus the share `index / count` of a
/// band of `band` per cent.
#[derive(Debug, Clone, Copy, PartialEq, Eq, Structural)]
pub struct Progress {
    pub percent: u64,
    pub band: u64,
    pub index: u64,
    pub count: u64,
}

/// A fixed progress point of `percent` per cent.
pub open spec fn at_percent(percent: u64) -> Progress {
    Progress { percent, band: 0, index: 0, count: 1 }
}

/// `percent` per cent as a progress point.
pub fn percent(p: u64) -> (r: Progress)
    ensures
        r == at_percent(p),
{
    Progress { percent: p, band: 0, index: 0, count: 1 }
}

/// A command the program runs, streaming its output to the log while the
/// progress moves from `from` towards `to`.
#[derive(Debug, Clone)]
pub struct CommandSpec {
    pub program: String,
    pub args: Vec<String>,
    /// The directory to run in (`None`: the program's own).
    pub cwd: Option<String>,
    pub from: Progress,
    pub to: Progress,
}

/// What a build reports to whoever watches it.
#[derive(Debug, Clone)]
pub enum BuildNote {
    /// A log line.
    Log(String),
    /// The phase the build is in, for a status bar.
    Phase(String),
    Progress(Progress),
    /// The build failed.
    Error(String),
    /// The build finished.
    Done,
}

/// What a build asks the program to do next, and the answer it expects.
#[derive(Debug, Clone)]
pub enum BuildAction {
    /// Look for this program on the PATH; answer `Flag(found)`.
    FindProgram(String),
    /// Check whether this path exists; answer `Flag(exists)`.
    PathExists(String),
    /// Create this directory and its parents; answer `Wrote(..)`.
    CreateDir(String),
    /// Run the command; answer `Flag(succeeded)`.
    Run(CommandSpec),
    /// Read this file; answer `Text(Some(content))`, or `Text(None)` when it
    /// is missing or unreadable.
    ReadFile(String),
    /// Write the file; answer `Wrote(..)`.
    WriteFile { path: String, content: String },
    /// Locate the `site-packages` directory of this virtual environment;
    /// answer `Found(path)`.
    SitePackages(String),
    /// Write the program's bundled download script to this path; answer
    /// `Wrote(..)`.
    WriteDownloader(String),
    /// Nothing more: the build is over.
    Stop,
}

/// The program's answer to the last action (`Begin` starts a build).
#[derive(Debug)]
pub enum BuildEvent {
    Begin,
    Flag(bool),
    Text(Option<String>),
    Found(String),
    Wrote(Result<(), String>),
}

/// A report as plain values.
pub enum NoteV {
    Log(Seq<char>),
    Phase(Seq<char>),
    Progress(Progress),
    Error(Seq<char>),
    Done,
}

pub open spec fn note_view(n: BuildNote) -> NoteV {
    match n {
        BuildNote::Log(t) => NoteV::Log(t@),
        BuildNote::Phase(t) => NoteV::Phase(t@),
        BuildNote::Progress(p) => NoteV::Progress(p),
        BuildNote::Error(t) => NoteV::Error(t@),
        BuildNote::Done => NoteV::Done,
    }
}

/// A list of reports as plain values.
pub open spec fn notes_view(v: Seq<BuildNote>) -> Seq<NoteV> {
    v.map_values(|n: BuildNote| note_view(n))
}

/// An action as plain values.
pub enum ActionV {
    FindProgram(Seq<char>),
    PathExists(Seq<char>),
    CreateDir(Seq<char>),
    Run {
        program: Seq<char>,
        args: Seq<Seq<char>>,
        cwd: Option<Seq<char>>,
        from: Progress,
        to: Progress,
    },
    ReadFile(Seq<char>),
    WriteFile(Seq<char>, Seq<char>),
    SitePackages(Seq<char>),
    WriteDownloader(Seq<char>),
    Stop,
}

/// A list of strings as character sequences.
pub open spec fn strs(v: Seq<String>) -> Seq<Seq<char>> {
    v.map_values(|s: String| s@)
}

pub open spec fn action_view(a: BuildAction) -> ActionV {
    match a {
        BuildAction::FindProgram(p) => ActionV::FindProgram(p@),
        BuildAction::PathExists(p) => ActionV::PathExists(p@),
        BuildAction::CreateDir(p) => ActionV::CreateDir(p@),
        BuildAction::Run(c) => ActionV::Run {
            program: c.program@,
            args: strs(c.args@),
            cwd: match c.cwd {
                Some(d) => Some(d@),
                None => None,
            },
            from: c.from,
            to: c.to,
        },
        BuildAction::ReadFile(p) => ActionV::ReadFile(p@),
        BuildAction::WriteFile { path, content } => ActionV::WriteFile(path@, content@),
        BuildAction::SitePackages(p) => ActionV::SitePackages(p@),
        BuildAction::WriteDownloader(p) => ActionV::WriteDownloader(p@),
        BuildAction::Stop => ActionV::Stop,
    }
}

/// Whether the answer is a yes.
pub open spec fn yes(e: BuildEvent) -> bool {
    e matches BuildEvent::Flag(true)
}

/// The reports that enter a phase: its name, then its progress.
pub open spec fn phase_notes(text: Seq<char>, at: Progress) -> Seq<NoteV> {
    seq![NoteV::Phase(text), NoteV::Progress(at)]
}

/// The reports of a failure: the message logged with a mark, then the error.
pub open spec fn failure_notes(msg: Seq<char>) -> Seq<NoteV> {
    seq![NoteV::Log("❌  "@ + msg), NoteV::Error(msg)]
}

/// Appends a log line.
pub fn log(v: &mut Vec<BuildNote>, text: String)
    ensures
        notes_view(final(v)@) == notes_view(old(v)@).push(NoteV::Log(text@)),
{
    let ghost t = text@;
    v.push(BuildNote::Log(text));
    assert(notes_view(v@) =~= notes_view(old(v)@).push(NoteV::Log(t)));
}

/// Appends the reports that enter a phase.
pub fn phase(v: &mut Vec<BuildNote>, text: String, at: Progress)
    ensures
        notes_view(final(v)@) == notes_view(old(v)@) + phase_notes(text@, at),
{
    let ghost t = text@;
    v.push(BuildNote::Phase(text));
    v.push(BuildNote::Progress(at));
    assert(notes_view(v@) =~= notes_view(old(v)@) + phase_notes(t, at));
}

/// Appends the reports of a failure.
pub fn fail(v: &mut Vec<BuildNote>, msg: String)
    ensures
        notes_view(final(v)@) == notes_view(old(v)@) + failure_notes(msg@),
{
    let mut logged = "❌  ".to_owned();
    logged.append(msg.as_str());
    let ghost m = msg@;
    v.push(BuildNote::Log(logged));
    v.push(BuildNote::Error(msg));
    assert(notes_view(v@) =~= notes_view(old(v)@) + failure_notes(m));
}

/// `a` followed by `b`.
pub fn cat(a: &str, b: &str) -> (r: String)
    ensures
        r@ == a@ + b@,
{
    let mut r = a.to_owned();
    r.append(b);
    r
}

/// `a`, `b` and `c` in a row.
pub fn cat3(a: &str, b: &str, c: &str) -> (r: String)
    ensures
        r@ == a@ + b@ + c@,
{
    let mut r = a.to_owned();
    r.append(b);
    r.append(c);
    r
}


/// Whether a report ends a build.
pub open spec fn is_final_note(n: NoteV) -> bool {
    n is Done || n is Error
}

/// None of the reports ends a build.
pub open spec fn no_final(notes: Seq<NoteV>) -> bool {
    forall|i: int| 0 <= i < notes.len() ==> !is_final_note(#[trigger] notes[i])
}

/// The reports of a step end the build only with their last one, and the
/// step stops exactly when that last one ends the build.
pub open spec fn ends_properly(notes: Seq<NoteV>, action: ActionV) -> bool {
    &&& forall|i: int| 0 <= i < notes.len() - 1 ==> !is_final_note(#[trigger] notes[i])
    &&& (action is Stop <==> notes.len() > 0 && is_final_note(notes.last()))
}

/// Reports that end nothing, put before a step that ends properly, keep it
/// so.
pub proof fn lemma_ends_after(notes: Seq<NoteV>, rest: Seq<NoteV>, action: ActionV)
    requires
        no_final(notes),
        ends_properly(rest, action),
    ensures
        ends_properly(notes + rest, action),
{
    let all = notes + rest;
    assert forall|i: int| 0 <= i < all.len() - 1 implies !is_final_note(#[trigger] all[i]) by {
        if i < notes.len() {
            assert(all[i] == notes[i]);
        } else {
            assert(all[i] == rest[i - notes.len()]);
        }
    }
    if rest.len() > 0 {
        assert(all.last() == rest.last());
    } else {
        assert(all =~= notes);
        if notes.len() > 0 {
            assert(!is_final_note(notes[notes.len() - 1]));
        }
    }
}

} // verus!
