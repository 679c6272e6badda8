//! The build pipeline: source acquisition, Markdown conversion, injection
//! into the root template, a fresh scratch directory, the external compile,
//! failure-log preservation, PDF relocation and cleanup — strictly in that
//! order, any failure aborting the remainder.  The pipeline itself performs
//! no I/O: it is a state machine that, fed the outcome of the previous
//! external step, decides the next command; the driver executes commands and
//! reports events back.  On a failed compile the scratch directory is
//! deliberately left in place with the engine's output preserved in its log.

use vstd::prelude::*;

use crate::branch::{Branch, BranchV};
use crate::conf::{Config, Format};
use crate::error::KiwiError;
use crate::inject::{doc_renders, rendered_doc};
use crate::text::{parent_dir, parent_dir_spec};

verus! {

/// One external action the driver must perform, reporting the outcome as a
/// `BuildEvent`.
#[derive(Debug, PartialEq, Eq)]
pub enum BuildCmd {
    /// Read the file at `path` and report `FileRead`.
    ReadFile { path: String },
    /// Run the external Markdown-to-LaTeX converter on `source`, configured
    /// for the given engine, and report its standard output as `Converted`.
    RunConverter { source: String, engine: String },
    /// Remove the scratch directory if it exists, recreate it fresh, and
    /// report `ScratchReady`.
    ClearScratch { dir: String },
    /// Write `content` to `path` and report `Written`.
    WriteFile { path: String, content: String },
    /// Run the compile engine on `file` with the working directory set to
    /// `dir` — restoring the previous working directory on every exit path —
    /// and report `EngineDone` with its exit status and standard output.
    RunEngine { dir: String, file: String, engine: String, extra: Option<String> },
    /// Create `parent` (and intermediate directories) if needed, move `from`
    /// to `to` overwriting any prior file, and report `Moved`.
    EnsureDirAndMove { parent: String, from: String, to: String },
    /// Remove `dir` recursively and report `Removed`.
    RemoveDir { dir: String },
}

/// The outcome of one external action.
#[derive(Debug, PartialEq, Eq)]
pub enum BuildEvent {
    FileRead(String),
    Converted(String),
    ScratchReady,
    Written,
    EngineDone { success: bool, output: String },
    Moved,
    Removed,
    /// Any read, write, spawn or move failure, with its description.
    IoFailed(String),
}

/// Where the pipeline stands, with the intermediate text it still needs.
#[derive(Debug, PartialEq, Eq)]
pub enum BuildStage {
    /// Waiting for the branch's source text.
    ReadingSource,
    /// Waiting for the converter's LaTeX output.
    Converting,
    /// Waiting for the root template's text; holds the LaTeX fragment.
    ReadingRoot { fragment: String },
    /// Waiting for a fresh scratch directory; holds the assembled document.
    PreparingScratch { doc: String },
    /// Waiting for the document to be written into the scratch directory.
    WritingDoc,
    /// Waiting for the compile engine to finish.
    Compiling,
    /// The compile failed; waiting for its output to reach the failure log.
    PersistingLog,
    /// Waiting for the PDF to reach its canonical location.
    Relocating,
    /// Waiting for the scratch directory to be removed.
    CleaningUp,
}

/// What one step of the pipeline decides.
#[derive(Debug, PartialEq, Eq)]
pub enum BuildOutcome {
    /// The pipeline continues: its new state, and the command to perform.
    Next(Builder, BuildCmd),
    /// The build failed; no further command will be issued.
    Failed(KiwiError),
    /// The PDF stands at its canonical path and the scratch is gone.
    Done,
}

/// The pipeline state for one build of one branch.
#[derive(Debug, PartialEq, Eq)]
pub struct Builder {
    /// Whether the multi-pass engine wrapper was requested.
    pub latexmk: bool,
    pub stage: BuildStage,
}

/// The engine the build invokes: the multi-pass wrapper when requested, the
/// single-pass engine otherwise.
pub open spec fn engine_name_spec(latexmk: bool) -> Seq<char> {
    if latexmk {
        "latexmk"@
    } else {
        "pdflatex"@
    }
}

/// The engine the build invokes.
pub fn engine_name(latexmk: bool) -> (e: &'static str)
    ensures
        e@ == engine_name_spec(latexmk),
{
    if latexmk {
        "latexmk"
    } else {
        "pdflatex"
    }
}

/// Exactly what `Builder::step` decides for each state and event: which
/// command follows which outcome, with every path and payload pinned.
pub open spec fn step_spec(
    pre: Builder,
    b: BranchV,
    author: Seq<char>,
    ev: BuildEvent,
    r: BuildOutcome,
) -> bool {
    match (pre.stage, ev) {
        (_, BuildEvent::IoFailed(m)) => {
            &&& r matches BuildOutcome::Failed(e)
            &&& e matches KiwiError::Io(mm)
            &&& mm@ == m@
        },
        (BuildStage::ReadingSource, BuildEvent::FileRead(c)) => {
            if b.format is Markdown {
                &&& r matches BuildOutcome::Next(n, cmd)
                &&& n.latexmk == pre.latexmk
                &&& n.stage is Converting
                &&& cmd matches BuildCmd::RunConverter { source, engine }
                &&& source@ == b.path
                &&& engine@ == engine_name_spec(pre.latexmk)
            } else {
                &&& r matches BuildOutcome::Next(n, cmd)
                &&& n.latexmk == pre.latexmk
                &&& n.stage matches BuildStage::ReadingRoot { fragment }
                &&& fragment@ == c@
                &&& cmd matches BuildCmd::ReadFile { path }
                &&& path@ == b.root_template.path
            }
        },
        (BuildStage::Converting, BuildEvent::Converted(l)) => {
            &&& r matches BuildOutcome::Next(n, cmd)
            &&& n.latexmk == pre.latexmk
            &&& n.stage matches BuildStage::ReadingRoot { fragment }
            &&& fragment@ == l@
            &&& cmd matches BuildCmd::ReadFile { path }
            &&& path@ == b.root_template.path
        },
        (BuildStage::ReadingRoot { fragment }, BuildEvent::FileRead(t)) => {
            if doc_renders(t@, b, author, fragment@) {
                &&& r matches BuildOutcome::Next(n, cmd)
                &&& n.latexmk == pre.latexmk
                &&& n.stage matches BuildStage::PreparingScratch { doc }
                &&& doc@ == rendered_doc(t@, b, author, fragment@)
                &&& cmd matches BuildCmd::ClearScratch { dir }
                &&& dir@ == ".build"@
            } else {
                &&& r matches BuildOutcome::Failed(e)
                &&& e is TemplateRender
            }
        },
        (BuildStage::PreparingScratch { doc }, BuildEvent::ScratchReady) => {
            &&& r matches BuildOutcome::Next(n, cmd)
            &&& n.latexmk == pre.latexmk
            &&& n.stage is WritingDoc
            &&& cmd matches BuildCmd::WriteFile { path, content }
            &&& path@ == ".build/main.tex"@
            &&& content@ == doc@
        },
        (BuildStage::WritingDoc, BuildEvent::Written) => {
            &&& r matches BuildOutcome::Next(n, cmd)
            &&& n.latexmk == pre.latexmk
            &&& n.stage is Compiling
            &&& cmd matches BuildCmd::RunEngine { dir, file, engine, extra }
            &&& dir@ == ".build"@
            &&& file@ == "main.tex"@
            &&& engine@ == engine_name_spec(pre.latexmk)
            &&& if pre.latexmk {
                extra matches Some(a) && a@ == "-pdf"@
            } else {
                extra is None
            }
        },
        (BuildStage::Compiling, BuildEvent::EngineDone { success, output }) => {
            if success {
                &&& r matches BuildOutcome::Next(n, cmd)
                &&& n.latexmk == pre.latexmk
                &&& n.stage is Relocating
                &&& cmd matches BuildCmd::EnsureDirAndMove { parent, from, to }
                &&& parent@ == parent_dir_spec(b.pdf_path)
                &&& from@ == ".build/main.pdf"@
                &&& to@ == b.pdf_path
            } else {
                &&& r matches BuildOutcome::Next(n, cmd)
                &&& n.latexmk == pre.latexmk
                &&& n.stage is PersistingLog
                &&& cmd matches BuildCmd::WriteFile { path, content }
                &&& path@ == ".build/failure.log"@
                &&& content@ == output@
            }
        },
        (BuildStage::PersistingLog, BuildEvent::Written) => {
            &&& r matches BuildOutcome::Failed(e)
            &&& e matches KiwiError::BuildFailed(log)
            &&& log@ == ".build/failure.log"@
        },
        (BuildStage::Relocating, BuildEvent::Moved) => {
            &&& r matches BuildOutcome::Next(n, cmd)
            &&& n.latexmk == pre.latexmk
            &&& n.stage is CleaningUp
            &&& cmd matches BuildCmd::RemoveDir { dir }
            &&& dir@ == ".build"@
        },
        (BuildStage::CleaningUp, BuildEvent::Removed) => r is Done,
        _ => {
            &&& r matches BuildOutcome::Failed(e)
            &&& e is ProtocolViolation
        },
    }
}

impl Builder {
    /// Begins a build: the first command reads the branch's source file.
    pub fn start(b: &Branch, latexmk: bool) -> (r: (Builder, BuildCmd))
        ensures
            r.0.latexmk == latexmk,
            r.0.stage is ReadingSource,
            r.1 matches BuildCmd::ReadFile { path } && path@ == b.path@,
    {
        (
            Builder { latexmk, stage: BuildStage::ReadingSource },
            BuildCmd::ReadFile { path: b.path.clone() },
        )
    }

    /// Advances the pipeline by one step: consumes the outcome of the last
    /// command and decides the next one, per `step_spec`.  Injection happens
    /// here, once the root template's text has arrived.
    pub fn step(self, b: &Branch, config: &Config, ev: BuildEvent) -> (r: BuildOutcome)
        requires
            b.creation_time.wf(),
        ensures
            step_spec(self, b@, config.author@, ev, r),
    {
        let latexmk = self.latexmk;
        match (self.stage, ev) {
            (_, BuildEvent::IoFailed(m)) => BuildOutcome::Failed(KiwiError::Io(m)),
            (BuildStage::ReadingSource, BuildEvent::FileRead(c)) => {
                match b.format {
                    Format::Markdown => BuildOutcome::Next(
                        Builder { latexmk, stage: BuildStage::Converting },
                        BuildCmd::RunConverter {
                            source: b.path.clone(),
                            engine: engine_name(latexmk).to_owned(),
                        },
                    ),
                    Format::LaTeX => BuildOutcome::Next(
                        Builder { latexmk, stage: BuildStage::ReadingRoot { fragment: c } },
                        BuildCmd::ReadFile { path: b.root_template.path.clone() },
                    ),
                }
            },
            (BuildStage::Converting, BuildEvent::Converted(l)) => BuildOutcome::Next(
                Builder { latexmk, stage: BuildStage::ReadingRoot { fragment: l } },
                BuildCmd::ReadFile { path: b.root_template.path.clone() },
            ),
            (BuildStage::ReadingRoot { fragment }, BuildEvent::FileRead(t)) => {
                match b.inject(config, t, Some(fragment)) {
                    Ok(doc) => BuildOutcome::Next(
                        Builder { latexmk, stage: BuildStage::PreparingScratch { doc } },
                        BuildCmd::ClearScratch { dir: ".build".to_owned() },
                    ),
                    Err(e) => BuildOutcome::Failed(e),
                }
            },
            (BuildStage::PreparingScratch { doc }, BuildEvent::ScratchReady) => BuildOutcome::Next(
                Builder { latexmk, stage: BuildStage::WritingDoc },
                BuildCmd::WriteFile { path: ".build/main.tex".to_owned(), content: doc },
            ),
            (BuildStage::WritingDoc, BuildEvent::Written) => BuildOutcome::Next(
                Builder { latexmk, stage: BuildStage::Compiling },
                BuildCmd::RunEngine {
                    dir: ".build".to_owned(),
                    file: "main.tex".to_owned(),
                    engine: engine_name(latexmk).to_owned(),
                    extra: if latexmk {
                        Some("-pdf".to_owned())
                    } else {
                        None
                    },
                },
            ),
            (BuildStage::Compiling, BuildEvent::EngineDone { success, output }) => {
                if success {
                    BuildOutcome::Next(
                        Builder { latexmk, stage: BuildStage::Relocating },
                        BuildCmd::EnsureDirAndMove {
                            parent: parent_dir(b.pdf_path.as_str()),
                            from: ".build/main.pdf".to_owned(),
                            to: b.pdf_path.clone(),
                        },
                    )
                } else {
                    BuildOutcome::Next(
                        Builder { latexmk, stage: BuildStage::PersistingLog },
                        BuildCmd::WriteFile {
                            path: ".build/failure.log".to_owned(),
                            content: output,
                        },
                    )
                }
            },
            (BuildStage::PersistingLog, BuildEvent::Written) => BuildOutcome::Failed(
                KiwiError::BuildFailed(".build/failure.log".to_owned()),
            ),
            (BuildStage::Relocating, BuildEvent::Moved) => BuildOutcome::Next(
                Builder { latexmk, stage: BuildStage::CleaningUp },
                BuildCmd::RemoveDir { dir: ".build".to_owned() },
            ),
            (BuildStage::CleaningUp, BuildEvent::Removed) => BuildOutcome::Done,
            _ => BuildOutcome::Failed(KiwiError::ProtocolViolation),
        }
    }
}

/// A compile that exits non-zero persists the engine's output to the
/// failure log inside the scratch directory and fails the build: the only
/// command issued after the failure is the log write, every following step
/// fails, and in particular no PDF relocation and no scratch removal is
/// ever commanded — the evidence survives, and whatever PDF stood at the
/// canonical path stays untouched.
pub proof fn lemma_compile_failure_preserves_evidence(
    pre: Builder,
    b: BranchV,
    author: Seq<char>,
    output: String,
    r: BuildOutcome,
    ev2: BuildEvent,
    r2: BuildOutcome,
)
    requires
        pre.stage is Compiling,
        step_spec(pre, b, author, BuildEvent::EngineDone { success: false, output }, r),
        r matches BuildOutcome::Next(n, _) ==> step_spec(n, b, author, ev2, r2),
    ensures
        r matches BuildOutcome::Next(n, cmd) && (cmd matches BuildCmd::WriteFile { path, content }
            && path@ == ".build/failure.log"@ && content@ == output@) && n.stage is PersistingLog,
        r matches BuildOutcome::Next(n, _) ==> r2 is Failed,
{
}

} // verus!
