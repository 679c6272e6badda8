use kiwi::branch::Branch;
use kiwi::conf::{Class, Config, DocumentType, Format};
use kiwi::dates::Date;
use kiwi::error::KiwiError;
use kiwi::pipeline::{engine_name, BuildCmd, BuildEvent, BuildOutcome, Builder};
use kiwi::template::RootTemplate;

fn config() -> Config {
    Config {
        author: String::from("Matt Gleich"),
        delimiter: String::from(">"),
        open_with: None,
        view_with: None,
        default_format: Format::Markdown,
        classes: vec![Class {
            name: String::from("AP Physics 2"),
            teacher: String::from("Mr. Feynman"),
            active: true,
        }],
    }
}

fn branch(format: Format) -> Branch {
    Branch::new(
        String::from("Forces"),
        format,
        DocumentType::Worksheet,
        Class {
            name: String::from("AP Physics 2"),
            teacher: String::from("Mr. Feynman"),
            active: true,
        },
        None,
        RootTemplate {
            path: String::from("templates/root/default.tex.hbs"),
            name: String::from("default"),
        },
        Date { year: 2023, month: 9, day: 1 },
        7,
    )
}

fn next(outcome: BuildOutcome) -> (Builder, BuildCmd) {
    match outcome {
        BuildOutcome::Next(n, cmd) => (n, cmd),
        other => panic!("pipeline stopped early: {:?}", other),
    }
}

/// Drives a LaTeX build up to the compile step and returns the machine
/// waiting on the engine.
fn drive_to_compile(b: &Branch, cfg: &Config, latexmk: bool) -> Builder {
    let (m, cmd) = Builder::start(b, latexmk);
    assert_eq!(cmd, BuildCmd::ReadFile { path: b.path.clone() });
    let (m, cmd) = next(m.step(b, cfg, BuildEvent::FileRead(String::from("raw source"))));
    assert_eq!(
        cmd,
        BuildCmd::ReadFile { path: String::from("templates/root/default.tex.hbs") }
    );
    let (m, cmd) = next(m.step(
        b,
        cfg,
        BuildEvent::FileRead(String::from("DOC[{{branch.content}}]")),
    ));
    assert_eq!(cmd, BuildCmd::ClearScratch { dir: String::from(".build") });
    let (m, cmd) = next(m.step(b, cfg, BuildEvent::ScratchReady));
    assert_eq!(
        cmd,
        BuildCmd::WriteFile {
            path: String::from(".build/main.tex"),
            content: String::from("DOC[raw source]"),
        }
    );
    let (m, cmd) = next(m.step(b, cfg, BuildEvent::Written));
    assert_eq!(
        cmd,
        BuildCmd::RunEngine {
            dir: String::from(".build"),
            file: String::from("main.tex"),
            engine: String::from(engine_name(latexmk)),
            extra: if latexmk { Some(String::from("-pdf")) } else { None },
        }
    );
    m
}

#[test]
fn failed_compile_preserves_log_and_issues_no_move() {
    // a non-zero engine exit persists the captured output to the scratch
    // log, the build fails pointing at it, and no relocation or cleanup is
    // ever commanded
    let b = branch(Format::LaTeX);
    let cfg = config();
    let m = drive_to_compile(&b, &cfg, false);
    let (m, cmd) = next(m.step(
        &b,
        &cfg,
        BuildEvent::EngineDone { success: false, output: String::from("! Undefined control sequence.") },
    ));
    assert_eq!(
        cmd,
        BuildCmd::WriteFile {
            path: String::from(".build/failure.log"),
            content: String::from("! Undefined control sequence."),
        }
    );
    let outcome = m.step(&b, &cfg, BuildEvent::Written);
    assert_eq!(
        outcome,
        BuildOutcome::Failed(KiwiError::BuildFailed(String::from(".build/failure.log")))
    );
}

fn drive_success(b: &Branch, cfg: &Config) -> String {
    let m = drive_to_compile(b, cfg, false);
    let (m, cmd) = next(m.step(
        b,
        cfg,
        BuildEvent::EngineDone { success: true, output: String::from("ok") },
    ));
    let to = match &cmd {
        BuildCmd::EnsureDirAndMove { parent, from, to } => {
            assert_eq!(parent, "pdfs/AP Physics 2/September/Worksheet");
            assert_eq!(from, ".build/main.pdf");
            to.clone()
        },
        other => panic!("expected the move command, got {:?}", other),
    };
    let (m, cmd) = next(m.step(b, cfg, BuildEvent::Moved));
    assert_eq!(cmd, BuildCmd::RemoveDir { dir: String::from(".build") });
    assert_eq!(m.step(b, cfg, BuildEvent::Removed), BuildOutcome::Done);
    to
}

#[test]
fn building_twice_overwrites_the_same_pdf() {
    // two successful runs both complete, and the second relocation targets
    // the same canonical path, overwriting the first PDF
    let b = branch(Format::LaTeX);
    let cfg = config();
    let first = drive_success(&b, &cfg);
    let second = drive_success(&b, &cfg);
    assert_eq!(first, second);
    assert_eq!(first, "pdfs/AP Physics 2/September/Worksheet/Forces.pdf");
}

#[test]
fn markdown_branch_converts_before_injection() {
    let b = branch(Format::Markdown);
    let cfg = config();
    let (m, cmd) = Builder::start(&b, false);
    assert_eq!(cmd, BuildCmd::ReadFile { path: b.path.clone() });
    let (m, cmd) = next(m.step(&b, &cfg, BuildEvent::FileRead(String::from("# md"))));
    assert_eq!(
        cmd,
        BuildCmd::RunConverter { source: b.path.clone(), engine: String::from("pdflatex") }
    );
    let (_, cmd) = next(m.step(&b, &cfg, BuildEvent::Converted(String::from("converted"))));
    assert_eq!(
        cmd,
        BuildCmd::ReadFile { path: String::from("templates/root/default.tex.hbs") }
    );
}

#[test]
fn io_failure_aborts_with_its_description() {
    let b = branch(Format::LaTeX);
    let cfg = config();
    let (m, _) = Builder::start(&b, false);
    let outcome = m.step(&b, &cfg, BuildEvent::IoFailed(String::from("permission denied")));
    assert_eq!(
        outcome,
        BuildOutcome::Failed(KiwiError::Io(String::from("permission denied")))
    );
}

#[test]
fn mismatched_event_is_a_protocol_violation() {
    let b = branch(Format::LaTeX);
    let cfg = config();
    let (m, _) = Builder::start(&b, false);
    let outcome = m.step(&b, &cfg, BuildEvent::Moved);
    assert_eq!(outcome, BuildOutcome::Failed(KiwiError::ProtocolViolation));
}

#[test]
fn latexmk_selects_the_multipass_engine() {
    assert_eq!(engine_name(true), "latexmk");
    assert_eq!(engine_name(false), "pdflatex");
    let b = branch(Format::LaTeX);
    let cfg = config();
    // drive_to_compile asserts the engine command carries -pdf for latexmk
    drive_to_compile(&b, &cfg, true);
}

#[test]
fn bad_root_template_fails_the_build_before_any_compile() {
    let b = branch(Format::LaTeX);
    let cfg = config();
    let (m, _) = Builder::start(&b, false);
    let (m, _) = next(m.step(&b, &cfg, BuildEvent::FileRead(String::from("src"))));
    let outcome = m.step(&b, &cfg, BuildEvent::FileRead(String::from("{{retired}}")));
    assert!(matches!(
        outcome,
        BuildOutcome::Failed(KiwiError::TemplateRender(_))
    ));
}
