use kiwi::branch::Branch;
use kiwi::conf::{Class, Config, DocumentType, Format};
use kiwi::dates::Date;
use kiwi::error::KiwiError;
use kiwi::template::RootTemplate;

fn config() -> Config {
    Config {
        author: String::from("Matt Gleich"),
        delimiter: String::from(">"),
        open_with: None,
        view_with: None,
        default_format: Format::Markdown,
        classes: vec![Class {
            name: String::from("AP Physics 2"),
            teacher: String::from("Mr. Feynman"),
            active: true,
        }],
    }
}

fn branch(name: &str, format: Format) -> Branch {
    Branch::new(
        String::from(name),
        format,
        DocumentType::Worksheet,
        Class {
            name: String::from("AP Physics 2"),
            teacher: String::from("Mr. Feynman"),
            active: true,
        },
        None,
        RootTemplate {
            path: String::from("templates/root/default.tex.hbs"),
            name: String::from("default"),
        },
        Date { year: 2023, month: 9, day: 1 },
        7,
    )
}

#[test]
fn inject_renders_author_and_name() {
    let b = branch("Forces", Format::LaTeX);
    let out = b
        .inject(&config(), String::from("{{author}}: {{name}}"), None)
        .unwrap();
    assert_eq!(out, "Matt Gleich: Forces");
}

#[test]
fn inject_escapes_name_under_latex() {
    let b = branch("Q&A", Format::LaTeX);
    let out = b.inject(&config(), String::from("{{name}}"), None).unwrap();
    assert_eq!(out, "Q\\&A");
}

#[test]
fn inject_leaves_name_alone_when_scaffolding_markdown() {
    let b = branch("Q&A", Format::Markdown);
    let out = b.inject(&config(), String::from("{{name}}"), None).unwrap();
    assert_eq!(out, "Q&A");
}

#[test]
fn inject_time_fields() {
    let b = branch("Forces", Format::LaTeX);
    let out = b
        .inject(
            &config(),
            String::from("{{time.simple_date}} {{time.day}} {{time.year}} {{time.month}}"),
            None,
        )
        .unwrap();
    assert_eq!(out, "2023-09-01 1 2023 September");
}

#[test]
fn inject_long_date_latex() {
    let b = branch("Forces", Format::LaTeX);
    let out = b.inject(&config(), String::from("{{time.date}}"), None).unwrap();
    assert_eq!(out, "Friday, September  1\\textsuperscript{st}, 2023");
}

#[test]
fn inject_long_date_markdown() {
    let b = branch("Forces", Format::Markdown);
    let out = b.inject(&config(), String::from("{{time.date}}"), None).unwrap();
    assert_eq!(out, "Friday, September  1^st^, 2023");
}

#[test]
fn inject_class_branch_root_and_type() {
    let b = branch("Forces", Format::LaTeX);
    let out = b
        .inject(
            &config(),
            String::from(
                "{{class.name}}|{{class.teacher}}|{{branch.filename}}|{{root.filename}}|{{type}}",
            ),
            None,
        )
        .unwrap();
    assert_eq!(out, "AP Physics 2|Mr. Feynman|Forces.tex|default.tex|Worksheet");
}

#[test]
fn inject_embeds_branch_content() {
    let b = branch("Forces", Format::LaTeX);
    let out = b
        .inject(
            &config(),
            String::from("pre {{branch.content}} post"),
            Some(String::from("\\section{Work}")),
        )
        .unwrap();
    assert_eq!(out, "pre \\section{Work} post");
}

#[test]
fn inject_markdown_build_escapes_like_latex() {
    // a Markdown branch being built has been converted to LaTeX, so the
    // name is escaped after all
    let b = branch("Q&A", Format::Markdown);
    let out = b
        .inject(&config(), String::from("{{name}}"), Some(String::from("text")))
        .unwrap();
    assert_eq!(out, "Q\\&A");
}

#[test]
fn inject_required_preamble_defines_tightlist() {
    let b = branch("Forces", Format::LaTeX);
    let out = b
        .inject(&config(), String::from("{{required_preamble}}"), None)
        .unwrap();
    assert!(out.contains("\\providecommand{\\tightlist}"));
}

#[test]
fn inject_imgs_dir_reference() {
    let b = branch("Forces", Format::LaTeX);
    let out = b.inject(&config(), String::from("{{imgs_dir}}"), None).unwrap();
    assert_eq!(out, "{../imgs/AP Physics 2/September/Forces/}");
}

#[test]
fn inject_identical_calls_agree() {
    // rendering is a function of the branch, author, template and content:
    // repeated identical calls succeed together and produce the same text
    let b = branch("Forces", Format::LaTeX);
    let cfg = config();
    let template = "{{author}} {{time.simple_date}} {{name}}";
    let first = b.inject(&cfg, String::from(template), None).unwrap();
    let second = b.inject(&cfg, String::from(template), None).unwrap();
    assert_eq!(first, second);

    let bad = "{{retired_field}}";
    assert!(b.inject(&cfg, String::from(bad), None).is_err());
    assert!(b.inject(&cfg, String::from(bad), None).is_err());
}

#[test]
fn inject_unknown_variable_is_an_error() {
    // strict mode: a stale template referencing a retired field fails
    let b = branch("Forces", Format::LaTeX);
    let err = b
        .inject(&config(), String::from("{{retired_field}}"), None)
        .unwrap_err();
    assert!(matches!(err, KiwiError::TemplateRender(_)));
}

#[test]
fn inject_bad_template_syntax_is_an_error() {
    let b = branch("Forces", Format::LaTeX);
    let err = b.inject(&config(), String::from("{{#if}}"), None).unwrap_err();
    assert!(matches!(err, KiwiError::TemplateRender(_)));
}
