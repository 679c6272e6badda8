use kiwi::branch::Branch;
use kiwi::check::needs_building;
use kiwi::commit::{commit_message, ChangeKind};
use kiwi::conf::{
    class_active, config_default_format, config_delimiter, Class, Config, DocumentType, Format,
};
use kiwi::dates::Date;
use kiwi::template::{BranchTemplate, RootTemplate};

#[test]
fn defaults_fill_absent_fields() {
    // the defaults the configuration file may omit: delimiter ">", format
    // Markdown, classes active
    let c = Config::with_defaults(
        String::from("Matt Gleich"),
        None,
        None,
        None,
        None,
        vec![Class {
            name: String::from("AP Physics 2"),
            teacher: String::from("Mr. Feynman"),
            active: class_active(),
        }],
    );
    assert_eq!(
        c,
        Config {
            author: String::from("Matt Gleich"),
            delimiter: String::from(">"),
            open_with: None,
            view_with: None,
            default_format: Format::Markdown,
            classes: vec![Class {
                name: String::from("AP Physics 2"),
                teacher: String::from("Mr. Feynman"),
                active: true
            }],
        }
    );
    assert_eq!(config_delimiter(), ">");
    assert_eq!(config_default_format(), Format::Markdown);
    assert!(class_active());
}

#[test]
fn explicit_fields_are_kept() {
    let c = Config::with_defaults(
        String::from("Matt Gleich"),
        Some(String::from("::")),
        Some(Format::LaTeX),
        Some(vec![String::from("code")]),
        None,
        vec![],
    );
    assert_eq!(c.delimiter, "::");
    assert_eq!(c.default_format, Format::LaTeX);
    assert_eq!(c.open_with, Some(vec![String::from("code")]));
}

#[test]
fn class_lookup_finds_first_match() {
    let c = Config {
        author: String::new(),
        delimiter: String::from(">"),
        open_with: None,
        view_with: None,
        default_format: Format::LaTeX,
        classes: vec![
            Class { name: String::from("A"), teacher: String::from("x"), active: true },
            Class { name: String::from("B"), teacher: String::from("y"), active: false },
        ],
    };
    assert_eq!(c.find_class("B"), Some(1));
    assert_eq!(c.find_class("C"), None);
}

#[test]
fn document_types_parse_and_print() {
    assert_eq!(DocumentType::parse("Worksheet"), Some(DocumentType::Worksheet));
    assert_eq!(DocumentType::parse("Other"), Some(DocumentType::Other));
    assert_eq!(DocumentType::parse("worksheet"), None);
    assert_eq!(DocumentType::Lab.name(), "Lab");
    assert_eq!(DocumentType::Assessment.name(), "Assessment");
    assert_eq!(DocumentType::variants().len(), 6);
}

#[test]
fn format_extensions() {
    assert_eq!(Format::LaTeX.extension(), ".tex");
    assert_eq!(Format::Markdown.extension(), ".md");
    assert_eq!(Format::from_path("a/b/c.tex"), Some(Format::LaTeX));
    assert_eq!(Format::from_path("a/b/c.md"), Some(Format::Markdown));
    assert_eq!(Format::from_path("a/b/c.pdf"), None);
    assert_eq!(Format::default(), Format::LaTeX);
}

fn plain_branch(name: &str, mod_time: u64) -> Branch {
    Branch::new(
        String::from(name),
        Format::LaTeX,
        DocumentType::Worksheet,
        Class {
            name: String::from("AP Physics 2"),
            teacher: String::from("Mr. Feynman"),
            active: true,
        },
        None,
        RootTemplate {
            path: String::from("templates/root/default.tex.hbs"),
            name: String::from("default"),
        },
        Date { year: 2023, month: 9, day: 1 },
        mod_time,
    )
}

#[test]
fn needs_building_splits_missing_and_outdated() {
    let branches = vec![
        plain_branch("NoPdf", 50),
        plain_branch("Stale", 50),
        plain_branch("Fresh", 50),
        plain_branch("AlsoMissing", 50),
    ];
    let pdf_times = vec![None, Some(40), Some(60), None];
    let (missing, outdated) = needs_building(&branches, &pdf_times);
    assert_eq!(missing, vec![0, 3]);
    assert_eq!(outdated, vec![1]);
}

#[test]
fn commit_messages_follow_the_convention() {
    let b = plain_branch("Forces", 1);
    assert_eq!(commit_message(ChangeKind::Added, &b), "new(Worksheet): Forces");
    assert_eq!(commit_message(ChangeKind::Modified, &b), "update(Worksheet): Forces");
    assert_eq!(commit_message(ChangeKind::Deleted, &b), "delete(Worksheet): Forces");
}

#[test]
fn branch_templates_classify_by_suffix() {
    let t = BranchTemplate::new(String::from("templates/branch/base.tex.hbs")).unwrap();
    assert_eq!(t.name, "base");
    assert_eq!(t.format, Format::LaTeX);
    let t = BranchTemplate::new(String::from("templates/branch/note.md.hbs")).unwrap();
    assert_eq!(t.name, "note");
    assert_eq!(t.format, Format::Markdown);
    assert!(BranchTemplate::new(String::from("templates/branch/readme.txt")).is_err());
}

#[test]
fn root_templates_strip_the_full_suffix() {
    let t = RootTemplate::new(String::from("templates/root/default.tex.hbs")).unwrap();
    assert_eq!(t.name, "default");
    assert!(RootTemplate::new(String::from("templates/root/default.md.hbs")).is_err());
}

#[test]
fn template_batches_fail_on_one_bad_file() {
    let ok = BranchTemplate::get_all(vec![
        String::from("templates/branch/a.tex.hbs"),
        String::from("templates/branch/b.md.hbs"),
    ])
    .unwrap();
    assert_eq!(ok.len(), 2);
    assert!(BranchTemplate::get_all(vec![
        String::from("templates/branch/a.tex.hbs"),
        String::from("templates/branch/oops.txt"),
    ])
    .is_err());
    let roots = RootTemplate::get_all(vec![String::from("templates/root/default.tex.hbs")])
        .unwrap();
    assert_eq!(roots[0].name, "default");
}

#[test]
fn error_messages_name_the_subject() {
    let e = kiwi::KiwiError::MissingRequiredField(String::from("root"));
    assert_eq!(e.message(), "missing required key: root");
    let e = kiwi::KiwiError::BuildFailed(String::from(".build/failure.log"));
    assert_eq!(e.message(), "PDF build failed; please check .build/failure.log");
}
