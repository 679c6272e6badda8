use kiwi::branch::{Branch, SourceFile};
use kiwi::conf::{Class, Config, DocumentType, Format};
use kiwi::dates::Date;
use kiwi::error::KiwiError;
use kiwi::preamble::scan_preamble;

fn config() -> Config {
    Config {
        author: String::from("Matt Gleich"),
        delimiter: String::from(">"),
        open_with: None,
        view_with: None,
        default_format: Format::Markdown,
        classes: vec![
            Class {
                name: String::from("AP Physics 2"),
                teacher: String::from("Mr. Feynman"),
                active: true,
            },
            Class {
                name: String::from("Economics Honors"),
                teacher: String::from("Mr. Buffet"),
                active: false,
            },
        ],
    }
}

#[test]
fn parse_latex_branch() {
    // a LaTeX source with a comment-bounded preamble recovers its identity
    let content = "\\iffalse\ncreated > 2023-09-01\n   root > default.tex.hbs\n\\fi\n\\section{Work}\n";
    let b = Branch::parse(
        String::from("docs/AP Physics 2/September/Worksheet/Forces.tex"),
        &config(),
        content,
        42,
    )
    .unwrap();
    assert_eq!(b.name, "Forces");
    assert_eq!(b.format, Format::LaTeX);
    assert_eq!(b.doc_type, DocumentType::Worksheet);
    assert_eq!(b.class.name, "AP Physics 2");
    assert_eq!(b.class.teacher, "Mr. Feynman");
    assert_eq!(b.creation_time, Date { year: 2023, month: 9, day: 1 });
    assert_eq!(b.root_template.name, "default");
    assert_eq!(b.root_template.path, "templates/root/default.tex.hbs");
    assert_eq!(b.branch_template, None);
    assert_eq!(b.mod_time, 42);
    assert_eq!(b.path, "docs/AP Physics 2/September/Worksheet/Forces.tex");
    assert_eq!(b.pdf_path, "pdfs/AP Physics 2/September/Worksheet/Forces.pdf");
}

#[test]
fn parse_markdown_branch() {
    let content = "<!--\ncreated > 2024-02-29\nroot > default.tex.hbs\n-->\n# Notes\n";
    let b = Branch::parse(
        String::from("docs/Economics Honors/February/Note/Supply.md"),
        &config(),
        content,
        7,
    )
    .unwrap();
    assert_eq!(b.format, Format::Markdown);
    assert_eq!(b.doc_type, DocumentType::Note);
    assert_eq!(b.creation_time, Date { year: 2024, month: 2, day: 29 });
    assert_eq!(b.class.name, "Economics Honors");
}

#[test]
fn parse_missing_root_fails() {
    // the same file without the root line fails, naming the missing key
    let content = "\\iffalse\ncreated > 2023-09-01\n\\fi\n\\section{Work}\n";
    let err = Branch::parse(
        String::from("docs/AP Physics 2/September/Worksheet/Forces.tex"),
        &config(),
        content,
        42,
    )
    .unwrap_err();
    assert_eq!(err, KiwiError::MissingRequiredField(String::from("root")));
}

#[test]
fn parse_missing_created_fails() {
    let content = "\\iffalse\nroot > default.tex.hbs\n\\fi\n";
    let err = Branch::parse(
        String::from("docs/AP Physics 2/September/Worksheet/Forces.tex"),
        &config(),
        content,
        42,
    )
    .unwrap_err();
    assert_eq!(err, KiwiError::MissingRequiredField(String::from("created")));
}

#[test]
fn parse_keys_after_marker_ignored() {
    // a syntactically valid key/value line after the closing marker is not
    // captured: the date before the marker wins, and a key that only
    // appears after the marker is missing
    let content = "\\iffalse\ncreated > 2023-09-01\nroot > default.tex.hbs\n\\fi\ncreated > 1999-01-01\n";
    let b = Branch::parse(
        String::from("docs/AP Physics 2/September/Worksheet/Forces.tex"),
        &config(),
        content,
        42,
    )
    .unwrap();
    assert_eq!(b.creation_time, Date { year: 2023, month: 9, day: 1 });

    let late_root = "\\iffalse\ncreated > 2023-09-01\n\\fi\nroot > default.tex.hbs\n";
    let err = Branch::parse(
        String::from("docs/AP Physics 2/September/Worksheet/Forces.tex"),
        &config(),
        late_root,
        42,
    )
    .unwrap_err();
    assert_eq!(err, KiwiError::MissingRequiredField(String::from("root")));
}

#[test]
fn preamble_duplicate_key_last_wins() {
    let lines = vec![
        String::from("a > one"),
        String::from("a > two"),
        String::from("b>  spaced  "),
    ];
    let meta = scan_preamble(&lines, ">", Format::LaTeX);
    assert_eq!(meta.get("a"), Some(String::from("two")));
    assert_eq!(meta.get("b"), Some(String::from("spaced")));
    assert_eq!(meta.get("c"), None);
}

#[test]
fn preamble_custom_delimiter() {
    let lines = vec![String::from("created :: 2023-09-01"), String::from("-->")];
    let meta = scan_preamble(&lines, "::", Format::Markdown);
    assert_eq!(meta.get("created"), Some(String::from("2023-09-01")));
}

#[test]
fn parse_bad_extension() {
    let err = Branch::parse(
        String::from("docs/AP Physics 2/September/Worksheet/Forces.pdf"),
        &config(),
        "",
        0,
    )
    .unwrap_err();
    assert_eq!(
        err,
        KiwiError::UnsupportedExtension(String::from(
            "docs/AP Physics 2/September/Worksheet/Forces.pdf"
        ))
    );
}

#[test]
fn parse_bad_date() {
    let content = "\\iffalse\ncreated > 2023-13-01\nroot > default.tex.hbs\n\\fi\n";
    let err = Branch::parse(
        String::from("docs/AP Physics 2/September/Worksheet/Forces.tex"),
        &config(),
        content,
        0,
    )
    .unwrap_err();
    assert_eq!(err, KiwiError::InvalidDateFormat(String::from("2023-13-01")));
}

#[test]
fn parse_unknown_doc_type() {
    let content = "\\iffalse\ncreated > 2023-09-01\nroot > default.tex.hbs\n\\fi\n";
    let err = Branch::parse(
        String::from("docs/AP Physics 2/September/Homework/Forces.tex"),
        &config(),
        content,
        0,
    )
    .unwrap_err();
    assert_eq!(err, KiwiError::UnknownDocumentType(String::from("Homework")));
}

#[test]
fn parse_unknown_class() {
    let content = "\\iffalse\ncreated > 2023-09-01\nroot > default.tex.hbs\n\\fi\n";
    let err = Branch::parse(
        String::from("docs/Biology/September/Worksheet/Cells.tex"),
        &config(),
        content,
        0,
    )
    .unwrap_err();
    assert_eq!(err, KiwiError::UnknownClass(String::from("Biology")));
}

#[test]
fn parse_path_too_shallow() {
    let content = "\\iffalse\ncreated > 2023-09-01\nroot > default.tex.hbs\n\\fi\n";
    let err = Branch::parse(String::from("Forces.tex"), &config(), content, 0).unwrap_err();
    assert_eq!(err, KiwiError::PathShapeMismatch(String::from("Forces.tex")));
}

#[test]
fn parse_bad_root_template_name() {
    let content = "\\iffalse\ncreated > 2023-09-01\nroot > default.docx\n\\fi\n";
    let err = Branch::parse(
        String::from("docs/AP Physics 2/September/Worksheet/Forces.tex"),
        &config(),
        content,
        0,
    )
    .unwrap_err();
    assert_eq!(
        err,
        KiwiError::InvalidTemplateName(String::from("templates/root/default.docx"))
    );
}

fn file(path: &str, created: &str, mod_time: u64) -> SourceFile {
    SourceFile {
        path: String::from(path),
        content: format!("\\iffalse\ncreated > {}\nroot > default.tex.hbs\n\\fi\n", created),
        mod_time,
    }
}

#[test]
fn get_all_sorts_most_recent_first() {
    let files = vec![
        file("docs/AP Physics 2/September/Worksheet/Old.tex", "2023-09-01", 10),
        file("docs/AP Physics 2/September/Worksheet/Newest.tex", "2023-09-03", 30),
        file("docs/AP Physics 2/September/Worksheet/Mid.tex", "2023-09-02", 20),
    ];
    let branches = Branch::get_all(&files, &config()).unwrap();
    let names: Vec<&str> = branches.iter().map(|b| b.name.as_str()).collect();
    assert_eq!(names, vec!["Newest", "Mid", "Old"]);
}

#[test]
fn get_all_ties_keep_input_order() {
    let files = vec![
        file("docs/AP Physics 2/September/Worksheet/A.tex", "2023-09-01", 20),
        file("docs/AP Physics 2/September/Worksheet/B.tex", "2023-09-01", 20),
        file("docs/AP Physics 2/September/Worksheet/C.tex", "2023-09-01", 30),
        file("docs/AP Physics 2/September/Worksheet/D.tex", "2023-09-01", 20),
    ];
    let branches = Branch::get_all(&files, &config()).unwrap();
    let names: Vec<&str> = branches.iter().map(|b| b.name.as_str()).collect();
    assert_eq!(names, vec!["C", "A", "B", "D"]);
}

#[test]
fn get_all_one_bad_file_fails_the_batch() {
    let files = vec![
        file("docs/AP Physics 2/September/Worksheet/Good.tex", "2023-09-01", 10),
        SourceFile {
            path: String::from("docs/AP Physics 2/September/Worksheet/Bad.tex"),
            content: String::from("no preamble at all"),
            mod_time: 5,
        },
    ];
    let err = Branch::get_all(&files, &config()).unwrap_err();
    assert_eq!(err, KiwiError::MissingRequiredField(String::from("created")));
}

#[test]
fn round_trip_new_then_parse() {
    // a branch created fresh, written with a preamble recording its
    // creation date and root template filename, parses back to the same
    // identity, with no branch template
    let cfg = config();
    let b = Branch::new(
        String::from("Waves"),
        Format::LaTeX,
        DocumentType::Lab,
        Class {
            name: String::from("AP Physics 2"),
            teacher: String::from("Mr. Feynman"),
            active: true,
        },
        None,
        root_fixture(),
        Date { year: 2023, month: 11, day: 4 },
        99,
    );
    let written = format!(
        "\\iffalse\ncreated > 2023-11-04\nroot > {}.tex.hbs\n\\fi\nbody\n",
        b.root_template.name
    );
    let parsed = Branch::parse(b.path.clone(), &cfg, &written, 123).unwrap();
    assert_eq!(parsed.name, b.name);
    assert_eq!(parsed.format, b.format);
    assert_eq!(parsed.doc_type, b.doc_type);
    assert_eq!(parsed.class.name, b.class.name);
    assert_eq!(parsed.creation_time, b.creation_time);
    assert_eq!(parsed.root_template.name, b.root_template.name);
    assert_eq!(parsed.branch_template, None);
    assert_eq!(parsed.path, b.path);
}

fn root_fixture() -> kiwi::template::RootTemplate {
    kiwi::template::RootTemplate {
        path: String::from("templates/root/default.tex.hbs"),
        name: String::from("default"),
    }
}
