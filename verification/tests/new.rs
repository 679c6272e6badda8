use std::time::{SystemTime, UNIX_EPOCH};

use chrono::Datelike;

use kiwi::branch::Branch;
use kiwi::conf::{Class, DocumentType, Format};
use kiwi::dates::Date;
use kiwi::template::{BranchTemplate, RootTemplate};

fn now_date() -> (Date, String) {
    let now = chrono::Local::now();
    let date = Date { year: now.year() as u32, month: now.month(), day: now.day() };
    let month = now.format("%B").to_string();
    (date, month)
}

#[test]
fn new() {
    let (date_now, month) = now_date();
    let systemtime_now = SystemTime::now().duration_since(UNIX_EPOCH).unwrap().as_secs();
    assert_eq!(
        Branch::new(
            String::from("Working"),
            Format::LaTeX,
            DocumentType::Worksheet,
            Class {
                name: String::from("AP Physics 2"),
                teacher: String::from("Mr. Feynman"),
                active: true
            },
            Some(BranchTemplate {
                path: String::from("./templates/branch/base.tex.hbs"),
                name: String::from("base"),
                format: Format::LaTeX,
            }),
            RootTemplate {
                path: String::from("./templates/root/base.tex.hbs"),
                name: String::from("base")
            },
            date_now,
            systemtime_now
        ),
        Branch {
            name: String::from("Working"),
            format: Format::LaTeX,
            doc_type: DocumentType::Worksheet,
            class: Class {
                name: String::from("AP Physics 2"),
                teacher: String::from("Mr. Feynman"),
                active: true
            },
            path: format!("docs/AP Physics 2/{}/Worksheet/Working.tex", month),
            pdf_path: format!("pdfs/AP Physics 2/{}/Worksheet/Working.pdf", month),
            imgs_dir: format!("imgs/AP Physics 2/{}/Working", month),
            branch_template: Some(BranchTemplate {
                path: String::from("./templates/branch/base.tex.hbs"),
                name: String::from("base"),
                format: Format::LaTeX,
            }),
            root_template: RootTemplate {
                path: String::from("./templates/root/base.tex.hbs"),
                name: String::from("base")
            },
            creation_time: date_now,
            mod_time: systemtime_now
        }
    );

    assert_eq!(
        Branch::new(
            String::from("Hello World"),
            Format::Markdown,
            DocumentType::Other,
            Class {
                name: String::from("Economics Honors"),
                teacher: String::from("Mr. Buffet"),
                active: true
            },
            Some(BranchTemplate {
                path: String::from("./templates/branch/base.tex.hbs"),
                name: String::from("base"),
                format: Format::LaTeX,
            }),
            RootTemplate {
                path: String::from("./templates/root/base.tex.hbs"),
                name: String::from("base")
            },
            date_now,
            systemtime_now
        ),
        Branch {
            name: String::from("Hello World"),
            format: Format::Markdown,
            doc_type: DocumentType::Other,
            class: Class {
                name: String::from("Economics Honors"),
                teacher: String::from("Mr. Buffet"),
                active: true
            },
            path: format!("docs/Economics Honors/{}/Other/Hello World.md", month),
            pdf_path: format!("pdfs/Economics Honors/{}/Other/Hello World.pdf", month),
            imgs_dir: format!("imgs/Economics Honors/{}/Hello World", month),
            branch_template: Some(BranchTemplate {
                path: String::from("./templates/branch/base.tex.hbs"),
                name: String::from("base"),
                format: Format::LaTeX,
            }),
            root_template: RootTemplate {
                path: String::from("./templates/root/base.tex.hbs"),
                name: String::from("base")
            },
            creation_time: date_now,
            mod_time: systemtime_now
        }
    );
}

#[test]
fn path_determinism_repeated_calls() {
    let mk = || {
        Branch::new(
            String::from("Momentum"),
            Format::LaTeX,
            DocumentType::Note,
            Class {
                name: String::from("AP Physics 2"),
                teacher: String::from("Mr. Feynman"),
                active: true,
            },
            None,
            RootTemplate {
                path: String::from("templates/root/default.tex.hbs"),
                name: String::from("default"),
            },
            Date { year: 2023, month: 1, day: 15 },
            77,
        )
    };
    let a = mk();
    let b = mk();
    assert_eq!(a.path, b.path);
    assert_eq!(a.pdf_path, b.pdf_path);
    assert_eq!(a.imgs_dir, b.imgs_dir);
}

#[test]
fn month_segment_follows_creation_date_not_today() {
    // created in January; whatever today is, the paths say January
    let b = Branch::new(
        String::from("Momentum"),
        Format::LaTeX,
        DocumentType::Note,
        Class {
            name: String::from("AP Physics 2"),
            teacher: String::from("Mr. Feynman"),
            active: true,
        },
        None,
        RootTemplate {
            path: String::from("templates/root/default.tex.hbs"),
            name: String::from("default"),
        },
        Date { year: 2023, month: 1, day: 15 },
        77,
    );
    assert_eq!(b.path, "docs/AP Physics 2/January/Note/Momentum.tex");
    assert_eq!(b.pdf_path, "pdfs/AP Physics 2/January/Note/Momentum.pdf");
    assert_eq!(b.imgs_dir, "imgs/AP Physics 2/January/Momentum");
}
