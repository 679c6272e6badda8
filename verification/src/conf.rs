//! The configuration model: document formats, the closed set of document
//! types, classes and the per-project configuration.  Loading the on-disk
//! TOML is left to the caller; this module owns the defaults and the
//! name-based lookups that parsing and rendering rely on.

use vstd::prelude::*;

use crate::text::eq_str;
use crate::text::ends_with_spec;
use crate::text::ends_with_str;

verus! {

/// A document source format.  It decides the file extension, the comment
/// syntax that bounds the embedded preamble, and whether interpolated strings
/// are escaped.
#[derive(Debug, Clone, Copy, PartialEq, Eq, Structural)]
pub enum Format {
    LaTeX,
    Markdown,
}

/// The closed set of document types; each doubles as a directory name.
#[derive(Debug, Clone, Copy, PartialEq, Eq, Structural)]
pub enum DocumentType {
    Worksheet,
    Note,
    Assessment,
    Paper,
    Lab,
    Other,
}

/// One class of the configuration.  `active` only controls visibility in
/// interactive pickers; parsing accepts inactive classes too.
#[derive(Debug, PartialEq, Eq)]
pub struct Class {
    pub name: String,
    pub teacher: String,
    pub active: bool,
}

/// The mathematical value of a `Class`.
pub ghost struct ClassV {
    pub name: Seq<char>,
    pub teacher: Seq<char>,
    pub active: bool,
}

impl View for Class {
    type V = ClassV;

    open spec fn view(&self) -> ClassV {
        ClassV { name: self.name@, teacher: self.teacher@, active: self.active }
    }
}

/// The classes of a configuration as mathematical values, in order.
pub open spec fn classes_view(c: &Config) -> Seq<ClassV> {
    c.classes@.map_values(|x: Class| x@)
}

/// The position of the first class named `name`, or -1 when none is.
pub open spec fn find_class_spec(classes: Seq<ClassV>, name: Seq<char>) -> int
    decreases classes.len(),
{
    if classes.len() == 0 {
        -1
    } else if classes[0].name == name {
        0
    } else {
        let r = find_class_spec(classes.skip(1), name);
        if r < 0 {
            -1
        } else {
            r + 1
        }
    }
}

proof fn lemma_find_class_interval(classes: Seq<ClassV>, name: Seq<char>, j: int)
    requires
        0 <= j <= classes.len(),
        forall|k: int| 0 <= k < j ==> classes[k].name != name,
        j == classes.len() || classes[j].name == name,
    ensures
        find_class_spec(classes, name) == if j == classes.len() {
            -1int
        } else {
            j
        },
    decreases j,
{
    if classes.len() > 0 && j > 0 {
        assert forall|k: int| 0 <= k < j - 1 implies classes.skip(1)[k].name != name by {
            assert(classes.skip(1)[k] == classes[k + 1]);
        }
        assert(j - 1 == classes.skip(1).len() || classes.skip(1)[j - 1].name == name);
        lemma_find_class_interval(classes.skip(1), name, j - 1);
    }
}

impl Class {
    /// An owned copy with the same fields.
    pub fn duplicate(&self) -> (c: Class)
        ensures
            c.name@ == self.name@,
            c.teacher@ == self.teacher@,
            c.active == self.active,
    {
        Class { name: self.name.clone(), teacher: self.teacher.clone(), active: self.active }
    }
}

/// The per-project configuration, loaded once per invocation.
#[derive(Debug, PartialEq, Eq)]
pub struct Config {
    pub author: String,
    pub delimiter: String,
    pub open_with: Option<Vec<String>>,
    pub view_with: Option<Vec<String>>,
    pub default_format: Format,
    pub classes: Vec<Class>,
}

/// The delimiter between a preamble key and its value when the configuration
/// names none.
pub fn config_delimiter() -> (s: String)
    ensures
        s@ == ">"@,
{
    ">".to_owned()
}

/// The source format used when the configuration names none.
pub fn config_default_format() -> (f: Format)
    ensures
        f == Format::Markdown,
{
    Format::Markdown
}

/// Whether a class is active when its entry does not say.
pub fn class_active() -> (b: bool)
    ensures
        b,
{
    true
}

impl Config {
    /// Assembles a configuration, substituting the documented default for
    /// every optional field that is absent.
    pub fn with_defaults(
        author: String,
        delimiter: Option<String>,
        default_format: Option<Format>,
        open_with: Option<Vec<String>>,
        view_with: Option<Vec<String>>,
        classes: Vec<Class>,
    ) -> (c: Config)
        ensures
            c.author@ == author@,
            c.delimiter@ == match delimiter {
                Some(d) => d@,
                None => ">"@,
            },
            c.default_format == match default_format {
                Some(f) => f,
                None => Format::Markdown,
            },
            c.open_with == open_with,
            c.view_with == view_with,
            c.classes == classes,
    {
        let delim = match delimiter {
            Some(d) => d,
            None => config_delimiter(),
        };
        let fmt = match default_format {
            Some(f) => f,
            None => config_default_format(),
        };
        Config {
            author,
            delimiter: delim,
            open_with,
            view_with,
            default_format: fmt,
            classes,
        }
    }

    /// The position of the first class with the given name, if any; name
    /// lookup assumes the configured names are unique.
    pub fn find_class(&self, name: &str) -> (r: Option<usize>)
        ensures
            match r {
                Some(i) => {
                    &&& i < self.classes@.len()
                    &&& self.classes@[i as int].name@ == name@
                    &&& find_class_spec(classes_view(self), name@) == i
                },
                None => {
                    &&& forall|k: int|
                        0 <= k < self.classes@.len() ==> #[trigger] self.classes@[k].name@ != name@
                    &&& find_class_spec(classes_view(self), name@) == -1
                },
            },
    {
        let n = self.classes.len();
        let mut i: usize = 0;
        while i < n
            invariant
                0 <= i <= n,
                n == self.classes@.len(),
                forall|k: int| 0 <= k < i ==> #[trigger] self.classes@[k].name@ != name@,
            decreases n - i,
        {
            if eq_str(self.classes[i].name.as_str(), name) {
                proof {
                    assert forall|k: int| 0 <= k < i implies classes_view(self)[k].name != name@ by {
                        assert(classes_view(self)[k] == self.classes@[k]@);
                    }
                    assert(classes_view(self)[i as int] == self.classes@[i as int]@);
                    lemma_find_class_interval(classes_view(self), name@, i as int);
                }
                return Some(i);
            }
            i = i + 1;
        }
        proof {
            assert forall|k: int| 0 <= k < n implies classes_view(self)[k].name != name@ by {
                assert(classes_view(self)[k] == self.classes@[k]@);
            }
            lemma_find_class_interval(classes_view(self), name@, n as int);
        }
        None
    }
}

/// A successful class lookup lands on an entry carrying the looked-up name.
pub proof fn lemma_find_class_found(classes: Seq<ClassV>, name: Seq<char>)
    requires
        find_class_spec(classes, name) >= 0,
    ensures
        0 <= find_class_spec(classes, name) < classes.len(),
        classes[find_class_spec(classes, name)].name == name,
    decreases classes.len(),
{
    if classes.len() > 0 && classes[0].name != name {
        lemma_find_class_found(classes.skip(1), name);
        assert(classes.skip(1)[find_class_spec(classes.skip(1), name)] == classes[find_class_spec(
            classes,
            name,
        )]);
    }
}

impl Format {
    /// The file extension of the format, with the leading dot.
    pub fn extension(&self) -> (e: &'static str)
        ensures
            e@ == self.extension_spec(),
    {
        match *self {
            Format::LaTeX => ".tex",
            Format::Markdown => ".md",
        }
    }

    /// The file extension of the format, with the leading dot.
    pub open spec fn extension_spec(self) -> Seq<char> {
        match self {
            Format::LaTeX => ".tex"@,
            Format::Markdown => ".md"@,
        }
    }

    /// The format a path's extension selects.
    pub open spec fn from_path_spec(path: Seq<char>) -> Option<Format> {
        if ends_with_spec(path, ".tex"@) {
            Some(Format::LaTeX)
        } else if ends_with_spec(path, ".md"@) {
            Some(Format::Markdown)
        } else {
            None
        }
    }

    /// Determines the format from a path's extension: `.tex` is LaTeX,
    /// `.md` is Markdown, anything else is unsupported.
    pub fn from_path(path: &str) -> (r: Option<Format>)
        ensures
            r == Format::from_path_spec(path@),
    {
        if ends_with_str(path, ".tex") {
            Some(Format::LaTeX)
        } else if ends_with_str(path, ".md") {
            Some(Format::Markdown)
        } else {
            None
        }
    }
}

impl Default for Format {
    /// The format assumed where nothing selects one.
    fn default() -> (f: Self)
        ensures
            f == Format::LaTeX,
    {
        Format::LaTeX
    }
}

impl DocumentType {
    /// The variant's name, as it appears in paths and pickers.
    pub open spec fn name_spec(self) -> Seq<char> {
        match self {
            DocumentType::Worksheet => "Worksheet"@,
            DocumentType::Note => "Note"@,
            DocumentType::Assessment => "Assessment"@,
            DocumentType::Paper => "Paper"@,
            DocumentType::Lab => "Lab"@,
            DocumentType::Other => "Other"@,
        }
    }

    /// The variant's name, as it appears in paths and pickers.
    pub fn name(&self) -> (s: String)
        ensures
            s@ == self.name_spec(),
    {
        match *self {
            DocumentType::Worksheet => "Worksheet".to_owned(),
            DocumentType::Note => "Note".to_owned(),
            DocumentType::Assessment => "Assessment".to_owned(),
            DocumentType::Paper => "Paper".to_owned(),
            DocumentType::Lab => "Lab".to_owned(),
            DocumentType::Other => "Other".to_owned(),
        }
    }

    /// The variant a name denotes, if any.
    pub open spec fn parse_spec(s: Seq<char>) -> Option<DocumentType> {
        if s == "Worksheet"@ {
            Some(DocumentType::Worksheet)
        } else if s == "Note"@ {
            Some(DocumentType::Note)
        } else if s == "Assessment"@ {
            Some(DocumentType::Assessment)
        } else if s == "Paper"@ {
            Some(DocumentType::Paper)
        } else if s == "Lab"@ {
            Some(DocumentType::Lab)
        } else if s == "Other"@ {
            Some(DocumentType::Other)
        } else {
            None
        }
    }

    /// Parses a document type from its exact variant name.
    pub fn parse(s: &str) -> (r: Option<DocumentType>)
        ensures
            r == DocumentType::parse_spec(s@),
    {
        if eq_str(s, "Worksheet") {
            Some(DocumentType::Worksheet)
        } else if eq_str(s, "Note") {
            Some(DocumentType::Note)
        } else if eq_str(s, "Assessment") {
            Some(DocumentType::Assessment)
        } else if eq_str(s, "Paper") {
            Some(DocumentType::Paper)
        } else if eq_str(s, "Lab") {
            Some(DocumentType::Lab)
        } else if eq_str(s, "Other") {
            Some(DocumentType::Other)
        } else {
            None
        }
    }

    /// Every document type, in declaration order, for pickers.
    pub fn variants() -> (v: Vec<DocumentType>)
        ensures
            v@ == seq![
                DocumentType::Worksheet,
                DocumentType::Note,
                DocumentType::Assessment,
                DocumentType::Paper,
                DocumentType::Lab,
                DocumentType::Other,
            ],
    {
        let mut v: Vec<DocumentType> = Vec::new();
        v.push(DocumentType::Worksheet);
        v.push(DocumentType::Note);
        v.push(DocumentType::Assessment);
        v.push(DocumentType::Paper);
        v.push(DocumentType::Lab);
        v.push(DocumentType::Other);
        proof {
            assert(v@ =~= seq![
                DocumentType::Worksheet,
                DocumentType::Note,
                DocumentType::Assessment,
                DocumentType::Paper,
                DocumentType::Lab,
                DocumentType::Other,
            ]);
        }
        v
    }
}

} // verus!
