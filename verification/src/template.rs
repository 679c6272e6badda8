//! The template registry: branch templates (per-format content skeletons for
//! new documents, `<name>.tex.hbs` or `<name>.md.hbs`) and root templates
//! (top-level LaTeX wrappers, `<name>.tex.hbs`).  Classification works on
//! path strings; reading the template directory is the caller's concern.

use vstd::prelude::*;

use crate::conf::Format;
use crate::error::KiwiError;
use crate::text::{ends_with_str, file_name, file_name_spec};
use crate::text::ends_with_spec;

verus! {

/// A reusable content skeleton for newly created documents.
#[derive(Debug, PartialEq, Eq)]
pub struct BranchTemplate {
    pub path: String,
    pub name: String,
    pub format: Format,
}

/// A top-level document wrapper that a branch's rendered content is embedded
/// into; always LaTeX.
#[derive(Debug, PartialEq, Eq)]
pub struct RootTemplate {
    pub path: String,
    pub name: String,
}

/// The mathematical value of a `BranchTemplate`.
pub ghost struct BranchTemplateV {
    pub path: Seq<char>,
    pub name: Seq<char>,
    pub format: Format,
}

impl View for BranchTemplate {
    type V = BranchTemplateV;

    open spec fn view(&self) -> BranchTemplateV {
        BranchTemplateV { path: self.path@, name: self.name@, format: self.format }
    }
}

/// The mathematical value of a `RootTemplate`.
pub ghost struct RootTemplateV {
    pub path: Seq<char>,
    pub name: Seq<char>,
}

impl View for RootTemplate {
    type V = RootTemplateV;

    open spec fn view(&self) -> RootTemplateV {
        RootTemplateV { path: self.path@, name: self.name@ }
    }
}

/// The name and format a branch template path denotes: the filename must end
/// in `.tex.hbs` or `.md.hbs`, and the name is what precedes that suffix.
pub open spec fn branch_template_of(path: Seq<char>) -> Option<(Seq<char>, Format)> {
    let f = file_name_spec(path);
    if ends_with_spec(f, ".tex.hbs"@) {
        Some((f.take(f.len() - 8), Format::LaTeX))
    } else if ends_with_spec(f, ".md.hbs"@) {
        Some((f.take(f.len() - 7), Format::Markdown))
    } else {
        None
    }
}

/// The name a root template path denotes: the filename must end in
/// `.tex.hbs`, and the name is what precedes that suffix.
pub open spec fn root_template_of(path: Seq<char>) -> Option<Seq<char>> {
    let f = file_name_spec(path);
    if ends_with_spec(f, ".tex.hbs"@) {
        Some(f.take(f.len() - 8))
    } else {
        None
    }
}

impl BranchTemplate {
    /// Classifies a template file: its format comes from the filename
    /// suffix, its name from what precedes the suffix.
    pub fn new(path: String) -> (r: Result<BranchTemplate, KiwiError>)
        ensures
            match r {
                Ok(t) => {
                    &&& branch_template_of(path@) == Some((t.name@, t.format))
                    &&& t.path@ == path@
                },
                Err(e) => {
                    &&& branch_template_of(path@) is None
                    &&& e == KiwiError::InvalidTemplateName(path)
                },
            },
    {
        let f = file_name(path.as_str());
        let flen = f.unicode_len();
        if ends_with_str(f, ".tex.hbs") {
            proof {
                reveal_strlit(".tex.hbs");
                assert(f@.subrange(0, f@.len() - 8) =~= f@.take(f@.len() - 8));
            }
            let name = f.substring_char(0, flen - 8).to_owned();
            Ok(BranchTemplate { name, format: Format::LaTeX, path })
        } else if ends_with_str(f, ".md.hbs") {
            proof {
                reveal_strlit(".md.hbs");
                assert(f@.subrange(0, f@.len() - 7) =~= f@.take(f@.len() - 7));
            }
            let name = f.substring_char(0, flen - 7).to_owned();
            Ok(BranchTemplate { name, format: Format::Markdown, path })
        } else {
            Err(KiwiError::InvalidTemplateName(path))
        }
    }

    /// Classifies every file of the branch-template directory; one
    /// unrecognized filename fails the whole batch.
    pub fn get_all(paths: Vec<String>) -> (r: Result<Vec<BranchTemplate>, KiwiError>)
        ensures
            match r {
                Ok(ts) => {
                    &&& ts@.len() == paths@.len()
                    &&& forall|i: int|
                        0 <= i < paths@.len() ==> {
                            &&& #[trigger] branch_template_of(paths@[i]@) == Some(
                                (ts@[i].name@, ts@[i].format),
                            )
                            &&& ts@[i].path@ == paths@[i]@
                        }
                },
                Err(e) => exists|i: int|
                    0 <= i < paths@.len() && #[trigger] branch_template_of(paths@[i]@) is None,
            },
    {
        let n = paths.len();
        let mut out: Vec<BranchTemplate> = Vec::new();
        let mut idx: usize = 0;
        while idx < n
            invariant
                0 <= idx <= n,
                n == paths@.len(),
                out@.len() == idx,
                forall|i: int|
                    0 <= i < idx ==> {
                        &&& #[trigger] branch_template_of(paths@[i]@) == Some(
                            (out@[i].name@, out@[i].format),
                        )
                        &&& out@[i].path@ == paths@[i]@
                    },
            decreases n - idx,
        {
            match BranchTemplate::new(paths[idx].clone()) {
                Ok(t) => out.push(t),
                Err(e) => {
                    return Err(e);
                },
            }
            idx = idx + 1;
        }
        Ok(out)
    }
}

impl RootTemplate {
    /// Classifies a root template file, whose filename must end in
    /// `.tex.hbs`; its name is what precedes that suffix.
    pub fn new(path: String) -> (r: Result<RootTemplate, KiwiError>)
        ensures
            match r {
                Ok(t) => {
                    &&& root_template_of(path@) == Some(t.name@)
                    &&& t.path@ == path@
                },
                Err(e) => {
                    &&& root_template_of(path@) is None
                    &&& e == KiwiError::InvalidTemplateName(path)
                },
            },
    {
        let f = file_name(path.as_str());
        let flen = f.unicode_len();
        if ends_with_str(f, ".tex.hbs") {
            proof {
                reveal_strlit(".tex.hbs");
                assert(f@.subrange(0, f@.len() - 8) =~= f@.take(f@.len() - 8));
            }
            let name = f.substring_char(0, flen - 8).to_owned();
            Ok(RootTemplate { name, path })
        } else {
            Err(KiwiError::InvalidTemplateName(path))
        }
    }

    /// Resolves the filename recorded in a branch's preamble to the root
    /// template it names, under the root-template directory.
    pub fn from_filename(filename: &str) -> (r: Result<RootTemplate, KiwiError>)
        ensures
            match r {
                Ok(t) => {
                    &&& t.path@ == "templates/root/"@ + filename@
                    &&& root_template_of(t.path@) == Some(t.name@)
                },
                Err(e) => {
                    &&& root_template_of("templates/root/"@ + filename@) is None
                    &&& e matches KiwiError::InvalidTemplateName(p) && p@ == "templates/root/"@
                        + filename@
                },
            },
    {
        let mut path = "templates/root/".to_owned();
        path.append(filename);
        RootTemplate::new(path)
    }

    /// Classifies every file of the root-template directory; one
    /// unrecognized filename fails the whole batch.
    pub fn get_all(paths: Vec<String>) -> (r: Result<Vec<RootTemplate>, KiwiError>)
        ensures
            match r {
                Ok(ts) => {
                    &&& ts@.len() == paths@.len()
                    &&& forall|i: int|
                        0 <= i < paths@.len() ==> {
                            &&& #[trigger] root_template_of(paths@[i]@) == Some(ts@[i].name@)
                            &&& ts@[i].path@ == paths@[i]@
                        }
                },
                Err(e) => exists|i: int|
                    0 <= i < paths@.len() && #[trigger] root_template_of(paths@[i]@) is None,
            },
    {
        let n = paths.len();
        let mut out: Vec<RootTemplate> = Vec::new();
        let mut idx: usize = 0;
        while idx < n
            invariant
                0 <= idx <= n,
                n == paths@.len(),
                out@.len() == idx,
                forall|i: int|
                    0 <= i < idx ==> {
                        &&& #[trigger] root_template_of(paths@[i]@) == Some(out@[i].name@)
                        &&& out@[i].path@ == paths@[i]@
                    },
            decreases n - idx,
        {
            match RootTemplate::new(paths[idx].clone()) {
                Ok(t) => out.push(t),
                Err(e) => {
                    return Err(e);
                },
            }
            idx = idx + 1;
        }
        Ok(out)
    }
}

} // verus!
