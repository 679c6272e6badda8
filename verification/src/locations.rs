//! The fixed names of the directory layout: where sources, PDFs, images,
//! templates and the transient build workspace live.

use vstd::prelude::*;

verus! {

/// The directory holding branch source files.
pub fn branches_folder() -> (s: &'static str)
    ensures
        s@ == "docs"@,
{
    "docs"
}

/// The directory holding built PDFs.
pub fn pdfs_folder() -> (s: &'static str)
    ensures
        s@ == "pdfs"@,
{
    "pdfs"
}

/// The directory holding per-branch image assets.
pub fn images_folder() -> (s: &'static str)
    ensures
        s@ == "imgs"@,
{
    "imgs"
}

/// The directory holding the template tree.
pub fn templates_folder() -> (s: &'static str)
    ensures
        s@ == "templates"@,
{
    "templates"
}

/// The transient build workspace.
pub fn build_folder() -> (s: &'static str)
    ensures
        s@ == ".build"@,
{
    ".build"
}

/// The subdirectory of the template tree holding branch templates.
pub fn branch_templates_folder() -> (s: &'static str)
    ensures
        s@ == "branch"@,
{
    "branch"
}

/// The subdirectory of the template tree holding root templates.
pub fn root_templates_folder() -> (s: &'static str)
    ensures
        s@ == "root"@,
{
    "root"
}

/// The configuration file at the project root.
pub fn config_file() -> (s: &'static str)
    ensures
        s@ == "kiwi.toml"@,
{
    "kiwi.toml"
}

/// The LaTeX source written into the build workspace.
pub fn latex_build_file() -> (s: &'static str)
    ensures
        s@ == "main.tex"@,
{
    "main.tex"
}

/// The PDF the build produces inside the workspace.
pub fn pdf_build_file() -> (s: &'static str)
    ensures
        s@ == "main.pdf"@,
{
    "main.pdf"
}

/// The log preserved inside the workspace when the compile fails.
pub fn fail_log_file() -> (s: &'static str)
    ensures
        s@ == "failure.log"@,
{
    "failure.log"
}

} // verus!
