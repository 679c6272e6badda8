//! The template injector: the character-escaping rule applied to strings
//! interpolated into LaTeX, the context a branch exposes to its templates,
//! and the rendering entry point.  Escaping prefixes each of `& $ # %` with
//! a backslash unless the character is already preceded by one, so
//! pre-escaped input is not escaped twice; Markdown applies no escaping.

use vstd::prelude::*;

use crate::branch::{Branch, BranchV};
use crate::conf::{Config, Format};
use crate::dates::{
    long_date, long_date_spec, month_name, month_name_spec, simple_date, simple_date_spec, Date,
};
use crate::error::KiwiError;
use crate::render::{
    dot_free, empty_entries, hb_render, jmap_entries, jmap_insert_obj, jmap_insert_str, jmap_new,
    key_under, lemma_not_under_diff, lemma_not_under_via_prefix, prefixed_entries,
    render_error_text, render_ok, rendered, ContextData,
};
use crate::text::{dec_spec, push_char, u32_dec};

verus! {

/// The characters that LaTeX interpolation escapes.
pub open spec fn is_special(c: char) -> bool {
    c == '&' || c == '$' || c == '#' || c == '%'
}

/// The escaped rendering of the suffix of `s` that starts at `i`: each
/// special character is prefixed with a backslash unless the character
/// before it in `s` is already a backslash.
pub open spec fn esc_at(s: Seq<char>, i: int) -> Seq<char>
    decreases s.len() - i,
{
    if i < 0 || i >= s.len() {
        Seq::empty()
    } else {
        let shielded = i > 0 && s[i - 1] == '\\';
        let piece = if is_special(s[i]) && !shielded {
            seq!['\\', s[i]]
        } else {
            seq![s[i]]
        };
        piece + esc_at(s, i + 1)
    }
}

/// The LaTeX escaping of a whole string.
pub open spec fn escape_latex(s: Seq<char>) -> Seq<char> {
    esc_at(s, 0)
}

/// What escaping does per format: LaTeX escapes, Markdown is the identity.
pub open spec fn escape_spec(s: Seq<char>, fmt: Format) -> Seq<char> {
    match fmt {
        Format::LaTeX => escape_latex(s),
        Format::Markdown => s,
    }
}

/// Every special character of `s` already has a backslash before it.
pub open spec fn all_shielded(s: Seq<char>) -> bool {
    forall|j: int| 0 <= j < s.len() && is_special(#[trigger] s[j]) ==> j > 0 && s[j - 1] == '\\'
}

fn is_special_exec(c: char) -> (r: bool)
    ensures
        r == is_special(c),
{
    c == '&' || c == '$' || c == '#' || c == '%'
}

/// Escapes a string for interpolation: under LaTeX each of `& $ # %` gets a
/// backslash prefix unless the preceding character of the input is already a
/// backslash; under Markdown the input is returned unchanged.
pub fn custom_escape(s: &str, format: &Format) -> (r: String)
    ensures
        r@ == escape_spec(s@, *format),
{
    if let Format::Markdown = format {
        return s.to_owned();
    }
    let len = s.unicode_len();
    let mut out = String::new();
    let mut i: usize = 0;
    proof {
        assert(out@ + esc_at(s@, 0) =~= esc_at(s@, 0));
    }
    while i < len
        invariant
            0 <= i <= len,
            len == s@.len(),
            escape_latex(s@) == out@ + esc_at(s@, i as int),
        decreases len - i,
    {
        let c = s.get_char(i);
        let shielded = i > 0 && s.get_char(i - 1) == '\\';
        let ghost pre = out@;
        if is_special_exec(c) && !shielded {
            push_char(&mut out, '\\');
            push_char(&mut out, c);
            proof {
                assert(out@ =~= pre + seq!['\\', c]);
                assert(pre + (seq!['\\', c] + esc_at(s@, i + 1)) =~= (pre + seq!['\\', c]) + esc_at(
                    s@,
                    i + 1,
                ));
            }
        } else {
            push_char(&mut out, c);
            proof {
                assert(out@ =~= pre + seq![c]);
                assert(pre + (seq![c] + esc_at(s@, i + 1)) =~= (pre + seq![c]) + esc_at(s@, i + 1));
            }
        }
        i = i + 1;
    }
    out
}

proof fn lemma_esc_at_shielded(s: Seq<char>, i: int)
    requires
        0 <= i <= s.len(),
    ensures
        forall|j: int|
            0 <= j < esc_at(s, i).len() && is_special(#[trigger] esc_at(s, i)[j]) ==> (j > 0
                && esc_at(s, i)[j - 1] == '\\') || (j == 0 && i > 0 && s[i - 1] == '\\'),
    decreases s.len() - i,
{
    if i < s.len() {
        lemma_esc_at_shielded(s, i + 1);
        let o = esc_at(s, i);
        let tail = esc_at(s, i + 1);
        let shielded = i > 0 && s[i - 1] == '\\';
        let piece = if is_special(s[i]) && !shielded {
            seq!['\\', s[i]]
        } else {
            seq![s[i]]
        };
        assert(o == piece + tail);
        assert forall|j: int| 0 <= j < o.len() && is_special(#[trigger] o[j]) implies (j > 0 && o[j
            - 1] == '\\') || (j == 0 && i > 0 && s[i - 1] == '\\') by {
            if j >= piece.len() {
                assert(o[j] == tail[j - piece.len()]);
                if j - piece.len() > 0 {
                    assert(tail[j - piece.len() - 1] == o[j - 1]);
                } else {
                    // the first char of the tail, special: it is shielded in
                    // the tail's sense by s[i], so s[i] is a backslash, and
                    // s[i] is precisely the last char of the piece
                    assert(s[i] == '\\');
                    assert(o[j - 1] == piece[piece.len() - 1]);
                }
            } else {
                if piece.len() == 2 {
                    if j == 1 {
                        assert(o[0] == '\\');
                    }
                } else {
                    // a lone special first char is only kept when shielded
                }
            }
        }
    }
}

proof fn lemma_esc_at_identity(s: Seq<char>, i: int)
    requires
        0 <= i <= s.len(),
        all_shielded(s),
    ensures
        esc_at(s, i) == s.skip(i),
    decreases s.len() - i,
{
    if i < s.len() {
        lemma_esc_at_identity(s, i + 1);
        assert(seq![s[i]] + s.skip(i + 1) =~= s.skip(i));
    } else {
        assert(s.skip(i) =~= Seq::<char>::empty());
    }
}

/// After escaping, every special character is shielded by a backslash.
pub proof fn lemma_escape_latex_shields(s: Seq<char>)
    ensures
        all_shielded(escape_latex(s)),
{
    lemma_esc_at_shielded(s, 0);
}

/// A string whose special characters are all backslash-escaped already is
/// left unchanged: pre-escaped input is never escaped twice.
pub proof fn lemma_escape_shielded_identity(s: Seq<char>)
    requires
        all_shielded(s),
    ensures
        escape_latex(s) == s,
{
    lemma_esc_at_identity(s, 0);
    assert(s.skip(0) =~= s);
}

/// LaTeX escaping is idempotent: escaping an escaped string changes nothing.
pub proof fn lemma_escape_latex_idempotent(s: Seq<char>)
    ensures
        escape_latex(escape_latex(s)) == escape_latex(s),
{
    lemma_escape_latex_shields(s);
    lemma_escape_shielded_identity(escape_latex(s));
}

/// Markdown escaping is the identity on every input.
pub proof fn lemma_escape_markdown_identity(s: Seq<char>)
    ensures
        escape_spec(s, Format::Markdown) == s,
{
}

/// The fixed LaTeX preamble block every root template may interpolate: the
/// macros (`\tightlist` and relatives) that output of the external
/// Markdown-to-LaTeX converter expects; harmless when unused.
pub open spec fn required_preamble_spec() -> Seq<char> {
    "
% PANDOC STUFF:
\\usepackage{iftex}
\\ifPDFTeX
  \\usepackage[T1]{fontenc}
  \\usepackage[utf8]{inputenc}
  \\usepackage{textcomp} % provide euro and other symbols
\\else % if luatex or xetex
  \\usepackage{unicode-math}
  \\defaultfontfeatures{Scale=MatchLowercase}
  \\defaultfontfeatures[\\rmfamily]{Ligatures=TeX,Scale=1}
\\fi
% Use upquote if available, for straight quotes in verbatim environments
\\IfFileExists{upquote.sty}{\\usepackage{upquote}}{}
\\IfFileExists{microtype.sty}{% use microtype if available
  \\usepackage[]{microtype}
  \\UseMicrotypeSet[protrusion]{basicmath} % disable protrusion for tt fonts
}{}
\\makeatletter
\\@ifundefined{KOMAClassName}{% if non-KOMA class
  \\IfFileExists{parskip.sty}{%
    \\usepackage{parskip}
  }{% else
    \\setlength{\\parindent}{0pt}
    \\setlength{\\parskip}{6pt plus 2pt minus 1pt}}
}{% if KOMA class
  \\KOMAoptions{parskip=half}}
\\makeatother
\\usepackage{xcolor}
\\IfFileExists{xurl.sty}{\\usepackage{xurl}}{} % add URL line breaks if available
\\IfFileExists{bookmark.sty}{\\usepackage{bookmark}}{\\usepackage{hyperref}}
\\hypersetup{
  hidelinks,
  pdfcreator={LaTeX via pandoc}}
\\urlstyle{same} % disable monospaced font for URLs
\\usepackage{longtable,booktabs,array}
\\usepackage{calc} % for calculating minipage widths
% Correct order of tables after \\paragraph or \\subparagraph
\\usepackage{etoolbox}
\\makeatletter
\\patchcmd\\longtable{\\par}{\\if@noskipsec\\mbox{}\\fi\\par}{}{}
\\makeatother
% Allow footnotes in longtable head/foot
\\IfFileExists{footnotehyper.sty}{\\usepackage{footnotehyper}}{\\usepackage{footnote}}
\\makesavenoteenv{longtable}
\\setlength{\\emergencystretch}{3em} % prevent overfull lines
\\providecommand{\\tightlist}{%
  \\setlength{\\itemsep}{0pt}\\setlength{\\parskip}{0pt}}
\\setcounter{secnumdepth}{-\\maxdimen} % remove section numbering
\\ifLuaTeX
  \\usepackage{selnolig}  % disable illegal ligatures
\\fi
"@
}

/// The fixed LaTeX preamble block, as a value.
pub fn required_preamble() -> (s: &'static str)
    ensures
        s@ == required_preamble_spec(),
{
    "
% PANDOC STUFF:
\\usepackage{iftex}
\\ifPDFTeX
  \\usepackage[T1]{fontenc}
  \\usepackage[utf8]{inputenc}
  \\usepackage{textcomp} % provide euro and other symbols
\\else % if luatex or xetex
  \\usepackage{unicode-math}
  \\defaultfontfeatures{Scale=MatchLowercase}
  \\defaultfontfeatures[\\rmfamily]{Ligatures=TeX,Scale=1}
\\fi
% Use upquote if available, for straight quotes in verbatim environments
\\IfFileExists{upquote.sty}{\\usepackage{upquote}}{}
\\IfFileExists{microtype.sty}{% use microtype if available
  \\usepackage[]{microtype}
  \\UseMicrotypeSet[protrusion]{basicmath} % disable protrusion for tt fonts
}{}
\\makeatletter
\\@ifundefined{KOMAClassName}{% if non-KOMA class
  \\IfFileExists{parskip.sty}{%
    \\usepackage{parskip}
  }{% else
    \\setlength{\\parindent}{0pt}
    \\setlength{\\parskip}{6pt plus 2pt minus 1pt}}
}{% if KOMA class
  \\KOMAoptions{parskip=half}}
\\makeatother
\\usepackage{xcolor}
\\IfFileExists{xurl.sty}{\\usepackage{xurl}}{} % add URL line breaks if available
\\IfFileExists{bookmark.sty}{\\usepackage{bookmark}}{\\usepackage{hyperref}}
\\hypersetup{
  hidelinks,
  pdfcreator={LaTeX via pandoc}}
\\urlstyle{same} % disable monospaced font for URLs
\\usepackage{longtable,booktabs,array}
\\usepackage{calc} % for calculating minipage widths
% Correct order of tables after \\paragraph or \\subparagraph
\\usepackage{etoolbox}
\\makeatletter
\\patchcmd\\longtable{\\par}{\\if@noskipsec\\mbox{}\\fi\\par}{}{}
\\makeatother
% Allow footnotes in longtable head/foot
\\IfFileExists{footnotehyper.sty}{\\usepackage{footnotehyper}}{\\usepackage{footnote}}
\\makesavenoteenv{longtable}
\\setlength{\\emergencystretch}{3em} % prevent overfull lines
\\providecommand{\\tightlist}{%
  \\setlength{\\itemsep}{0pt}\\setlength{\\parskip}{0pt}}
\\setcounter{secnumdepth}{-\\maxdimen} % remove section numbering
\\ifLuaTeX
  \\usepackage{selnolig}  % disable illegal ligatures
\\fi
"
}

/// The format whose escaping and date markup a render uses: a Markdown
/// branch being built (content present) has already been converted to
/// LaTeX, so only a Markdown branch being scaffolded stays Markdown.
pub open spec fn effective_format_spec(fmt: Format, has_content: bool) -> Format {
    if fmt is LaTeX || has_content {
        Format::LaTeX
    } else {
        Format::Markdown
    }
}

/// The markup that opens the superscript around the ordinal day suffix.
pub open spec fn sup_open_spec(fmt: Format) -> Seq<char> {
    match fmt {
        Format::Markdown => "^"@,
        Format::LaTeX => "\\textsuperscript{"@,
    }
}

/// The markup that closes the superscript around the ordinal day suffix.
pub open spec fn sup_close_spec(fmt: Format) -> Seq<char> {
    match fmt {
        Format::Markdown => "^"@,
        Format::LaTeX => "}"@,
    }
}

fn sup_open(fmt: &Format) -> (s: &'static str)
    ensures
        s@ == sup_open_spec(*fmt),
{
    match fmt {
        Format::Markdown => "^",
        Format::LaTeX => "\\textsuperscript{",
    }
}

fn sup_close(fmt: &Format) -> (s: &'static str)
    ensures
        s@ == sup_close_spec(*fmt),
{
    match fmt {
        Format::Markdown => "^",
        Format::LaTeX => "}",
    }
}

/// The `time` entries of the context: the ISO date, day, year, month name
/// and the long human date with the format's superscript markup.
pub open spec fn time_entries(d: Date, eff: Format) -> Map<Seq<char>, Seq<char>> {
    empty_entries().insert("simple_date"@, simple_date_spec(d)).insert(
        "day"@,
        dec_spec(d.day as nat),
    ).insert("year"@, dec_spec(d.year as nat)).insert("month"@, month_name_spec(d.month)).insert(
        "date"@,
        long_date_spec(d, sup_open_spec(eff), sup_close_spec(eff)),
    )
}

/// The `class` entries of the context: the escaped class name and the
/// teacher.
pub open spec fn class_entries(b: BranchV, eff: Format) -> Map<Seq<char>, Seq<char>> {
    empty_entries().insert("name"@, escape_spec(b.class.name, eff)).insert(
        "teacher"@,
        b.class.teacher,
    )
}

/// The `branch` entries of the context: the source filename and the raw
/// branch content being embedded.
pub open spec fn branch_entries(b: BranchV, content: Seq<char>) -> Map<Seq<char>, Seq<char>> {
    empty_entries().insert("filename"@, b.name + b.format.extension_spec()).insert(
        "content"@,
        content,
    )
}

/// The `root` entries of the context: the root template's filename without
/// its template suffix.
pub open spec fn root_entries(b: BranchV) -> Map<Seq<char>, Seq<char>> {
    empty_entries().insert("filename"@, b.root_template.name + ".tex"@)
}

/// Everything a branch exposes to its templates, as the flat map from
/// dotted variable paths to values: author, escaped name, document type,
/// the required preamble, the escaped image directory reference, and the
/// nested `time`, `class`, `branch` and `root` objects.
pub open spec fn inject_context_spec(
    b: BranchV,
    author: Seq<char>,
    content: Seq<char>,
    has_content: bool,
) -> Map<Seq<char>, Seq<char>> {
    let eff = effective_format_spec(b.format, has_content);
    empty_entries().insert("author"@, author).insert("name"@, escape_spec(b.name, eff)).insert(
        "type"@,
        b.doc_type.name_spec(),
    ).insert("required_preamble"@, required_preamble_spec()).insert(
        "imgs_dir"@,
        "{"@ + escape_spec("../"@ + b.imgs_dir, eff) + "/}"@,
    ).union_prefer_right(prefixed_entries("time"@, time_entries(b.creation_time, eff)))
        .union_prefer_right(prefixed_entries("class"@, class_entries(b, eff))).union_prefer_right(
        prefixed_entries("branch"@, branch_entries(b, content)),
    ).union_prefer_right(prefixed_entries("root"@, root_entries(b)))
}

/// The context holds exactly the fields the templates were written against,
/// addressable by these dotted paths with these values.
#[verifier::rlimit(100)]
#[verifier::spinoff_prover]
pub proof fn lemma_context_entry_paths(
    b: BranchV,
    author: Seq<char>,
    content: Seq<char>,
    has_content: bool,
)
    ensures
        ({
            let m = inject_context_spec(b, author, content, has_content);
            let eff = effective_format_spec(b.format, has_content);
            &&& m["author"@] == author
            &&& m["name"@] == escape_spec(b.name, eff)
            &&& m["type"@] == b.doc_type.name_spec()
            &&& m["required_preamble"@] == required_preamble_spec()
            &&& m["imgs_dir"@] == "{"@ + escape_spec("../"@ + b.imgs_dir, eff) + "/}"@
            &&& m["time.simple_date"@] == simple_date_spec(b.creation_time)
            &&& m["time.day"@] == dec_spec(b.creation_time.day as nat)
            &&& m["time.year"@] == dec_spec(b.creation_time.year as nat)
            &&& m["time.month"@] == month_name_spec(b.creation_time.month)
            &&& m["time.date"@] == long_date_spec(
                b.creation_time,
                sup_open_spec(eff),
                sup_close_spec(eff),
            )
            &&& m["class.name"@] == escape_spec(b.class.name, eff)
            &&& m["class.teacher"@] == b.class.teacher
            &&& m["branch.filename"@] == b.name + b.format.extension_spec()
            &&& m["branch.content"@] == content
            &&& m["root.filename"@] == b.root_template.name + ".tex"@
        }),
{
    reveal_strlit("author");
    reveal_strlit("name");
    reveal_strlit("type");
    reveal_strlit("required_preamble");
    reveal_strlit("imgs_dir");
    reveal_strlit("time");
    reveal_strlit("class");
    reveal_strlit("branch");
    reveal_strlit("root");
    reveal_strlit("simple_date");
    reveal_strlit("day");
    reveal_strlit("year");
    reveal_strlit("month");
    reveal_strlit("date");
    reveal_strlit("teacher");
    reveal_strlit("filename");
    reveal_strlit("content");
    reveal_strlit("time.simple_date");
    reveal_strlit("time.day");
    reveal_strlit("time.year");
    reveal_strlit("time.month");
    reveal_strlit("time.date");
    reveal_strlit("class.name");
    reveal_strlit("class.teacher");
    reveal_strlit("branch.filename");
    reveal_strlit("branch.content");
    reveal_strlit("root.filename");
    assert("time.simple_date"@.take(4) =~= "time"@);
    assert("time.simple_date"@.skip(5) =~= "simple_date"@);
    assert("time.day"@.take(4) =~= "time"@);
    assert("time.day"@.skip(5) =~= "day"@);
    assert("time.year"@.take(4) =~= "time"@);
    assert("time.year"@.skip(5) =~= "year"@);
    assert("time.month"@.take(4) =~= "time"@);
    assert("time.month"@.skip(5) =~= "month"@);
    assert("time.date"@.take(4) =~= "time"@);
    assert("time.date"@.skip(5) =~= "date"@);
    assert("class.name"@.take(5) =~= "class"@);
    assert("class.name"@.skip(6) =~= "name"@);
    assert("class.teacher"@.take(5) =~= "class"@);
    assert("class.teacher"@.skip(6) =~= "teacher"@);
    assert("branch.filename"@.take(6) =~= "branch"@);
    assert("branch.filename"@.skip(7) =~= "filename"@);
    assert("branch.content"@.take(6) =~= "branch"@);
    assert("branch.content"@.skip(7) =~= "content"@);
    assert("root.filename"@.take(4) =~= "root"@);
    assert("root.filename"@.skip(5) =~= "filename"@);
    // ground characters that separate same-length keys and foreign prefixes
    assert("author"@[0] == 'a' && "name"@[0] == 'n' && "type"@[0] == 't' && "type"@[1] == 'y');
    assert("required_preamble"@[0] == 'r' && "required_preamble"@[1] == 'e');
    assert("imgs_dir"@[0] == 'i');
    assert("time"@[0] == 't' && "time"@[1] == 'i' && "class"@[0] == 'c');
    assert("branch"@[0] == 'b' && "root"@[0] == 'r' && "root"@[1] == 'o');
    assert("year"@[0] == 'y' && "date"@[0] == 'd' && "day"@[0] == 'd');
    assert("month"@[0] == 'm' && "simple_date"@[0] == 's');
    assert("teacher"@[0] == 't' && "filename"@[0] == 'f' && "content"@[0] == 'c');
    // no top-level key or foreign dotted key lies under another object's key
    assert("author"@.take(4)[0] == 'a');
    assert("required_preamble"@.take(4)[0] == 'r');
    assert("required_preamble"@.take(4)[1] == 'e');
    assert("required_preamble"@.take(5)[0] == 'r');
    assert("required_preamble"@.take(6)[0] == 'r');
    assert("imgs_dir"@.take(4)[0] == 'i');
    assert("imgs_dir"@.take(5)[0] == 'i');
    assert("imgs_dir"@.take(6)[0] == 'i');
    assert("time.simple_date"@.take(5)[0] == 't');
    assert("time.simple_date"@.take(6)[0] == 't');
    assert("time.day"@.take(5)[0] == 't');
    assert("time.day"@.take(6)[0] == 't');
    assert("time.year"@.take(5)[0] == 't');
    assert("time.year"@.take(6)[0] == 't');
    assert("time.month"@.take(5)[0] == 't');
    assert("time.month"@.take(6)[0] == 't');
    assert("time.date"@.take(5)[0] == 't');
    assert("time.date"@.take(6)[0] == 't');
    assert("class.name"@.take(4)[0] == 'c');
    assert("class.name"@.take(6)[0] == 'c');
    assert("class.teacher"@.take(4)[0] == 'c');
    assert("class.teacher"@.take(6)[0] == 'c');
    assert("branch.filename"@.take(4)[0] == 'b');
    assert("branch.content"@.take(4)[0] == 'b');
    // each dotted key carries the dot right after its object's key
    assert("time.simple_date"@[4] == '.');
    assert("time.day"@[4] == '.');
    assert("time.year"@[4] == '.');
    assert("time.month"@[4] == '.');
    assert("time.date"@[4] == '.');
    assert("class.name"@[5] == '.');
    assert("class.teacher"@[5] == '.');
    assert("branch.filename"@[6] == '.');
    assert("branch.content"@[6] == '.');
    assert("root.filename"@[4] == '.');
}

/// The document produced by rendering a root template against a branch's
/// context with the given embedded content.
pub open spec fn rendered_doc(
    template: Seq<char>,
    b: BranchV,
    author: Seq<char>,
    content: Seq<char>,
) -> Seq<char> {
    rendered(template, inject_context_spec(b, author, content, true))
}

/// Whether a root template renders against a branch's context with the
/// given embedded content.
pub open spec fn doc_renders(
    template: Seq<char>,
    b: BranchV,
    author: Seq<char>,
    content: Seq<char>,
) -> bool {
    render_ok(template, inject_context_spec(b, author, content, true))
}

#[verifier::rlimit(60)]
fn context_data(
    b: &Branch,
    config: &Config,
    content_str: String,
    eff: Format,
    Ghost(has_content): Ghost<bool>,
) -> (m: ContextData)
    requires
        b.creation_time.wf(),
        eff == effective_format_spec(b.format, has_content),
    ensures
        jmap_entries(m) == inject_context_spec(b@, config.author@, content_str@, has_content),
{
    proof {
        reveal_strlit("author");
        reveal_strlit("name");
        reveal_strlit("type");
        reveal_strlit("required_preamble");
        reveal_strlit("imgs_dir");
        reveal_strlit("time");
        reveal_strlit("class");
        reveal_strlit("branch");
        reveal_strlit("root");
        reveal_strlit("simple_date");
        reveal_strlit("day");
        reveal_strlit("year");
        reveal_strlit("month");
        reveal_strlit("date");
        reveal_strlit("teacher");
        reveal_strlit("filename");
        reveal_strlit("content");
    }
    let mut time_m = jmap_new();
    jmap_insert_str(&mut time_m, "simple_date", simple_date(&b.creation_time));
    proof {
        assert forall|k: Seq<char>| jmap_entries(time_m).dom().contains(k) implies !key_under(
            "day"@,
            k,
        ) by {
            lemma_not_under_diff("day"@, "simple_date"@, 0);
        }
    }
    jmap_insert_str(&mut time_m, "day", u32_dec(b.creation_time.day));
    proof {
        assert forall|k: Seq<char>| jmap_entries(time_m).dom().contains(k) implies !key_under(
            "year"@,
            k,
        ) by {
            lemma_not_under_diff("year"@, "simple_date"@, 0);
            lemma_not_under_diff("year"@, "day"@, 0);
        }
    }
    jmap_insert_str(&mut time_m, "year", u32_dec(b.creation_time.year));
    proof {
        assert forall|k: Seq<char>| jmap_entries(time_m).dom().contains(k) implies !key_under(
            "month"@,
            k,
        ) by {
            lemma_not_under_diff("month"@, "simple_date"@, 0);
            lemma_not_under_diff("month"@, "day"@, 0);
            lemma_not_under_diff("month"@, "year"@, 0);
        }
    }
    jmap_insert_str(&mut time_m, "month", month_name(b.creation_time.month));
    proof {
        assert forall|k: Seq<char>| jmap_entries(time_m).dom().contains(k) implies !key_under(
            "date"@,
            k,
        ) by {
            lemma_not_under_diff("date"@, "simple_date"@, 0);
            lemma_not_under_diff("date"@, "day"@, 2);
            lemma_not_under_diff("date"@, "year"@, 0);
            lemma_not_under_diff("date"@, "month"@, 0);
        }
    }
    jmap_insert_str(
        &mut time_m,
        "date",
        long_date(&b.creation_time, sup_open(&eff), sup_close(&eff)),
    );

    let mut class_m = jmap_new();
    jmap_insert_str(&mut class_m, "name", custom_escape(b.class.name.as_str(), &eff));
    proof {
        assert forall|k: Seq<char>| jmap_entries(class_m).dom().contains(k) implies !key_under(
            "teacher"@,
            k,
        ) by {
            lemma_not_under_diff("teacher"@, "name"@, 0);
        }
    }
    jmap_insert_str(&mut class_m, "teacher", b.class.teacher.clone());

    let mut branch_m = jmap_new();
    let mut fname = b.name.clone();
    fname.append(b.format.extension());
    jmap_insert_str(&mut branch_m, "filename", fname);
    proof {
        assert forall|k: Seq<char>| jmap_entries(branch_m).dom().contains(k) implies !key_under(
            "content"@,
            k,
        ) by {
            lemma_not_under_diff("content"@, "filename"@, 0);
        }
    }
    jmap_insert_str(&mut branch_m, "content", content_str);

    let mut root_m = jmap_new();
    let mut rootfile = b.root_template.name.clone();
    rootfile.append(".tex");
    jmap_insert_str(&mut root_m, "filename", rootfile);

    let mut data = jmap_new();
    jmap_insert_str(&mut data, "author", config.author.clone());
    proof {
        assert forall|k: Seq<char>| jmap_entries(data).dom().contains(k) implies !key_under(
            "name"@,
            k,
        ) by {
            lemma_not_under_diff("name"@, "author"@, 0);
        }
    }
    jmap_insert_str(&mut data, "name", custom_escape(b.name.as_str(), &eff));
    proof {
        assert forall|k: Seq<char>| jmap_entries(data).dom().contains(k) implies !key_under(
            "type"@,
            k,
        ) by {
            lemma_not_under_diff("type"@, "author"@, 0);
            lemma_not_under_diff("type"@, "name"@, 0);
        }
    }
    jmap_insert_str(&mut data, "type", b.doc_type.name());
    proof {
        assert forall|k: Seq<char>| jmap_entries(data).dom().contains(k) implies !key_under(
            "required_preamble"@,
            k,
        ) by {
            lemma_not_under_diff("required_preamble"@, "author"@, 0);
            lemma_not_under_diff("required_preamble"@, "name"@, 0);
            lemma_not_under_diff("required_preamble"@, "type"@, 0);
        }
    }
    jmap_insert_str(&mut data, "required_preamble", required_preamble().to_owned());
    let mut rel = "../".to_owned();
    rel.append(b.imgs_dir.as_str());
    let mut imgs = "{".to_owned();
    let escaped_rel = custom_escape(rel.as_str(), &eff);
    imgs.append(escaped_rel.as_str());
    imgs.append("/}");
    proof {
        assert forall|k: Seq<char>| jmap_entries(data).dom().contains(k) implies !key_under(
            "imgs_dir"@,
            k,
        ) by {
            lemma_not_under_diff("imgs_dir"@, "author"@, 0);
            lemma_not_under_diff("imgs_dir"@, "name"@, 0);
            lemma_not_under_diff("imgs_dir"@, "type"@, 0);
            lemma_not_under_diff("imgs_dir"@, "required_preamble"@, 0);
        }
    }
    jmap_insert_str(&mut data, "imgs_dir", imgs);
    proof {
        assert(jmap_entries(time_m) != empty_entries()) by {
            assert(jmap_entries(time_m).dom().contains("date"@));
            assert(!empty_entries().dom().contains("date"@));
        }
        assert forall|k: Seq<char>| jmap_entries(data).dom().contains(k) implies !key_under(
            "time"@,
            k,
        ) by {
            lemma_not_under_diff("time"@, "author"@, 0);
            lemma_not_under_diff("time"@, "name"@, 0);
            lemma_not_under_diff("time"@, "type"@, 1);
            lemma_not_under_diff("time"@, "required_preamble"@, 0);
            lemma_not_under_diff("time"@, "imgs_dir"@, 0);
        }
    }
    jmap_insert_obj(&mut data, "time", time_m);
    proof {
        assert(jmap_entries(class_m) != empty_entries()) by {
            assert(jmap_entries(class_m).dom().contains("teacher"@));
            assert(!empty_entries().dom().contains("teacher"@));
        }
        assert forall|k: Seq<char>| jmap_entries(data).dom().contains(k) implies !key_under(
            "class"@,
            k,
        ) by {
            lemma_not_under_diff("class"@, "author"@, 0);
            lemma_not_under_diff("class"@, "name"@, 0);
            lemma_not_under_diff("class"@, "type"@, 0);
            lemma_not_under_diff("class"@, "required_preamble"@, 0);
            lemma_not_under_diff("class"@, "imgs_dir"@, 0);
            if k.len() > "time"@.len() + 1 && k.take(4) == "time"@ {
                lemma_not_under_via_prefix("class"@, "time"@, k, 0);
            }
        }
    }
    jmap_insert_obj(&mut data, "class", class_m);
    proof {
        assert(jmap_entries(branch_m) != empty_entries()) by {
            assert(jmap_entries(branch_m).dom().contains("content"@));
            assert(!empty_entries().dom().contains("content"@));
        }
        assert forall|k: Seq<char>| jmap_entries(data).dom().contains(k) implies !key_under(
            "branch"@,
            k,
        ) by {
            lemma_not_under_diff("branch"@, "author"@, 0);
            lemma_not_under_diff("branch"@, "name"@, 0);
            lemma_not_under_diff("branch"@, "type"@, 0);
            lemma_not_under_diff("branch"@, "required_preamble"@, 0);
            lemma_not_under_diff("branch"@, "imgs_dir"@, 0);
            if k.len() > "time"@.len() + 1 && k.take(4) == "time"@ {
                lemma_not_under_via_prefix("branch"@, "time"@, k, 0);
            }
            if k.len() > "class"@.len() + 1 && k.take(5) == "class"@ {
                lemma_not_under_via_prefix("branch"@, "class"@, k, 0);
            }
        }
    }
    jmap_insert_obj(&mut data, "branch", branch_m);
    proof {
        assert(jmap_entries(root_m) != empty_entries()) by {
            assert(jmap_entries(root_m).dom().contains("filename"@));
            assert(!empty_entries().dom().contains("filename"@));
        }
        assert forall|k: Seq<char>| jmap_entries(data).dom().contains(k) implies !key_under(
            "root"@,
            k,
        ) by {
            lemma_not_under_diff("root"@, "author"@, 0);
            lemma_not_under_diff("root"@, "name"@, 0);
            lemma_not_under_diff("root"@, "type"@, 0);
            lemma_not_under_diff("root"@, "required_preamble"@, 1);
            lemma_not_under_diff("root"@, "imgs_dir"@, 0);
            if k.len() > "time"@.len() + 1 && k.take(4) == "time"@ {
                lemma_not_under_via_prefix("root"@, "time"@, k, 0);
            }
            if k.len() > "class"@.len() + 1 && k.take(5) == "class"@ {
                lemma_not_under_via_prefix("root"@, "class"@, k, 0);
            }
            if k.len() > "branch"@.len() + 1 && k.take(6) == "branch"@ {
                lemma_not_under_via_prefix("root"@, "branch"@, k, 0);
            }
        }
    }
    jmap_insert_obj(&mut data, "root", root_m);
    data
}

impl Branch {
    /// Renders a template against this branch's context: a fresh document
    /// when scaffolding (no branch content), or the final assembled source
    /// when building (the converted or raw branch content supplied).  It
    /// succeeds exactly when the engine renders the template against the
    /// context of `inject_context_spec` — success and output alike are
    /// functions of the branch, the author, the template text and the
    /// content, so identical calls agree; a template referencing anything
    /// the context lacks fails rather than rendering an empty value.
    pub fn inject(
        &self,
        config: &Config,
        template_content: String,
        branch_content: Option<String>,
    ) -> (r: Result<String, KiwiError>)
        requires
            self.creation_time.wf(),
        ensures
            (r is Ok) == render_ok(
                template_content@,
                inject_context_spec(
                    self@,
                    config.author@,
                    match branch_content {
                        Some(c) => c@,
                        None => Seq::empty(),
                    },
                    branch_content is Some,
                ),
            ),
            r matches Ok(s) ==> s@ == rendered(
                template_content@,
                inject_context_spec(
                    self@,
                    config.author@,
                    match branch_content {
                        Some(c) => c@,
                        None => Seq::empty(),
                    },
                    branch_content is Some,
                ),
            ),
            r matches Err(e) ==> e is TemplateRender,
    {
        let ghost has = branch_content is Some;
        let eff = match self.format {
            Format::LaTeX => Format::LaTeX,
            Format::Markdown => {
                if branch_content.is_some() {
                    Format::LaTeX
                } else {
                    Format::Markdown
                }
            },
        };
        let content_str = match branch_content {
            Some(c) => c,
            None => String::new(),
        };
        let data = context_data(self, config, content_str, eff, Ghost(has));
        match hb_render(template_content.as_str(), &data) {
            Ok(s) => Ok(s),
            Err(e) => Err(KiwiError::TemplateRender(render_error_text(&e))),
        }
    }
}

} // verus!

