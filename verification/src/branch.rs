//! The central entity: one document instance.  A branch's locations on disk
//! — source path, PDF path and image directory — are derived purely from its
//! identity, with the month segment taken from the creation date, never from
//! the clock.  Parsing reconstructs a branch from a source file's path and
//! its embedded preamble; batch discovery parses a whole tree and orders it
//! by modification time.

use vstd::prelude::*;

use crate::conf::{classes_view, find_class_spec, Class, ClassV, Config, DocumentType, Format};
use crate::dates::{date_of_str, is_date_shape, month_name_spec, parse_date, Date};
use crate::error::KiwiError;
use crate::preamble::{lookup_spec, scan_lines_spec, scan_preamble};
use crate::template::{
    root_template_of, BranchTemplate, BranchTemplateV, RootTemplate, RootTemplateV,
};
use crate::text::{
    ends_with_spec, file_name, file_name_spec, split_char, split_spec,
};

verus! {

/// One document instance.  The location fields are always the canonical
/// locations derived from the identity fields.
#[derive(Debug, PartialEq, Eq)]
pub struct Branch {
    pub name: String,
    pub format: Format,
    pub doc_type: DocumentType,
    pub class: Class,
    pub path: String,
    pub pdf_path: String,
    pub imgs_dir: String,
    pub branch_template: Option<BranchTemplate>,
    pub root_template: RootTemplate,
    pub creation_time: Date,
    pub mod_time: u64,
}

/// The mathematical value of a `Branch`.
pub ghost struct BranchV {
    pub name: Seq<char>,
    pub format: Format,
    pub doc_type: DocumentType,
    pub class: ClassV,
    pub path: Seq<char>,
    pub pdf_path: Seq<char>,
    pub imgs_dir: Seq<char>,
    pub branch_template: Option<BranchTemplateV>,
    pub root_template: RootTemplateV,
    pub creation_time: Date,
    pub mod_time: u64,
}

impl View for Branch {
    type V = BranchV;

    open spec fn view(&self) -> BranchV {
        BranchV {
            name: self.name@,
            format: self.format,
            doc_type: self.doc_type,
            class: self.class@,
            path: self.path@,
            pdf_path: self.pdf_path@,
            imgs_dir: self.imgs_dir@,
            branch_template: match self.branch_template {
                Some(t) => Some(t@),
                None => None,
            },
            root_template: self.root_template@,
            creation_time: self.creation_time,
            mod_time: self.mod_time,
        }
    }
}

/// The canonical source location of a branch:
/// `docs/<class>/<month of creation>/<type>/<name><extension>`.
pub open spec fn branch_path_spec(
    class_name: Seq<char>,
    month: u32,
    doc_type: DocumentType,
    name: Seq<char>,
    format: Format,
) -> Seq<char> {
    "docs/"@ + class_name + "/"@ + crate::dates::month_name_spec(month) + "/"@
        + doc_type.name_spec() + "/"@ + name + format.extension_spec()
}

/// The canonical PDF location of a branch:
/// `pdfs/<class>/<month of creation>/<type>/<name>.pdf`.
pub open spec fn pdf_path_spec(
    class_name: Seq<char>,
    month: u32,
    doc_type: DocumentType,
    name: Seq<char>,
) -> Seq<char> {
    "pdfs/"@ + class_name + "/"@ + crate::dates::month_name_spec(month) + "/"@
        + doc_type.name_spec() + "/"@ + name + ".pdf"@
}

/// The canonical image directory of a branch:
/// `imgs/<class>/<month of creation>/<name>`.
pub open spec fn imgs_dir_spec(class_name: Seq<char>, month: u32, name: Seq<char>) -> Seq<char> {
    "imgs/"@ + class_name + "/"@ + crate::dates::month_name_spec(month) + "/"@ + name
}

impl Branch {
    /// Builds a branch from its identity, deriving the canonical locations.
    /// The month segment comes from `creation_time`, never from the clock,
    /// so re-deriving the locations later always gives the same result.
    pub fn new(
        name: String,
        format: Format,
        doc_type: DocumentType,
        class: Class,
        branch_template: Option<BranchTemplate>,
        root_template: RootTemplate,
        creation_time: Date,
        mod_time: u64,
    ) -> (b: Branch)
        requires
            1 <= creation_time.month <= 12,
        ensures
            b.name == name,
            b.format == format,
            b.doc_type == doc_type,
            b.class == class,
            b.branch_template == branch_template,
            b.root_template == root_template,
            b.creation_time == creation_time,
            b.mod_time == mod_time,
            b.path@ == branch_path_spec(class.name@, creation_time.month, doc_type, name@, format),
            b.pdf_path@ == pdf_path_spec(class.name@, creation_time.month, doc_type, name@),
            b.imgs_dir@ == imgs_dir_spec(class.name@, creation_time.month, name@),
    {
        let month = crate::dates::month_name(creation_time.month);
        let dt_name = doc_type.name();

        let mut path = "docs/".to_owned();
        path.append(class.name.as_str());
        path.append("/");
        path.append(month.as_str());
        path.append("/");
        path.append(dt_name.as_str());
        path.append("/");
        path.append(name.as_str());
        path.append(format.extension());

        let mut pdf_path = "pdfs/".to_owned();
        pdf_path.append(class.name.as_str());
        pdf_path.append("/");
        pdf_path.append(month.as_str());
        pdf_path.append("/");
        pdf_path.append(dt_name.as_str());
        pdf_path.append("/");
        pdf_path.append(name.as_str());
        pdf_path.append(".pdf");

        let mut imgs_dir = "imgs/".to_owned();
        imgs_dir.append(class.name.as_str());
        imgs_dir.append("/");
        imgs_dir.append(month.as_str());
        imgs_dir.append("/");
        imgs_dir.append(name.as_str());

        Branch {
            name,
            format,
            doc_type,
            class,
            path,
            pdf_path,
            imgs_dir,
            branch_template,
            root_template,
            creation_time,
            mod_time,
        }
    }
}

/// The branch a source file denotes, when every step of parsing succeeds:
/// the format from the extension, the creation date and root template from
/// the preamble, the document type and class from the path segments, and the
/// name from the filename.  `None` when any step fails.
pub open spec fn parse_spec(
    path: Seq<char>,
    content: Seq<char>,
    mod_time: u64,
    delim: Seq<char>,
    classes: Seq<ClassV>,
) -> Option<BranchV> {
    match Format::from_path_spec(path) {
        None => None,
        Some(fmt) => {
            let pairs = scan_lines_spec(split_spec(content, '\n'), delim, fmt);
            match lookup_spec(pairs, "created"@) {
                None => None,
                Some(created) => match lookup_spec(pairs, "root"@) {
                    None => None,
                    Some(rootv) => if !(is_date_shape(created) && date_of_str(created).wf()) {
                        None
                    } else {
                        match root_template_of("templates/root/"@ + rootv) {
                            None => None,
                            Some(root_name) => {
                                let segs = split_spec(path, '/');
                                if segs.len() < 4 {
                                    None
                                } else {
                                    match DocumentType::parse_spec(segs[segs.len() - 2]) {
                                        None => None,
                                        Some(dt) => {
                                            let ci = find_class_spec(
                                                classes,
                                                segs[segs.len() - 4],
                                            );
                                            if ci < 0 {
                                                None
                                            } else {
                                                let date = date_of_str(created);
                                                let f = file_name_spec(path);
                                                let nm = f.take(
                                                    f.len() - fmt.extension_spec().len(),
                                                );
                                                Some(
                                                    BranchV {
                                                        name: nm,
                                                        format: fmt,
                                                        doc_type: dt,
                                                        class: classes[ci],
                                                        path: branch_path_spec(
                                                            classes[ci].name,
                                                            date.month,
                                                            dt,
                                                            nm,
                                                            fmt,
                                                        ),
                                                        pdf_path: pdf_path_spec(
                                                            classes[ci].name,
                                                            date.month,
                                                            dt,
                                                            nm,
                                                        ),
                                                        imgs_dir: imgs_dir_spec(
                                                            classes[ci].name,
                                                            date.month,
                                                            nm,
                                                        ),
                                                        branch_template: None,
                                                        root_template: RootTemplateV {
                                                            path: "templates/root/"@ + rootv,
                                                            name: root_name,
                                                        },
                                                        creation_time: date,
                                                        mod_time,
                                                    },
                                                )
                                            }
                                        },
                                    }
                                }
                            },
                        }
                    },
                },
            }
        },
    }
}

/// Which error parsing reports, following the order of the checks: the
/// extension, the two required keys, the date, the root template, the path
/// shape, the document type, and the class.  False when parsing succeeds.
pub open spec fn parse_error_spec(
    path: Seq<char>,
    content: Seq<char>,
    delim: Seq<char>,
    classes: Seq<ClassV>,
    e: KiwiError,
) -> bool {
    match Format::from_path_spec(path) {
        None => e matches KiwiError::UnsupportedExtension(p) && p@ == path,
        Some(fmt) => {
            let pairs = scan_lines_spec(split_spec(content, '\n'), delim, fmt);
            if lookup_spec(pairs, "created"@) is None {
                e matches KiwiError::MissingRequiredField(k) && k@ == "created"@
            } else if lookup_spec(pairs, "root"@) is None {
                e matches KiwiError::MissingRequiredField(k) && k@ == "root"@
            } else {
                let created = lookup_spec(pairs, "created"@)->Some_0;
                let rootv = lookup_spec(pairs, "root"@)->Some_0;
                if !(is_date_shape(created) && date_of_str(created).wf()) {
                    e matches KiwiError::InvalidDateFormat(v) && v@ == created
                } else if root_template_of("templates/root/"@ + rootv) is None {
                    e matches KiwiError::InvalidTemplateName(p) && p@ == "templates/root/"@ + rootv
                } else {
                    let segs = split_spec(path, '/');
                    if segs.len() < 4 {
                        e matches KiwiError::PathShapeMismatch(p) && p@ == path
                    } else if DocumentType::parse_spec(segs[segs.len() - 2]) is None {
                        e matches KiwiError::UnknownDocumentType(v) && v@ == segs[segs.len() - 2]
                    } else if find_class_spec(classes, segs[segs.len() - 4]) < 0 {
                        e matches KiwiError::UnknownClass(v) && v@ == segs[segs.len() - 4]
                    } else {
                        false
                    }
                }
            }
        },
    }
}

impl Branch {
    /// Reconstructs a branch from an existing source file: `path` is where
    /// the file lies (`docs/<class>/<month>/<type>/<name><ext>`), `content`
    /// its text, and `mod_time` its filesystem modification time.  The
    /// returned branch carries the canonical locations re-derived from the
    /// recovered identity, and never a branch template.
    pub fn parse(path: String, config: &Config, content: &str, mod_time: u64) -> (r: Result<
        Branch,
        KiwiError,
    >)
        ensures
            match r {
                Ok(b) => parse_spec(
                    path@,
                    content@,
                    mod_time,
                    config.delimiter@,
                    classes_view(config),
                ) == Some(b@),
                Err(e) => {
                    &&& parse_spec(
                        path@,
                        content@,
                        mod_time,
                        config.delimiter@,
                        classes_view(config),
                    ) is None
                    &&& parse_error_spec(path@, content@, config.delimiter@, classes_view(config), e)
                },
            },
    {
        let fmt = match Format::from_path(path.as_str()) {
            Some(f) => f,
            None => {
                return Err(KiwiError::UnsupportedExtension(path));
            },
        };
        let lines = split_char(content, '\n');
        let meta = scan_preamble(&lines, config.delimiter.as_str(), fmt);
        let created = match meta.get("created") {
            Some(v) => v,
            None => {
                return Err(KiwiError::MissingRequiredField("created".to_owned()));
            },
        };
        let root_value = match meta.get("root") {
            Some(v) => v,
            None => {
                return Err(KiwiError::MissingRequiredField("root".to_owned()));
            },
        };
        let date = match parse_date(created.as_str()) {
            Some(d) => d,
            None => {
                return Err(KiwiError::InvalidDateFormat(created));
            },
        };
        let root_template = match RootTemplate::from_filename(root_value.as_str()) {
            Ok(t) => t,
            Err(e) => {
                return Err(e);
            },
        };
        let segs = split_char(path.as_str(), '/');
        let nsegs = segs.len();
        proof {
            assert(segs.deep_view().len() == segs@.len());
        }
        if nsegs < 4 {
            return Err(KiwiError::PathShapeMismatch(path));
        }
        proof {
            assert(segs.deep_view()[nsegs - 2] == segs@[nsegs - 2]@);
            assert(segs.deep_view()[nsegs - 4] == segs@[nsegs - 4]@);
        }
        let doc_type = match DocumentType::parse(segs[nsegs - 2].as_str()) {
            Some(t) => t,
            None => {
                return Err(KiwiError::UnknownDocumentType(segs[nsegs - 2].clone()));
            },
        };
        let class = match config.find_class(segs[nsegs - 4].as_str()) {
            Some(i) => config.classes[i].duplicate(),
            None => {
                return Err(KiwiError::UnknownClass(segs[nsegs - 4].clone()));
            },
        };
        let fname = file_name(path.as_str());
        let flen = fname.unicode_len();
        let ext = fmt.extension();
        let elen = ext.unicode_len();
        proof {
            reveal_strlit(".tex");
            reveal_strlit(".md");
            assert(forall|i: int|
                0 <= i < fmt.extension_spec().len() ==> fmt.extension_spec()[i] != '/') by {
                if fmt is LaTeX {
                    assert(forall|i: int| 0 <= i < 4 ==> ".tex"@[i] != '/');
                } else {
                    assert(forall|i: int| 0 <= i < 3 ==> ".md"@[i] != '/');
                }
            }
            crate::text::lemma_file_name_suffix(path@, fmt.extension_spec());
            assert(fname@.subrange(0, flen - elen) =~= fname@.take(fname@.len()
                - fmt.extension_spec().len()));
        }
        let name = fname.substring_char(0, flen - elen).to_owned();
        let b = Branch::new(name, fmt, doc_type, class, None, root_template, date, mod_time);
        proof {
            let ghost_spec = parse_spec(
                path@,
                content@,
                mod_time,
                config.delimiter@,
                classes_view(config),
            );
            assert(ghost_spec is Some);
            assert(ghost_spec->Some_0 == b@);
        }
        Ok(b)
    }
}

/// One source file of the document tree, as discovery hands it to parsing:
/// its path, its text, and its filesystem modification time.
#[derive(Debug, PartialEq, Eq)]
pub struct SourceFile {
    pub path: String,
    pub content: String,
    pub mod_time: u64,
}

/// The mathematical value of a `SourceFile`.
pub ghost struct SourceFileV {
    pub path: Seq<char>,
    pub content: Seq<char>,
    pub mod_time: u64,
}

impl View for SourceFile {
    type V = SourceFileV;

    open spec fn view(&self) -> SourceFileV {
        SourceFileV { path: self.path@, content: self.content@, mod_time: self.mod_time }
    }
}

/// The branches as mathematical values, in order.
pub open spec fn views_of(s: Seq<Branch>) -> Seq<BranchV> {
    s.map_values(|b: Branch| b@)
}

/// The files as mathematical values, in order.
pub open spec fn sources_view(s: Seq<SourceFile>) -> Seq<SourceFileV> {
    s.map_values(|f: SourceFile| f@)
}

/// Ordered by modification time, most recent first.
pub open spec fn sorted_desc(s: Seq<BranchV>) -> bool {
    forall|i: int, j: int| 0 <= i < j < s.len() ==> s[i].mod_time >= s[j].mod_time
}

/// Where a newly arrived branch lands among earlier ones: after every branch
/// at least as recent, before the first strictly older one.
pub open spec fn insert_pos(b: BranchV, s: Seq<BranchV>) -> int
    decreases s.len(),
{
    if s.len() == 0 {
        0
    } else if s[0].mod_time >= b.mod_time {
        1 + insert_pos(b, s.skip(1))
    } else {
        0
    }
}

/// Inserts a branch after every branch at least as recent.
pub open spec fn insert_desc(b: BranchV, s: Seq<BranchV>) -> Seq<BranchV>
    decreases s.len(),
{
    if s.len() == 0 {
        seq![b]
    } else if s[0].mod_time >= b.mod_time {
        seq![s[0]] + insert_desc(b, s.skip(1))
    } else {
        seq![b] + s
    }
}

/// Stable insertion sort by modification time, most recent first.
pub open spec fn sort_desc(s: Seq<BranchV>) -> Seq<BranchV>
    decreases s.len(),
{
    if s.len() == 0 {
        seq![]
    } else {
        insert_desc(s.last(), sort_desc(s.drop_last()))
    }
}

proof fn lemma_insert_pos(b: BranchV, s: Seq<BranchV>)
    ensures
        0 <= insert_pos(b, s) <= s.len(),
        insert_desc(b, s) == s.insert(insert_pos(b, s), b),
        forall|k: int| 0 <= k < insert_pos(b, s) ==> s[k].mod_time >= b.mod_time,
        insert_pos(b, s) == s.len() || s[insert_pos(b, s)].mod_time < b.mod_time,
    decreases s.len(),
{
    let j = insert_pos(b, s);
    if s.len() == 0 {
        assert(seq![b] =~= s.insert(0, b));
    } else if s[0].mod_time >= b.mod_time {
        lemma_insert_pos(b, s.skip(1));
        assert(seq![s[0]] + s.skip(1).insert(j - 1, b) =~= s.insert(j, b));
        assert(forall|k: int|
            0 <= k < j - 1 ==> s.skip(1)[k].mod_time >= b.mod_time ==> s[k + 1].mod_time
                >= b.mod_time);
        assert forall|k: int| 0 <= k < j implies s[k].mod_time >= b.mod_time by {
            if k > 0 {
                assert(s.skip(1)[k - 1] == s[k as int]);
            }
        }
        if j < s.len() {
            assert(s.skip(1)[j - 1] == s[j as int]);
        }
    } else {
        assert(seq![b] + s =~= s.insert(0, b));
    }
}

proof fn lemma_insert_desc_sorted(b: BranchV, s: Seq<BranchV>)
    requires
        sorted_desc(s),
    ensures
        sorted_desc(insert_desc(b, s)),
{
    lemma_insert_pos(b, s);
    let j = insert_pos(b, s);
    let r = s.insert(j, b);
    assert forall|i1: int, i2: int| 0 <= i1 < i2 < r.len() implies r[i1].mod_time
        >= r[i2].mod_time by {
        assert(forall|k: int| 0 <= k < j ==> r[k] == s[k]);
        assert(r[j] == b);
        assert(forall|k: int| j < k < r.len() ==> r[k] == s[k - 1]);
        if i1 < j && i2 > j {
            assert(s[i1].mod_time >= b.mod_time);
            assert(s[j as int].mod_time < b.mod_time);
        } else if i1 == j && i2 > j {
            assert(s[j as int].mod_time < b.mod_time);
            assert(s[i2 - 1].mod_time <= s[j as int].mod_time);
        }
    }
}

/// The collection that discovery returns is ordered by modification time,
/// strictly most-recent-first up to ties.
pub proof fn lemma_sort_desc_sorted(s: Seq<BranchV>)
    ensures
        sorted_desc(sort_desc(s)),
    decreases s.len(),
{
    if s.len() > 0 {
        lemma_sort_desc_sorted(s.drop_last());
        lemma_insert_desc_sorted(s.last(), sort_desc(s.drop_last()));
    }
}

/// Sorting rearranges the branches and loses none: the sorted collection
/// holds exactly the branches of the input.
pub proof fn lemma_sort_desc_permutes(s: Seq<BranchV>)
    ensures
        sort_desc(s).to_multiset() == s.to_multiset(),
    decreases s.len(),
{
    broadcast use vstd::seq_lib::group_to_multiset_ensures;

    if s.len() > 0 {
        lemma_sort_desc_permutes(s.drop_last());
        let sorted = sort_desc(s.drop_last());
        lemma_insert_pos(s.last(), sorted);
        let j = insert_pos(s.last(), sorted);
        let r = sorted.insert(j, s.last());
        assert(r =~= sorted.subrange(0, j).push(s.last()) + sorted.subrange(j, sorted.len() as int));
        vstd::seq_lib::lemma_multiset_commutative(
            sorted.subrange(0, j).push(s.last()),
            sorted.subrange(j, sorted.len() as int),
        );
        vstd::seq_lib::lemma_multiset_commutative(
            sorted.subrange(0, j),
            sorted.subrange(j, sorted.len() as int),
        );
        assert(sorted.subrange(0, j) + sorted.subrange(j, sorted.len() as int) =~= sorted);
        assert(sorted.subrange(0, j).push(s.last()).to_multiset() =~= sorted.subrange(
            0,
            j,
        ).to_multiset().insert(s.last()));
        assert(r.to_multiset() =~= sorted.to_multiset().insert(s.last()));
        assert(s.drop_last().push(s.last()) =~= s);
        assert(s.drop_last().push(s.last()).to_multiset() =~= s.drop_last().to_multiset().insert(
            s.last(),
        ));
    }
}

proof fn lemma_filter_singleton(b: BranchV, p: spec_fn(BranchV) -> bool)
    ensures
        seq![b].filter(p) == if p(b) {
            Seq::<BranchV>::empty().push(b)
        } else {
            Seq::<BranchV>::empty()
        },
{
    reveal(Seq::filter);
    assert(Seq::<BranchV>::empty().filter(p) == Seq::<BranchV>::empty());
    assert(seq![b].drop_last() =~= Seq::<BranchV>::empty());
    assert(seq![b].last() == b);
}

proof fn lemma_insert_desc_filter(b: BranchV, s: Seq<BranchV>, t: u64)
    requires
        sorted_desc(s),
    ensures
        insert_desc(b, s).filter(|x: BranchV| x.mod_time == t) == if b.mod_time == t {
            s.filter(|x: BranchV| x.mod_time == t).push(b)
        } else {
            s.filter(|x: BranchV| x.mod_time == t)
        },
    decreases s.len(),
{
    broadcast use vstd::seq_lib::group_filter_ensures;

    let p = |x: BranchV| x.mod_time == t;
    reveal(Seq::filter);
    lemma_filter_singleton(b, p);
    if s.len() == 0 {
        assert(insert_desc(b, s) =~= seq![b]);
        assert(s.filter(p) == Seq::<BranchV>::empty());
        if b.mod_time == t {
            assert(seq![b].filter(p) =~= s.filter(p).push(b));
        } else {
            assert(seq![b].filter(p) =~= s.filter(p));
        }
    } else if s[0].mod_time >= b.mod_time {
        assert(forall|i1: int, i2: int|
            0 <= i1 < i2 < s.skip(1).len() ==> s.skip(1)[i1].mod_time >= s.skip(1)[i2].mod_time)
            by {
            assert(forall|k: int| 0 <= k < s.skip(1).len() ==> s.skip(1)[k] == s[k + 1]);
        }
        lemma_insert_desc_filter(b, s.skip(1), t);
        Seq::filter_distributes_over_add(seq![s[0]], insert_desc(b, s.skip(1)), p);
        Seq::filter_distributes_over_add(seq![s[0]], s.skip(1), p);
        assert(seq![s[0]] + s.skip(1) =~= s);
        if b.mod_time == t {
            assert(seq![s[0]].filter(p) + s.skip(1).filter(p).push(b) =~= (seq![s[0]].filter(p)
                + s.skip(1).filter(p)).push(b));
        }
    } else {
        Seq::filter_distributes_over_add(seq![b], s, p);
        if b.mod_time == t {
            assert(forall|k: int| 0 <= k < s.len() ==> #[trigger] s[k].mod_time <= s[0].mod_time);
            assert(forall|k: int| 0 <= k < s.len() ==> !p(#[trigger] s[k]));
            s.lemma_all_neg_filter_empty(p);
            assert((seq![b] + s).filter(p) =~= s.filter(p).push(b));
        } else {
            assert((seq![b] + s).filter(p) =~= s.filter(p));
        }
    }
}

/// Ties are broken stably: among branches with equal modification time, the
/// sorted collection keeps the order of the input.
pub proof fn lemma_sort_desc_stable(s: Seq<BranchV>, t: u64)
    ensures
        sort_desc(s).filter(|x: BranchV| x.mod_time == t) == s.filter(|x: BranchV| x.mod_time == t),
    decreases s.len(),
{
    let p = |x: BranchV| x.mod_time == t;
    reveal(Seq::filter);
    if s.len() > 0 {
        lemma_sort_desc_stable(s.drop_last(), t);
        lemma_sort_desc_sorted(s.drop_last());
        lemma_insert_desc_filter(s.last(), sort_desc(s.drop_last()), t);
    }
}

/// Sorts branches by modification time, most recent first; ties keep their
/// input order.
pub fn sort_branches(branches: Vec<Branch>) -> (r: Vec<Branch>)
    ensures
        views_of(r@) == sort_desc(views_of(branches@)),
{
    let ghost input_v = branches@;
    let mut rest = branches;
    let n0 = rest.len();
    let mut out: Vec<Branch> = Vec::new();
    let mut i: usize = 0;
    proof {
        assert(views_of(out@) =~= sort_desc(views_of(input_v.take(0))));
    }
    while rest.len() > 0
        invariant
            0 <= i <= input_v.len(),
            input_v.len() == n0,
            rest@ =~= input_v.skip(i as int),
            views_of(out@) == sort_desc(views_of(input_v.take(i as int))),
        decreases rest@.len(),
    {
        let b = rest.remove(0);
        proof {
            assert(b == input_v[i as int]);
            assert(rest@ =~= input_v.skip(i + 1));
        }
        let ghost old_out = out@;
        let n = out.len();
        let mut j: usize = 0;
        while j < n && out[j].mod_time >= b.mod_time
            invariant
                0 <= j <= n,
                n == out@.len(),
                out@ == old_out,
                forall|k: int| 0 <= k < j ==> out@[k].mod_time >= b.mod_time,
            decreases n - j,
        {
            j = j + 1;
        }
        out.insert(j, b);
        proof {
            let vb = b@;
            let vs = views_of(old_out);
            assert forall|k: int| 0 <= k < j implies vs[k].mod_time >= vb.mod_time by {
                assert(vs[k] == old_out[k]@);
            }
            if j < vs.len() {
                assert(vs[j as int] == old_out[j as int]@);
            }
            lemma_insert_pos(vb, vs);
            assert forall|k: int| 0 <= k < insert_pos(vb, vs) implies vs[k].mod_time
                >= vb.mod_time by {}
            assert(insert_pos(vb, vs) == j) by {
                if insert_pos(vb, vs) < j {
                    assert(vs[insert_pos(vb, vs)].mod_time >= vb.mod_time);
                }
                if insert_pos(vb, vs) > j {
                    assert(vs[j as int].mod_time >= vb.mod_time);
                }
            }
            assert(insert_desc(vb, vs) == vs.insert(j as int, vb));
            assert(views_of(out@) =~= vs.insert(j as int, vb));
            let pref = input_v.take(i + 1);
            assert(views_of(pref).drop_last() =~= views_of(input_v.take(i as int)));
            assert(views_of(pref).last() == vb);
            assert(views_of(pref).len() > 0);
            assert(sort_desc(views_of(pref)) == insert_desc(vb, sort_desc(views_of(pref).drop_last())));
            assert(views_of(out@) == sort_desc(views_of(input_v.take(i + 1))));
        }
        i = i + 1;
    }
    proof {
        assert(input_v.take(input_v.len() as int) =~= input_v);
        assert(i == input_v.len());
    }
    out
}

/// Every file of the batch parses.
pub open spec fn all_parse(files: Seq<SourceFileV>, delim: Seq<char>, classes: Seq<ClassV>) -> bool {
    forall|i: int|
        0 <= i < files.len() ==> #[trigger] parse_spec(
            files[i].path,
            files[i].content,
            files[i].mod_time,
            delim,
            classes,
        ) is Some
}

/// The branch each file of the batch denotes, in file order.
pub open spec fn parsed_views(
    files: Seq<SourceFileV>,
    delim: Seq<char>,
    classes: Seq<ClassV>,
) -> Seq<BranchV> {
    files.map_values(
        |f: SourceFileV| parse_spec(f.path, f.content, f.mod_time, delim, classes)->Some_0,
    )
}

impl Branch {
    /// Parses every discovered source file and returns the branches ordered
    /// by modification time, most recent first.  One malformed file fails
    /// the whole batch with that file's error: a broken branch is treated as
    /// a broken repository, not skipped.
    pub fn get_all(files: &Vec<SourceFile>, config: &Config) -> (r: Result<Vec<Branch>, KiwiError>)
        ensures
            match r {
                Ok(bs) => {
                    &&& all_parse(sources_view(files@), config.delimiter@, classes_view(config))
                    &&& views_of(bs@) == sort_desc(
                        parsed_views(sources_view(files@), config.delimiter@, classes_view(config)),
                    )
                    &&& sorted_desc(views_of(bs@))
                },
                Err(e) => exists|i: int|
                    {
                        &&& 0 <= i < files@.len()
                        &&& #[trigger] parse_spec(
                            files@[i]@.path,
                            files@[i]@.content,
                            files@[i]@.mod_time,
                            config.delimiter@,
                            classes_view(config),
                        ) is None
                        &&& forall|j: int|
                            0 <= j < i ==> #[trigger] parse_spec(
                                files@[j]@.path,
                                files@[j]@.content,
                                files@[j]@.mod_time,
                                config.delimiter@,
                                classes_view(config),
                            ) is Some
                        &&& parse_error_spec(
                            files@[i]@.path,
                            files@[i]@.content,
                            config.delimiter@,
                            classes_view(config),
                            e,
                        )
                    },
            },
    {
        let n = files.len();
        let mut parsed: Vec<Branch> = Vec::new();
        let mut i: usize = 0;
        while i < n
            invariant
                0 <= i <= n,
                n == files@.len(),
                parsed@.len() == i,
                forall|k: int|
                    0 <= k < i ==> {
                        &&& #[trigger] parse_spec(
                            files@[k]@.path,
                            files@[k]@.content,
                            files@[k]@.mod_time,
                            config.delimiter@,
                            classes_view(config),
                        ) is Some
                        &&& parsed@[k]@ == parse_spec(
                            files@[k]@.path,
                            files@[k]@.content,
                            files@[k]@.mod_time,
                            config.delimiter@,
                            classes_view(config),
                        )->Some_0
                    },
            decreases n - i,
        {
            match Branch::parse(
                files[i].path.clone(),
                config,
                files[i].content.as_str(),
                files[i].mod_time,
            ) {
                Ok(b) => parsed.push(b),
                Err(e) => {
                    proof {
                        let fv = files@[i as int]@;
                        assert(parse_spec(
                            fv.path,
                            fv.content,
                            fv.mod_time,
                            config.delimiter@,
                            classes_view(config),
                        ) is None);
                        assert(parse_error_spec(
                            fv.path,
                            fv.content,
                            config.delimiter@,
                            classes_view(config),
                            e,
                        ));
                    }
                    return Err(e);
                },
            }
            i = i + 1;
        }
        proof {
            assert(views_of(parsed@) =~= parsed_views(
                sources_view(files@),
                config.delimiter@,
                classes_view(config),
            )) by {
                assert forall|k: int| 0 <= k < files@.len() implies views_of(parsed@)[k]
                    == parsed_views(
                    sources_view(files@),
                    config.delimiter@,
                    classes_view(config),
                )[k] by {
                    assert(sources_view(files@)[k] == files@[k]@);
                    assert(views_of(parsed@)[k] == parsed@[k]@);
                }
            }
            lemma_sort_desc_sorted(
                parsed_views(sources_view(files@), config.delimiter@, classes_view(config)),
            );
        }
        Ok(sort_branches(parsed))
    }
}

proof fn lemma_month_name_no_slash(m: u32)
    ensures
        forall|i: int|
            0 <= i < month_name_spec(m).len() ==> #[trigger] month_name_spec(m)[i] != '/',
{
    reveal_strlit("January");
    reveal_strlit("February");
    reveal_strlit("March");
    reveal_strlit("April");
    reveal_strlit("May");
    reveal_strlit("June");
    reveal_strlit("July");
    reveal_strlit("August");
    reveal_strlit("September");
    reveal_strlit("October");
    reveal_strlit("November");
    reveal_strlit("December");
}

proof fn lemma_doc_type_name_no_slash(dt: DocumentType)
    ensures
        forall|i: int| 0 <= i < dt.name_spec().len() ==> #[trigger] dt.name_spec()[i] != '/',
{
    reveal_strlit("Worksheet");
    reveal_strlit("Note");
    reveal_strlit("Assessment");
    reveal_strlit("Paper");
    reveal_strlit("Lab");
    reveal_strlit("Other");
}

proof fn lemma_doc_type_parse_inverse(dt: DocumentType)
    ensures
        DocumentType::parse_spec(dt.name_spec()) == Some(dt),
{
    reveal_strlit("Worksheet");
    reveal_strlit("Note");
    reveal_strlit("Assessment");
    reveal_strlit("Paper");
    reveal_strlit("Lab");
    reveal_strlit("Other");
    assert("Worksheet"@.len() == 9);
    assert("Note"@.len() == 4);
    assert("Assessment"@.len() == 10);
    assert("Paper"@.len() == 5);
    assert("Lab"@.len() == 3);
    assert("Other"@.len() == 5);
    assert("Other"@[0] == 'O');
    assert("Paper"@[0] == 'P');
}

/// Round-trip identity: a branch created fresh by the "new" flow, written to
/// its canonical path with a preamble recording its creation date and root
/// template filename, parses back to the same identity: name, format,
/// document type, class name and creation time are recovered exactly, the
/// root template is resolved by its recorded filename, and the branch
/// template is gone (it is not recoverable from a rendered document).
#[verifier::rlimit(100)]
#[verifier::spinoff_prover]
pub proof fn lemma_round_trip(
    b: BranchV,
    content: Seq<char>,
    delim: Seq<char>,
    classes: Seq<ClassV>,
    mod_time2: u64,
)
    requires
        b.creation_time.wf(),
        forall|i: int| 0 <= i < b.name.len() ==> #[trigger] b.name[i] != '/',
        forall|i: int| 0 <= i < b.class.name.len() ==> #[trigger] b.class.name[i] != '/',
        forall|i: int|
            0 <= i < b.root_template.name.len() ==> #[trigger] b.root_template.name[i] != '/',
        b.path == branch_path_spec(
            b.class.name,
            b.creation_time.month,
            b.doc_type,
            b.name,
            b.format,
        ),
        find_class_spec(classes, b.class.name) >= 0,
        lookup_spec(
            scan_lines_spec(split_spec(content, '\n'), delim, b.format),
            "created"@,
        ) == Some(crate::dates::simple_date_spec(b.creation_time)),
        lookup_spec(scan_lines_spec(split_spec(content, '\n'), delim, b.format), "root"@) == Some(
            b.root_template.name + ".tex.hbs"@,
        ),
    ensures
        parse_spec(b.path, content, mod_time2, delim, classes) matches Some(p) && {
            &&& p.name == b.name
            &&& p.format == b.format
            &&& p.doc_type == b.doc_type
            &&& p.class.name == b.class.name
            &&& p.creation_time == b.creation_time
            &&& p.root_template.name == b.root_template.name
            &&& p.branch_template is None
            &&& p.mod_time == mod_time2
        },
{
    let ext = b.format.extension_spec();
    let mn = month_name_spec(b.creation_time.month);
    let tn = b.doc_type.name_spec();
    let cn = b.class.name;
    let fileseg = b.name + ext;
    reveal_strlit(".tex");
    reveal_strlit(".md");
    reveal_strlit("docs/");
    reveal_strlit("docs");
    reveal_strlit("/");
    assert(forall|i: int| 0 <= i < ext.len() ==> #[trigger] ext[i] != '/') by {
        if b.format is LaTeX {
            assert(forall|i: int| 0 <= i < 4 ==> ".tex"@[i] != '/');
        } else {
            assert(forall|i: int| 0 <= i < 3 ==> ".md"@[i] != '/');
        }
    }
    // the path splits into its five segments
    let head3 = "docs/"@ + cn + "/"@ + mn + "/"@ + tn;
    assert(b.path =~= head3 + seq!['/'] + fileseg);
    assert(forall|i: int| 0 <= i < fileseg.len() ==> #[trigger] fileseg[i] != '/') by {
        assert(forall|i: int|
            0 <= i < fileseg.len() ==> fileseg[i] == if i < b.name.len() {
                b.name[i]
            } else {
                ext[i - b.name.len()]
            });
    }
    // format recovery from the extension
    assert(ends_with_spec(b.path, ext)) by {
        assert(b.path.skip(b.path.len() - ext.len()) =~= ext);
    }
    assert(Format::from_path_spec(b.path) == Some(b.format)) by {
        if b.format is LaTeX {
        } else {
            assert(ends_with_spec(b.path, ".md"@));
            if ends_with_spec(b.path, ".tex"@) {
                assert(b.path.skip(b.path.len() - 4)[3] == b.path[b.path.len() - 1]);
                assert(b.path.skip(b.path.len() - 3)[2] == b.path[b.path.len() - 1]);
                assert(false);
            }
        }
    }
    // the preamble records the date and the root filename
    let pairs = scan_lines_spec(split_spec(content, '\n'), delim, b.format);
    crate::dates::lemma_date_round_trip(b.creation_time);
    // path decomposition: docs / class / month / type / filename
    let segs = split_spec(b.path, '/');
    assert(segs =~= seq!["docs"@, cn, mn, tn, fileseg]) by {
        assert(b.path =~= "docs"@ + seq!['/'] + (cn + "/"@ + mn + "/"@ + tn + "/"@ + fileseg));
        assert(forall|i: int| 0 <= i < "docs"@.len() ==> #[trigger] "docs"@[i] != '/');
        crate::text::lemma_split_concat(
            "docs"@,
            cn + "/"@ + mn + "/"@ + tn + "/"@ + fileseg,
            '/',
        );
        assert(cn + "/"@ + mn + "/"@ + tn + "/"@ + fileseg =~= cn + seq!['/'] + (mn + "/"@ + tn
            + "/"@ + fileseg));
        crate::text::lemma_split_concat(cn, mn + "/"@ + tn + "/"@ + fileseg, '/');
        lemma_month_name_no_slash(b.creation_time.month);
        assert(mn + "/"@ + tn + "/"@ + fileseg =~= mn + seq!['/'] + (tn + "/"@ + fileseg));
        crate::text::lemma_split_concat(mn, tn + "/"@ + fileseg, '/');
        lemma_doc_type_name_no_slash(b.doc_type);
        assert(tn + "/"@ + fileseg =~= tn + seq!['/'] + fileseg);
        crate::text::lemma_split_concat(tn, fileseg, '/');
        crate::text::lemma_split_whole(fileseg, '/');
        assert(seq!["docs"@] + (seq![cn] + (seq![mn] + (seq![tn] + seq![fileseg]))) =~= seq![
            "docs"@,
            cn,
            mn,
            tn,
            fileseg,
        ]);
    }
    assert(segs.len() == 5);
    assert(segs[3] == tn);
    assert(segs[1] == cn);
    lemma_doc_type_parse_inverse(b.doc_type);
    crate::conf::lemma_find_class_found(classes, cn);
    // the filename gives the name back
    assert(file_name_spec(b.path) == fileseg) by {
        crate::text::lemma_file_name_concat(head3, fileseg);
    }
    assert(fileseg.take(fileseg.len() - ext.len()) =~= b.name);
    // the recorded root filename resolves to the same template name
    let rootfile = b.root_template.name + ".tex.hbs"@;
    reveal_strlit(".tex.hbs");
    reveal_strlit("templates/root/");
    reveal_strlit("templates/root");
    assert(root_template_of("templates/root/"@ + rootfile) == Some(b.root_template.name)) by {
        assert(forall|i: int| 0 <= i < ".tex.hbs"@.len() ==> #[trigger] ".tex.hbs"@[i] != '/');
        assert(forall|i: int| 0 <= i < rootfile.len() ==> #[trigger] rootfile[i] != '/') by {
            assert(forall|i: int|
                0 <= i < rootfile.len() ==> rootfile[i] == if i < b.root_template.name.len() {
                    b.root_template.name[i]
                } else {
                    ".tex.hbs"@[i - b.root_template.name.len()]
                });
        }
        assert("templates/root/"@ + rootfile =~= "templates/root"@ + seq!['/'] + rootfile);
        crate::text::lemma_file_name_concat("templates/root"@, rootfile);
        assert(ends_with_spec(rootfile, ".tex.hbs"@)) by {
            assert(rootfile.skip(rootfile.len() - ".tex.hbs"@.len()) =~= ".tex.hbs"@);
        }
        assert(rootfile.take(rootfile.len() - ".tex.hbs"@.len()) =~= b.root_template.name);
    }
}

/// Path determinism: the canonical locations are functions of the identity
/// alone.  Two branches whose name, format, type, class name and creation
/// month agree resolve to the same source path, PDF path and image
/// directory, whatever the current date is.
pub proof fn lemma_path_determinism(a: BranchV, b: BranchV)
    requires
        a.name == b.name,
        a.format == b.format,
        a.doc_type == b.doc_type,
        a.class.name == b.class.name,
        a.creation_time.month == b.creation_time.month,
        a.path == branch_path_spec(a.class.name, a.creation_time.month, a.doc_type, a.name, a.format),
        b.path == branch_path_spec(b.class.name, b.creation_time.month, b.doc_type, b.name, b.format),
        a.pdf_path == pdf_path_spec(a.class.name, a.creation_time.month, a.doc_type, a.name),
        b.pdf_path == pdf_path_spec(b.class.name, b.creation_time.month, b.doc_type, b.name),
        a.imgs_dir == imgs_dir_spec(a.class.name, a.creation_time.month, a.name),
        b.imgs_dir == imgs_dir_spec(b.class.name, b.creation_time.month, b.name),
    ensures
        a.path == b.path,
        a.pdf_path == b.pdf_path,
        a.imgs_dir == b.imgs_dir,
{
}

} // verus!
