//! The embedded metadata block: a branch source file opens with a
//! comment-bounded preamble of `<key><delimiter><value>` lines.  Scanning
//! walks the file line by line, keeps every line that splits on the
//! delimiter, and stops at the first line that starts with the format's
//! closing marker (`-->` for Markdown, `\fi` for LaTeX).  On duplicate keys
//! the last occurrence wins.

use vstd::prelude::*;

use crate::conf::Format;
use crate::text::{
    first_match, split_once_at, starts_with_spec, starts_with_str, trim, trim_spec,
};

verus! {

/// The marker that closes the preamble of the given format.
pub open spec fn end_marker_spec(fmt: Format) -> Seq<char> {
    match fmt {
        Format::Markdown => "-->"@,
        Format::LaTeX => "\\fi"@,
    }
}

/// The marker that closes the preamble of the given format.
pub fn end_marker(fmt: Format) -> (m: &'static str)
    ensures
        m@ == end_marker_spec(fmt),
{
    match fmt {
        Format::Markdown => "-->",
        Format::LaTeX => "\\fi",
    }
}

/// The key/value pairs one line contributes: one pair when the trimmed line
/// splits on the delimiter, none otherwise.
pub open spec fn line_entry(line: Seq<char>, delim: Seq<char>) -> Seq<(Seq<char>, Seq<char>)> {
    let t = trim_spec(line);
    let m = first_match(t, delim);
    if m >= 0 {
        seq![(trim_spec(t.take(m)), trim_spec(t.skip(m + delim.len())))]
    } else {
        seq![]
    }
}

/// The pairs the scan collects from the lines, in order: each line's entry,
/// up to and including the first line that starts with the closing marker.
pub open spec fn scan_lines_spec(lines: Seq<Seq<char>>, delim: Seq<char>, fmt: Format) -> Seq<
    (Seq<char>, Seq<char>),
>
    decreases lines.len(),
{
    if lines.len() == 0 {
        seq![]
    } else {
        let e = line_entry(lines[0], delim);
        if starts_with_spec(trim_spec(lines[0]), end_marker_spec(fmt)) {
            e
        } else {
            e + scan_lines_spec(lines.skip(1), delim, fmt)
        }
    }
}

/// The value of `key` among the collected pairs, where the last occurrence
/// of a duplicate key wins.
pub open spec fn lookup_spec(pairs: Seq<(Seq<char>, Seq<char>)>, key: Seq<char>) -> Option<
    Seq<char>,
>
    decreases pairs.len(),
{
    if pairs.len() == 0 {
        None
    } else if pairs.last().0 == key {
        Some(pairs.last().1)
    } else {
        lookup_spec(pairs.drop_last(), key)
    }
}

/// The metadata collected from a preamble.
#[derive(Debug, PartialEq, Eq)]
pub struct Metadata {
    pub pairs: Vec<(String, String)>,
}

impl View for Metadata {
    type V = Seq<(Seq<char>, Seq<char>)>;

    open spec fn view(&self) -> Seq<(Seq<char>, Seq<char>)> {
        self.pairs.deep_view()
    }
}

impl Metadata {
    /// The value recorded for `key`, the last occurrence winning.
    pub fn get(&self, key: &str) -> (r: Option<String>)
        ensures
            match r {
                Some(v) => lookup_spec(self@, key@) == Some(v@),
                None => lookup_spec(self@, key@) is None,
            },
    {
        let n = self.pairs.len();
        let mut i: usize = n;
        proof {
            assert(self@.take(n as int) =~= self@);
        }
        while i > 0
            invariant
                0 <= i <= n,
                n == self.pairs@.len(),
                lookup_spec(self@, key@) == lookup_spec(self@.take(i as int), key@),
            decreases i,
        {
            proof {
                assert(self@.take(i as int).last() == self@[i - 1]);
                assert(self@.take(i as int).drop_last() =~= self@.take(i - 1));
            }
            if crate::text::eq_str(self.pairs[i - 1].0.as_str(), key) {
                return Some(self.pairs[i - 1].1.clone());
            }
            i = i - 1;
        }
        proof {
            assert(self@.take(0) =~= Seq::<(Seq<char>, Seq<char>)>::empty());
        }
        None
    }
}

/// Scans the lines of a source file for its preamble metadata: every line
/// that splits on the delimiter contributes a trimmed key/value pair, and
/// scanning stops at the first line that starts with the closing marker of
/// the format (that line's own pair, if any, is still kept).
pub fn scan_preamble(lines: &Vec<String>, delimiter: &str, fmt: Format) -> (meta: Metadata)
    ensures
        meta@ == scan_lines_spec(lines.deep_view(), delimiter@, fmt),
{
    let ghost ldv = lines.deep_view();
    let marker = end_marker(fmt);
    let n = lines.len();
    let mut pairs: Vec<(String, String)> = Vec::new();
    let mut i: usize = 0;
    proof {
        assert(ldv.skip(0) =~= ldv);
        assert(pairs.deep_view() + scan_lines_spec(ldv, delimiter@, fmt) =~= scan_lines_spec(
            ldv,
            delimiter@,
            fmt,
        ));
    }
    while i < n
        invariant_except_break
            0 <= i <= n,
            n == ldv.len(),
            ldv == lines.deep_view(),
            marker@ == end_marker_spec(fmt),
            scan_lines_spec(ldv, delimiter@, fmt) == pairs.deep_view() + scan_lines_spec(
                ldv.skip(i as int),
                delimiter@,
                fmt,
            ),
        ensures
            pairs.deep_view() == scan_lines_spec(ldv, delimiter@, fmt),
        decreases n - i,
    {
        proof {
            assert(ldv.skip(i as int)[0] == ldv[i as int]);
            assert(ldv.skip(i as int).skip(1) =~= ldv.skip(i + 1));
            assert(ldv[i as int] == lines@[i as int]@);
        }
        let t = trim(lines[i].as_str());
        let stop = starts_with_str(t, marker);
        let ghost e = line_entry(ldv[i as int], delimiter@);
        let ghost old_dv = pairs.deep_view();
        match split_once_at(t, delimiter) {
            Some((k, v)) => {
                let kk = trim(k.as_str()).to_owned();
                let vv = trim(v.as_str()).to_owned();
                let ghost pair_v = (kk@, vv@);
                pairs.push((kk, vv));
                proof {
                    assert(e =~= seq![pair_v]);
                    assert(pairs.deep_view() =~= old_dv.push(pair_v));
                    assert(pairs.deep_view() =~= old_dv + e);
                }
            },
            None => {
                proof {
                    assert(e =~= Seq::<(Seq<char>, Seq<char>)>::empty());
                    assert(pairs.deep_view() =~= old_dv + e);
                }
            },
        }
        if stop {
            proof {
                let ss = ldv.skip(i as int);
                assert(ss.len() > 0);
                assert(ss[0] == ldv[i as int]);
                assert(trim_spec(ss[0]) == t@);
                assert(starts_with_spec(trim_spec(ss[0]), end_marker_spec(fmt)));
                assert(line_entry(ss[0], delimiter@) == e);
                assert(scan_lines_spec(ss, delimiter@, fmt) == line_entry(ss[0], delimiter@));
                assert(scan_lines_spec(ldv, delimiter@, fmt) == old_dv + e);
            }
            break;
        }
        proof {
            assert(scan_lines_spec(ldv.skip(i as int), delimiter@, fmt) == e + scan_lines_spec(
                ldv.skip(i + 1),
                delimiter@,
                fmt,
            ));
            assert(old_dv + (e + scan_lines_spec(ldv.skip(i + 1), delimiter@, fmt)) =~= (old_dv + e)
                + scan_lines_spec(ldv.skip(i + 1), delimiter@, fmt));
        }
        i = i + 1;
    }
    proof {
        if i >= n {
            assert(ldv.skip(n as int) =~= Seq::<Seq<char>>::empty());
            assert(pairs.deep_view() + Seq::<(Seq<char>, Seq<char>)>::empty() =~= pairs.deep_view());
        }
    }
    Metadata { pairs }
}

/// A key/value line that stands after the first closing-marker line is never
/// captured: lines appended beyond the marker do not change the scan, which
/// already equals the scan of the lines up to and including the marker.
pub proof fn lemma_preamble_boundary(
    lines: Seq<Seq<char>>,
    delim: Seq<char>,
    fmt: Format,
    k: int,
    tail: Seq<Seq<char>>,
)
    requires
        0 <= k < lines.len(),
        starts_with_spec(trim_spec(lines[k]), end_marker_spec(fmt)),
    ensures
        scan_lines_spec(lines + tail, delim, fmt) == scan_lines_spec(lines, delim, fmt),
        scan_lines_spec(lines, delim, fmt) == scan_lines_spec(
            lines.take(k + 1),
            delim,
            fmt,
        ),
    decreases k,
{
    assert((lines + tail)[0] == lines[0]);
    assert(lines.take(k + 1)[0] == lines[0]);
    if starts_with_spec(trim_spec(lines[0]), end_marker_spec(fmt)) {
    } else {
        assert(k > 0);
        assert((lines + tail).skip(1) =~= lines.skip(1) + tail);
        assert(lines.take(k + 1).skip(1) =~= lines.skip(1).take(k));
        assert(lines.skip(1)[k - 1] == lines[k as int]);
        lemma_preamble_boundary(lines.skip(1), delim, fmt, k - 1, tail);
    }
}

} // verus!
