//! Verified character-level utilities on `&str` / `String`: trimming,
//! prefix/suffix tests, delimiter splitting and decimal formatting.  Every
//! function is specified against a spec-level model of the operation over
//! `Seq<char>`.

use vstd::prelude::*;

verus! {

/// Relies on String::push: appends exactly the given character.
#[verifier::external_body]
pub(crate) fn push_char(s: &mut String, c: char)
    ensures
        final(s)@ == old(s)@.push(c),
{
    s.push(c);
}

/// The whitespace characters that trimming removes.
pub open spec fn is_space_char(c: char) -> bool {
    c == ' ' || c == '\t' || c == '\r' || c == '\n' || c == '\u{000b}' || c == '\u{000c}'
}

fn is_space(c: char) -> (r: bool)
    ensures
        r == is_space_char(c),
{
    c == ' ' || c == '\t' || c == '\r' || c == '\n' || c == '\u{000b}' || c == '\u{000c}'
}

/// The string with its leading whitespace removed.
pub open spec fn trim_start_spec(s: Seq<char>) -> Seq<char>
    decreases s.len(),
{
    if s.len() == 0 {
        s
    } else if is_space_char(s[0]) {
        trim_start_spec(s.skip(1))
    } else {
        s
    }
}

/// The string with its trailing whitespace removed.
pub open spec fn trim_end_spec(s: Seq<char>) -> Seq<char>
    decreases s.len(),
{
    if s.len() == 0 {
        s
    } else if is_space_char(s[s.len() - 1]) {
        trim_end_spec(s.take(s.len() - 1))
    } else {
        s
    }
}

/// The string with whitespace removed from both ends.
pub open spec fn trim_spec(s: Seq<char>) -> Seq<char> {
    trim_end_spec(trim_start_spec(s))
}

proof fn lemma_trim_start_skip(s: Seq<char>, i: int)
    requires
        0 <= i <= s.len(),
        forall|k: int| 0 <= k < i ==> is_space_char(s[k]),
        i == s.len() || !is_space_char(s[i]),
    ensures
        trim_start_spec(s) == s.skip(i),
    decreases i,
{
    if i == 0 {
        assert(s.skip(0) =~= s);
    } else {
        lemma_trim_start_skip(s.skip(1), i - 1);
        assert(s.skip(1).skip(i - 1) =~= s.skip(i));
    }
}

proof fn lemma_trim_end_take(s: Seq<char>, j: int)
    requires
        0 <= j <= s.len(),
        forall|k: int| j <= k < s.len() ==> is_space_char(s[k]),
        j == 0 || !is_space_char(s[j - 1]),
    ensures
        trim_end_spec(s) == s.take(j),
    decreases s.len() - j,
{
    if j == s.len() {
        assert(s.take(j) =~= s);
    } else {
        lemma_trim_end_take(s.take(s.len() - 1), j);
        assert(s.take(s.len() - 1).take(j) =~= s.take(j));
    }
}

/// Whitespace trimming at both ends, as `str::trim` does for ASCII input.
pub fn trim<'a>(s: &'a str) -> (t: &'a str)
    ensures
        t@ == trim_spec(s@),
{
    let len = s.unicode_len();
    let mut i: usize = 0;
    while i < len && is_space(s.get_char(i))
        invariant
            0 <= i <= len,
            len == s@.len(),
            forall|k: int| 0 <= k < i ==> is_space_char(s@[k]),
        decreases len - i,
    {
        i = i + 1;
    }
    let mut j: usize = len;
    while j > i && is_space(s.get_char(j - 1))
        invariant
            i <= j <= len,
            len == s@.len(),
            forall|k: int| j <= k < len ==> is_space_char(s@[k]),
        decreases j,
    {
        j = j - 1;
    }
    proof {
        lemma_trim_start_skip(s@, i as int);
        lemma_trim_end_take(s@.skip(i as int), j - i);
        assert(s@.skip(i as int).take(j - i) =~= s@.subrange(i as int, j as int));
    }
    s.substring_char(i, j)
}

/// Character-for-character equality of two strings.
pub fn eq_str(a: &str, b: &str) -> (r: bool)
    ensures
        r == (a@ == b@),
{
    let alen = a.unicode_len();
    let blen = b.unicode_len();
    if alen != blen {
        return false;
    }
    let mut i: usize = 0;
    while i < alen
        invariant
            0 <= i <= alen,
            alen == a@.len(),
            alen == b@.len(),
            forall|k: int| 0 <= k < i ==> a@[k] == b@[k],
        decreases alen - i,
    {
        if a.get_char(i) != b.get_char(i) {
            return false;
        }
        i = i + 1;
    }
    proof {
        assert(a@ =~= b@);
    }
    true
}

/// `p` is a prefix of `s`.
pub open spec fn starts_with_spec(s: Seq<char>, p: Seq<char>) -> bool {
    p.len() <= s.len() && s.take(p.len() as int) == p
}

/// `p` is a suffix of `s`.
pub open spec fn ends_with_spec(s: Seq<char>, p: Seq<char>) -> bool {
    p.len() <= s.len() && s.skip(s.len() - p.len()) == p
}

/// Prefix test, as `str::starts_with`.
pub fn starts_with_str(s: &str, p: &str) -> (r: bool)
    ensures
        r == starts_with_spec(s@, p@),
{
    let slen = s.unicode_len();
    let plen = p.unicode_len();
    if plen > slen {
        return false;
    }
    let mut i: usize = 0;
    while i < plen
        invariant
            0 <= i <= plen,
            plen <= slen,
            slen == s@.len(),
            plen == p@.len(),
            forall|k: int| 0 <= k < i ==> s@[k] == p@[k],
        decreases plen - i,
    {
        if s.get_char(i) != p.get_char(i) {
            proof {
                assert(s@.take(p@.len() as int)[i as int] == s@[i as int]);
            }
            return false;
        }
        i = i + 1;
    }
    proof {
        assert(s@.take(p@.len() as int) =~= p@);
    }
    true
}

/// Suffix test, as `str::ends_with`.
pub fn ends_with_str(s: &str, p: &str) -> (r: bool)
    ensures
        r == ends_with_spec(s@, p@),
{
    let slen = s.unicode_len();
    let plen = p.unicode_len();
    if plen > slen {
        return false;
    }
    let off = slen - plen;
    let mut i: usize = 0;
    while i < plen
        invariant
            0 <= i <= plen,
            plen <= slen,
            slen == s@.len(),
            plen == p@.len(),
            off == slen - plen,
            forall|k: int| 0 <= k < i ==> s@[off + k] == p@[k],
        decreases plen - i,
    {
        if s.get_char(off + i) != p.get_char(i) {
            proof {
                assert(s@.skip(off as int)[i as int] == s@[off + i]);
            }
            return false;
        }
        i = i + 1;
    }
    proof {
        assert(s@.skip(off as int) =~= p@);
    }
    true
}

/// The delimiter `d` occurs in `s` at position `i`.
pub open spec fn matches_at(s: Seq<char>, d: Seq<char>, i: int) -> bool {
    0 <= i && i + d.len() <= s.len() && s.subrange(i, i + d.len()) == d
}

pub open spec fn first_match_from(s: Seq<char>, d: Seq<char>, i: int) -> int
    decreases s.len() - i,
{
    if i < 0 || i + d.len() > s.len() {
        -1
    } else if matches_at(s, d, i) {
        i
    } else {
        proof {
            if d.len() == 0 {
                assert(s.subrange(i, i) =~= d);
            }
        }
        first_match_from(s, d, i + 1)
    }
}

/// The position of the first occurrence of `d` in `s`, or -1 when `d` does
/// not occur.
pub open spec fn first_match(s: Seq<char>, d: Seq<char>) -> int {
    first_match_from(s, d, 0)
}

fn match_at(s: &str, d: &str, i: usize) -> (r: bool)
    requires
        i + d@.len() <= s@.len(),
    ensures
        r == matches_at(s@, d@, i as int),
{
    let slen = s.unicode_len();
    let dlen = d.unicode_len();
    let mut k: usize = 0;
    while k < dlen
        invariant
            0 <= k <= dlen,
            dlen == d@.len(),
            slen == s@.len(),
            i + dlen <= slen,
            forall|t: int| 0 <= t < k ==> s@[i + t] == d@[t],
        decreases dlen - k,
    {
        if s.get_char(i + k) != d.get_char(k) {
            proof {
                assert(s@.subrange(i as int, i + d@.len())[k as int] == s@[i + k]);
            }
            return false;
        }
        k = k + 1;
    }
    proof {
        assert(s@.subrange(i as int, i + d@.len()) =~= d@);
    }
    true
}

/// Splits `s` at the first occurrence of `d`, as `str::split_once`:
/// `Some((before, after))` when `d` occurs, `None` otherwise.
pub fn split_once_at(s: &str, d: &str) -> (r: Option<(String, String)>)
    ensures
        match r {
            Some((a, b)) => {
                &&& first_match(s@, d@) >= 0
                &&& a@ == s@.take(first_match(s@, d@))
                &&& b@ == s@.skip(first_match(s@, d@) + d@.len())
            },
            None => first_match(s@, d@) == -1,
        },
{
    let slen = s.unicode_len();
    let dlen = d.unicode_len();
    if dlen > slen {
        return None;
    }
    if dlen == 0 {
        proof {
            assert(s@.subrange(0, 0) =~= d@);
            assert(s@.take(0) =~= Seq::<char>::empty());
            assert(s@.skip(0) =~= s@);
        }
        return Some((String::new(), s.to_owned()));
    }
    let mut i: usize = 0;
    while i <= slen - dlen
        invariant
            0 <= i,
            i <= slen - dlen + 1,
            1 <= dlen <= slen,
            slen == s@.len(),
            dlen == d@.len(),
            first_match(s@, d@) == first_match_from(s@, d@, i as int),
        decreases slen + 1 - i,
    {
        if match_at(s, d, i) {
            let a = s.substring_char(0, i).to_owned();
            let b = s.substring_char(i + dlen, slen).to_owned();
            proof {
                assert(s@.take(i as int) =~= s@.subrange(0, i as int));
                assert(s@.skip(i + d@.len()) =~= s@.subrange(i + dlen, slen as int));
            }
            return Some((a, b));
        }
        i = i + 1;
    }
    None
}

pub open spec fn first_char_from(s: Seq<char>, c: char, i: int) -> int
    decreases s.len() - i,
{
    if i < 0 || i >= s.len() {
        -1
    } else if s[i] == c {
        i
    } else {
        first_char_from(s, c, i + 1)
    }
}

pub proof fn lemma_first_char_from_bounds(s: Seq<char>, c: char, i: int)
    requires
        0 <= i,
    ensures
        first_char_from(s, c, i) == -1 || (i <= first_char_from(s, c, i) < s.len()
            && s[first_char_from(s, c, i)] == c),
    decreases s.len() - i,
{
    if i < s.len() && s[i] != c {
        lemma_first_char_from_bounds(s, c, i + 1);
    }
}

/// The pieces of `s` between occurrences of the separator `c`; always at
/// least one piece, and empty pieces are kept.
pub open spec fn split_spec(s: Seq<char>, c: char) -> Seq<Seq<char>>
    decreases s.len(),
{
    let i = first_char_from(s, c, 0);
    if i < 0 {
        seq![s]
    } else {
        proof {
            lemma_first_char_from_bounds(s, c, 0);
        }
        seq![s.take(i)] + split_spec(s.skip(i + 1), c)
    }
}

proof fn lemma_first_char_interval(s: Seq<char>, c: char, i: int, j: int)
    requires
        0 <= i <= j <= s.len(),
        forall|k: int| i <= k < j ==> s[k] != c,
        j == s.len() || s[j] == c,
    ensures
        first_char_from(s, c, i) == if j == s.len() {
            -1int
        } else {
            j
        },
    decreases j - i,
{
    if i < j {
        lemma_first_char_interval(s, c, i + 1, j);
    }
}

proof fn lemma_split_step(s: Seq<char>, c: char, start: int, i: int)
    requires
        0 <= start <= i < s.len(),
        s[i] == c,
        forall|k: int| start <= k < i ==> s[k] != c,
    ensures
        split_spec(s.skip(start), c) == seq![s.subrange(start, i)] + split_spec(s.skip(i + 1), c),
{
    let ss = s.skip(start);
    assert forall|k: int| 0 <= k < i - start implies ss[k] != c by {
        assert(ss[k] == s[start + k]);
    }
    lemma_first_char_interval(ss, c, 0, i - start);
    assert(ss.take(i - start) =~= s.subrange(start, i));
    assert(ss.skip(i - start + 1) =~= s.skip(i + 1));
}

proof fn lemma_split_last(s: Seq<char>, c: char, start: int)
    requires
        0 <= start <= s.len(),
        forall|k: int| start <= k < s.len() ==> s[k] != c,
    ensures
        split_spec(s.skip(start), c) == seq![s.subrange(start, s.len() as int)],
{
    let ss = s.skip(start);
    assert forall|k: int| 0 <= k < ss.len() implies ss[k] != c by {
        assert(ss[k] == s[start + k]);
    }
    lemma_first_char_interval(ss, c, 0, ss.len() as int);
    assert(ss =~= s.subrange(start, s.len() as int));
}

/// Splitting a string that opens with a separator-free piece followed by the
/// separator peels that piece off.
pub proof fn lemma_split_concat(x: Seq<char>, rest: Seq<char>, c: char)
    requires
        forall|i: int| 0 <= i < x.len() ==> x[i] != c,
    ensures
        split_spec(x + seq![c] + rest, c) == seq![x] + split_spec(rest, c),
{
    let p = x + seq![c] + rest;
    assert(p[x.len() as int] == c);
    assert forall|k: int| 0 <= k < x.len() implies p[k] != c by {
        assert(p[k] == x[k]);
    }
    lemma_first_char_interval(p, c, 0, x.len() as int);
    assert(p.take(x.len() as int) =~= x);
    assert(p.skip(x.len() as int + 1) =~= rest);
}

/// Splitting a separator-free string yields that string alone.
pub proof fn lemma_split_whole(x: Seq<char>, c: char)
    requires
        forall|i: int| 0 <= i < x.len() ==> x[i] != c,
    ensures
        split_spec(x, c) == seq![x],
{
    lemma_first_char_interval(x, c, 0, x.len() as int);
}

/// The file name of a path ending in a separator-free piece is that piece.
pub proof fn lemma_file_name_concat(a: Seq<char>, x: Seq<char>)
    requires
        forall|i: int| 0 <= i < x.len() ==> x[i] != '/',
    ensures
        file_name_spec(a + seq!['/'] + x) == x,
{
    let p = a + seq!['/'] + x;
    assert(p[a.len() as int] == '/');
    assert forall|k: int| a.len() + 1 <= k < p.len() implies p[k] != '/' by {
        assert(p[k] == x[k - a.len() - 1]);
    }
    lemma_last_slash(p, a.len() as int + 1);
    assert(p.skip(a.len() as int + 1) =~= x);
}

/// Splits `s` on every occurrence of the separator `c`, keeping empty pieces.
pub fn split_char(s: &str, c: char) -> (parts: Vec<String>)
    ensures
        parts.deep_view() == split_spec(s@, c),
{
    let len = s.unicode_len();
    let mut parts: Vec<String> = Vec::new();
    let mut cur = String::new();
    let mut start: usize = 0;
    let mut i: usize = 0;
    proof {
        assert(s@.skip(0) =~= s@);
        assert(parts.deep_view() + split_spec(s@, c) =~= split_spec(s@, c));
    }
    while i < len
        invariant
            0 <= start <= i <= len,
            len == s@.len(),
            cur@ == s@.subrange(start as int, i as int),
            forall|k: int| start <= k < i ==> s@[k] != c,
            split_spec(s@, c) == parts.deep_view() + split_spec(s@.skip(start as int), c),
        decreases len - i,
    {
        let ch = s.get_char(i);
        if ch == c {
            proof {
                lemma_split_step(s@, c, start as int, i as int);
            }
            let ghost old_dv = parts.deep_view();
            let ghost cur_v = cur@;
            parts.push(cur);
            cur = String::new();
            start = i + 1;
            proof {
                assert(cur@ =~= s@.subrange(start as int, start as int));
                assert(parts.deep_view() =~= old_dv.push(cur_v));
                assert(old_dv + (seq![cur_v] + split_spec(s@.skip(start as int), c)) =~= old_dv.push(
                    cur_v,
                ) + split_spec(s@.skip(start as int), c));
            }
        } else {
            push_char(&mut cur, ch);
            proof {
                assert(cur@ =~= s@.subrange(start as int, i + 1));
            }
        }
        i = i + 1;
    }
    proof {
        lemma_split_last(s@, c, start as int);
    }
    let ghost old_dv = parts.deep_view();
    let ghost cur_v = cur@;
    parts.push(cur);
    proof {
        assert(parts.deep_view() =~= old_dv.push(cur_v));
        assert(old_dv + seq![cur_v] =~= old_dv.push(cur_v));
    }
    parts
}

/// The index of the last '/' in `p`, or -1 when there is none.
pub open spec fn last_slash(p: Seq<char>) -> int
    decreases p.len(),
{
    if p.len() == 0 {
        -1
    } else if p[p.len() - 1] == '/' {
        p.len() - 1
    } else {
        last_slash(p.take(p.len() - 1))
    }
}

/// The part of a path after its last '/': the whole path when it has none.
pub open spec fn file_name_spec(p: Seq<char>) -> Seq<char> {
    p.skip(last_slash(p) + 1)
}

proof fn lemma_last_slash(p: Seq<char>, j: int)
    requires
        0 <= j <= p.len(),
        forall|k: int| j <= k < p.len() ==> p[k] != '/',
        j == 0 || p[j - 1] == '/',
    ensures
        last_slash(p) == j - 1,
    decreases p.len(),
{
    if p.len() == 0 {
    } else if p[p.len() - 1] == '/' {
    } else {
        lemma_last_slash(p.take(p.len() - 1), j);
    }
}

pub proof fn lemma_last_slash_props(p: Seq<char>)
    ensures
        -1 <= last_slash(p) < p.len(),
        last_slash(p) >= 0 ==> p[last_slash(p)] == '/',
        forall|k: int| last_slash(p) < k < p.len() ==> p[k] != '/',
    decreases p.len(),
{
    if p.len() == 0 {
    } else if p[p.len() - 1] == '/' {
    } else {
        lemma_last_slash_props(p.take(p.len() - 1));
        assert forall|k: int| last_slash(p) < k < p.len() implies p[k] != '/' by {
            if k < p.len() - 1 {
                assert(p.take(p.len() - 1)[k] == p[k]);
            }
        }
    }
}

/// A suffix that contains no separator survives into the file name.
pub proof fn lemma_file_name_suffix(p: Seq<char>, ext: Seq<char>)
    requires
        ends_with_spec(p, ext),
        forall|i: int| 0 <= i < ext.len() ==> ext[i] != '/',
    ensures
        ends_with_spec(file_name_spec(p), ext),
        file_name_spec(p).len() >= ext.len(),
{
    lemma_last_slash_props(p);
    let ls = last_slash(p);
    let f = file_name_spec(p);
    if ls >= 0 && ls >= p.len() - ext.len() {
        assert(p.skip(p.len() - ext.len())[ls - (p.len() - ext.len())] == p[ls]);
        assert(false);
    }
    assert(f.skip(f.len() - ext.len()) =~= p.skip(p.len() - ext.len()));
}

/// The part of a path after its last '/', as `Path::file_name` gives it for
/// paths that do not end in a separator.
pub fn file_name<'a>(p: &'a str) -> (f: &'a str)
    ensures
        f@ == file_name_spec(p@),
{
    let len = p.unicode_len();
    let mut j: usize = len;
    while j > 0 && p.get_char(j - 1) != '/'
        invariant
            0 <= j <= len,
            len == p@.len(),
            forall|k: int| j <= k < len ==> p@[k] != '/',
        decreases j,
    {
        j = j - 1;
    }
    proof {
        lemma_last_slash(p@, j as int);
        assert(p@.subrange(j as int, len as int) =~= p@.skip(j as int));
    }
    p.substring_char(j, len)
}

/// The part of a path before its last '/': empty when it has none.
pub open spec fn parent_dir_spec(p: Seq<char>) -> Seq<char> {
    if last_slash(p) >= 0 {
        p.take(last_slash(p))
    } else {
        Seq::empty()
    }
}

/// The part of a path before its last '/', as `Path::parent` gives it;
/// empty when the path has no separator.
pub fn parent_dir(p: &str) -> (d: String)
    ensures
        d@ == parent_dir_spec(p@),
{
    let len = p.unicode_len();
    let mut j: usize = len;
    while j > 0 && p.get_char(j - 1) != '/'
        invariant
            0 <= j <= len,
            len == p@.len(),
            forall|k: int| j <= k < len ==> p@[k] != '/',
        decreases j,
    {
        j = j - 1;
    }
    proof {
        lemma_last_slash(p@, j as int);
    }
    if j == 0 {
        String::new()
    } else {
        proof {
            assert(p@.subrange(0, j - 1) =~= p@.take(j - 1));
        }
        p.substring_char(0, j - 1).to_owned()
    }
}

pub open spec fn dec_digit(n: nat) -> char {
    if n == 0 {
        '0'
    } else if n == 1 {
        '1'
    } else if n == 2 {
        '2'
    } else if n == 3 {
        '3'
    } else if n == 4 {
        '4'
    } else if n == 5 {
        '5'
    } else if n == 6 {
        '6'
    } else if n == 7 {
        '7'
    } else if n == 8 {
        '8'
    } else {
        '9'
    }
}

/// The decimal digits of `n`, most significant first, no padding.
pub open spec fn dec_spec(n: nat) -> Seq<char>
    decreases n,
{
    if n < 10 {
        seq![dec_digit(n)]
    } else {
        dec_spec(n / 10).push(dec_digit(n % 10))
    }
}

fn dec_digit_exec(n: u32) -> (c: char)
    requires
        n < 10,
    ensures
        c == dec_digit(n as nat),
{
    if n == 0 {
        '0'
    } else if n == 1 {
        '1'
    } else if n == 2 {
        '2'
    } else if n == 3 {
        '3'
    } else if n == 4 {
        '4'
    } else if n == 5 {
        '5'
    } else if n == 6 {
        '6'
    } else if n == 7 {
        '7'
    } else if n == 8 {
        '8'
    } else {
        '9'
    }
}

/// Formats `n` in decimal with no padding.
pub fn u32_dec(n: u32) -> (s: String)
    ensures
        s@ == dec_spec(n as nat),
    decreases n,
{
    if n < 10 {
        let mut s = String::new();
        push_char(&mut s, dec_digit_exec(n));
        s
    } else {
        let mut s = u32_dec(n / 10);
        push_char(&mut s, dec_digit_exec(n % 10));
        s
    }
}

/// The decimal digits of `n`, left-padded with zeros to width `w`.
pub open spec fn padded_dec(n: nat, w: int) -> Seq<char> {
    let d = dec_spec(n);
    if d.len() >= w {
        d
    } else {
        Seq::new((w - d.len()) as nat, |k: int| '0') + d
    }
}

/// Formats `n` in decimal, left-padded with zeros to width `w`.
pub fn u32_dec_pad(n: u32, w: usize) -> (s: String)
    ensures
        s@ == padded_dec(n as nat, w as int),
{
    let d = u32_dec(n);
    let dlen = d.as_str().unicode_len();
    if dlen >= w {
        return d;
    }
    let mut s = String::new();
    let mut k: usize = 0;
    while k < w - dlen
        invariant
            0 <= k <= w - dlen,
            dlen == dec_spec(n as nat).len(),
            dlen < w,
            s@ == Seq::new(k as nat, |t: int| '0'),
        decreases w - dlen - k,
    {
        push_char(&mut s, '0');
        proof {
            assert(s@ =~= Seq::new((k + 1) as nat, |t: int| '0'));
        }
        k = k + 1;
    }
    s.append(d.as_str());
    s
}

} // verus!
