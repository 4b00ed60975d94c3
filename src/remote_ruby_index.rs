//! The mirror's index of downloadable versions: one header line, then one
//! line per archive with at least five white-space-separated fields (name,
//! URL and three digests).
use vstd::prelude::*;
use vstd::string::*;
use crate::text::{chars_of, copy_range, is_white_space, is_white_space_char};
use crate::version::{parse_spec, Version, VersionModel};

verus! {

/// One downloadable archive.
#[derive(Debug)]
pub struct IndexedRubyVersion {
    pub version: Version,
    pub url: String,
    pub sha1: String,
    pub sha256: String,
    pub sha521: String,
}

pub struct IndexedModel {
    pub version: VersionModel,
    pub url: Seq<char>,
    pub sha1: Seq<char>,
    pub sha256: Seq<char>,
    pub sha521: Seq<char>,
}

impl View for IndexedRubyVersion {
    type V = IndexedModel;

    open spec fn view(&self) -> IndexedModel {
        IndexedModel {
            version: self.version@,
            url: self.url@,
            sha1: self.sha1@,
            sha256: self.sha256@,
            sha521: self.sha521@,
        }
    }
}

/// The first index at or after `p` that holds `c`, or the length.
pub open spec fn char_index(t: Seq<char>, c: char, p: int) -> int
    decreases t.len() - p,
{
    if p >= t.len() {
        t.len() as int
    } else if t[p] == c {
        p
    } else {
        char_index(t, c, p + 1)
    }
}

/// The first index at or after `p` whose character is (`ws`) or is not
/// (`!ws`) white space, or the length.
pub open spec fn space_index(t: Seq<char>, ws: bool, p: int) -> int
    decreases t.len() - p,
{
    if p >= t.len() {
        t.len() as int
    } else if is_white_space(t[p]) == ws {
        p
    } else {
        space_index(t, ws, p + 1)
    }
}

/// The white-space-separated fields of `l` from position `p` on.
pub open spec fn fields_from(l: Seq<char>, p: int) -> Seq<Seq<char>>
    decreases l.len() - p,
{
    let s = space_index(l, false, p);
    let e = space_index(l, true, s);
    if p < 0 || s >= l.len() || e <= p || e > l.len() {
        seq![]
    } else {
        seq![l.subrange(s, e)] + fields_from(l, e)
    }
}

pub open spec fn old_series_prefix() -> Seq<char> {
    seq!['r', 'u', 'b', 'y', '-', '0']
}

/// The archive that one line lists: none for a line with fewer than five
/// fields, for the old `ruby-0` series, and where the name is not a version.
pub open spec fn entry_of_line(l: Seq<char>) -> Option<IndexedModel> {
    let f = fields_from(l, 0);
    if f.len() < 5 {
        None
    } else if f[0].len() >= 6 && f[0].subrange(0, 6) == old_series_prefix() {
        None
    } else {
        match parse_spec(f[0]) {
            Ok(v) => Some(IndexedModel { version: v, url: f[1], sha1: f[2], sha256: f[3], sha521: f[4] }),
            Err(_) => None,
        }
    }
}

/// The archive that the line starting at `p` lists, if any: none for the
/// header line and for empty lines.
pub open spec fn listed_here(t: Seq<char>, p: int, header: bool) -> Seq<IndexedModel> {
    let e = char_index(t, '\n', p);
    let line = t.subrange(p, e);
    if header || line.len() == 0 {
        seq![]
    } else {
        match entry_of_line(line) {
            Some(x) => seq![x],
            None => seq![],
        }
    }
}

/// The archives that the lines of `t` from position `p` on list, where the
/// line at `p` is the header if `header` holds.
pub open spec fn entries_from(t: Seq<char>, p: int, header: bool) -> Seq<IndexedModel>
    decreases t.len() - p,
{
    let e = char_index(t, '\n', p);
    if p < 0 || p > t.len() || e >= t.len() || e < p {
        listed_here(t, p, header)
    } else {
        listed_here(t, p, header) + entries_from(t, e + 1, false)
    }
}

pub open spec fn index_view(v: Seq<IndexedRubyVersion>) -> Seq<IndexedModel> {
    v.map_values(|x: IndexedRubyVersion| x@)
}

proof fn lemma_char_index(t: Seq<char>, c: char, p: int)
    requires
        0 <= p <= t.len(),
    ensures
        p <= char_index(t, c, p) <= t.len(),
    decreases t.len() - p,
{
    if p < t.len() && t[p] != c {
        lemma_char_index(t, c, p + 1);
    }
}

proof fn lemma_space_index(t: Seq<char>, ws: bool, p: int)
    requires
        0 <= p <= t.len(),
    ensures
        p <= space_index(t, ws, p) <= t.len(),
        p < t.len() && is_white_space(t[p]) != ws ==> space_index(t, ws, p) > p,
    decreases t.len() - p,
{
    if p < t.len() && is_white_space(t[p]) != ws {
        lemma_space_index(t, ws, p + 1);
    }
}

pub(crate) fn find_char(t: &Vec<char>, c: char, p: usize) -> (r: usize)
    requires
        p <= t@.len(),
    ensures
        r == char_index(t@, c, p as int),
        p <= r <= t@.len(),
{
    proof {
        lemma_char_index(t@, c, p as int);
    }
    let mut i = p;
    while i < t.len() && t[i] != c
        invariant
            p <= i <= t@.len(),
            char_index(t@, c, p as int) == char_index(t@, c, i as int),
        decreases t@.len() - i,
    {
        i += 1;
    }
    i
}

fn find_space(t: &Vec<char>, ws: bool, p: usize) -> (r: usize)
    requires
        p <= t@.len(),
    ensures
        r == space_index(t@, ws, p as int),
        p <= r <= t@.len(),
{
    proof {
        lemma_space_index(t@, ws, p as int);
    }
    let mut i = p;
    while i < t.len() && is_white_space_char(t[i]) != ws
        invariant
            p <= i <= t@.len(),
            space_index(t@, ws, p as int) == space_index(t@, ws, i as int),
        decreases t@.len() - i,
    {
        i += 1;
    }
    i
}

/// The bounds of the first fields of the line `t[a..b]` (at most five), relative
/// to the start of the text.
fn first_fields(t: &Vec<char>, a: usize, b: usize) -> (r: Vec<(usize, usize)>)
    requires
        a <= b <= t@.len(),
    ensures
        r@.len() <= 5,
        r@.len() == 5 || r@.len() == fields_from(t@.subrange(a as int, b as int), 0).len(),
        r@.len() <= fields_from(t@.subrange(a as int, b as int), 0).len(),
        forall|k: int|
            0 <= k < r@.len() ==> a <= (#[trigger] r@[k]).0 <= r@[k].1 <= b && t@.subrange(
                r@[k].0 as int,
                r@[k].1 as int,
            ) == fields_from(t@.subrange(a as int, b as int), 0)[k],
{
    let line = copy_range(t, a, b);
    let ghost l = line@;
    let mut r: Vec<(usize, usize)> = Vec::new();
    let mut p: usize = 0;
    while r.len() < 5
        invariant
            l == line@,
            l == t@.subrange(a as int, b as int),
            a <= b <= t@.len(),
            p <= l.len(),
            r@.len() <= 5,
            fields_from(l, 0) == fields_of(r@, t@) + fields_from(l, p as int),
            forall|k: int|
                0 <= k < r@.len() ==> a <= (#[trigger] r@[k]).0 <= r@[k].1 <= b,
        ensures
            l == t@.subrange(a as int, b as int),
            r@.len() <= 5,
            fields_from(l, 0) == fields_of(r@, t@) + fields_from(l, p as int),
            r@.len() == 5 || fields_from(l, p as int).len() == 0,
            forall|k: int|
                0 <= k < r@.len() ==> a <= (#[trigger] r@[k]).0 <= r@[k].1 <= b,
        decreases 5 - r@.len(),
    {
        let s = find_space(&line, false, p);
        proof {
            lemma_space_index(l, false, p as int);
        }
        if s >= line.len() {
            assert(fields_from(l, p as int) =~= Seq::<Seq<char>>::empty());
            break;
        }
        let e = find_space(&line, true, s);
        let fs = a + s;
        let fe = a + e;
        proof {
            lemma_space_index(l, true, s as int);
            assert(fields_from(l, p as int) == seq![l.subrange(s as int, e as int)] + fields_from(l, e as int));
            assert(t@.subrange(a + s, a + e) =~= l.subrange(s as int, e as int));
            assert(fields_of(r@.push((fs, fe)), t@) =~= fields_of(r@, t@).push(l.subrange(s as int, e as int)));
        }
        r.push((fs, fe));
        p = e;
    }
    proof {
        assert forall|k: int| 0 <= k < r@.len() implies t@.subrange((#[trigger] r@[k]).0 as int, r@[k].1 as int)
            == fields_from(l, 0)[k] by {
            assert(fields_of(r@, t@)[k] == t@.subrange(r@[k].0 as int, r@[k].1 as int));
        };
    }
    r
}

/// The texts that bounds select.
pub open spec fn fields_of(bounds: Seq<(usize, usize)>, t: Seq<char>) -> Seq<Seq<char>> {
    bounds.map_values(|b: (usize, usize)| t.subrange(b.0 as int, b.1 as int))
}

pub open spec fn entry_view(r: Option<IndexedRubyVersion>) -> Option<IndexedModel> {
    match r {
        Some(x) => Some(x@),
        None => None,
    }
}

fn entry_from_line(text: &str, t: &Vec<char>, a: usize, b: usize) -> (r: Option<IndexedRubyVersion>)
    requires
        t@ == text@,
        a <= b <= t@.len(),
    ensures
        entry_view(r) == entry_of_line(t@.subrange(a as int, b as int)),
{
    let ghost l = t@.subrange(a as int, b as int);
    let f = first_fields(t, a, b);
    if f.len() < 5 {
        return None;
    }
    let ghost fl = fields_from(l, 0);
    let (n0, n1) = f[0];
    assert(t@.subrange(n0 as int, n1 as int) == fl[0]);
    if n1 - n0 >= 6 && t[n0] == 'r' && t[n0 + 1] == 'u' && t[n0 + 2] == 'b' && t[n0 + 3] == 'y'
        && t[n0 + 4] == '-' && t[n0 + 5] == '0' {
        assert(fl[0].subrange(0, 6) =~= old_series_prefix());
        return None;
    }
    proof {
        if fl[0].len() >= 6 && fl[0].subrange(0, 6) == old_series_prefix() {
            assert(fl[0].subrange(0, 6)[0] == fl[0][0]);
            assert(fl[0].subrange(0, 6)[1] == fl[0][1]);
            assert(fl[0].subrange(0, 6)[2] == fl[0][2]);
            assert(fl[0].subrange(0, 6)[3] == fl[0][3]);
            assert(fl[0].subrange(0, 6)[4] == fl[0][4]);
            assert(fl[0].subrange(0, 6)[5] == fl[0][5]);
        }
    }
    let version = match Version::parse(text.substring_char(n0, n1)) {
        Ok(v) => v,
        Err(_) => return None,
    };
    let (u0, u1) = f[1];
    let (s10, s11) = f[2];
    let (s20, s21) = f[3];
    let (s50, s51) = f[4];
    Some(
        IndexedRubyVersion {
            version,
            url: String::from_str(text.substring_char(u0, u1)),
            sha1: String::from_str(text.substring_char(s10, s11)),
            sha256: String::from_str(text.substring_char(s20, s21)),
            sha521: String::from_str(text.substring_char(s50, s51)),
        },
    )
}

/// The archives that an index lists, in its order: each line after the
/// header that has at least five fields, whose first field is a version
/// name outside the old `ruby-0` series.
pub fn parse_index(text: &str) -> (r: Vec<IndexedRubyVersion>)
    ensures
        index_view(r@) == entries_from(text@, 0, true),
{
    let t = chars_of(text);
    let mut r: Vec<IndexedRubyVersion> = Vec::new();
    let mut p: usize = 0;
    let mut header = true;
    assert(index_view(r@) =~= Seq::<IndexedModel>::empty());
    loop
        invariant_except_break
            entries_from(t@, 0, true) == index_view(r@) + entries_from(t@, p as int, header),
        invariant
            t@ == text@,
            p <= t@.len(),
        ensures
            entries_from(t@, 0, true) == index_view(r@),
        decreases t@.len() + 1 - p,
    {
        let e = find_char(&t, '\n', p);
        let ghost before = r@;
        if !header && e > p {
            match entry_from_line(text, &t, p, e) {
                Some(x) => r.push(x),
                None => {},
            }
        }
        assert(index_view(r@) =~= index_view(before) + listed_here(t@, p as int, header));
        if e >= t.len() {
            assert(entries_from(t@, p as int, header) == listed_here(t@, p as int, header));
            break;
        }
        assert(entries_from(t@, p as int, header) == listed_here(t@, p as int, header) + entries_from(t@, e + 1, false));
        assert(index_view(r@) + entries_from(t@, e + 1, false) =~= index_view(before) + entries_from(t@, p as int, header));
        p = e + 1;
        header = false;
    }
    r
}

} // verus!
