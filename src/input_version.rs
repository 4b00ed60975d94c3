//! Version requests as a user writes them, and their resolution against a
//! list of known versions.
use vstd::prelude::*;
use vstd::string::*;
use crate::text::{append_decimal, chars_of, copy_range, decimal_text, parse_u64, trim, trimmed, u64_of_text};
use crate::version::{
    lemma_version_order, parse_spec, version_eq, version_lt, version_text, ParseError, Version,
    VersionModel,
};

verus! {

/// How specific a version request is.
#[derive(Debug)]
pub enum InputVersion {
    /// Any version with this major number.
    Major(u64),
    /// Any version with this major and minor number.
    MajorMinor(u64, u64),
    /// This version.
    Full(Version),
}

pub enum InputVersionModel {
    Major(u64),
    MajorMinor(u64, u64),
    Full(VersionModel),
}

impl View for InputVersion {
    type V = InputVersionModel;

    open spec fn view(&self) -> InputVersionModel {
        match self {
            InputVersion::Major(m) => InputVersionModel::Major(*m),
            InputVersion::MajorMinor(m, n) => InputVersionModel::MajorMinor(*m, *n),
            InputVersion::Full(v) => InputVersionModel::Full(v@),
        }
    }
}

/// Whether a version answers a request: a full request asks for equal
/// precedence; a partial one for equal leading numbers of a semantic version.
pub open spec fn input_matches(i: InputVersionModel, v: VersionModel) -> bool {
    match (i, v) {
        (InputVersionModel::Full(a), b) => version_eq(a, b),
        (_, VersionModel::System) => false,
        (InputVersionModel::Major(m), VersionModel::Semver(o)) => m == o.major,
        (InputVersionModel::MajorMinor(m, n), VersionModel::Semver(o)) => m == o.major && n
            == o.minor,
    }
}

pub open spec fn versions_view(vs: Seq<Version>) -> Seq<VersionModel> {
    vs.map_values(|v: Version| v@)
}

/// Position `k` holds the version that a request resolves to: it matches, no
/// matching version comes after it in the order, and every matching version
/// later in the list comes before it in the order.
pub open spec fn is_resolution(i: InputVersionModel, vs: Seq<VersionModel>, k: int) -> bool {
    &&& 0 <= k < vs.len()
    &&& input_matches(i, vs[k])
    &&& forall|j: int| 0 <= j < vs.len() && input_matches(i, vs[j]) ==> !version_lt(vs[k], vs[j])
    &&& forall|j: int| k < j < vs.len() && input_matches(i, vs[j]) ==> version_lt(vs[j], vs[k])
}

pub open spec fn none_matches(i: InputVersionModel, vs: Seq<VersionModel>) -> bool {
    forall|j: int| 0 <= j < vs.len() ==> !input_matches(i, #[trigger] vs[j])
}

/// The index of the first `.` at or after `from`, or the length.
pub open spec fn dot_index(t: Seq<char>, from: int) -> int
    decreases t.len() - from,
{
    if from >= t.len() {
        t.len() as int
    } else if t[from] == '.' {
        from
    } else {
        dot_index(t, from + 1)
    }
}

/// What `InputVersion::from_str` gives for a text: a full version where the
/// text parses as one; otherwise the leading dot-separated numbers of the
/// trimmed text, a major number and, where the second field is a number, a
/// minor one; otherwise the error of the full parse.
pub open spec fn input_from_str_spec(s: Seq<char>) -> Result<InputVersionModel, ParseError> {
    match parse_spec(s) {
        Ok(v) => Ok(InputVersionModel::Full(v)),
        Err(e) => {
            let t = trimmed(s);
            let d0 = dot_index(t, 0);
            match u64_of_text(t.subrange(0, d0)) {
                None => Err(e),
                Some(major) => if d0 < t.len() {
                    match u64_of_text(t.subrange(d0 + 1, dot_index(t, d0 + 1))) {
                        Some(minor) => Ok(InputVersionModel::MajorMinor(major, minor)),
                        None => Ok(InputVersionModel::Major(major)),
                    }
                } else {
                    Ok(InputVersionModel::Major(major))
                },
            }
        },
    }
}

pub open spec fn input_text(i: InputVersionModel) -> Seq<char> {
    match i {
        InputVersionModel::Major(m) => decimal_text(m as nat) + seq!['.', 'x', '.', 'x'],
        InputVersionModel::MajorMinor(m, n) => decimal_text(m as nat) + seq!['.']
            + decimal_text(n as nat) + seq!['.', 'x'],
        InputVersionModel::Full(v) => version_text(v),
    }
}

proof fn lemma_dot_index_bounds(t: Seq<char>, from: int)
    requires
        0 <= from <= t.len(),
    ensures
        from <= dot_index(t, from) <= t.len(),
        dot_index(t, from) < t.len() ==> t[dot_index(t, from)] == '.',
    decreases t.len() - from,
{
    if from < t.len() && t[from] != '.' {
        lemma_dot_index_bounds(t, from + 1);
    }
}

/// Reads the next dot-separated field of `t`, starting at `*pos`, as a
/// number, and moves `*pos` past it; `None` in `*pos` means that no field is
/// left.
fn next_of(t: &Vec<char>, pos: &mut Option<usize>) -> (r: Option<u64>)
    requires
        *old(pos) matches Some(p) ==> p <= t@.len(),
    ensures
        match *old(pos) {
            None => r is None && *final(pos) is None,
            Some(p) => {
                &&& r == u64_of_text(t@.subrange(p as int, dot_index(t@, p as int)))
                &&& dot_index(t@, p as int) < t@.len() ==> *final(pos) == Some(
                    (dot_index(t@, p as int) + 1) as usize,
                )
                &&& dot_index(t@, p as int) >= t@.len() ==> *final(pos) is None
            },
        },
        *final(pos) matches Some(q) ==> q <= t@.len(),
{
    match *pos {
        None => None,
        Some(p) => {
            proof {
                lemma_dot_index_bounds(t@, p as int);
            }
            let mut end: usize = p;
            while end < t.len() && t[end] != '.'
                invariant
                    p <= end <= t@.len(),
                    dot_index(t@, p as int) == dot_index(t@, end as int),
                decreases t@.len() - end,
            {
                end += 1;
            }
            let field = copy_range(t, p, end);
            if end < t.len() {
                *pos = Some(end + 1);
            } else {
                *pos = None;
            }
            parse_u64(field.as_slice())
        },
    }
}

impl InputVersion {
    /// An equal request.
    pub fn copy(&self) -> (r: InputVersion)
        ensures
            r@ == self@,
    {
        match self {
            InputVersion::Major(m) => InputVersion::Major(*m),
            InputVersion::MajorMinor(m, n) => InputVersion::MajorMinor(*m, *n),
            InputVersion::Full(v) => InputVersion::Full(v.copy()),
        }
    }

    /// Whether `version` answers this request.
    pub fn matches(&self, version: &Version) -> (r: bool)
        ensures
            r == input_matches(self@, version@),
    {
        match (self, version) {
            (InputVersion::Full(a), b) => matches!(a.compare(b), std::cmp::Ordering::Equal),
            (_, Version::System) => false,
            (InputVersion::Major(major), Version::Semver(other)) => *major == other.major,
            (InputVersion::MajorMinor(major, minor), Version::Semver(other)) => *major
                == other.major && *minor == other.minor,
        }
    }

    /// The greatest of the versions that answer this request (the last of
    /// them where several have equal precedence), or `None` where none does.
    pub fn to_version<'a>(&self, available_versions: &'a Vec<Version>) -> (r: Option<&'a Version>)
        ensures
            r is None <==> none_matches(self@, versions_view(available_versions@)),
            r matches Some(v) ==> exists|k: int|
                is_resolution(self@, versions_view(available_versions@), k) && v@
                    == versions_view(available_versions@)[k],
    {
        let ghost vs = versions_view(available_versions@);
        let n = available_versions.len();
        let mut best: Option<usize> = None;
        let mut i: usize = 0;
        while i < n
            invariant
                i <= n,
                n == available_versions@.len(),
                vs == versions_view(available_versions@),
                vs.len() == n,
                best is None ==> forall|j: int| 0 <= j < i ==> !input_matches(self@, #[trigger] vs[j]),
                best matches Some(b) ==> {
                    &&& b < i
                    &&& input_matches(self@, vs[b as int])
                    &&& forall|j: int|
                        0 <= j < i && input_matches(self@, vs[j]) ==> !version_lt(
                            vs[b as int],
                            #[trigger] vs[j],
                        )
                    &&& forall|j: int|
                        b < j < i && input_matches(self@, vs[j]) ==> version_lt(
                            #[trigger] vs[j],
                            vs[b as int],
                        )
                },
            decreases n - i,
        {
            let candidate = &available_versions[i];
            assert(vs[i as int] == candidate@);
            if self.matches(candidate) {
                match best {
                    None => {
                        proof {
                            lemma_version_order(vs[i as int], vs[i as int], vs[i as int]);
                        }
                        best = Some(i);
                    },
                    Some(b) => {
                        let c = available_versions[b].compare(candidate);
                        assert(vs[b as int] == available_versions@[b as int]@);
                        if matches!(c, std::cmp::Ordering::Greater) {
                            proof {
                                lemma_version_order(vs[b as int], vs[i as int], vs[i as int]);
                            }
                        } else {
                            proof {
                                assert forall|j: int|
                                    0 <= j <= i && input_matches(self@, vs[j]) implies !version_lt(
                                    vs[i as int],
                                    #[trigger] vs[j],
                                ) by {
                                    lemma_version_order(vs[b as int], vs[i as int], vs[j]);
                                    lemma_version_order(vs[i as int], vs[b as int], vs[j]);
                                    lemma_version_order(vs[i as int], vs[j], vs[b as int]);
                                };
                            }
                            best = Some(i);
                        }
                    },
                }
            }
            i += 1;
        }
        match best {
            None => None,
            Some(b) => Some(&available_versions[b]),
        }
    }

    /// Reads a request: a full version, or else `major` or `major.minor`
    /// (further fields are ignored, and a second field that is not a number
    /// leaves a major-only request).
    pub fn from_str(s: &str) -> (r: Result<InputVersion, ParseError>)
        ensures
            input_parsed_view(r) == input_from_str_spec(s@),
    {
        match Version::parse(s) {
            Ok(v) => Ok(InputVersion::Full(v)),
            Err(e) => {
                let chars = chars_of(s);
                let t = trim(chars.as_slice());
                let mut parts: Option<usize> = Some(0);
                proof {
                    lemma_dot_index_bounds(t@, 0);
                    let d0 = dot_index(t@, 0);
                    if d0 < t@.len() {
                        lemma_dot_index_bounds(t@, d0 + 1);
                    }
                }
                let first = next_of(&t, &mut parts);
                let second = next_of(&t, &mut parts);
                match (first, second) {
                    (Some(major), None) => Ok(InputVersion::Major(major)),
                    (Some(major), Some(minor)) => Ok(InputVersion::MajorMinor(major, minor)),
                    _ => Err(e),
                }
            },
        }
    }

    /// The request as text: the version, or `M.x.x`, or `M.m.x`.
    pub fn to_string(&self) -> (r: String)
        ensures
            r@ == input_text(self@),
    {
        match self {
            InputVersion::Full(v) => v.to_string(),
            InputVersion::Major(m) => {
                let mut out = String::new();
                append_decimal(&mut out, *m);
                proof {
                    reveal_strlit(".x.x");
                }
                out.append(".x.x");
                assert(out@ =~= input_text(self@));
                out
            },
            InputVersion::MajorMinor(m, n) => {
                let mut out = String::new();
                append_decimal(&mut out, *m);
                proof {
                    reveal_strlit(".");
                    reveal_strlit(".x");
                }
                out.append(".");
                append_decimal(&mut out, *n);
                out.append(".x");
                assert(out@ =~= input_text(self@));
                out
            },
        }
    }
}

pub open spec fn input_parsed_view(r: Result<InputVersion, ParseError>) -> Result<
    InputVersionModel,
    ParseError,
> {
    match r {
        Ok(v) => Ok(v@),
        Err(e) => Err(e),
    }
}

} // verus!
