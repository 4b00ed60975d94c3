//! Runtime versions: a semantic version or the `system` sentinel, with
//! parsing, canonical rendering and precedence.
use vstd::prelude::*;
use vstd::string::*;
use crate::config::{join, path_view, FrumConfig};
use crate::text::{
    all_ascii, all_digits, append_decimal, ascii_lower, chars_of, decimal_text, decimal_value,
    is_digit, lemma_decimal_text_digits, lowercase_text, to_lowercase,
};

verus! {

/// One dot-separated identifier of a pre-release or build part.
#[derive(Debug)]
pub enum Identifier {
    Numeric(u64),
    AlphaNumeric(String),
}

pub enum IdentifierModel {
    Numeric(u64),
    AlphaNumeric(Seq<char>),
}

impl View for Identifier {
    type V = IdentifierModel;

    open spec fn view(&self) -> IdentifierModel {
        match self {
            Identifier::Numeric(n) => IdentifierModel::Numeric(*n),
            Identifier::AlphaNumeric(s) => IdentifierModel::AlphaNumeric(s@),
        }
    }
}

pub open spec fn ids_view(ids: Seq<Identifier>) -> Seq<IdentifierModel> {
    ids.map_values(|i: Identifier| i@)
}

/// A semantic version: `major.minor.patch`, then optional pre-release and
/// build identifiers.
#[derive(Debug)]
pub struct SemVer {
    pub major: u64,
    pub minor: u64,
    pub patch: u64,
    pub pre: Vec<Identifier>,
    pub build: Vec<Identifier>,
}

pub struct SemVerModel {
    pub major: u64,
    pub minor: u64,
    pub patch: u64,
    pub pre: Seq<IdentifierModel>,
    pub build: Seq<IdentifierModel>,
}

impl View for SemVer {
    type V = SemVerModel;

    open spec fn view(&self) -> SemVerModel {
        SemVerModel {
            major: self.major,
            minor: self.minor,
            patch: self.patch,
            pre: ids_view(self.pre@),
            build: ids_view(self.build@),
        }
    }
}

/// A version of the runtime: a semantic version, or the runtime that the
/// operating system provides.
#[derive(Debug)]
pub enum Version {
    Semver(SemVer),
    System,
}

pub enum VersionModel {
    Semver(SemVerModel),
    System,
}

impl View for Version {
    type V = VersionModel;

    open spec fn view(&self) -> VersionModel {
        match self {
            Version::Semver(v) => VersionModel::Semver(v@),
            Version::System => VersionModel::System,
        }
    }
}

/// Why a text is not a version.
#[derive(Debug, Clone, Copy, PartialEq, Eq, Structural)]
pub enum ParseError {
    /// The text is empty.
    Empty,
    /// After its prefix the text does not start with a digit.
    InvalidStart,
    /// The text starts with a digit but is not a semantic version.
    Malformed,
}

// ---------------------------------------------------------------------------
// Canonical rendering

pub open spec fn identifier_text(i: IdentifierModel) -> Seq<char> {
    match i {
        IdentifierModel::Numeric(n) => decimal_text(n as nat),
        IdentifierModel::AlphaNumeric(s) => s,
    }
}

/// Identifiers joined by dots.
pub open spec fn identifiers_text(ids: Seq<IdentifierModel>) -> Seq<char>
    decreases ids.len(),
{
    if ids.len() == 0 {
        seq![]
    } else if ids.len() == 1 {
        identifier_text(ids[0])
    } else {
        identifiers_text(ids.drop_last()) + seq!['.'] + identifier_text(ids.last())
    }
}

pub open spec fn tagged_text(tag: char, ids: Seq<IdentifierModel>) -> Seq<char> {
    if ids.len() == 0 {
        seq![]
    } else {
        seq![tag] + identifiers_text(ids)
    }
}

/// `major.minor.patch[-pre][+build]`.
pub open spec fn semver_text(m: SemVerModel) -> Seq<char> {
    decimal_text(m.major as nat) + seq!['.'] + decimal_text(m.minor as nat) + seq!['.']
        + decimal_text(m.patch as nat) + tagged_text('-', m.pre) + tagged_text('+', m.build)
}

pub open spec fn system_text() -> Seq<char> {
    seq!['s', 'y', 's', 't', 'e', 'm']
}

/// The canonical text of a version, which also names its installation
/// directory.
pub open spec fn version_text(v: VersionModel) -> Seq<char> {
    match v {
        VersionModel::Semver(m) => semver_text(m),
        VersionModel::System => system_text(),
    }
}

fn append_identifiers(out: &mut String, tag: &str, ids: &Vec<Identifier>)
    requires
        tag@.len() == 1,
    ensures
        final(out)@ == old(out)@ + tagged_text(tag@[0], ids_view(ids@)),
{
    let ghost view = ids_view(ids@);
    proof {
        reveal_strlit(".");
    }
    assert("."@ =~= seq!['.']);
    if ids.len() == 0 {
        assert(final(out)@ =~= old(out)@ + tagged_text(tag@[0], view));
        return;
    }
    out.append(tag);
    let ghost start = out@;
    let mut i: usize = 0;
    while i < ids.len()
        invariant
            i <= ids@.len(),
            view == ids_view(ids@),
            out@ == start + identifiers_text(view.subrange(0, i as int)),
        decreases ids@.len() - i,
    {
        let ghost before = out@;
        proof {
            reveal_strlit(".");
        }
        assert("."@ =~= seq!['.']);
        if i > 0 {
            out.append(".");
        }
        let ghost mid = out@;
        assert(i > 0 ==> mid =~= before + seq!['.']);
        assert(i == 0 ==> mid == before);
        match &ids[i] {
            Identifier::Numeric(n) => append_decimal(out, *n),
            Identifier::AlphaNumeric(s) => out.append(s.as_str()),
        }
        proof {
            let next = view.subrange(0, i + 1);
            assert(view[i as int] == ids@[i as int]@);
            assert(out@ == mid + identifier_text(view[i as int]));
            assert(next.drop_last() =~= view.subrange(0, i as int));
            assert(next.last() == view[i as int]);
            if i == 0 {
                assert(next.len() == 1);
                assert(identifiers_text(next) == identifier_text(next[0]));
                assert(view.subrange(0, 0) =~= Seq::<IdentifierModel>::empty());
                assert(identifiers_text(view.subrange(0, 0)) == Seq::<char>::empty());
                assert(out@ =~= start + identifiers_text(next));
            } else {
                assert(identifiers_text(next) == identifiers_text(next.drop_last()) + seq!['.'] + identifier_text(next.last()));
                assert(out@ =~= start + identifiers_text(next));
            }
        }
        i += 1;
        assert(out@ =~= start + identifiers_text(view.subrange(0, i as int)));
    }
    assert(view.subrange(0, ids@.len() as int) =~= view);
    assert(final(out)@ =~= old(out)@ + tagged_text(tag@[0], view));
}

impl SemVer {
    /// The canonical text `major.minor.patch[-pre][+build]`.
    pub fn to_string(&self) -> (r: String)
        ensures
            r@ == semver_text(self@),
    {
        proof {
            reveal_strlit(".");
            reveal_strlit("-");
            reveal_strlit("+");
        }
        let mut out = String::new();
        append_decimal(&mut out, self.major);
        out.append(".");
        append_decimal(&mut out, self.minor);
        out.append(".");
        append_decimal(&mut out, self.patch);
        append_identifiers(&mut out, "-", &self.pre);
        append_identifiers(&mut out, "+", &self.build);
        assert(out@ =~= semver_text(self@));
        out
    }
}

impl Version {
    /// The canonical text of the version: the semantic version's text, or
    /// `system`.
    pub fn to_string(&self) -> (r: String)
        ensures
            r@ == version_text(self@),
    {
        match self {
            Version::Semver(v) => v.to_string(),
            Version::System => {
                proof {
                    reveal_strlit("system");
                }
                let r = String::from_str("system");
                assert(r@ =~= system_text());
                r
            },
        }
    }
}

// ---------------------------------------------------------------------------
// Parsing

#[verifier::external_type_specification]
#[verifier::external_body]
pub struct ExSemVerError(semver::SemVerError);

pub open spec fn is_alnum(c: char) -> bool {
    is_digit(c) || ('a' <= c && c <= 'z') || ('A' <= c && c <= 'Z')
}

/// A word that semver's lexer reads back as one number.
pub open spec fn lexes_as_number(t: Seq<char>) -> bool {
    t.len() > 0 && all_digits(t) && (t =~= seq!['0'] || (t[0] != '0' && decimal_value(t)
        <= u64::MAX))
}

/// An alphanumeric identifier as semver's parser produces it: alphanumeric
/// runs joined by single hyphens, and not a plain number.
pub open spec fn canonical_word(t: Seq<char>) -> bool {
    &&& t.len() > 0
    &&& forall|i: int| 0 <= i < t.len() ==> is_alnum(#[trigger] t[i]) || t[i] == '-'
    &&& t[0] != '-'
    &&& t.last() != '-'
    &&& forall|i: int| 0 <= i < t.len() - 1 ==> !(#[trigger] t[i] == '-' && t[i + 1] == '-')
    &&& !lexes_as_number(t)
}

pub open spec fn canonical_identifier(i: IdentifierModel) -> bool {
    match i {
        IdentifierModel::Numeric(_) => true,
        IdentifierModel::AlphaNumeric(t) => canonical_word(t),
    }
}

/// A semantic version whose every identifier is one that semver's parser
/// can produce.
pub open spec fn canonical_semver(m: SemVerModel) -> bool {
    &&& forall|j: int| 0 <= j < m.pre.len() ==> canonical_identifier(#[trigger] m.pre[j])
    &&& forall|j: int| 0 <= j < m.build.len() ==> canonical_identifier(#[trigger] m.build[j])
}

/// How often `c` occurs in `s`.
pub open spec fn count_char(s: Seq<char>, c: char) -> nat
    decreases s.len(),
{
    if s.len() == 0 {
        0
    } else {
        count_char(s.drop_last(), c) + if s.last() == c {
            1nat
        } else {
            0nat
        }
    }
}

pub open spec fn ok_model<E>(r: Result<SemVer, E>) -> Option<SemVerModel> {
    match r {
        Ok(v) => Some(v@),
        Err(_) => None,
    }
}

/// What `semver::Version::parse` gives for a text: a function of the text
/// alone.
pub uninterp spec fn semver_of(s: Seq<char>) -> Option<SemVerModel>;

/// Relies on `semver::Version::parse` (semver 0.11): its result depends on
/// the text alone, and the canonical text of a version whose identifiers the
/// parser can produce is read back as that version. The parser panics on an
/// identifier of more than 255 hyphen-joined parts, which `requires` rules
/// out.
#[verifier::external_body]
fn semver_parse(s: &str) -> (r: Result<SemVer, semver::SemVerError>)
    requires
        count_char(s@, '-') <= 255,
    ensures
        ok_model(r) == semver_of(s@),
        forall|m: SemVerModel|
            #![trigger semver_text(m)]
            canonical_semver(m) && semver_text(m) == s@ ==> ok_model(r) == Some(m),
{
    let id = |i: semver::Identifier| match i {
        semver::Identifier::Numeric(n) => Identifier::Numeric(n),
        semver::Identifier::AlphaNumeric(a) => Identifier::AlphaNumeric(a),
    };
    semver::Version::parse(s).map(|v| SemVer {
        major: v.major,
        minor: v.minor,
        patch: v.patch,
        pre: v.pre.into_iter().map(id).collect(),
        build: v.build.into_iter().map(id).collect(),
    })
}

pub open spec fn ruby_prefix() -> Seq<char> {
    seq!['r', 'u', 'b', 'y', '-']
}

/// `s` with every leading copy of `p` removed, as `str::trim_start_matches`
/// does.
pub open spec fn strip_repeated(s: Seq<char>, p: Seq<char>) -> Seq<char>
    decreases s.len(),
{
    if p.len() > 0 && p.len() <= s.len() && s.subrange(0, p.len() as int) == p {
        strip_repeated(s.subrange(p.len() as int, s.len() as int), p)
    } else {
        s
    }
}

/// A version text without its conventional prefixes: any leading `ruby-`,
/// then one `v`.
pub open spec fn without_prefix(s: Seq<char>) -> Seq<char> {
    let t = strip_repeated(s, ruby_prefix());
    if t.len() > 0 && t[0] == 'v' {
        t.drop_first()
    } else {
        t
    }
}

pub open spec fn starts_with_digit(s: Seq<char>) -> bool {
    s.len() > 0 && is_digit(s[0])
}

/// What `Version::parse` gives for a text.
pub open spec fn parse_spec(s: Seq<char>) -> Result<VersionModel, ParseError> {
    if s.len() == 0 {
        Err(ParseError::Empty)
    } else if lowercase_text(s) == system_text() {
        Ok(VersionModel::System)
    } else {
        let t = without_prefix(lowercase_text(s));
        if !starts_with_digit(t) {
            Err(ParseError::InvalidStart)
        } else if count_char(t, '-') > 255 {
            Err(ParseError::Malformed)
        } else {
            match semver_of(t) {
                Some(m) => Ok(VersionModel::Semver(m)),
                None => Err(ParseError::Malformed),
            }
        }
    }
}

pub open spec fn parsed_view(r: Result<Version, ParseError>) -> Result<VersionModel, ParseError> {
    match r {
        Ok(v) => Ok(v@),
        Err(e) => Err(e),
    }
}

/// Whether the text starts with an ASCII digit.
pub fn start_with_number(s: &str) -> (r: bool)
    ensures
        r == starts_with_digit(s@),
{
    if s.unicode_len() == 0 {
        return false;
    }
    let c = s.get_char(0);
    '0' <= c && c <= '9'
}

fn is_system_text(s: &Vec<char>) -> (r: bool)
    ensures
        r == (s@ == system_text()),
{
    let r = s.len() == 6 && s[0] == 's' && s[1] == 'y' && s[2] == 's' && s[3] == 't' && s[4]
        == 'e' && s[5] == 'm';
    if r {
        assert(s@ =~= system_text());
    }
    r
}

/// The number of leading characters that `without_prefix` removes.
fn prefix_len(s: &Vec<char>) -> (k: usize)
    ensures
        k <= s@.len(),
        without_prefix(s@) == s@.subrange(k as int, s@.len() as int),
{
    let n = s.len();
    let mut k: usize = 0;
    assert(s@.subrange(0, n as int) =~= s@);
    while n - k >= 5 && s[k] == 'r' && s[k + 1] == 'u' && s[k + 2] == 'b' && s[k + 3] == 'y'
        && s[k + 4] == '-'
        invariant
            k <= n,
            n == s@.len(),
            strip_repeated(s@, ruby_prefix()) == strip_repeated(
                s@.subrange(k as int, n as int),
                ruby_prefix(),
            ),
        decreases n - k,
    {
        let ghost rest = s@.subrange(k as int, n as int);
        assert(rest.subrange(0, 5) =~= ruby_prefix());
        assert(rest.subrange(5, rest.len() as int) =~= s@.subrange(k + 5, n as int));
        k += 5;
    }
    proof {
        let rest = s@.subrange(k as int, n as int);
        if 5 <= rest.len() && rest.subrange(0, 5) == ruby_prefix() {
            assert(rest[0] == rest.subrange(0, 5)[0]);
            assert(rest[1] == rest.subrange(0, 5)[1]);
            assert(rest[2] == rest.subrange(0, 5)[2]);
            assert(rest[3] == rest.subrange(0, 5)[3]);
            assert(rest[4] == rest.subrange(0, 5)[4]);
        }
        assert(strip_repeated(rest, ruby_prefix()) == rest);
    }
    if k < n && s[k] == 'v' {
        assert(s@.subrange(k as int, n as int).drop_first() =~= s@.subrange(k + 1, n as int));
        k += 1;
    }
    k
}

fn count_hyphens(s: &Vec<char>) -> (r: usize)
    ensures
        r == count_char(s@, '-'),
{
    let mut r: usize = 0;
    let mut i: usize = 0;
    while i < s.len()
        invariant
            i <= s@.len(),
            r == count_char(s@.subrange(0, i as int), '-'),
            r <= i,
        decreases s@.len() - i,
    {
        assert(s@.subrange(0, i + 1).drop_last() =~= s@.subrange(0, i as int));
        if s[i] == '-' {
            r += 1;
        }
        i += 1;
    }
    assert(s@.subrange(0, i as int) =~= s@);
    r
}

/// A character that the canonical text of a constructible version can hold.
pub open spec fn plain_char(c: char) -> bool {
    is_digit(c) || ('a' <= c && c <= 'z') || c == '-' || c == '.' || c == '+'
}

pub open spec fn all_plain(s: Seq<char>) -> bool {
    forall|i: int| 0 <= i < s.len() ==> plain_char(#[trigger] s[i])
}

pub open spec fn lower_identifier(i: IdentifierModel) -> bool {
    match i {
        IdentifierModel::Numeric(_) => true,
        IdentifierModel::AlphaNumeric(t) => forall|k: int|
            0 <= k < t.len() ==> !('A' <= #[trigger] t[k] && t[k] <= 'Z'),
    }
}

/// A semantic version that `Version::parse` can produce: its identifiers are
/// ones that semver's parser produces, in lower case, and its text holds at
/// most 255 hyphens.
pub open spec fn constructible_semver(m: SemVerModel) -> bool {
    &&& canonical_semver(m)
    &&& forall|j: int| 0 <= j < m.pre.len() ==> lower_identifier(#[trigger] m.pre[j])
    &&& forall|j: int| 0 <= j < m.build.len() ==> lower_identifier(#[trigger] m.build[j])
    &&& count_char(semver_text(m), '-') <= 255
}

proof fn lemma_concat_plain(a: Seq<char>, b: Seq<char>)
    requires
        all_plain(a),
        all_plain(b),
    ensures
        all_plain(a + b),
{
    assert forall|i: int| 0 <= i < (a + b).len() implies plain_char(#[trigger] (a + b)[i]) by {
        if i < a.len() {
            assert((a + b)[i] == a[i]);
        } else {
            assert((a + b)[i] == b[i - a.len()]);
        }
    };
}

proof fn lemma_identifier_plain(i: IdentifierModel)
    requires
        canonical_identifier(i),
        lower_identifier(i),
    ensures
        all_plain(identifier_text(i)),
{
    match i {
        IdentifierModel::Numeric(n) => {
            lemma_decimal_text_digits(n as nat);
        },
        IdentifierModel::AlphaNumeric(t) => {
            assert forall|k: int| 0 <= k < t.len() implies plain_char(#[trigger] t[k]) by {
                assert(is_alnum(t[k]) || t[k] == '-');
            };
        },
    }
}

proof fn lemma_identifiers_plain(ids: Seq<IdentifierModel>)
    requires
        forall|j: int| 0 <= j < ids.len() ==> canonical_identifier(#[trigger] ids[j]),
        forall|j: int| 0 <= j < ids.len() ==> lower_identifier(#[trigger] ids[j]),
    ensures
        all_plain(identifiers_text(ids)),
    decreases ids.len(),
{
    if ids.len() == 0 {
    } else if ids.len() == 1 {
        lemma_identifier_plain(ids[0]);
    } else {
        let init = ids.drop_last();
        assert forall|j: int| 0 <= j < init.len() implies canonical_identifier(#[trigger] init[j])
            && lower_identifier(init[j]) by {
            assert(init[j] == ids[j]);
        };
        lemma_identifiers_plain(init);
        lemma_identifier_plain(ids.last());
        lemma_concat_plain(identifiers_text(init), seq!['.']);
        lemma_concat_plain(identifiers_text(init) + seq!['.'], identifier_text(ids.last()));
    }
}

proof fn lemma_tagged_plain(tag: char, ids: Seq<IdentifierModel>)
    requires
        plain_char(tag),
        forall|j: int| 0 <= j < ids.len() ==> canonical_identifier(#[trigger] ids[j]),
        forall|j: int| 0 <= j < ids.len() ==> lower_identifier(#[trigger] ids[j]),
    ensures
        all_plain(tagged_text(tag, ids)),
{
    if ids.len() > 0 {
        lemma_identifiers_plain(ids);
        lemma_concat_plain(seq![tag], identifiers_text(ids));
    }
}

/// The canonical text of a constructible version is lower-case ASCII that
/// starts with a digit, so parsing reads it unchanged.
proof fn lemma_constructible_text(m: SemVerModel)
    requires
        constructible_semver(m),
    ensures
        all_ascii(semver_text(m)),
        lowercase_text(semver_text(m)) == semver_text(m),
        semver_text(m) != system_text(),
        starts_with_digit(semver_text(m)),
        without_prefix(semver_text(m)) == semver_text(m),
{
    let t = semver_text(m);
    lemma_decimal_text_digits(m.major as nat);
    lemma_decimal_text_digits(m.minor as nat);
    lemma_decimal_text_digits(m.patch as nat);
    lemma_tagged_plain('-', m.pre);
    lemma_tagged_plain('+', m.build);
    let a = decimal_text(m.major as nat);
    assert(all_plain(a));
    assert(all_plain(decimal_text(m.minor as nat)));
    assert(all_plain(decimal_text(m.patch as nat)));
    lemma_concat_plain(a, seq!['.']);
    lemma_concat_plain(a + seq!['.'], decimal_text(m.minor as nat));
    lemma_concat_plain(a + seq!['.'] + decimal_text(m.minor as nat), seq!['.']);
    lemma_concat_plain(
        a + seq!['.'] + decimal_text(m.minor as nat) + seq!['.'],
        decimal_text(m.patch as nat),
    );
    let b = a + seq!['.'] + decimal_text(m.minor as nat) + seq!['.'] + decimal_text(
        m.patch as nat,
    );
    lemma_concat_plain(b, tagged_text('-', m.pre));
    lemma_concat_plain(b + tagged_text('-', m.pre), tagged_text('+', m.build));
    assert(all_plain(t));
    assert(all_ascii(t)) by {
        assert forall|i: int| 0 <= i < t.len() implies (#[trigger] t[i] as u32) < 128 by {
            assert(plain_char(t[i]));
        };
    };
    assert(t.map_values(|c: char| ascii_lower(c)) =~= t) by {
        assert forall|i: int| 0 <= i < t.len() implies #[trigger] ascii_lower(t[i]) == t[i] by {
            assert(plain_char(t[i]));
        };
    };
    assert(t[0] == a[0]);
    assert(is_digit(t[0]));
    assert(t.len() > 0);
    assert(t[0] != system_text()[0]);
    if 5 <= t.len() && t.subrange(0, 5) == ruby_prefix() {
        assert(t.subrange(0, 5)[0] == 'r');
    }
    assert(strip_repeated(t, ruby_prefix()) == t);
}

impl Version {
    /// Reads a version: `system` in any case, or a semantic version after an
    /// optional prefix (`ruby-`, `v`), case-insensitively.
    pub fn parse(version_str: &str) -> (r: Result<Version, ParseError>)
        ensures
            parsed_view(r) == parse_spec(version_str@),
            forall|m: SemVerModel|
                #![trigger semver_text(m)]
                constructible_semver(m) && version_str@ == semver_text(m) ==> parsed_view(r)
                    == Ok::<VersionModel, ParseError>(VersionModel::Semver(m)),
    {
        proof {
            assert forall|m: SemVerModel|
                #![trigger semver_text(m)]
                constructible_semver(m) && version_str@ == semver_text(m) implies {
                &&& lowercase_text(version_str@) == version_str@
                &&& version_str@ != system_text()
                &&& starts_with_digit(version_str@)
                &&& without_prefix(version_str@) == version_str@
                &&& canonical_semver(m)
                &&& count_char(version_str@, '-') <= 255
            } by {
                lemma_constructible_text(m);
            };
        }
        if version_str.unicode_len() == 0 {
            return Err(ParseError::Empty);
        }
        let lowercased = to_lowercase(version_str);
        let chars = chars_of(lowercased.as_str());
        if is_system_text(&chars) {
            return Ok(Version::System);
        }
        let k = prefix_len(&chars);
        let rest = lowercased.as_str().substring_char(k, chars.len());
        assert(rest@ == without_prefix(lowercase_text(version_str@)));
        if !start_with_number(rest) {
            return Err(ParseError::InvalidStart);
        }
        let rest_chars = chars_of(rest);
        if count_hyphens(&rest_chars) > 255 {
            return Err(ParseError::Malformed);
        }
        match semver_parse(rest) {
            Ok(v) => Ok(Version::Semver(v)),
            Err(_) => Err(ParseError::Malformed),
        }
    }
}

// ---------------------------------------------------------------------------
// Precedence

/// Lexicographic order of texts by code point, as `String`'s order gives.
pub open spec fn chars_lt(s: Seq<char>, t: Seq<char>) -> bool
    decreases s.len(),
{
    if s.len() == 0 {
        t.len() > 0
    } else if t.len() == 0 {
        false
    } else if s[0] != t[0] {
        s[0] < t[0]
    } else {
        chars_lt(s.drop_first(), t.drop_first())
    }
}

/// Numbers before words; numbers by value, words by text.
pub open spec fn identifier_lt(a: IdentifierModel, b: IdentifierModel) -> bool {
    match (a, b) {
        (IdentifierModel::Numeric(x), IdentifierModel::Numeric(y)) => x < y,
        (IdentifierModel::Numeric(_), IdentifierModel::AlphaNumeric(_)) => true,
        (IdentifierModel::AlphaNumeric(_), IdentifierModel::Numeric(_)) => false,
        (IdentifierModel::AlphaNumeric(s), IdentifierModel::AlphaNumeric(t)) => chars_lt(s, t),
    }
}

/// Lexicographic order of identifier lists; a proper prefix comes first.
pub open spec fn identifiers_lt(a: Seq<IdentifierModel>, b: Seq<IdentifierModel>) -> bool
    decreases a.len(),
{
    if a.len() == 0 {
        b.len() > 0
    } else if b.len() == 0 {
        false
    } else if a[0] != b[0] {
        identifier_lt(a[0], b[0])
    } else {
        identifiers_lt(a.drop_first(), b.drop_first())
    }
}

/// Pre-release order: a version without pre-release identifiers comes after
/// every version with them.
pub open spec fn pre_lt(a: Seq<IdentifierModel>, b: Seq<IdentifierModel>) -> bool {
    if a.len() == 0 {
        false
    } else if b.len() == 0 {
        true
    } else {
        identifiers_lt(a, b)
    }
}

/// Semantic-version precedence: major, then minor, then patch, then
/// pre-release; build identifiers do not count.
pub open spec fn semver_lt(a: SemVerModel, b: SemVerModel) -> bool {
    ||| a.major < b.major
    ||| a.major == b.major && a.minor < b.minor
    ||| a.major == b.major && a.minor == b.minor && a.patch < b.patch
    ||| a.major == b.major && a.minor == b.minor && a.patch == b.patch && pre_lt(a.pre, b.pre)
}

/// Equal precedence: everything but the build identifiers agrees.
pub open spec fn same_precedence(a: SemVerModel, b: SemVerModel) -> bool {
    a.major == b.major && a.minor == b.minor && a.patch == b.patch && a.pre == b.pre
}

/// The order of versions: semantic versions by precedence, and `system`
/// after all of them.
pub open spec fn version_lt(a: VersionModel, b: VersionModel) -> bool {
    match (a, b) {
        (VersionModel::Semver(x), VersionModel::Semver(y)) => semver_lt(x, y),
        (VersionModel::Semver(_), VersionModel::System) => true,
        (VersionModel::System, _) => false,
    }
}

pub open spec fn version_eq(a: VersionModel, b: VersionModel) -> bool {
    match (a, b) {
        (VersionModel::Semver(x), VersionModel::Semver(y)) => same_precedence(x, y),
        (VersionModel::System, VersionModel::System) => true,
        _ => false,
    }
}

pub open spec fn ordering_of(lt: bool, gt: bool) -> std::cmp::Ordering {
    if lt {
        std::cmp::Ordering::Less
    } else if gt {
        std::cmp::Ordering::Greater
    } else {
        std::cmp::Ordering::Equal
    }
}

proof fn lemma_chars_order(a: Seq<char>, b: Seq<char>, c: Seq<char>)
    ensures
        !chars_lt(a, a),
        chars_lt(a, b) ==> !chars_lt(b, a),
        chars_lt(a, b) || chars_lt(b, a) || a == b,
        chars_lt(a, b) && chars_lt(b, c) ==> chars_lt(a, c),
    decreases a.len(),
{
    if a.len() > 0 && b.len() > 0 && c.len() > 0 {
        lemma_chars_order(a.drop_first(), b.drop_first(), c.drop_first());
        if a[0] == b[0] && a.drop_first() == b.drop_first() {
            assert(a =~= seq![a[0]] + a.drop_first());
            assert(b =~= seq![b[0]] + b.drop_first());
        }
    } else if a.len() > 0 && b.len() > 0 {
        lemma_chars_order(a.drop_first(), b.drop_first(), c);
        if a[0] == b[0] && a.drop_first() == b.drop_first() {
            assert(a =~= seq![a[0]] + a.drop_first());
            assert(b =~= seq![b[0]] + b.drop_first());
        }
    } else if a.len() > 0 {
        lemma_chars_order(a.drop_first(), b, c);
    }
    if a.len() == 0 && b.len() == 0 {
        assert(a =~= b);
    }
}

proof fn lemma_identifier_order(a: IdentifierModel, b: IdentifierModel, c: IdentifierModel)
    ensures
        !identifier_lt(a, a),
        identifier_lt(a, b) ==> !identifier_lt(b, a),
        identifier_lt(a, b) || identifier_lt(b, a) || a == b,
        identifier_lt(a, b) && identifier_lt(b, c) ==> identifier_lt(a, c),
{
    match (a, b, c) {
        (
            IdentifierModel::AlphaNumeric(x),
            IdentifierModel::AlphaNumeric(y),
            IdentifierModel::AlphaNumeric(z),
        ) => {
            lemma_chars_order(x, y, z);
        },
        (IdentifierModel::AlphaNumeric(x), IdentifierModel::AlphaNumeric(y), _) => {
            lemma_chars_order(x, y, y);
        },
        (IdentifierModel::AlphaNumeric(x), _, _) => {
            lemma_chars_order(x, x, x);
        },
        _ => {},
    }
}

proof fn lemma_identifiers_order(
    a: Seq<IdentifierModel>,
    b: Seq<IdentifierModel>,
    c: Seq<IdentifierModel>,
)
    ensures
        !identifiers_lt(a, a),
        identifiers_lt(a, b) ==> !identifiers_lt(b, a),
        identifiers_lt(a, b) || identifiers_lt(b, a) || a == b,
        identifiers_lt(a, b) && identifiers_lt(b, c) ==> identifiers_lt(a, c),
    decreases a.len(),
{
    if a.len() > 0 && b.len() > 0 && c.len() > 0 {
        lemma_identifiers_order(a.drop_first(), b.drop_first(), c.drop_first());
        lemma_identifier_order(a[0], b[0], c[0]);
        if a[0] == b[0] && a.drop_first() == b.drop_first() {
            assert(a =~= seq![a[0]] + a.drop_first());
            assert(b =~= seq![b[0]] + b.drop_first());
        }
    } else if a.len() > 0 && b.len() > 0 {
        lemma_identifiers_order(a.drop_first(), b.drop_first(), c);
        lemma_identifier_order(a[0], b[0], b[0]);
        if a[0] == b[0] && a.drop_first() == b.drop_first() {
            assert(a =~= seq![a[0]] + a.drop_first());
            assert(b =~= seq![b[0]] + b.drop_first());
        }
    } else if a.len() > 0 {
        lemma_identifiers_order(a.drop_first(), b, c);
        lemma_identifier_order(a[0], a[0], a[0]);
    }
    if a.len() == 0 && b.len() == 0 {
        assert(a =~= b);
    }
}

/// The order of versions is a strict total order up to equal precedence:
/// no version comes before itself, of two versions at most one comes first,
/// two versions either differ in order or have equal precedence, and the
/// order is transitive.
pub proof fn lemma_version_order(a: VersionModel, b: VersionModel, c: VersionModel)
    ensures
        !version_lt(a, a),
        version_lt(a, b) ==> !version_lt(b, a),
        version_lt(a, b) || version_lt(b, a) || version_eq(a, b),
        version_lt(a, b) && version_lt(b, c) ==> version_lt(a, c),
        version_eq(a, b) ==> (version_lt(a, c) == version_lt(b, c) && version_lt(c, a)
            == version_lt(c, b)),
{
    match (a, b, c) {
        (VersionModel::Semver(x), VersionModel::Semver(y), VersionModel::Semver(z)) => {
            lemma_identifiers_order(x.pre, y.pre, z.pre);
            lemma_identifiers_order(x.pre, x.pre, x.pre);
            lemma_identifiers_order(y.pre, y.pre, y.pre);
        },
        (VersionModel::Semver(x), VersionModel::Semver(y), _) => {
            lemma_identifiers_order(x.pre, y.pre, y.pre);
            lemma_identifiers_order(x.pre, x.pre, x.pre);
        },
        (VersionModel::Semver(x), _, _) => {
            lemma_identifiers_order(x.pre, x.pre, x.pre);
        },
        _ => {},
    }
}

/// For two semantic versions, one comes before the other exactly when its
/// (major, minor, patch, pre-release) tuple precedes the other's: the numbers
/// compared in turn, then a pre-release before its release, then the
/// pre-release identifiers in order.
pub proof fn lemma_semver_precedence(a: SemVerModel, b: SemVerModel)
    ensures
        version_lt(VersionModel::Semver(a), VersionModel::Semver(b)) <==> {
            ||| a.major < b.major
            ||| a.major == b.major && a.minor < b.minor
            ||| a.major == b.major && a.minor == b.minor && a.patch < b.patch
            ||| a.major == b.major && a.minor == b.minor && a.patch == b.patch && a.pre.len() > 0
                && b.pre.len() == 0
            ||| a.major == b.major && a.minor == b.minor && a.patch == b.patch && a.pre.len() > 0
                && b.pre.len() > 0 && identifiers_lt(a.pre, b.pre)
        },
{
}

fn compare_chars(a: &Vec<char>, b: &Vec<char>) -> (r: std::cmp::Ordering)
    ensures
        r == ordering_of(chars_lt(a@, b@), chars_lt(b@, a@)),
        r == std::cmp::Ordering::Equal <==> a@ == b@,
{
    proof {
        lemma_chars_order(a@, b@, b@);
    }
    let mut i: usize = 0;
    assert(a@.skip(0) =~= a@);
    assert(b@.skip(0) =~= b@);
    while i < a.len() && i < b.len() && a[i] == b[i]
        invariant
            i <= a@.len(),
            i <= b@.len(),
            chars_lt(a@, b@) == chars_lt(a@.skip(i as int), b@.skip(i as int)),
            chars_lt(b@, a@) == chars_lt(b@.skip(i as int), a@.skip(i as int)),
            a@.subrange(0, i as int) == b@.subrange(0, i as int),
        decreases a@.len() - i,
    {
        assert(a@.skip(i as int).drop_first() =~= a@.skip(i + 1));
        assert(b@.skip(i as int).drop_first() =~= b@.skip(i + 1));
        assert(a@.subrange(0, i + 1) =~= a@.subrange(0, i as int).push(a@[i as int]));
        assert(b@.subrange(0, i + 1) =~= b@.subrange(0, i as int).push(b@[i as int]));
        i += 1;
    }
    if i < a.len() && i < b.len() {
        assert(a@.skip(i as int)[0] == a@[i as int]);
        assert(b@.skip(i as int)[0] == b@[i as int]);
        assert(a@[i as int] != b@[i as int]);
        if a[i] < b[i] {
            std::cmp::Ordering::Less
        } else {
            std::cmp::Ordering::Greater
        }
    } else if i < a.len() {
        std::cmp::Ordering::Greater
    } else if i < b.len() {
        std::cmp::Ordering::Less
    } else {
        assert(a@ =~= a@.subrange(0, i as int));
        assert(b@ =~= b@.subrange(0, i as int));
        std::cmp::Ordering::Equal
    }
}

fn compare_identifier(a: &Identifier, b: &Identifier) -> (r: std::cmp::Ordering)
    ensures
        r == ordering_of(identifier_lt(a@, b@), identifier_lt(b@, a@)),
        r == std::cmp::Ordering::Equal <==> a@ == b@,
{
    match (a, b) {
        (Identifier::Numeric(x), Identifier::Numeric(y)) => {
            if x < y {
                std::cmp::Ordering::Less
            } else if x > y {
                std::cmp::Ordering::Greater
            } else {
                std::cmp::Ordering::Equal
            }
        },
        (Identifier::Numeric(_), Identifier::AlphaNumeric(_)) => std::cmp::Ordering::Less,
        (Identifier::AlphaNumeric(_), Identifier::Numeric(_)) => std::cmp::Ordering::Greater,
        (Identifier::AlphaNumeric(x), Identifier::AlphaNumeric(y)) => {
            let xc = chars_of(x.as_str());
            let yc = chars_of(y.as_str());
            compare_chars(&xc, &yc)
        },
    }
}

fn compare_identifiers(a: &Vec<Identifier>, b: &Vec<Identifier>) -> (r: std::cmp::Ordering)
    ensures
        r == ordering_of(
            identifiers_lt(ids_view(a@), ids_view(b@)),
            identifiers_lt(ids_view(b@), ids_view(a@)),
        ),
        r == std::cmp::Ordering::Equal <==> ids_view(a@) == ids_view(b@),
{
    let ghost av = ids_view(a@);
    let ghost bv = ids_view(b@);
    proof {
        lemma_identifiers_order(av, bv, bv);
    }
    let mut i: usize = 0;
    assert(av.skip(0) =~= av);
    assert(bv.skip(0) =~= bv);
    while i < a.len() && i < b.len()
        invariant
            i <= a@.len(),
            i <= b@.len(),
            av == ids_view(a@),
            bv == ids_view(b@),
            identifiers_lt(av, bv) == identifiers_lt(av.skip(i as int), bv.skip(i as int)),
            identifiers_lt(bv, av) == identifiers_lt(bv.skip(i as int), av.skip(i as int)),
            av.subrange(0, i as int) == bv.subrange(0, i as int),
        decreases a@.len() - i,
    {
        let c = compare_identifier(&a[i], &b[i]);
        assert(av[i as int] == a@[i as int]@);
        assert(bv[i as int] == b@[i as int]@);
        assert(av.skip(i as int)[0] == av[i as int]);
        assert(bv.skip(i as int)[0] == bv[i as int]);
        if !matches!(c, std::cmp::Ordering::Equal) {
            proof {
                lemma_identifier_order(av[i as int], bv[i as int], bv[i as int]);
            }
            assert(av[i as int] != bv[i as int]);
            return c;
        }
        assert(av.skip(i as int).drop_first() =~= av.skip(i + 1));
        assert(bv.skip(i as int).drop_first() =~= bv.skip(i + 1));
        assert(av.subrange(0, i + 1) =~= av.subrange(0, i as int).push(av[i as int]));
        assert(bv.subrange(0, i + 1) =~= bv.subrange(0, i as int).push(bv[i as int]));
        i += 1;
    }
    proof {
        lemma_identifiers_order(av, bv, bv);
    }
    assert(av.len() == a@.len() && bv.len() == b@.len());
    assert(av.skip(i as int).len() == av.len() - i);
    assert(bv.skip(i as int).len() == bv.len() - i);
    if i < a.len() {
        std::cmp::Ordering::Greater
    } else if i < b.len() {
        std::cmp::Ordering::Less
    } else {
        assert(av =~= av.subrange(0, i as int));
        assert(bv =~= bv.subrange(0, i as int));
        std::cmp::Ordering::Equal
    }
}

fn compare_u64(x: u64, y: u64) -> (r: std::cmp::Ordering)
    ensures
        r == ordering_of(x < y, y < x),
{
    if x < y {
        std::cmp::Ordering::Less
    } else if x > y {
        std::cmp::Ordering::Greater
    } else {
        std::cmp::Ordering::Equal
    }
}

impl SemVer {
    /// Compares by precedence; build identifiers do not count.
    pub fn compare(&self, other: &SemVer) -> (r: std::cmp::Ordering)
        ensures
            r == ordering_of(semver_lt(self@, other@), semver_lt(other@, self@)),
            r == std::cmp::Ordering::Equal <==> same_precedence(self@, other@),
    {
        let c = compare_u64(self.major, other.major);
        if !matches!(c, std::cmp::Ordering::Equal) {
            return c;
        }
        let c = compare_u64(self.minor, other.minor);
        if !matches!(c, std::cmp::Ordering::Equal) {
            return c;
        }
        let c = compare_u64(self.patch, other.patch);
        if !matches!(c, std::cmp::Ordering::Equal) {
            return c;
        }
        if self.pre.len() == 0 && other.pre.len() == 0 {
            assert(ids_view(self.pre@) =~= ids_view(other.pre@));
            std::cmp::Ordering::Equal
        } else if self.pre.len() == 0 {
            std::cmp::Ordering::Greater
        } else if other.pre.len() == 0 {
            std::cmp::Ordering::Less
        } else {
            compare_identifiers(&self.pre, &other.pre)
        }
    }
}

impl Version {
    /// Compares two versions: semantic versions by precedence, `system`
    /// after every semantic version.
    pub fn compare(&self, other: &Version) -> (r: std::cmp::Ordering)
        ensures
            r == ordering_of(version_lt(self@, other@), version_lt(other@, self@)),
            r == std::cmp::Ordering::Equal <==> version_eq(self@, other@),
    {
        match (self, other) {
            (Version::Semver(a), Version::Semver(b)) => a.compare(b),
            (Version::Semver(_), Version::System) => std::cmp::Ordering::Less,
            (Version::System, Version::Semver(_)) => std::cmp::Ordering::Greater,
            (Version::System, Version::System) => std::cmp::Ordering::Equal,
        }
    }
}

impl PartialEq for Version {
    /// Equal precedence: build identifiers do not count.
    fn eq(&self, other: &Version) -> (r: bool) {
        matches!(self.compare(other), std::cmp::Ordering::Equal)
    }
}

impl vstd::std_specs::cmp::PartialEqSpecImpl for Version {
    open spec fn obeys_eq_spec() -> bool {
        true
    }

    open spec fn eq_spec(&self, other: &Version) -> bool {
        version_eq(self@, other@)
    }
}

impl PartialOrd for Version {
    /// Versions are always comparable: by precedence, `system` last.
    fn partial_cmp(&self, other: &Version) -> (r: Option<std::cmp::Ordering>) {
        Some(self.compare(other))
    }
}

impl vstd::std_specs::cmp::PartialOrdSpecImpl for Version {
    open spec fn obeys_partial_cmp_spec() -> bool {
        true
    }

    open spec fn partial_cmp_spec(&self, other: &Version) -> Option<std::cmp::Ordering> {
        Some(ordering_of(version_lt(self@, other@), version_lt(other@, self@)))
    }
}

// ---------------------------------------------------------------------------
// Copies

impl Identifier {
    /// An equal identifier.
    pub fn copy(&self) -> (r: Identifier)
        ensures
            r@ == self@,
    {
        match self {
            Identifier::Numeric(n) => Identifier::Numeric(*n),
            Identifier::AlphaNumeric(s) => Identifier::AlphaNumeric(s.clone()),
        }
    }
}

fn copy_identifiers(ids: &Vec<Identifier>) -> (r: Vec<Identifier>)
    ensures
        ids_view(r@) == ids_view(ids@),
{
    let mut r: Vec<Identifier> = Vec::new();
    let mut i: usize = 0;
    while i < ids.len()
        invariant
            i <= ids@.len(),
            r@.len() == i,
            forall|j: int| 0 <= j < i ==> (#[trigger] r@[j])@ == ids@[j]@,
        decreases ids@.len() - i,
    {
        r.push(ids[i].copy());
        i += 1;
    }
    assert(ids_view(r@) =~= ids_view(ids@));
    r
}

impl SemVer {
    /// An equal semantic version, build identifiers included.
    pub fn copy(&self) -> (r: SemVer)
        ensures
            r@ == self@,
    {
        SemVer {
            major: self.major,
            minor: self.minor,
            patch: self.patch,
            pre: copy_identifiers(&self.pre),
            build: copy_identifiers(&self.build),
        }
    }
}

impl Version {
    /// An equal version.
    pub fn copy(&self) -> (r: Version)
        ensures
            r@ == self@,
    {
        match self {
            Version::Semver(v) => Version::Semver(v.copy()),
            Version::System => Version::System,
        }
    }
}

// ---------------------------------------------------------------------------
// Installations and the current version

impl Version {
    /// `<base>/versions/<version>`, where a semantic version is installed;
    /// `system` has no installation.
    pub fn installation_path(&self, config: &FrumConfig) -> (r: Option<Vec<String>>)
        ensures
            self@ is System ==> r is None,
            self@ is Semver ==> (r matches Some(p) && path_view(p@)
                == config.versions_dir_spec().push(version_text(self@))),
    {
        match self {
            Version::Semver(_) => {
                let name = self.to_string();
                Some(join(&config.versions_dir(), name.as_str()))
            },
            Version::System => None,
        }
    }
}

/// Why the current version cannot be told.
#[derive(Debug, Clone, Copy, PartialEq, Eq, Structural)]
pub enum Error {
    /// No multishell pointer is configured: the shell was never set up.
    EnvNotFound,
    /// The pointer resolves to a directory whose name is not a version.
    SemverError(ParseError),
}

pub open spec fn current_version_spec(has_pointer: bool, resolved_name: Option<Seq<char>>) -> Result<
    Option<VersionModel>,
    Error,
> {
    if !has_pointer {
        Err(Error::EnvNotFound)
    } else {
        match resolved_name {
            None => Ok(None),
            Some(n) => match parse_spec(n) {
                Ok(v) => Ok(Some(v)),
                Err(e) => Err(Error::SemverError(e)),
            },
        }
    }
}

pub open spec fn current_view(r: Result<Option<Version>, Error>) -> Result<Option<VersionModel>, Error> {
    match r {
        Ok(Some(v)) => Ok(Some(v@)),
        Ok(None) => Ok(None),
        Err(e) => Err(e),
    }
}

/// The version that the multishell pointer selects, given the last component
/// of the path it resolves to (`None` where it does not resolve, as when it
/// dangles after an uninstall): no version then, not an error.
pub fn current_version(config: &FrumConfig, resolved_name: Option<&str>) -> (r: Result<
    Option<Version>,
    Error,
>)
    ensures
        current_view(r) == current_version_spec(
            config.frum_path is Some,
            match resolved_name {
                Some(n) => Some(n@),
                None => None,
            },
        ),
        config.frum_path is Some && resolved_name is None ==> r matches Ok(None),
{
    if config.frum_path.is_none() {
        return Err(Error::EnvNotFound);
    }
    match resolved_name {
        None => Ok(None),
        Some(name) => match Version::parse(name) {
            Ok(v) => Ok(Some(v)),
            Err(e) => Err(Error::SemverError(e)),
        },
    }
}

} // verus!
