//! The project pin file: finding it in a directory or one of its ancestors,
//! and reading the version request it holds.
use vstd::prelude::*;
use vstd::string::*;
use crate::config::{copy_path, join, path_view};
use crate::input_version::{input_from_str_spec, InputVersion, InputVersionModel};
use crate::text::{chars_of, trim_range, trimmed};

verus! {

/// The name of the pin file.
pub const VERSION_FILE: &'static str = ".ruby-version";

/// The `i`-th directory of an upward walk from `p`: `p` itself first, the
/// root (no components) last.
pub open spec fn ancestor(p: Seq<Seq<char>>, i: int) -> Seq<Seq<char>> {
    p.subrange(0, p.len() - i)
}

/// The file that the `i`-th step of an upward walk from `p` looks for.
pub open spec fn candidate(p: Seq<Seq<char>>, name: Seq<char>, i: int) -> Seq<Seq<char>> {
    ancestor(p, i).push(name)
}

/// `path` and each of its ancestors, nearest first, up to and including the
/// root.
pub fn each_dir(path: &Vec<String>) -> (r: Vec<Vec<String>>)
    ensures
        r@.len() == path@.len() + 1,
        forall|i: int| 0 <= i < r@.len() ==> path_view((#[trigger] r@[i])@) == ancestor(path_view(path@), i),
{
    let n = path.len();
    let mut r: Vec<Vec<String>> = Vec::new();
    let mut current = copy_path(path);
    let mut i: usize = 0;
    let ghost p = path_view(path@);
    assert(p.subrange(0, n as int) =~= p);
    while i < n
        invariant
            i <= n,
            n == path@.len(),
            p == path_view(path@),
            r@.len() == i,
            forall|j: int| 0 <= j < i ==> path_view((#[trigger] r@[j])@) == ancestor(p, j),
            path_view(current@) == ancestor(p, i as int),
            current@.len() == n - i,
        decreases n - i,
    {
        r.push(copy_path(&current));
        let ghost before = current@;
        current.pop();
        assert(current@ == before.drop_last());
        assert(path_view(current@) =~= ancestor(p, i + 1));
        i += 1;
    }
    r.push(copy_path(&current));
    r
}

/// Walks up from `search_dir` and returns the first `<dir>/<file_name>` for
/// which `has_file` answers `true`; `has_file` is asked about each candidate
/// in turn, nearest first, up to the root.
pub fn find_up<F>(search_dir: &Vec<String>, file_name: &str, has_file: F) -> (r: Option<Vec<String>>) where
    F: Fn(&Vec<String>) -> bool,

    requires
        forall|p: &Vec<String>| has_file.requires((p,)),
    ensures
        r matches Some(found) ==> exists|i: int|
            0 <= i <= search_dir@.len() && path_view(found@) == candidate(
                path_view(search_dir@),
                file_name@,
                i,
            ) && has_file.ensures((&found,), true) && (forall|j: int|
                0 <= j < i ==> #[trigger] answered_no(has_file, path_view(search_dir@), file_name@, j)),
        r is None ==> forall|j: int|
            0 <= j <= search_dir@.len() ==> #[trigger] answered_no(
                has_file,
                path_view(search_dir@),
                file_name@,
                j,
            ),
{
    let dirs = each_dir(search_dir);
    let ghost p = path_view(search_dir@);
    let mut i: usize = 0;
    while i < dirs.len()
        invariant
            i <= dirs@.len(),
            dirs@.len() == search_dir@.len() + 1,
            p == path_view(search_dir@),
            forall|j: int| 0 <= j < dirs@.len() ==> path_view((#[trigger] dirs@[j])@) == ancestor(p, j),
            forall|p2: &Vec<String>| has_file.requires((p2,)),
            forall|j: int| 0 <= j < i ==> #[trigger] answered_no(has_file, p, file_name@, j),
        decreases dirs@.len() - i,
    {
        let path = join(&dirs[i], file_name);
        assert(path_view(dirs@[i as int]@) == ancestor(p, i as int));
        assert(path_view(path@) == candidate(p, file_name@, i as int));
        if has_file(&path) {
            return Some(path);
        }
        assert(answered_no(has_file, p, file_name@, i as int));
        i += 1;
    }
    None
}

/// `has_file` answered `false` for the `j`-th candidate of the walk.
pub open spec fn answered_no<F: Fn(&Vec<String>) -> bool>(
    has_file: F,
    p: Seq<Seq<char>>,
    name: Seq<char>,
    j: int,
) -> bool {
    exists|c: Vec<String>| path_view(c@) == candidate(p, name, j) && has_file.ensures((&c,), false)
}

pub open spec fn all_ascii_bytes(b: Seq<u8>) -> bool {
    forall|i: int| 0 <= i < b.len() ==> #[trigger] b[i] < 128
}

/// What reading bytes through `encoding_rs_io::DecodeReaderBytes` gives: a
/// function of the bytes alone.
pub uninterp spec fn decoded_of(b: Seq<u8>) -> Option<Seq<char>>;

/// The text of a pin file's bytes: ASCII bytes as they are, other bytes as
/// the decoding reader gives them.
pub open spec fn decoded_text(b: Seq<u8>) -> Option<Seq<char>> {
    if all_ascii_bytes(b) {
        Some(b.map_values(|x: u8| x as char))
    } else {
        decoded_of(b)
    }
}

pub open spec fn text_view(r: Option<String>) -> Option<Seq<char>> {
    match r {
        Some(s) => Some(s@),
        None => None,
    }
}

/// Relies on `encoding_rs_io::DecodeReaderBytes::new` read to a string:
/// bytes with a UTF-8 or UTF-16 byte-order mark are transcoded to UTF-8,
/// other bytes pass through unchanged (and reading fails where they are not
/// UTF-8). ASCII bytes never start with a byte-order mark, so they come back
/// as they are.
#[verifier::external_body]
fn decode_text(bytes: &Vec<u8>) -> (r: Option<String>)
    ensures
        all_ascii_bytes(bytes@) ==> text_view(r) == Some(bytes@.map_values(|x: u8| x as char)),
        !all_ascii_bytes(bytes@) ==> text_view(r) == decoded_of(bytes@),
{
    let mut text = String::new();
    let mut reader = encoding_rs_io::DecodeReaderBytes::new(bytes.as_slice());
    std::io::Read::read_to_string(&mut reader, &mut text).ok().map(|_| text)
}

/// The request that a pin file's contents name, if any.
pub open spec fn pin_file_version(b: Seq<u8>) -> Option<InputVersionModel> {
    match decoded_text(b) {
        None => None,
        Some(t) => match input_from_str_spec(trimmed(t)) {
            Ok(v) => Some(v),
            Err(_) => None,
        },
    }
}

pub open spec fn input_option_view(r: Option<InputVersion>) -> Option<InputVersionModel> {
    match r {
        Some(v) => Some(v@),
        None => None,
    }
}

/// Reads the request in a pin file's bytes: decoded, trimmed and parsed;
/// `None` where the bytes cannot be decoded or do not name a request.
pub fn version_from_contents(bytes: &Vec<u8>) -> (r: Option<InputVersion>)
    ensures
        input_option_view(r) == pin_file_version(bytes@),
{
    let text = match decode_text(bytes) {
        None => return None,
        Some(t) => t,
    };
    let chars = chars_of(text.as_str());
    let (a, b) = trim_range(chars.as_slice());
    let trimmed_text = text.as_str().substring_char(a, b);
    match InputVersion::from_str(trimmed_text) {
        Ok(v) => Some(v),
        Err(_) => None,
    }
}

/// The upward walk from `p` stops at `found`: `has_file` answered `true` for
/// it, the `i`-th candidate, and `false` for every candidate before it.
pub open spec fn walk_stops_at<F: Fn(&Vec<String>) -> bool>(
    has_file: F,
    p: Seq<Seq<char>>,
    name: Seq<char>,
    found: Vec<String>,
) -> bool {
    exists|i: int|
        0 <= i <= p.len() && path_view(found@) == candidate(p, name, i) && has_file.ensures(
            (&found,),
            true,
        ) && (forall|j: int| 0 <= j < i ==> #[trigger] answered_no(has_file, p, name, j))
}

/// The upward walk from `p` finds nothing: `has_file` answered `false` for
/// every candidate up to the root.
pub open spec fn walk_finds_nothing<F: Fn(&Vec<String>) -> bool>(
    has_file: F,
    p: Seq<Seq<char>>,
    name: Seq<char>,
) -> bool {
    forall|j: int| 0 <= j <= p.len() ==> #[trigger] answered_no(has_file, p, name, j)
}

pub open spec fn version_file_name() -> Seq<char> {
    ".ruby-version"@
}

/// The request that the nearest pin file names, walking up from `path`
/// (already made absolute with links resolved): `has_file` tells whether a
/// file exists, `read_file` gives its bytes (`None` where it cannot be
/// read). `None` where no pin file is found, or the one found cannot be read
/// or names no request.
pub fn get_user_version_for_directory<F, G>(path: &Vec<String>, has_file: F, read_file: G) -> (r:
    Option<InputVersion>) where
    F: Fn(&Vec<String>) -> bool,
    G: FnOnce(&Vec<String>) -> Option<Vec<u8>>,

    requires
        forall|p: &Vec<String>| has_file.requires((p,)),
        forall|p: &Vec<String>| read_file.requires((p,)),
    ensures
        r is Some ==> exists|found: Vec<String>, bytes: Vec<u8>|
            walk_stops_at(has_file, path_view(path@), version_file_name(), found)
                && read_file.ensures((&found,), Some(bytes)) && pin_file_version(bytes@) == Some(
                r->Some_0@,
            ),
        r is None ==> walk_finds_nothing(has_file, path_view(path@), version_file_name()) || exists|
            found: Vec<String>,
            contents: Option<Vec<u8>>,
        |
            walk_stops_at(has_file, path_view(path@), version_file_name(), found)
                && read_file.ensures((&found,), contents) && (contents is None || pin_file_version(
                contents->Some_0@,
            ) is None),
{
    proof {
        reveal_strlit(".ruby-version");
    }
    let found = match find_up(path, VERSION_FILE, has_file) {
        None => return None,
        Some(f) => f,
    };
    assert(walk_stops_at(has_file, path_view(path@), version_file_name(), found));
    let contents = read_file(&found);
    match contents {
        None => None,
        Some(bytes) => {
            let r = version_from_contents(&bytes);
            assert(read_file.ensures((&found,), Some(bytes)));
            r
        },
    }
}

} // verus!
