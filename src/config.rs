//! The on-disk layout under the base directory. A path is the list of its
//! components below the root.
use vstd::prelude::*;
use vstd::string::*;
use crate::log::LogLevel;

verus! {

pub open spec fn path_view(p: Seq<String>) -> Seq<Seq<char>> {
    p.map_values(|c: String| c@)
}

/// A copy of a path.
pub fn copy_path(p: &Vec<String>) -> (r: Vec<String>)
    ensures
        path_view(r@) == path_view(p@),
{
    let mut r: Vec<String> = Vec::new();
    let mut i: usize = 0;
    while i < p.len()
        invariant
            i <= p@.len(),
            r@.len() == i,
            forall|j: int| 0 <= j < i ==> (#[trigger] r@[j])@ == p@[j]@,
        decreases p@.len() - i,
    {
        let c = p[i].clone();
        r.push(c);
        i += 1;
    }
    assert(path_view(r@) =~= path_view(p@));
    r
}

/// `p` with one more component.
pub fn join(p: &Vec<String>, name: &str) -> (r: Vec<String>)
    ensures
        path_view(r@) == path_view(p@).push(name@),
{
    let mut r = copy_path(p);
    r.push(String::from_str(name));
    assert(path_view(r@) =~= path_view(p@).push(name@));
    r
}

pub open spec fn frum_dir_name() -> Seq<char> {
    seq!['.', 'f', 'r', 'u', 'm']
}

pub open spec fn versions_name() -> Seq<char> {
    seq!['v', 'e', 'r', 's', 'i', 'o', 'n', 's']
}

pub open spec fn aliases_name() -> Seq<char> {
    seq!['a', 'l', 'i', 'a', 's', 'e', 's']
}

pub open spec fn default_name() -> Seq<char> {
    seq!['d', 'e', 'f', 'a', 'u', 'l', 't']
}

pub open spec fn downloads_name() -> Seq<char> {
    seq!['.', 'd', 'o', 'w', 'n', 'l', 'o', 'a', 'd', 's']
}

/// The settings that every operation reads, fixed at start-up.
#[derive(Debug)]
pub struct FrumConfig {
    /// The base directory that holds versions and aliases.
    pub base_dir: Vec<String>,
    /// Where the multishell pointer of this shell session lives, if the
    /// shell was set up.
    pub frum_path: Option<Vec<String>>,
    pub log_level: LogLevel,
    /// The mirror that archives are downloaded from.
    pub ruby_build_mirror: String,
}

/// The base directory where none is given: `.frum` in the home directory.
pub fn default_base_dir(home: &Vec<String>) -> (r: Vec<String>)
    ensures
        path_view(r@) == path_view(home@).push(frum_dir_name()),
{
    proof {
        reveal_strlit(".frum");
    }
    assert(".frum"@ =~= frum_dir_name());
    join(home, ".frum")
}

impl FrumConfig {
    pub open spec fn versions_dir_spec(&self) -> Seq<Seq<char>> {
        path_view(self.base_dir@).push(versions_name())
    }

    pub open spec fn aliases_dir_spec(&self) -> Seq<Seq<char>> {
        path_view(self.base_dir@).push(aliases_name())
    }

    /// The base directory.
    pub fn base_dir(&self) -> (r: Vec<String>)
        ensures
            path_view(r@) == path_view(self.base_dir@),
    {
        copy_path(&self.base_dir)
    }

    /// `<base>/versions`, where installations live.
    pub fn versions_dir(&self) -> (r: Vec<String>)
        ensures
            path_view(r@) == self.versions_dir_spec(),
    {
        proof {
            reveal_strlit("versions");
        }
        assert("versions"@ =~= versions_name());
        join(&self.base_dir, "versions")
    }

    /// `<base>/aliases`, where alias links live.
    pub fn aliases_dir(&self) -> (r: Vec<String>)
        ensures
            path_view(r@) == self.aliases_dir_spec(),
    {
        proof {
            reveal_strlit("aliases");
        }
        assert("aliases"@ =~= aliases_name());
        join(&self.base_dir, "aliases")
    }

    /// `<base>/aliases/default`, the global default alias.
    pub fn default_version_dir(&self) -> (r: Vec<String>)
        ensures
            path_view(r@) == self.aliases_dir_spec().push(default_name()),
    {
        proof {
            reveal_strlit("default");
        }
        assert("default"@ =~= default_name());
        join(&self.aliases_dir(), "default")
    }

    /// `<base>/versions/.downloads`, the staging area of downloads.
    pub fn temp_installations_dir(&self) -> (r: Vec<String>)
        ensures
            path_view(r@) == self.versions_dir_spec().push(downloads_name()),
    {
        proof {
            reveal_strlit(".downloads");
        }
        assert(".downloads"@ =~= downloads_name());
        join(&self.versions_dir(), ".downloads")
    }
}

} // verus!
