//! Aliases and the replacement of activation links.
use vstd::prelude::*;
use vstd::string::*;
use crate::config::{join, path_view, FrumConfig};
use crate::text::text_eq;
use crate::version::{version_text, Version, VersionModel};

verus! {

/// A symbolic link to make: `link` will point at `target`.
#[derive(Debug)]
pub struct SymlinkRequest {
    pub target: Vec<String>,
    pub link: Vec<String>,
}

/// Why an alias cannot be made.
#[derive(Debug, Clone, Copy, PartialEq, Eq, Structural)]
pub enum AliasError {
    /// The version has no installation directory.
    NotFound,
}

/// The link that makes `common_name` an alias of `version`:
/// `<base>/aliases/<name>` pointing at `<base>/versions/<version>`. The
/// `system` version has no installation, so it cannot be aliased and no
/// link is asked for.
pub fn create_alias(config: &FrumConfig, common_name: &str, version: &Version) -> (r: Result<
    SymlinkRequest,
    AliasError,
>)
    ensures
        version@ is System ==> r == Err::<SymlinkRequest, AliasError>(AliasError::NotFound),
        version@ is Semver ==> (r matches Ok(req) && path_view(req.target@)
            == config.versions_dir_spec().push(version_text(version@)) && path_view(req.link@)
            == config.aliases_dir_spec().push(common_name@)),
{
    let aliases_dir = config.aliases_dir();
    match version.installation_path(config) {
        None => Err(AliasError::NotFound),
        Some(version_dir) => {
            let alias_dir = join(&aliases_dir, common_name);
            Ok(SymlinkRequest { target: version_dir, link: alias_dir })
        },
    }
}

/// The outcome of replacing a link, from the outcomes of its two steps: the
/// new link counts; where it could not be made, an error of the removal of
/// the old link comes first.
pub open spec fn replace_outcome<E>(removal: Result<(), E>, creation: Result<(), E>) -> Result<
    (),
    E,
> {
    match creation {
        Ok(()) => Ok(()),
        Err(c) => match removal {
            Err(d) => Err(d),
            Ok(()) => Err(c),
        },
    }
}

/// Replacing a link reports success whenever the new link is made, whatever
/// the removal of the old one gave: so replacing a link a second time with
/// the same target, where the old link is removed and the new one made,
/// succeeds again.
pub proof fn lemma_replace_succeeds_when_created<E>(removal: Result<(), E>)
    ensures
        replace_outcome(removal, Ok(())) == Ok::<(), E>(()),
{
}

/// Replaces a link: removes the old link, then makes the new one, whatever
/// the removal gave (the link may not have existed). Succeeds exactly when
/// the new link is made; otherwise reports the removal's error if there was
/// one, else the creation's.
pub fn replace_symlink<E, R, C>(remove_link: R, create_link: C) -> (r: Result<(), E>) where
    R: FnOnce() -> Result<(), E>,
    C: FnOnce() -> Result<(), E>,

    requires
        remove_link.requires(()),
        create_link.requires(()),
    ensures
        exists|removal: Result<(), E>, creation: Result<(), E>|
            remove_link.ensures((), removal) && create_link.ensures((), creation) && r
                == replace_outcome(removal, creation),
{
    let symlink_deletion_result = remove_link();
    let creation = create_link();
    let ghost removal = symlink_deletion_result;
    let ghost created = creation;
    let r = match creation {
        Ok(()) => Ok(()),
        Err(e) => match symlink_deletion_result {
            Err(d) => Err(d),
            Ok(()) => Err(e),
        },
    };
    assert(remove_link.ensures((), removal) && create_link.ensures((), created) && r
        == replace_outcome(removal, created));
    r
}

/// Whether a link target names the installation of `version`: its last
/// component is the version's text.
pub fn link_names_version(target: &Vec<String>, version: &Version) -> (r: bool)
    ensures
        r == (target@.len() > 0 && target@.last()@ == version_text(version@)),
{
    if target.len() == 0 {
        return false;
    }
    let name = version.to_string();
    text_eq(target[target.len() - 1].as_str(), name.as_str())
}

/// An alias as found on disk: the link, and the directory it resolves to.
#[derive(Debug)]
pub struct StoredAlias {
    alias_path: Vec<String>,
    destination_path: Vec<String>,
}

impl StoredAlias {
    #[verifier::type_invariant]
    spec fn wf(&self) -> bool {
        self.alias_path@.len() >= 1 && self.destination_path@.len() >= 1
    }

    pub closed spec fn alias_view(&self) -> Seq<Seq<char>> {
        path_view(self.alias_path@)
    }

    pub closed spec fn destination_view(&self) -> Seq<Seq<char>> {
        path_view(self.destination_path@)
    }

    /// An alias from its link path and its resolved destination; `None`
    /// where the link or the destination has no name.
    pub fn new(alias_path: Vec<String>, destination_path: Vec<String>) -> (r: Option<StoredAlias>)
        ensures
            (alias_path@.len() >= 1 && destination_path@.len() >= 1) <==> r is Some,
            r matches Some(a) ==> (a.alias_view() == path_view(alias_path@) && a.destination_view()
                == path_view(destination_path@)),
    {
        if alias_path.len() >= 1 && destination_path.len() >= 1 {
            Some(StoredAlias { alias_path, destination_path })
        } else {
            None
        }
    }

    /// The version the alias selects: the name of the installation
    /// directory it resolves to (`versions/<version>`).
    pub fn s_ver(&self) -> (r: &str)
        ensures
            self.destination_view().len() >= 1,
            r@ == self.destination_view().last(),
    {
        proof {
            use_type_invariant(self);
        }
        self.destination_path[self.destination_path.len() - 1].as_str()
    }

    /// The alias's name: the last component of its link path.
    pub fn name(&self) -> (r: &str)
        ensures
            self.alias_view().len() >= 1,
            r@ == self.alias_view().last(),
    {
        proof {
            use_type_invariant(self);
        }
        self.alias_path[self.alias_path.len() - 1].as_str()
    }

    /// The link path.
    pub fn path(&self) -> (r: &Vec<String>)
        ensures
            path_view(r@) == self.alias_view(),
    {
        &self.alias_path
    }
}

} // verus!
