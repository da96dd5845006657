use vstd::prelude::*;
use vstd::string::*;

verus! {

/// File name of the archive, in the staging and in the serving directory.
pub const BUNDLE_NAME: &'static str = "bundle.tar.gz";

/// Name of the root directory inside the archive.
pub const ARCHIVE_ROOT: &'static str = "bundles";

/// `dir` followed by a separator and `name`.
pub open spec fn join(dir: Seq<char>, name: Seq<char>) -> Seq<char> {
    dir + seq!['/'] + name
}

/// The three directories that a build works in.
pub struct Ctx {
    /// Where the archive that readers download lies.
    pub active: String,
    /// Root of the staging tree: one subdirectory per resource.
    pub incoming: String,
    /// Where the archive is built before it is published.
    pub tmp: String,
}

/// Joins a directory and a name with one separator.
pub fn join_path(dir: &str, name: &str) -> (r: String)
    ensures
        r@ == join(dir@, name@),
{
    let mut r = String::from_str(dir);
    r.append("/");
    r.append(name);
    proof {
        reveal_strlit("/");
    }
    r
}

impl Ctx {
    /// Where the archive is written while it is built.
    pub fn staging_archive_path(&self) -> (r: String)
        ensures
            r@ == join(self.tmp@, BUNDLE_NAME@),
    {
        join_path(self.tmp.as_str(), BUNDLE_NAME)
    }

    /// The only path that readers of the bundle observe.
    pub fn serving_archive_path(&self) -> (r: String)
        ensures
            r@ == join(self.active@, BUNDLE_NAME@),
    {
        join_path(self.active.as_str(), BUNDLE_NAME)
    }

    /// The staging subdirectory of the resource `name`.
    pub fn resource_dir(&self, name: &str) -> (r: String)
        ensures
            r@ == join(self.incoming@, name@),
    {
        join_path(self.incoming.as_str(), name)
    }
}

} // verus!
