//! Where the durable JSON blobs live: one file per store under the user's
//! cache directory. Reading and writing the files is the caller's part.
use vstd::prelude::*;

verus! {

/// The cache directory cannot be determined.
pub enum CacheError {
    /// No home directory is known.
    NoCacheDir,
}

/// The cache root under a home directory.
pub open spec fn cache_root_of(home: Seq<char>) -> Seq<char> {
    home + "/.cache/helexa"@
}

/// The file of store `name` under `root`.
pub open spec fn store_path(root: Seq<char>, name: Seq<char>) -> Seq<char> {
    root + "/"@ + name + ".json"@
}

/// The cache root `${HOME}/.cache/helexa`, given the value of `HOME`.
pub fn helexa_cache_root(home: Option<&str>) -> (r: Result<String, CacheError>)
    ensures
        home is None <==> r is Err,
        home matches Some(h) ==> r matches Ok(p) && p@ == cache_root_of(h@),
{
    match home {
        Some(h) => {
            let mut p = String::from_str(h);
            p.append("/.cache/helexa");
            Ok(p)
        },
        None => Err(CacheError::NoCacheDir),
    }
}

/// Location of a JSON-backed store for one value.
pub struct JsonStore {
    path: String,
}

impl JsonStore {
    /// The store's file.
    pub closed spec fn spec_path(&self) -> Seq<char> {
        self.path@
    }

    /// The store `store_name` under the cache root of `home`.
    pub fn new(home: Option<&str>, store_name: &str) -> (r: Result<Self, CacheError>)
        ensures
            home is None <==> r is Err,
            home matches Some(h) ==> r matches Ok(s) && s.spec_path() == store_path(
                cache_root_of(h@),
                store_name@,
            ),
    {
        match helexa_cache_root(home) {
            Ok(root) => Ok(Self::with_root(root.as_str(), store_name)),
            Err(e) => Err(e),
        }
    }

    /// The store `store_name` under an explicit root directory.
    pub fn with_root(root: &str, store_name: &str) -> (r: Self)
        ensures
            r.spec_path() == store_path(root@, store_name@),
    {
        let mut p = String::from_str(root);
        p.append("/");
        p.append(store_name);
        p.append(".json");
        JsonStore { path: p }
    }

    /// The store's file.
    pub fn path(&self) -> (r: &str)
        ensures
            r@ == self.spec_path(),
    {
        self.path.as_str()
    }

    /// The file the store writes first and then renames into place.
    pub fn temp_path(&self) -> (r: String)
        ensures
            r@ == self.spec_path() + ".tmp"@,
    {
        let mut p = self.path.clone();
        p.append(".tmp");
        p
    }
}

} // verus!
