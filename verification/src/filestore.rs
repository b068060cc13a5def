//! The object store's path scheme: objects live under a fixed base
//! directory, one directory per object, addressed as
//! `<base>/<object type>/<object name>/<file name>`. This module owns
//! the path arithmetic and the identity carried by a stored object;
//! reading and writing the files themselves is the caller's business.

use vstd::prelude::*;
use crate::util::{spec_is_parsed_name, NamespacedName};

verus! {

/// Joins path parts onto a base with one separator each.
pub open spec fn spec_join_path(base: Seq<char>, parts: Seq<&str>, n: int) -> Seq<char>
    decreases n,
{
    if n <= 0 {
        base
    } else {
        spec_join_path(base, parts, n - 1) + "/"@ + parts[n - 1]@
    }
}

/// The store of serialized cluster objects, rooted at a fixed base
/// directory.
pub struct FileStore {
    base_path: String,
}

impl View for FileStore {
    type V = Seq<char>;

    closed spec fn view(&self) -> Seq<char> {
        self.base_path@
    }
}

/// Relies on std::path::Path::exists: answers whether the path names an
/// entry on disk at call time. The answer depends on the disk alone, so
/// nothing more is promised of it.
#[verifier::external_body]
fn path_exists(path: &String) -> bool {
    std::path::Path::new(path.as_str()).exists()
}

impl FileStore {
    /// A store rooted at the conventional base directory.
    pub fn new() -> (r: Self)
        ensures
            r@ == "/var/lib/skate/store"@,
    {
        FileStore { base_path: String::from_str("/var/lib/skate/store") }
    }

    /// The path of an entry under the base directory: the base, then
    /// each part behind one separator.
    pub fn get_path(&self, parts: &Vec<&str>) -> (r: String)
        ensures
            r@ == spec_join_path(self@, parts@, parts@.len() as int),
    {
        let mut path = self.base_path.clone();
        let mut i: usize = 0;
        while i < parts.len()
            invariant
                i <= parts@.len(),
                path@ == spec_join_path(self@, parts@, i as int),
            decreases parts.len() - i,
        {
            path.append("/");
            path.append(parts[i]);
            i = i + 1;
        }
        path
    }

    /// Whether the store currently holds the named file of the named
    /// object. The answer reflects the disk at call time; nothing more
    /// can be said of it here.
    pub fn exists_file(&self, object_type: &str, object_name: &str, file_name: &str) -> bool {
        let parts = vec![object_type, object_name, file_name];
        let path = self.get_path(&parts);
        path_exists(&path)
    }
}

/// What a listing knows of one stored object: its identity, the hash
/// recorded for its manifest, the manifest text if it could be read,
/// when it was stored (seconds since the Unix epoch), and where.
pub struct ObjectListItem {
    pub name: NamespacedName,
    pub manifest_hash: String,
    pub manifest: Option<String>,
    pub created_at: u64,
    pub path: String,
}

/// What the last path segment is: everything after the final
/// separator, or the whole text when it has no separator.
pub open spec fn spec_is_file_name(path: Seq<char>, r: Seq<char>) -> bool {
    ||| ((forall|k: int| 0 <= k < path.len() ==> path[k] != '/') && r == path)
    ||| (exists|d: int|
        0 <= d < path.len() && path[d] == '/' && (forall|k: int|
            d < k < path.len() ==> path[k] != '/') && r == path.skip(d + 1))
}

/// The last path segment: everything after the final separator, or the
/// whole text when it has no separator.
pub fn file_name_of(path: &str) -> (r: String)
    ensures
        spec_is_file_name(path@, r@),
{
    let n = path.unicode_len();
    let mut i: usize = n;
    while i > 0
        invariant
            i <= n,
            n == path@.len(),
            forall|k: int| i <= k < n ==> path@[k] != '/',
        decreases i,
    {
        if path.get_char(i - 1) == '/' {
            let r = path.substring_char(i, n).to_owned();
            proof {
                assert(path@.skip(i as int) =~= path@.subrange(i as int, n as int));
            }
            return r;
        }
        i = i - 1;
    }
    proof {
        assert(path@.subrange(0, n as int) =~= path@);
    }
    path.substring_char(0, n).to_owned()
}

impl ObjectListItem {
    /// Builds the listing entry for an object stored under `dir`: the
    /// identity is parsed as `name.namespace` from the directory's last
    /// path segment; hash, manifest text and creation time are whatever
    /// the caller read beside it.
    pub fn from_dir(
        dir: &str,
        manifest_hash: String,
        manifest: Option<String>,
        created_at: u64,
    ) -> (r: ObjectListItem)
        ensures
            r.manifest_hash == manifest_hash,
            r.manifest == manifest,
            r.created_at == created_at,
            r.path@ == dir@,
            exists|f: Seq<char>|
                #[trigger] spec_is_file_name(dir@, f) && spec_is_parsed_name(f, r.name@),
    {
        let file_name = file_name_of(dir);
        let name = NamespacedName::parse(file_name.as_str());
        proof {
            assert(spec_is_file_name(dir@, file_name@) && spec_is_parsed_name(
                file_name@,
                name@,
            ));
        }
        ObjectListItem { name, manifest_hash, manifest, created_at, path: dir.to_owned() }
    }
}

} // verus!
