//! Plugin manifests: the size limit and the identity and entry checks that
//! keep a plugin inside its own folder.

use vstd::prelude::*;
use crate::error::{ErrorKind, ErrorView, ObError, err_of, res_view};
use crate::text::{chars_of, contains, contains_str, owned, starts_with, trim_chars, trimmed};

verus! {

/// Largest manifest read, in bytes.
pub const MAX_MANIFEST_BYTES: usize = 1024 * 1024;

/// A plugin's declaration.
pub struct PluginManifest {
    pub id: String,
    pub name: String,
    pub version: String,
    pub author: String,
    pub entry: String,
    pub capabilities: Vec<String>,
    pub permissions: Vec<String>,
    pub dependencies: Vec<String>,
    pub security_requirements: Vec<String>,
    pub signature: Option<String>,
}

/// Refuses manifests over the size limit.
pub fn check_manifest_size(len: usize) -> (r: Result<(), ObError>)
    ensures
        len > MAX_MANIFEST_BYTES ==> res_view(r) == Err::<(), ErrorView>(err_of(ErrorKind::Validation, "Plugin manifest exceeds 1 MB"@)),
        len <= MAX_MANIFEST_BYTES ==> r is Ok,
{
    if len > MAX_MANIFEST_BYTES {
        Err(ObError::Validation(owned("Plugin manifest exceeds 1 MB")))
    } else {
        Ok(())
    }
}

/// The forms an absolute path can take on the platforms std supports: on
/// Unix it starts at the root `/`; on Windows it has a prefix (a drive such
/// as `C:`, or one that starts with a separator, such as `\\server\share`
/// or `\\?\`) and a root. A path of none of these forms is relative
/// everywhere.
pub open spec fn may_be_absolute(path: Seq<char>) -> bool {
    starts_with(path, "/"@) || starts_with(path, "\\"@) || (path.len() >= 2 && path[1] == ':')
}

/// `std::path::Path::is_absolute` on the entry path. Which paths are
/// absolute depends on the platform the program runs on; the contract
/// states only that a path of none of the absolute forms above is not.
#[verifier::external_body]
fn path_is_absolute(path: &str) -> (r: bool)
    ensures
        r ==> may_be_absolute(path@),
{
    std::path::Path::new(path).is_absolute()
}

/// The identity and entry checks, given whether the entry path is absolute
/// on this platform.
pub open spec fn manifest_verdict(id: Seq<char>, version: Seq<char>, entry: Seq<char>, entry_absolute: bool) -> Result<(), ErrorView> {
    if trimmed(id).len() == 0 || trimmed(version).len() == 0 || contains(entry, ".."@) || entry_absolute {
        Err(err_of(ErrorKind::SecurityBlocked, "Plugin manifest contains an unsafe identifier or entry path"@))
    } else {
        Ok(())
    }
}

/// Checks a manifest given whether its entry path is absolute.
pub fn judge_manifest(manifest: &PluginManifest, entry_absolute: bool) -> (r: Result<(), ObError>)
    ensures
        res_view(r) == manifest_verdict(manifest.id@, manifest.version@, manifest.entry@, entry_absolute),
{
    let id = chars_of(manifest.id.as_str());
    let version = chars_of(manifest.version.as_str());
    let entry = chars_of(manifest.entry.as_str());
    let id_t = trim_chars(&id);
    let version_t = trim_chars(&version);
    if id_t.len() == 0 || version_t.len() == 0 || contains_str(&entry, "..") || entry_absolute {
        Err(ObError::SecurityBlocked(owned("Plugin manifest contains an unsafe identifier or entry path")))
    } else {
        Ok(())
    }
}

/// Checks a manifest: a blank identifier or version, or an entry path that
/// climbs out with `..`, is refused; so is an entry path that is absolute
/// on this platform.
pub fn check_manifest(manifest: &PluginManifest) -> (r: Result<(), ObError>)
    ensures
        res_view(r) == manifest_verdict(manifest.id@, manifest.version@, manifest.entry@, false)
            || res_view(r) == manifest_verdict(manifest.id@, manifest.version@, manifest.entry@, true),
        r is Ok ==> manifest_verdict(manifest.id@, manifest.version@, manifest.entry@, false) is Ok,
        !may_be_absolute(manifest.entry@)
            ==> res_view(r) == manifest_verdict(manifest.id@, manifest.version@, manifest.entry@, false),
{
    let absolute = path_is_absolute(manifest.entry.as_str());
    judge_manifest(manifest, absolute)
}

/// An accepted manifest has a non-blank identifier and version and an entry
/// path without `..`.
pub proof fn law_accepted_manifest_is_contained(id: Seq<char>, version: Seq<char>, entry: Seq<char>, entry_absolute: bool)
    ensures
        manifest_verdict(id, version, entry, entry_absolute) is Ok ==> trimmed(id).len() > 0 && trimmed(version).len() > 0
            && !contains(entry, ".."@) && !entry_absolute,
{
}

} // verus!
