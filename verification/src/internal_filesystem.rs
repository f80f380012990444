//! Path construction for files that belong to the tool's own installation:
//! joining and normalizing path strings.

use vstd::prelude::*;
use crate::text::{is_prefix_of, is_suffix_of, str_has_prefix, str_has_suffix};
use normalize_path::NormalizePath;

verus! {

/// The path that `normalize_path` produces for `p`: redundant separators and
/// up-level references collapsed, without touching the file system.
pub uninterp spec fn normalized_of(p: Seq<char>) -> Seq<char>;

/// Relies on `normalize_path::NormalizePath::normalize`: collapses `.` and
/// `..` components of a path, a pure function of the path string alone.
#[verifier::external_body]
pub(crate) fn normalize(path: &str) -> (r: String)
    ensures
        r@ == normalized_of(path@),
{
    std::path::Path::new(path).normalize().to_string_lossy().into_owned()
}

/// `segment` appended below `base`: `segment` itself when absolute or when
/// `base` is empty, otherwise the two with exactly one separator between.
pub open spec fn joined_path(base: Seq<char>, segment: Seq<char>) -> Seq<char> {
    if is_prefix_of("/"@, segment) {
        segment
    } else if base.len() == 0 {
        segment
    } else if is_suffix_of("/"@, base) {
        base + segment
    } else {
        base + "/"@ + segment
    }
}

/// Joins `segment` onto `base` as [`joined_path`] describes.
pub fn join_path(base: &str, segment: &str) -> (r: String)
    ensures
        r@ == joined_path(base@, segment@),
{
    if str_has_prefix(segment, "/") {
        return segment.to_owned();
    }
    if base.unicode_len() == 0 {
        return segment.to_owned();
    }
    if str_has_suffix(base, "/") {
        return base.to_owned().concat(segment);
    }
    base.to_owned().concat("/").concat(segment)
}

/// Resolves paths inside the tool's installation directory.
pub struct InternalFileSystem;

impl InternalFileSystem {
    /// `segment` anchored below the installation directory `origin`, in
    /// normalized form.
    pub fn absolute(origin: &str, segment: &str) -> (r: String)
        ensures
            r@ == normalized_of(joined_path(origin@, segment@)),
    {
        let joined = join_path(origin, segment);
        normalize(joined.as_str())
    }

    /// The directory holding the tool's interpreter scripts.
    pub fn commands_directory(origin: &str) -> (r: String)
        ensures
            r@ == normalized_of(joined_path(origin@, "./src/commands"@)),
    {
        InternalFileSystem::absolute(origin, "./src/commands")
    }

    /// The directory holding the tool's scaffolding templates.
    pub fn templates_directory(origin: &str) -> (r: String)
        ensures
            r@ == normalized_of(joined_path(origin@, "./src/templates"@)),
    {
        InternalFileSystem::absolute(origin, "./src/templates")
    }

    /// Full path of the interpreter script named `file_name`.
    pub fn resolve_command(origin: &str, file_name: &str) -> (r: String)
        ensures
            r@ == joined_path(
                normalized_of(joined_path(origin@, "./src/commands"@)),
                file_name@,
            ),
    {
        let dir = InternalFileSystem::commands_directory(origin);
        join_path(dir.as_str(), file_name)
    }

    /// Full path of the template file named `file_name`.
    pub fn resolve_template(origin: &str, file_name: &str) -> (r: String)
        ensures
            r@ == joined_path(
                normalized_of(joined_path(origin@, "./src/templates"@)),
                file_name@,
            ),
    {
        let dir = InternalFileSystem::templates_directory(origin);
        join_path(dir.as_str(), file_name)
    }
}

} // verus!
