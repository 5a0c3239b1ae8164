//! The prune rules: which directories of a tree a scan goes into and
//! classifies.

use vstd::prelude::*;
use crate::path::{file_name, has_component, path_file_name, path_has_component};
use crate::scanner::Scanner;
use crate::text::{chars_of, str_eq};

verus! {
/// The views of a sequence of strings.
pub open spec fn skip_views(skip: Seq<String>) -> Seq<Seq<char>> {
    skip.map_values(|s: String| s@)
}

/// Whether some component of `path` is one of the names in `skip`.
pub open spec fn in_skip_list(skip: Seq<Seq<char>>, path: Seq<char>) -> bool {
    exists|i: int| 0 <= i < skip.len() && has_component(path, #[trigger] skip[i])
}

/// Whether `path` lies in or below a `node_modules` directory.
pub open spec fn in_package_cache(path: Seq<char>) -> bool {
    has_component(path, "node_modules"@)
}

/// Whether a directory name is hidden and not the one exception, `.cargo`.
pub open spec fn is_hidden_name(name: Seq<char>) -> bool {
    name.len() > 0 && name[0] == '.' && name != ".cargo"@
}

/// Whether the final component of `path` is a hidden name.
pub open spec fn is_hidden_to_skip(path: Seq<char>) -> bool {
    match file_name(path) {
        Some(n) => is_hidden_name(n),
        None => false,
    }
}

/// Whether a directory name is one of the known non-project directories:
/// build outputs, version-control metadata, virtual environments,
/// temporary directories and dependency caches.
pub open spec fn is_excluded_name(n: Seq<char>) -> bool {
    n == "target"@ || n == "build"@ || n == "dist"@ || n == "out"@ || n == ".git"@ || n
        == ".svn"@ || n == ".hg"@ || n == "__pycache__"@ || n == "venv"@ || n == ".venv"@ || n
        == "env"@ || n == ".env"@ || n == "temp"@ || n == "tmp"@ || n == "vendor"@ || n
        == ".pytest_cache"@ || n == ".tox"@ || n == ".eggs"@ || n == ".coverage"@ || n
        == "node_modules"@ || n == "obj"@ || n == "_build"@
}

/// Whether the final component of `path` is a known non-project directory.
pub open spec fn is_excluded(path: Seq<char>) -> bool {
    match file_name(path) {
        Some(n) => is_excluded_name(n),
        None => false,
    }
}

/// Whether the directory at `path` survives the prune rules: it passes,
/// in this order, the skip list, the package-cache rule, the
/// hidden-directory rule and the list of known non-project directories.
///
/// A walk applies the rules to a directory before it goes into it, so a
/// directory that does not survive takes everything below it out of the
/// scan.
pub open spec fn survives(skip: Seq<Seq<char>>, path: Seq<char>) -> bool {
    !in_skip_list(skip, path) && !in_package_cache(path) && !is_hidden_to_skip(path)
        && !is_excluded(path)
}

impl Scanner {
    /// Check if a path is in the skip list: whether one of its components
    /// is one of the names to skip.
    pub fn is_path_in_skip_list(&self, path: &str) -> (r: bool)
        ensures
            r == in_skip_list(skip_views(self.scan_options.skip@), path@),
    {
        let ghost names = skip_views(self.scan_options.skip@);
        let mut i: usize = 0;
        while i < self.scan_options.skip.len()
            invariant
                i <= self.scan_options.skip.len(),
                names == skip_views(self.scan_options.skip@),
                forall|k: int| 0 <= k < i ==> !has_component(path@, #[trigger] names[k]),
            decreases self.scan_options.skip.len() - i,
        {
            if path_has_component(path, self.scan_options.skip[i].as_str()) {
                assert(has_component(path@, names[i as int]));
                return true;
            }
            i += 1;
        }
        false
    }

    /// Check if directory is hidden and should be skipped.
    pub fn is_hidden_directory_to_skip(path: &str) -> (r: bool)
        ensures
            r == is_hidden_to_skip(path@),
    {
        match path_file_name(path) {
            Some(name) => {
                let n = chars_of(name.as_str());
                n.len() > 0 && n[0] == '.' && !str_eq(name.as_str(), ".cargo")
            },
            None => false,
        }
    }

    /// Check if directory is in the excluded list.
    pub fn is_excluded_directory(path: &str) -> (r: bool)
        ensures
            r == is_excluded(path@),
    {
        match path_file_name(path) {
            Some(name) => {
                let n = name.as_str();
                str_eq(n, "target") || str_eq(n, "build") || str_eq(n, "dist") || str_eq(n, "out")
                    || str_eq(n, ".git") || str_eq(n, ".svn") || str_eq(n, ".hg") || str_eq(
                    n,
                    "__pycache__",
                ) || str_eq(n, "venv") || str_eq(n, ".venv") || str_eq(n, "env") || str_eq(
                    n,
                    ".env",
                ) || str_eq(n, "temp") || str_eq(n, "tmp") || str_eq(n, "vendor") || str_eq(
                    n,
                    ".pytest_cache",
                ) || str_eq(n, ".tox") || str_eq(n, ".eggs") || str_eq(n, ".coverage") || str_eq(
                    n,
                    "node_modules",
                ) || str_eq(n, "obj") || str_eq(n, "_build")
            },
            None => false,
        }
    }

    /// Determine if the directory at `path` should be classified.
    pub fn should_scan_entry(&self, path: &str) -> (r: bool)
        ensures
            r == survives(skip_views(self.scan_options.skip@), path@),
    {
        if self.is_path_in_skip_list(path) {
            return false;
        }
        if path_has_component(path, "node_modules") {
            return false;
        }
        if Self::is_hidden_directory_to_skip(path) {
            return false;
        }
        !Self::is_excluded_directory(path)
    }
}

} // verus!
