//! Settings read from a configuration file; every value is optional.

use vstd::prelude::*;
use vstd::string::StringExecFns;
use crate::path::{join, joined};
use crate::project::project::optional_text;
use crate::project::projects::text_views;
use crate::text::{
    chars_of, decimal_text, leading_count, push_decimal, slice_of, starts_with, string_of,
    trim_start_of, CharClass,
};

verus! {
/// Asks `dirs::home_dir` for the user's home directory and gives its path
/// as text. The answer depends on the environment of the process; there is
/// none where the directory is unknown or its path is not valid text.
#[verifier::external_body]
pub(crate) fn home_dir() -> (r: Option<String>) {
    match dirs::home_dir() {
        Some(path) => path.into_os_string().into_string().ok(),
        None => None,
    }
}

/// Asks `dirs::config_dir` for the user's configuration directory and
/// gives its path as text. The answer depends on the environment of the
/// process; there is none where the directory is unknown or its path is
/// not valid text.
#[verifier::external_body]
pub(crate) fn config_dir() -> (r: Option<String>) {
    match dirs::config_dir() {
        Some(path) => path.into_os_string().into_string().ok(),
        None => None,
    }
}

/// `path` with a leading `~` replaced by the home directory `home`: `~`
/// alone is the home directory, `~/rest` is `rest` below it, and any other
/// path, or any path when the home directory is unknown, is left as it is.
pub open spec fn expanded(path: Seq<char>, home: Option<Seq<char>>) -> Seq<char> {
    match home {
        Some(h) => if path == seq!['~'] {
            h
        } else if seq!['~', '/'].is_prefix_of(path) {
            joined(h, trim_start_of(path.skip(2), CharClass::Is('/')))
        } else {
            path
        },
        None => path,
    }
}

/// The path of the configuration file below the configuration directory.
pub open spec fn config_file_in(dir: Option<Seq<char>>) -> Option<Seq<char>> {
    match dir {
        Some(d) => Some(joined(joined(d, "clean-dev-dirs"@), "config.toml"@)),
        None => None,
    }
}

/// Expand a leading `~` in a path to the home directory `home`.
pub fn expand_tilde_with(path: &str, home: Option<&str>) -> (r: String)
    ensures
        r@ == expanded(
            path@,
            match home {
                Some(h) => Some(h@),
                None => None,
            },
        ),
{
    let h = match home {
        Some(h) => h,
        None => {
            return path.to_owned();
        },
    };
    let text = chars_of(path);
    if text.len() == 1 && text[0] == '~' {
        assert(text@ =~= seq!['~']);
        return h.to_owned();
    }
    if starts_with(&text, &vec!['~', '/']) {
        let rest = slice_of(&text, 2, text.len());
        let n = leading_count(&rest, CharClass::Is('/'));
        let below = slice_of(&rest, n, rest.len());
        join(h, string_of(&below).as_str())
    } else {
        path.to_owned()
    }
}

/// Expand a leading `~` in a path to the user's home directory. Paths that
/// don't start with `~` are returned unchanged.
pub fn expand_tilde(path: &str) -> (r: String)
    ensures
        exists|home: Option<Seq<char>>| r@ == expanded(path@, home),
        path@ != seq!['~'] && !seq!['~', '/'].is_prefix_of(path@) ==> r@ == path@,
{
    let home = home_dir();
    let r = match &home {
        Some(h) => expand_tilde_with(path, Some(h.as_str())),
        None => expand_tilde_with(path, None),
    };
    r
}

/// Top-level configuration file structure.
#[derive(Clone, Debug)]
pub struct FileConfig {
    /// Default project type filter (e.g., `"rust"`, `"node"`, `"all"`)
    pub project_type: Option<String>,
    /// Default directories to scan (takes priority over `dir`)
    pub dirs: Option<Vec<String>>,
    /// Default directory to scan
    pub dir: Option<String>,
    /// Filtering options
    pub filtering: FileFilterConfig,
    /// Scanning options
    pub scanning: FileScanConfig,
    /// Execution options
    pub execution: FileExecutionConfig,
}

/// Filtering options from the configuration file.
#[derive(Clone, Debug)]
pub struct FileFilterConfig {
    /// Minimum size threshold (e.g., `"50MB"`)
    pub keep_size: Option<String>,
    /// Minimum age in days
    pub keep_days: Option<u32>,
    /// Sort criterion for project output (`"size"`, `"age"`, `"name"`, `"type"`)
    pub sort: Option<String>,
    /// Whether to reverse the sort order
    pub reverse: Option<bool>,
}

/// Scanning options from the configuration file.
#[derive(Clone, Debug)]
pub struct FileScanConfig {
    /// Number of threads for scanning
    pub threads: Option<usize>,
    /// Whether to show verbose output
    pub verbose: Option<bool>,
    /// Directories to skip during scanning
    pub skip: Option<Vec<String>>,
    /// Directories to ignore during scanning
    pub ignore: Option<Vec<String>>,
    /// Maximum directory depth to scan
    pub max_depth: Option<usize>,
}

/// Execution options from the configuration file.
#[derive(Clone, Copy, Debug)]
pub struct FileExecutionConfig {
    /// Whether to preserve compiled executables
    pub keep_executables: Option<bool>,
    /// Whether to use interactive selection
    pub interactive: Option<bool>,
    /// Whether to run in dry-run mode
    pub dry_run: Option<bool>,
    /// Whether to move directories to the trash; absent means yes.
    pub use_trash: Option<bool>,
}

impl Default for FileFilterConfig {
    fn default() -> (r: Self)
        ensures
            r.keep_size.is_none(),
            r.keep_days.is_none(),
            r.sort.is_none(),
            r.reverse.is_none(),
    {
        Self { keep_size: None, keep_days: None, sort: None, reverse: None }
    }
}

impl Default for FileScanConfig {
    fn default() -> (r: Self)
        ensures
            r.threads.is_none(),
            r.verbose.is_none(),
            r.skip.is_none(),
            r.ignore.is_none(),
            r.max_depth.is_none(),
    {
        Self { threads: None, verbose: None, skip: None, ignore: None, max_depth: None }
    }
}

impl Default for FileExecutionConfig {
    fn default() -> (r: Self)
        ensures
            r.keep_executables.is_none(),
            r.interactive.is_none(),
            r.dry_run.is_none(),
            r.use_trash.is_none(),
    {
        Self { keep_executables: None, interactive: None, dry_run: None, use_trash: None }
    }
}

impl FileConfig {
    /// The path of the configuration file below the configuration
    /// directory `dir`.
    pub fn config_path_in(dir: Option<&str>) -> (r: Option<String>)
        ensures
            optional_text(r) == config_file_in(
                match dir {
                    Some(d) => Some(d@),
                    None => None,
                },
            ),
    {
        match dir {
            Some(d) => Some(join(join(d, "clean-dev-dirs").as_str(), "config.toml")),
            None => None,
        }
    }

    /// Returns the path where the configuration file is expected: below
    /// the user's configuration directory, when that is known.
    pub fn config_path() -> (r: Option<String>)
        ensures
            exists|dir: Option<Seq<char>>| optional_text(r) == config_file_in(dir),
    {
        let dir = config_dir();
        let r = match &dir {
            Some(d) => Self::config_path_in(Some(d.as_str())),
            None => Self::config_path_in(None),
        };
        r
    }

    /// Whether no setting at all is present.
    pub open spec fn is_unset(&self) -> bool {
        &&& self.project_type.is_none()
        &&& self.dirs.is_none()
        &&& self.dir.is_none()
        &&& self.filtering.keep_size.is_none()
        &&& self.filtering.keep_days.is_none()
        &&& self.filtering.sort.is_none()
        &&& self.filtering.reverse.is_none()
        &&& self.scanning.threads.is_none()
        &&& self.scanning.verbose.is_none()
        &&& self.scanning.skip.is_none()
        &&& self.scanning.ignore.is_none()
        &&& self.scanning.max_depth.is_none()
        &&& self.execution.keep_executables.is_none()
        &&& self.execution.interactive.is_none()
        &&& self.execution.dry_run.is_none()
        &&& self.execution.use_trash.is_none()
    }
}

impl Default for FileConfig {
    fn default() -> (r: Self)
        ensures
            r.is_unset(),
    {
        Self {
            project_type: None,
            dirs: None,
            dir: None,
            filtering: FileFilterConfig::default(),
            scanning: FileScanConfig::default(),
            execution: FileExecutionConfig::default(),
        }
    }
}

/// How an optional text is shown: quoted, or the quoted default marked as
/// such.
pub open spec fn shown_text(value: Option<Seq<char>>, default: Seq<char>) -> Seq<char> {
    match value {
        Some(v) => "\""@ + v + "\""@,
        None => "\""@ + default + "\"  (default)"@,
    }
}

/// How a flag is shown.
pub open spec fn flag_text(b: bool) -> Seq<char> {
    if b {
        "true"@
    } else {
        "false"@
    }
}

/// How an optional flag is shown: its value, or the default marked as such.
pub open spec fn shown_flag(value: Option<bool>, default: bool) -> Seq<char> {
    match value {
        Some(b) => flag_text(b),
        None => flag_text(default) + "  (default)"@,
    }
}

/// How an optional number is shown: its numeral, or the default marked as
/// such.
pub open spec fn shown_number(value: Option<u64>, default: Seq<char>) -> Seq<char> {
    match value {
        Some(n) => decimal_text(n as nat),
        None => default + "  (default)"@,
    }
}

/// The items of a list of paths, each quoted, separated by `, `.
pub open spec fn quoted_items(paths: Seq<Seq<char>>) -> Seq<char>
    decreases paths.len(),
{
    if paths.len() == 0 {
        Seq::empty()
    } else if paths.len() == 1 {
        "\""@ + paths[0] + "\""@
    } else {
        quoted_items(paths.drop_last()) + ", "@ + "\""@ + paths.last() + "\""@
    }
}

/// How an optional list of paths is shown: in brackets, or as the empty
/// list marked as the default.
pub open spec fn shown_paths(value: Option<Vec<String>>) -> Seq<char> {
    match value {
        Some(v) => if v@.len() > 0 {
            "["@ + quoted_items(text_views(v@)) + "]"@
        } else {
            "[]  (default)"@
        },
        None => "[]  (default)"@,
    }
}

/// The widening of an optional count.
pub open spec fn as_number(value: Option<usize>) -> Option<u64> {
    match value {
        Some(n) => Some(n as u64),
        None => None,
    }
}

/// The widening of an optional number of days.
pub open spec fn days_as_number(value: Option<u32>) -> Option<u64> {
    match value {
        Some(n) => Some(n as u64),
        None => None,
    }
}

/// How the sort criterion is shown.
pub open spec fn shown_sort(value: Option<Seq<char>>) -> Seq<char> {
    match value {
        Some(v) => "\""@ + v + "\""@,
        None => "(none)  (default)"@,
    }
}

/// The effective configuration as a table: each setting with its value,
/// or with its default where the file does not set it.
pub open spec fn config_text(c: FileConfig) -> Seq<char> {
    "project_type  = "@ + shown_text(optional_text(c.project_type), "all"@) + "\ndir           = "@
        + shown_text(optional_text(c.dir), "."@) + "\n\n[filtering]\nkeep_size     = "@
        + shown_text(optional_text(c.filtering.keep_size), "0"@) + "\nkeep_days     = "@
        + shown_number(days_as_number(c.filtering.keep_days), "0"@) + "\nsort          = "@
        + shown_sort(optional_text(c.filtering.sort)) + "\nreverse       = "@ + shown_flag(
        c.filtering.reverse,
        false,
    ) + "\n\n[scanning]\nthreads       = "@ + shown_number(
        as_number(c.scanning.threads),
        "0 (all cores)"@,
    ) + "\nverbose       = "@ + shown_flag(c.scanning.verbose, false) + "\nskip          = "@
        + shown_paths(c.scanning.skip) + "\nignore        = "@ + shown_paths(c.scanning.ignore)
        + "\n\n[execution]\nkeep_executables = "@ + shown_flag(c.execution.keep_executables, false)
        + "\ninteractive      = "@ + shown_flag(c.execution.interactive, false)
        + "\ndry_run          = "@ + shown_flag(c.execution.dry_run, false)
        + "\nuse_trash        = "@ + shown_flag(c.execution.use_trash, true)
}

/// Appends an optional text as it is shown.
fn push_text(out: &mut String, value: &Option<String>, default: &str)
    ensures
        final(out)@ == old(out)@ + shown_text(optional_text(*value), default@),
{
    out.append("\"");
    match value {
        Some(v) => {
            out.append(v.as_str());
            out.append("\"");
        },
        None => {
            out.append(default);
            out.append("\"  (default)");
        },
    }
}

/// Appends an optional flag as it is shown.
fn push_flag(out: &mut String, value: Option<bool>, default: bool)
    ensures
        final(out)@ == old(out)@ + shown_flag(value, default),
{
    match value {
        Some(b) => {
            out.append(if b {
                "true"
            } else {
                "false"
            });
        },
        None => {
            out.append(if default {
                "true"
            } else {
                "false"
            });
            out.append("  (default)");
        },
    }
}

/// Appends an optional number as it is shown.
fn push_number(out: &mut String, value: Option<u64>, default: &str)
    ensures
        final(out)@ == old(out)@ + shown_number(value, default@),
{
    match value {
        Some(n) => {
            push_decimal(out, n);
        },
        None => {
            out.append(default);
            out.append("  (default)");
        },
    }
}

/// Appends an optional list of paths as it is shown.
fn push_paths(out: &mut String, value: &Option<Vec<String>>)
    ensures
        final(out)@ == old(out)@ + shown_paths(*value),
{
    match value {
        Some(v) => {
            if v.len() > 0 {
                let ghost start = out@;
                let ghost items = text_views(v@);
                out.append("[");
                out.append("\"");
                out.append(v[0].as_str());
                out.append("\"");
                let mut i: usize = 1;
                while i < v.len()
                    invariant
                        1 <= i <= v.len(),
                        items == text_views(v@),
                        out@ == start + "["@ + quoted_items(items.take(i as int)),
                    decreases v.len() - i,
                {
                    proof {
                        assert(items.take(i + 1).drop_last() =~= items.take(i as int));
                    }
                    out.append(", ");
                    out.append("\"");
                    out.append(v[i].as_str());
                    out.append("\"");
                    i += 1;
                }
                assert(items.take(items.len() as int) =~= items);
                out.append("]");
            } else {
                out.append("[]  (default)");
            }
        },
        None => {
            out.append("[]  (default)");
        },
    }
}

/// Format a `FileConfig` as a human-readable table, showing defaults for
/// the settings that are absent.
pub fn format_config(config: &FileConfig) -> (r: String)
    ensures
        r@ == config_text(*config),
{
    let mut out = String::from_str("project_type  = ");
    push_text(&mut out, &config.project_type, "all");
    out.append("\ndir           = ");
    push_text(&mut out, &config.dir, ".");
    out.append("\n\n[filtering]\nkeep_size     = ");
    push_text(&mut out, &config.filtering.keep_size, "0");
    out.append("\nkeep_days     = ");
    let days: Option<u64> = match config.filtering.keep_days {
        Some(n) => Some(n as u64),
        None => None,
    };
    push_number(&mut out, days, "0");
    out.append("\nsort          = ");
    match &config.filtering.sort {
        Some(v) => {
            out.append("\"");
            out.append(v.as_str());
            out.append("\"");
        },
        None => {
            out.append("(none)  (default)");
        },
    }
    out.append("\nreverse       = ");
    push_flag(&mut out, config.filtering.reverse, false);
    out.append("\n\n[scanning]\nthreads       = ");
    let threads: Option<u64> = match config.scanning.threads {
        Some(n) => Some(n as u64),
        None => None,
    };
    push_number(&mut out, threads, "0 (all cores)");
    out.append("\nverbose       = ");
    push_flag(&mut out, config.scanning.verbose, false);
    out.append("\nskip          = ");
    push_paths(&mut out, &config.scanning.skip);
    out.append("\nignore        = ");
    push_paths(&mut out, &config.scanning.ignore);
    out.append("\n\n[execution]\nkeep_executables = ");
    push_flag(&mut out, config.execution.keep_executables, false);
    out.append("\ninteractive      = ");
    push_flag(&mut out, config.execution.interactive, false);
    out.append("\ndry_run          = ");
    push_flag(&mut out, config.execution.dry_run, false);
    out.append("\nuse_trash        = ");
    push_flag(&mut out, config.execution.use_trash, true);
    out
}

} // verus!
