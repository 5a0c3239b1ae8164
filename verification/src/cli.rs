//! The arguments of a run, and how they combine with the settings of the
//! configuration file: an argument wins over the file, the file over the
//! built-in default.

use vstd::prelude::*;
use vstd::string::StringExecFns;
use crate::config::file::{expand_tilde_with, expanded, home_dir, FileConfig};
use crate::config::{
    ExecutionOptions, FilterOptions, ProjectFilter, ScanOptions, SortCriteria, SortOptions,
};
use crate::project::project::optional_text;
use crate::project::projects::text_views;

verus! {
/// Arguments that filter and order the projects.
#[derive(Clone, Debug)]
pub struct FilteringArgs {
    /// Ignore projects with a build dir size smaller than the specified value
    pub keep_size: Option<String>,
    /// Ignore projects that have been compiled in the last days
    pub keep_days: Option<u32>,
    /// Sort projects by the given criterion before display
    pub sort: Option<SortCriteria>,
    /// Reverse the sort order
    pub reverse: bool,
}

/// Arguments that steer the cleanup.
#[derive(Clone, Copy, Debug)]
pub struct ExecutionArgs {
    /// Don't ask for confirmation
    pub yes: bool,
    /// Collect the cleanable projects and list the reclaimable space
    pub dry_run: bool,
    /// Use interactive project selection
    pub interactive: bool,
    /// Copy compiled executables to `<project>/bin/` before cleaning
    pub keep_executables: bool,
    /// Permanently delete directories instead of moving them to the trash
    pub permanent: bool,
}

/// Arguments that steer the scan.
#[derive(Clone, Debug)]
pub struct ScanningArgs {
    /// The number of threads to use for directory scanning
    pub threads: Option<usize>,
    /// Show access errors that occur while scanning
    pub verbose: bool,
    /// Directories to ignore by default
    pub ignore: Vec<String>,
    /// Directories to skip during scanning
    pub skip: Vec<String>,
    /// Maximum directory depth to scan
    pub max_depth: Option<usize>,
}

/// Top-level subcommands.
#[derive(Clone, Copy, PartialEq, Eq, Debug, Structural)]
pub enum Commands {
    /// Inspect or initialise the configuration file
    Config { command: ConfigCommand },
}

/// Subcommands for `config`.
#[derive(Clone, Copy, PartialEq, Eq, Debug, Structural)]
pub enum ConfigCommand {
    /// Print the effective configuration
    Show,
    /// Write a default configuration file if none exists yet
    Init,
    /// Print the path to the configuration file
    Path,
}

/// The arguments of a run.
#[derive(Clone, Debug)]
pub struct Cli {
    /// Subcommand (e.g. `config`)
    pub subcommand: Option<Commands>,
    /// One or more directories to search for projects
    pub dirs: Vec<String>,
    /// Project type to clean
    pub project_type: Option<ProjectFilter>,
    /// Output results as a single JSON object
    pub json: bool,
    /// Execution options
    pub execution: ExecutionArgs,
    /// Filtering options
    pub filtering: FilteringArgs,
    /// Scanning options
    pub scanning: ScanningArgs,
}

/// The views of the strings of an optional list.
pub open spec fn optional_texts(v: Option<Vec<String>>) -> Seq<Seq<char>> {
    match v {
        Some(items) => text_views(items@),
        None => Seq::empty(),
    }
}

/// Each of `paths` with a leading `~` expanded.
pub open spec fn all_expanded(paths: Seq<Seq<char>>, home: Option<Seq<char>>) -> Seq<Seq<char>> {
    paths.map_values(|p: Seq<char>| expanded(p, home))
}

/// The directories to scan: those of the arguments; else those of the
/// file's `dirs`, expanded; else the file's `dir`, expanded; else `.`.
pub open spec fn resolved_directories(
    cli: Cli,
    config: FileConfig,
    home: Option<Seq<char>>,
) -> Seq<Seq<char>> {
    if cli.dirs@.len() > 0 {
        text_views(cli.dirs@)
    } else if optional_texts(config.dirs).len() > 0 {
        all_expanded(optional_texts(config.dirs), home)
    } else {
        match config.dir {
            Some(d) => seq![expanded(d@, home)],
            None => seq![seq!['.']],
        }
    }
}

/// The filter of the arguments; else the one that the file names, if it
/// names one; else `All`.
pub open spec fn resolved_filter(cli: Cli, config: FileConfig) -> ProjectFilter {
    match cli.project_type {
        Some(f) => f,
        None => match config.project_type {
            Some(name) => match ProjectFilter::named(name@, true) {
                Some(f) => f,
                None => ProjectFilter::All,
            },
            None => ProjectFilter::All,
        },
    }
}

/// A flag that is set when the arguments set it or the file does.
pub open spec fn either(flag: bool, setting: Option<bool>) -> bool {
    flag || setting == Some(true)
}

/// The execution options: each flag from the arguments or the file; the
/// trash is used unless the arguments ask for permanent deletion or the
/// file turns the trash off.
pub open spec fn resolved_execution(cli: Cli, config: FileConfig) -> ExecutionOptions {
    ExecutionOptions {
        dry_run: either(cli.execution.dry_run, config.execution.dry_run),
        interactive: either(cli.execution.interactive, config.execution.interactive),
        keep_executables: either(cli.execution.keep_executables, config.execution.keep_executables),
        use_trash: !cli.execution.permanent && config.execution.use_trash != Some(false),
    }
}

/// The first of two optional values that is present.
pub open spec fn first_of<T>(a: Option<T>, b: Option<T>) -> Option<T> {
    match a {
        Some(x) => Some(x),
        None => b,
    }
}

/// The sort criterion of the arguments; else the one that the file names,
/// if it names one.
pub open spec fn resolved_criteria(cli: Cli, config: FileConfig) -> Option<SortCriteria> {
    match cli.filtering.sort {
        Some(c) => Some(c),
        None => match config.filtering.sort {
            Some(name) => SortCriteria::named(name@, true),
            None => None,
        },
    }
}

/// A copy of a list of strings.
fn clone_texts(items: &Vec<String>) -> (r: Vec<String>)
    ensures
        text_views(r@) == text_views(items@),
{
    let mut out: Vec<String> = Vec::new();
    extend_texts(&mut out, items);
    out
}

/// Appends copies of `items` to `list`.
fn extend_texts(list: &mut Vec<String>, items: &Vec<String>)
    ensures
        text_views(final(list)@) == text_views(old(list)@) + text_views(items@),
{
    let ghost start = text_views(list@);
    let ghost all = text_views(items@);
    let mut i: usize = 0;
    while i < items.len()
        invariant
            i <= items.len(),
            all == text_views(items@),
            text_views(list@) == start + all.take(i as int),
        decreases items.len() - i,
    {
        let ghost before = list@;
        let item = items[i].clone();
        list.push(item);
        proof {
            assert(text_views(list@) =~= text_views(before).push(item@));
        }
        i += 1;
    }
}

impl Cli {
    /// Whether `--json` structured output mode is enabled.
    pub fn json(&self) -> (r: bool)
        ensures
            r == self.json,
    {
        self.json
    }

    /// Resolve the target directories, with `home` as the home directory.
    pub fn directories_with_home(&self, config: &FileConfig, home: Option<&str>) -> (r: Vec<String>)
        ensures
            text_views(r@) == resolved_directories(
                *self,
                *config,
                match home {
                    Some(h) => Some(h@),
                    None => None,
                },
            ),
    {
        let ghost h: Option<Seq<char>> = match home {
            Some(h) => Some(h@),
            None => None,
        };
        if self.dirs.len() > 0 {
            return clone_texts(&self.dirs);
        }
        match &config.dirs {
            Some(dirs) => {
                if dirs.len() > 0 {
                    let ghost all = all_expanded(text_views(dirs@), h);
                    let mut out: Vec<String> = Vec::new();
                    let mut i: usize = 0;
                    while i < dirs.len()
                        invariant
                            i <= dirs.len(),
                            all == all_expanded(text_views(dirs@), h),
                            h == (match home {
                                Some(x) => Some(x@),
                                None => None::<Seq<char>>,
                            }),
                            text_views(out@) == all.take(i as int),
                        decreases dirs.len() - i,
                    {
                        let ghost before = out@;
                        let d = expand_tilde_with(dirs[i].as_str(), home);
                        out.push(d);
                        proof {
                            assert(text_views(out@) =~= text_views(before).push(d@));
                        }
                        i += 1;
                    }
                    return out;
                }
            },
            None => {},
        }
        let mut out: Vec<String> = Vec::new();
        match &config.dir {
            Some(dir) => {
                let d = expand_tilde_with(dir.as_str(), home);
                out.push(d);
            },
            None => {
                proof {
                    reveal_strlit(".");
                    assert("."@ =~= seq!['.']);
                }
                let d = String::from_str(".");
                out.push(d);
            },
        }
        out
    }

    /// Resolve the target directories from the arguments, the
    /// configuration file, or the default. Paths from the file have a
    /// leading `~` expanded to the user's home directory.
    pub fn directories(&self, config: &FileConfig) -> (r: Vec<String>)
        ensures
            exists|home: Option<Seq<char>>|
                text_views(r@) == resolved_directories(*self, *config, home),
            self.dirs@.len() > 0 ==> text_views(r@) == text_views(self.dirs@),
    {
        let home = home_dir();
        let r = match &home {
            Some(h) => self.directories_with_home(config, Some(h.as_str())),
            None => self.directories_with_home(config, None),
        };
        r
    }

    /// Extract the project filter from the arguments and the file.
    pub fn project_filter(&self, config: &FileConfig) -> (r: ProjectFilter)
        ensures
            r == resolved_filter(*self, *config),
    {
        match self.project_type {
            Some(f) => f,
            None => match &config.project_type {
                Some(name) => match ProjectFilter::from_str(name.as_str(), true) {
                    Ok(f) => f,
                    Err(_) => ProjectFilter::All,
                },
                None => ProjectFilter::All,
            },
        }
    }

    /// Extract the execution options from the arguments and the file.
    pub fn execution_options(&self, config: &FileConfig) -> (r: ExecutionOptions)
        ensures
            r == resolved_execution(*self, *config),
    {
        ExecutionOptions {
            dry_run: self.execution.dry_run || flag_of(config.execution.dry_run, false),
            interactive: self.execution.interactive || flag_of(config.execution.interactive, false),
            keep_executables: self.execution.keep_executables || flag_of(
                config.execution.keep_executables,
                false,
            ),
            use_trash: !self.execution.permanent && flag_of(config.execution.use_trash, true),
        }
    }

    /// Extract the scanning options from the arguments and the file: the
    /// thread count and the depth from the arguments, else the file, else
    /// none; the skip list of the file followed by that of the arguments.
    pub fn scan_options(&self, config: &FileConfig) -> (r: ScanOptions)
        ensures
            r.verbose == either(self.scanning.verbose, config.scanning.verbose),
            r.threads == (match first_of(self.scanning.threads, config.scanning.threads) {
                Some(n) => n,
                None => 0,
            }),
            text_views(r.skip@) == optional_texts(config.scanning.skip) + text_views(
                self.scanning.skip@,
            ),
            r.max_depth == first_of(self.scanning.max_depth, config.scanning.max_depth),
    {
        let mut skip: Vec<String> = Vec::new();
        match &config.scanning.skip {
            Some(items) => {
                extend_texts(&mut skip, items);
            },
            None => {},
        }
        extend_texts(&mut skip, &self.scanning.skip);
        let threads = match self.scanning.threads {
            Some(n) => n,
            None => match config.scanning.threads {
                Some(n) => n,
                None => 0,
            },
        };
        let max_depth = match self.scanning.max_depth {
            Some(n) => Some(n),
            None => config.scanning.max_depth,
        };
        ScanOptions {
            verbose: self.scanning.verbose || flag_of(config.scanning.verbose, false),
            threads,
            skip,
            max_depth,
        }
    }

    /// Extract the filtering options from the arguments and the file; the
    /// defaults are the size `0` and no minimum age.
    pub fn filter_options(&self, config: &FileConfig) -> (r: FilterOptions)
        ensures
            r.keep_size@ == (match first_of(
                optional_text(self.filtering.keep_size),
                optional_text(config.filtering.keep_size),
            ) {
                Some(s) => s,
                None => seq!['0'],
            }),
            r.keep_days == (match first_of(self.filtering.keep_days, config.filtering.keep_days) {
                Some(n) => n,
                None => 0,
            }),
    {
        let keep_size = match &self.filtering.keep_size {
            Some(s) => s.clone(),
            None => match &config.filtering.keep_size {
                Some(s) => s.clone(),
                None => {
                    proof {
                        reveal_strlit("0");
                    }
                    String::from_str("0")
                },
            },
        };
        let keep_days = match self.filtering.keep_days {
            Some(n) => n,
            None => match config.filtering.keep_days {
                Some(n) => n,
                None => 0,
            },
        };
        FilterOptions { keep_size, keep_days }
    }

    /// Extract the sorting options from the arguments and the file.
    pub fn sort_options(&self, config: &FileConfig) -> (r: SortOptions)
        ensures
            r.criteria == resolved_criteria(*self, *config),
            r.reverse == either(self.filtering.reverse, config.filtering.reverse),
    {
        let criteria = match self.filtering.sort {
            Some(c) => Some(c),
            None => match &config.filtering.sort {
                Some(name) => match SortCriteria::from_str(name.as_str(), true) {
                    Ok(c) => Some(c),
                    Err(_) => None,
                },
                None => None,
            },
        };
        SortOptions {
            criteria,
            reverse: self.filtering.reverse || flag_of(config.filtering.reverse, false),
        }
    }
}

/// The value of an optional flag, or `default` where it is absent.
fn flag_of(setting: Option<bool>, default: bool) -> (r: bool)
    ensures
        r == (match setting {
            Some(b) => b,
            None => default,
        }),
{
    match setting {
        Some(b) => b,
        None => default,
    }
}

} // verus!
