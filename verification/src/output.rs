//! Structured results of a scan or a cleanup, ready to be rendered.

use vstd::prelude::*;
use vstd::string::StringExecFns;
use crate::cleaner::CleanResult;
use crate::filtering::type_rank;
use crate::project::project::{
    artifacts_size, optional_text, saturated, saturating_sum, Project, ProjectType, ProjectView,
};
use crate::project::projects::{project_views, projects_size, text_views};
use crate::utils::human::{decimal_size_text, format_size};

verus! {
/// Top-level output of a run.
#[derive(Debug)]
pub struct JsonOutput {
    /// The execution mode: `"dry_run"` or `"cleanup"`.
    pub mode: String,
    /// List of projects that were found (and matched filters).
    pub projects: Vec<JsonProjectEntry>,
    /// Aggregated summary statistics.
    pub summary: JsonSummary,
    /// Cleanup results; present only after an actual cleanup.
    pub cleanup: Option<JsonCleanupResult>,
}

/// A single project entry in the output.
#[derive(Debug)]
pub struct JsonProjectEntry {
    /// Project name extracted from config files, if any.
    pub name: Option<String>,
    /// Project type.
    pub project_type: ProjectType,
    /// Path to the project root directory.
    pub root_path: String,
    /// Path to the first build artifacts directory; empty without one.
    pub build_artifacts_path: String,
    /// Size of the build artifacts in bytes.
    pub build_artifacts_size: u64,
    /// Human-readable formatted size (e.g. `"1.23 GB"`).
    pub build_artifacts_size_formatted: String,
}

/// Aggregated summary across all matched projects.
#[derive(Debug)]
pub struct JsonSummary {
    /// Total number of projects found.
    pub total_projects: usize,
    /// Total reclaimable size in bytes.
    pub total_size: u64,
    /// Human-readable formatted total size.
    pub total_size_formatted: String,
    /// Per-type breakdown: one entry for each type that occurs, under the
    /// type's name, in the alphabetical order of the names.
    pub by_type: Vec<(String, JsonTypeSummary)>,
}

/// Per-project-type count and size.
#[derive(Debug)]
pub struct JsonTypeSummary {
    /// Number of projects of this type.
    pub count: usize,
    /// Total size in bytes for this type.
    pub size: u64,
    /// Human-readable formatted size.
    pub size_formatted: String,
}

/// Results of a cleanup operation.
#[derive(Debug)]
pub struct JsonCleanupResult {
    /// Number of projects successfully cleaned.
    pub success_count: usize,
    /// Number of projects that failed to clean.
    pub failure_count: usize,
    /// Total bytes actually freed.
    pub total_freed: u64,
    /// Human-readable formatted freed size.
    pub total_freed_formatted: String,
    /// Error messages for projects that failed.
    pub errors: Vec<String>,
}

/// What a `JsonProjectEntry` value holds.
pub struct EntryView {
    pub name: Option<Seq<char>>,
    pub project_type: ProjectType,
    pub root_path: Seq<char>,
    pub build_artifacts_path: Seq<char>,
    pub build_artifacts_size: u64,
    pub build_artifacts_size_formatted: Seq<char>,
}

impl View for JsonProjectEntry {
    type V = EntryView;

    open spec fn view(&self) -> EntryView {
        EntryView {
            name: optional_text(self.name),
            project_type: self.project_type,
            root_path: self.root_path@,
            build_artifacts_path: self.build_artifacts_path@,
            build_artifacts_size: self.build_artifacts_size,
            build_artifacts_size_formatted: self.build_artifacts_size_formatted@,
        }
    }
}

/// What a per-type entry of a summary holds.
pub struct TypeSummaryView {
    pub key: Seq<char>,
    pub count: nat,
    pub size: u64,
    pub size_formatted: Seq<char>,
}

/// The view of a per-type entry.
pub open spec fn type_entry_view(e: (String, JsonTypeSummary)) -> TypeSummaryView {
    TypeSummaryView {
        key: e.0@,
        count: e.1.count as nat,
        size: e.1.size,
        size_formatted: e.1.size_formatted@,
    }
}

/// The views of the per-type entries.
pub open spec fn type_entry_views(es: Seq<(String, JsonTypeSummary)>) -> Seq<TypeSummaryView> {
    es.map_values(|e: (String, JsonTypeSummary)| type_entry_view(e))
}

/// The views of the project entries.
pub open spec fn entry_views(es: Seq<JsonProjectEntry>) -> Seq<EntryView> {
    es.map_values(|e: JsonProjectEntry| e@)
}

/// The entry that stands for a project.
pub open spec fn entry_for(p: ProjectView) -> EntryView {
    let size = saturated(artifacts_size(p.artifacts));
    EntryView {
        name: p.name,
        project_type: p.kind,
        root_path: p.root_path,
        build_artifacts_path: if p.artifacts.len() > 0 {
            p.artifacts[0].path
        } else {
            Seq::empty()
        },
        build_artifacts_size: size,
        build_artifacts_size_formatted: decimal_size_text(size),
    }
}

/// The entries that stand for a sequence of projects.
pub open spec fn entries_for(ps: Seq<ProjectView>) -> Seq<EntryView> {
    ps.map_values(|p: ProjectView| entry_for(p))
}

/// The name under which a project type is counted.
pub open spec fn type_key(kind: ProjectType) -> Seq<char> {
    match kind {
        ProjectType::Rust => "rust"@,
        ProjectType::Node => "node"@,
        ProjectType::Python => "python"@,
        ProjectType::Go => "go"@,
        ProjectType::Java => "java"@,
        ProjectType::Cpp => "cpp"@,
        ProjectType::Swift => "swift"@,
        ProjectType::DotNet => "dotnet"@,
        ProjectType::Ruby => "ruby"@,
        ProjectType::Elixir => "elixir"@,
        ProjectType::Deno => "deno"@,
        ProjectType::Php => "php"@,
        ProjectType::Haskell => "haskell"@,
        ProjectType::Dart => "dart"@,
        ProjectType::Zig => "zig"@,
        ProjectType::Scala => "scala"@,
    }
}

/// The project type at a position of the alphabetical order of the names.
pub open spec fn kind_of_rank(rank: int) -> ProjectType {
    if rank == 0 {
        ProjectType::Cpp
    } else if rank == 1 {
        ProjectType::Dart
    } else if rank == 2 {
        ProjectType::Deno
    } else if rank == 3 {
        ProjectType::DotNet
    } else if rank == 4 {
        ProjectType::Elixir
    } else if rank == 5 {
        ProjectType::Go
    } else if rank == 6 {
        ProjectType::Haskell
    } else if rank == 7 {
        ProjectType::Java
    } else if rank == 8 {
        ProjectType::Node
    } else if rank == 9 {
        ProjectType::Php
    } else if rank == 10 {
        ProjectType::Python
    } else if rank == 11 {
        ProjectType::Ruby
    } else if rank == 12 {
        ProjectType::Rust
    } else if rank == 13 {
        ProjectType::Scala
    } else if rank == 14 {
        ProjectType::Swift
    } else {
        ProjectType::Zig
    }
}

/// How many of `ps` are of kind `kind`.
pub open spec fn count_of(ps: Seq<ProjectView>, kind: ProjectType) -> nat
    decreases ps.len(),
{
    if ps.len() == 0 {
        0
    } else {
        count_of(ps.drop_last(), kind) + if ps.last().kind == kind {
            1nat
        } else {
            0nat
        }
    }
}

/// The total artifact size of the projects of kind `kind` among `ps`.
pub open spec fn size_of_kind(ps: Seq<ProjectView>, kind: ProjectType) -> nat
    decreases ps.len(),
{
    if ps.len() == 0 {
        0
    } else {
        size_of_kind(ps.drop_last(), kind) + if ps.last().kind == kind {
            artifacts_size(ps.last().artifacts)
        } else {
            0nat
        }
    }
}

/// The per-type entries for the types at the first `n` positions of the
/// alphabetical order.
pub open spec fn breakdown(ps: Seq<ProjectView>, n: int) -> Seq<TypeSummaryView>
    decreases n,
{
    if n <= 0 {
        Seq::empty()
    } else {
        let before = breakdown(ps, n - 1);
        let kind = kind_of_rank(n - 1);
        if count_of(ps, kind) > 0 {
            before.push(
                TypeSummaryView {
                    key: type_key(kind),
                    count: count_of(ps, kind),
                    size: saturated(size_of_kind(ps, kind)),
                    size_formatted: decimal_size_text(saturated(size_of_kind(ps, kind))),
                },
            )
        } else {
            before
        }
    }
}

/// The name under which a project type is counted.
pub fn key_of_type(kind: &ProjectType) -> (r: &'static str)
    ensures
        r@ == type_key(*kind),
{
    match kind {
        ProjectType::Rust => "rust",
        ProjectType::Node => "node",
        ProjectType::Python => "python",
        ProjectType::Go => "go",
        ProjectType::Java => "java",
        ProjectType::Cpp => "cpp",
        ProjectType::Swift => "swift",
        ProjectType::DotNet => "dotnet",
        ProjectType::Ruby => "ruby",
        ProjectType::Elixir => "elixir",
        ProjectType::Deno => "deno",
        ProjectType::Php => "php",
        ProjectType::Haskell => "haskell",
        ProjectType::Dart => "dart",
        ProjectType::Zig => "zig",
        ProjectType::Scala => "scala",
    }
}

impl JsonProjectEntry {
    /// Convert a `Project` into a `JsonProjectEntry`.
    pub fn from_project(project: &Project) -> (r: Self)
        ensures
            r@ == entry_for(project@),
    {
        let size = project.total_size();
        let path = if project.build_arts.len() > 0 {
            project.build_arts[0].path.clone()
        } else {
            String::new()
        };
        let name = match &project.name {
            Some(n) => Some(n.clone()),
            None => None,
        };
        Self {
            name,
            project_type: project.kind,
            root_path: project.root_path.clone(),
            build_artifacts_path: path,
            build_artifacts_size: size,
            build_artifacts_size_formatted: format_size(size),
        }
    }

    /// The entries for a slice of projects, in order.
    pub fn from_projects(projects: &[Project]) -> (r: Vec<Self>)
        ensures
            entry_views(r@) == entries_for(project_views(projects@)),
    {
        let mut out: Vec<JsonProjectEntry> = Vec::new();
        let ghost all = entries_for(project_views(projects@));
        let mut i: usize = 0;
        while i < projects.len()
            invariant
                i <= projects.len(),
                all == entries_for(project_views(projects@)),
                entry_views(out@) == all.take(i as int),
            decreases projects.len() - i,
        {
            let entry = Self::from_project(&projects[i]);
            let ghost before = out@;
            out.push(entry);
            proof {
                assert(entry_views(out@) =~= entry_views(before).push(entry@));
            }
            i += 1;
        }
        out
    }
}

impl JsonSummary {
    /// The count and the size of the projects of kind `kind`, the size
    /// held at the 64-bit maximum.
    pub fn tally(projects: &[Project], kind: ProjectType) -> (r: (usize, u64))
        ensures
            r.0 == count_of(project_views(projects@), kind),
            r.1 == saturated(size_of_kind(project_views(projects@), kind)),
    {
        let ghost ps = project_views(projects@);
        let mut count: usize = 0;
        let mut size: u64 = 0;
        let mut i: usize = 0;
        while i < projects.len()
            invariant
                i <= projects.len(),
                ps == project_views(projects@),
                count == count_of(ps.take(i as int), kind),
                count <= i,
                size == saturated(size_of_kind(ps.take(i as int), kind)),
            decreases projects.len() - i,
        {
            proof {
                assert(ps.take(i + 1).drop_last() =~= ps.take(i as int));
            }
            if projects[i].kind == kind {
                count += 1;
                size = saturating_sum(size, projects[i].total_size());
            }
            i += 1;
        }
        assert(ps.take(ps.len() as int) =~= ps);
        (count, size)
    }

    /// The total artifact size of `projects`, held at the 64-bit maximum.
    fn total(projects: &[Project]) -> (r: u64)
        ensures
            r == saturated(projects_size(project_views(projects@))),
    {
        let ghost ps = project_views(projects@);
        let mut total: u64 = 0;
        let mut i: usize = 0;
        while i < projects.len()
            invariant
                i <= projects.len(),
                ps == project_views(projects@),
                total == saturated(projects_size(ps.take(i as int))),
            decreases projects.len() - i,
        {
            proof {
                assert(ps.take(i + 1).drop_last() =~= ps.take(i as int));
            }
            total = saturating_sum(total, projects[i].total_size());
            i += 1;
        }
        assert(ps.take(ps.len() as int) =~= ps);
        total
    }

    /// The project type at a position of the alphabetical order.
    fn kind_at(rank: u8) -> (r: ProjectType)
        requires
            rank < 16,
        ensures
            r == kind_of_rank(rank as int),
            type_rank(r) == rank,
    {
        if rank == 0 {
            ProjectType::Cpp
        } else if rank == 1 {
            ProjectType::Dart
        } else if rank == 2 {
            ProjectType::Deno
        } else if rank == 3 {
            ProjectType::DotNet
        } else if rank == 4 {
            ProjectType::Elixir
        } else if rank == 5 {
            ProjectType::Go
        } else if rank == 6 {
            ProjectType::Haskell
        } else if rank == 7 {
            ProjectType::Java
        } else if rank == 8 {
            ProjectType::Node
        } else if rank == 9 {
            ProjectType::Php
        } else if rank == 10 {
            ProjectType::Python
        } else if rank == 11 {
            ProjectType::Ruby
        } else if rank == 12 {
            ProjectType::Rust
        } else if rank == 13 {
            ProjectType::Scala
        } else if rank == 14 {
            ProjectType::Swift
        } else {
            ProjectType::Zig
        }
    }

    /// Compute summary statistics from a slice of projects.
    pub fn from_projects(projects: &[Project]) -> (r: Self)
        ensures
            r.total_projects == projects@.len(),
            r.total_size == saturated(projects_size(project_views(projects@))),
            r.total_size_formatted@ == decimal_size_text(r.total_size),
            type_entry_views(r.by_type@) == breakdown(project_views(projects@), 16),
    {
        let ghost ps = project_views(projects@);
        let mut by_type: Vec<(String, JsonTypeSummary)> = Vec::new();
        let mut rank: u8 = 0;
        while rank < 16
            invariant
                rank <= 16,
                ps == project_views(projects@),
                type_entry_views(by_type@) == breakdown(ps, rank as int),
            decreases 16 - rank,
        {
            let kind = Self::kind_at(rank);
            let (count, size) = Self::tally(projects, kind);
            if count > 0 {
                let entry = (
                    String::from_str(key_of_type(&kind)),
                    JsonTypeSummary { count, size, size_formatted: format_size(size) },
                );
                by_type.push(entry);
            }
            rank += 1;
        }
        let total_size = Self::total(projects);
        Self {
            total_projects: projects.len(),
            total_size,
            total_size_formatted: format_size(total_size),
            by_type,
        }
    }
}

impl JsonCleanupResult {
    /// Convert a `CleanResult` into a `JsonCleanupResult`.
    pub fn from_clean_result(result: &CleanResult) -> (r: Self)
        ensures
            r.success_count == result.success_count,
            r.failure_count == result.errors@.len(),
            r.total_freed == result.total_freed,
            r.total_freed_formatted@ == decimal_size_text(result.total_freed),
            text_views(r.errors@) == text_views(result.errors@),
    {
        let mut errors: Vec<String> = Vec::new();
        let mut i: usize = 0;
        while i < result.errors.len()
            invariant
                i <= result.errors.len(),
                text_views(errors@) == text_views(result.errors@).take(i as int),
            decreases result.errors.len() - i,
        {
            let ghost before = errors@;
            let line = result.errors[i].clone();
            errors.push(line);
            proof {
                let all = text_views(result.errors@);
                assert(text_views(errors@) =~= text_views(before).push(line@));
            }
            i += 1;
        }
        Self {
            success_count: result.success_count,
            failure_count: result.errors.len(),
            total_freed: result.total_freed,
            total_freed_formatted: format_size(result.total_freed),
            errors,
        }
    }
}

impl JsonOutput {
    /// Build a `JsonOutput` from a slice of projects in dry-run mode.
    pub fn from_projects_dry_run(projects: &[Project]) -> (r: Self)
        ensures
            r.mode@ == "dry_run"@,
            entry_views(r.projects@) == entries_for(project_views(projects@)),
            r.summary.total_projects == projects@.len(),
            r.summary.total_size == saturated(projects_size(project_views(projects@))),
            r.summary.total_size_formatted@ == decimal_size_text(r.summary.total_size),
            type_entry_views(r.summary.by_type@) == breakdown(project_views(projects@), 16),
            r.cleanup.is_none(),
    {
        Self {
            mode: String::from_str("dry_run"),
            projects: JsonProjectEntry::from_projects(projects),
            summary: JsonSummary::from_projects(projects),
            cleanup: None,
        }
    }

    /// Build a `JsonOutput` from a slice of projects after a cleanup operation.
    pub fn from_projects_cleanup(projects: &[Project], clean_result: &CleanResult) -> (r: Self)
        ensures
            r.mode@ == "cleanup"@,
            entry_views(r.projects@) == entries_for(project_views(projects@)),
            r.summary.total_projects == projects@.len(),
            r.summary.total_size == saturated(projects_size(project_views(projects@))),
            r.summary.total_size_formatted@ == decimal_size_text(r.summary.total_size),
            type_entry_views(r.summary.by_type@) == breakdown(project_views(projects@), 16),
            r.cleanup matches Some(c) && c.success_count == clean_result.success_count
                && c.failure_count == clean_result.errors@.len() && c.total_freed
                == clean_result.total_freed && c.total_freed_formatted@ == decimal_size_text(
                clean_result.total_freed,
            ) && text_views(c.errors@) == text_views(clean_result.errors@),
    {
        Self {
            mode: String::from_str("cleanup"),
            projects: JsonProjectEntry::from_projects(projects),
            summary: JsonSummary::from_projects(projects),
            cleanup: Some(JsonCleanupResult::from_clean_result(clean_result)),
        }
    }
}

/// The kinds counted in the first `n` places of the alphabetical order
/// that occur among `ps`, in that order.
pub open spec fn kinds_present(ps: Seq<ProjectView>, n: int) -> Seq<ProjectType>
    decreases n,
{
    if n <= 0 {
        Seq::empty()
    } else if count_of(ps, kind_of_rank(n - 1)) > 0 {
        kinds_present(ps, n - 1).push(kind_of_rank(n - 1))
    } else {
        kinds_present(ps, n - 1)
    }
}

/// The breakdown has one entry for each kind that occurs and none for a
/// kind that does not; the entries stand in the alphabetical order of the
/// kinds' names, so no key occurs twice.
pub proof fn lemma_breakdown_has_one_entry_per_kind(ps: Seq<ProjectView>, n: int)
    requires
        0 <= n <= 16,
    ensures
        breakdown(ps, n).len() == kinds_present(ps, n).len(),
        forall|i: int|
            0 <= i < breakdown(ps, n).len() ==> (#[trigger] breakdown(ps, n)[i]).key == type_key(
                kinds_present(ps, n)[i],
            ) && breakdown(ps, n)[i].count == count_of(ps, kinds_present(ps, n)[i])
                && breakdown(ps, n)[i].count > 0 && type_rank(kinds_present(ps, n)[i]) < n,
        forall|i: int|
            0 <= i < kinds_present(ps, n).len() ==> type_rank(
                #[trigger] kinds_present(ps, n)[i],
            ) < n,
        forall|i: int, j: int|
            0 <= i < j < kinds_present(ps, n).len() ==> type_rank(
                #[trigger] kinds_present(ps, n)[i],
            ) < type_rank(#[trigger] kinds_present(ps, n)[j]),
    decreases n,
{
    if n > 0 {
        lemma_breakdown_has_one_entry_per_kind(ps, n - 1);
        let now = kinds_present(ps, n);
        assert forall|i: int, j: int| 0 <= i < j < now.len() implies type_rank(
            #[trigger] now[i],
        ) < type_rank(#[trigger] now[j]) by {}
    }
}

/// The counts of the kinds add up to the number of projects: every
/// project is counted under exactly one kind.
pub proof fn lemma_every_project_is_counted_once(ps: Seq<ProjectView>)
    ensures
        counted(ps, 16) == ps.len(),
    decreases ps.len(),
{
    if ps.len() > 0 {
        lemma_every_project_is_counted_once(ps.drop_last());
        lemma_counted_with_one_more(ps, 16);
    } else {
        lemma_nothing_is_counted_in_nothing(ps, 16);
    }
}

/// Among no projects none is counted.
pub proof fn lemma_nothing_is_counted_in_nothing(ps: Seq<ProjectView>, n: int)
    requires
        ps.len() == 0,
        0 <= n,
    ensures
        counted(ps, n) == 0,
    decreases n,
{
    if n > 0 {
        lemma_nothing_is_counted_in_nothing(ps, n - 1);
    }
}

/// How many of `ps` are of one of the kinds in the first `n` places of the
/// alphabetical order.
pub open spec fn counted(ps: Seq<ProjectView>, n: int) -> nat
    decreases n,
{
    if n <= 0 {
        0
    } else {
        counted(ps, n - 1) + count_of(ps, kind_of_rank(n - 1))
    }
}

/// One more project adds one to the count of the kinds that include its
/// own, and nothing to the count of the others.
pub proof fn lemma_counted_with_one_more(ps: Seq<ProjectView>, n: int)
    requires
        ps.len() > 0,
        0 <= n <= 16,
    ensures
        counted(ps, n) == counted(ps.drop_last(), n) + (if type_rank(ps.last().kind) < n {
            1nat
        } else {
            0nat
        }),
    decreases n,
{
    if n > 0 {
        lemma_counted_with_one_more(ps, n - 1);
    }
}


/// The names under which the kinds are counted ascend with the places of
/// the kinds: each name comes before the next in the order of texts, so
/// the entries of a breakdown stand in the order of their keys.
pub proof fn lemma_type_keys_ascend(rank: int)
    requires
        0 <= rank < 15,
    ensures
        crate::text::lex_le(type_key(kind_of_rank(rank)), type_key(kind_of_rank(rank + 1))),
        type_key(kind_of_rank(rank)) != type_key(kind_of_rank(rank + 1)),
{
    reveal_with_fuel(crate::text::lex_le, 5);
    if rank == 0 {
        reveal_strlit("cpp");
        reveal_strlit("dart");
    }
    if rank == 1 {
        reveal_strlit("dart");
        reveal_strlit("deno");
    }
    if rank == 2 {
        reveal_strlit("deno");
        reveal_strlit("dotnet");
    }
    if rank == 3 {
        reveal_strlit("dotnet");
        reveal_strlit("elixir");
    }
    if rank == 4 {
        reveal_strlit("elixir");
        reveal_strlit("go");
    }
    if rank == 5 {
        reveal_strlit("go");
        reveal_strlit("haskell");
    }
    if rank == 6 {
        reveal_strlit("haskell");
        reveal_strlit("java");
    }
    if rank == 7 {
        reveal_strlit("java");
        reveal_strlit("node");
    }
    if rank == 8 {
        reveal_strlit("node");
        reveal_strlit("php");
    }
    if rank == 9 {
        reveal_strlit("php");
        reveal_strlit("python");
    }
    if rank == 10 {
        reveal_strlit("python");
        reveal_strlit("ruby");
    }
    if rank == 11 {
        reveal_strlit("ruby");
        reveal_strlit("rust");
    }
    if rank == 12 {
        reveal_strlit("rust");
        reveal_strlit("scala");
    }
    if rank == 13 {
        reveal_strlit("scala");
        reveal_strlit("swift");
    }
    if rank == 14 {
        reveal_strlit("swift");
        reveal_strlit("zig");
    }
    let a = type_key(kind_of_rank(rank));
    let b = type_key(kind_of_rank(rank + 1));
    assert(a.drop_first()[0] == a[1]);
    assert(b.drop_first()[0] == b[1]);
    if a.len() > 2 && b.len() > 2 {
        assert(a.drop_first().drop_first()[0] == a[2]);
        assert(b.drop_first().drop_first()[0] == b[2]);
    }
    assert(a[0] != b[0] || a[1] != b[1] || a[2] != b[2]);
}

} // verus!
