//! Classification of one directory and the walk over a whole tree.

use vstd::prelude::*;
use crate::config::ProjectFilter;
use crate::path::{join, joined};
use crate::project::project::{
    artifact_views, artifacts_size, ArtifactView, BuildArtifacts, Project, ProjectType,
    ProjectView,
};
use crate::project::projects::project_views;
use crate::scanner::detect::{
    detect_cpp, detect_dart, detect_deno, detect_dotnet, detect_elixir, detect_go, detect_haskell,
    detect_java, detect_node, detect_php, detect_python, detect_ruby, detect_rust, detect_scala,
    detect_swift, detect_zig, found_view, is_workspace_root,
};
use crate::scanner::detect::{artifact_at, entry_size, name_or_directory, scanned_name};
use crate::scanner::names::LineRule;
use crate::scanner::rules::{skip_views, survives};
use crate::scanner::Scanner;
use crate::snapshot::{
    lemma_entry_is_found_at_its_path, measure_at, size_at, EntryKind, FsNode, Snapshot,
};

verus! {
/// The number of detectors.
pub open spec fn detector_count() -> int {
    16
}

/// The ecosystems in the order in which their detectors are tried. A
/// narrower signature stands before a broader one that shares a directory
/// name with it: Deno before Node.js, which may both own `node_modules/`;
/// the JVM and the other ecosystems with a manifest of their own before
/// C and C++, whose `Makefile` with `build/` fits many projects.
pub open spec fn detector_order() -> Seq<ProjectType> {
    seq![
        ProjectType::Rust,
        ProjectType::Deno,
        ProjectType::Node,
        ProjectType::Java,
        ProjectType::Swift,
        ProjectType::DotNet,
        ProjectType::Python,
        ProjectType::Go,
        ProjectType::Php,
        ProjectType::Haskell,
        ProjectType::Dart,
        ProjectType::Zig,
        ProjectType::Scala,
        ProjectType::Cpp,
        ProjectType::Ruby,
        ProjectType::Elixir,
    ]
}

/// The ecosystem that a filter selects; none for `All`.
pub open spec fn filter_kind(filter: ProjectFilter) -> Option<ProjectType> {
    match filter {
        ProjectFilter::All => None,
        ProjectFilter::Rust => Some(ProjectType::Rust),
        ProjectFilter::Node => Some(ProjectType::Node),
        ProjectFilter::Python => Some(ProjectType::Python),
        ProjectFilter::Go => Some(ProjectType::Go),
        ProjectFilter::Java => Some(ProjectType::Java),
        ProjectFilter::Cpp => Some(ProjectType::Cpp),
        ProjectFilter::Swift => Some(ProjectType::Swift),
        ProjectFilter::DotNet => Some(ProjectType::DotNet),
        ProjectFilter::Ruby => Some(ProjectType::Ruby),
        ProjectFilter::Elixir => Some(ProjectType::Elixir),
        ProjectFilter::Deno => Some(ProjectType::Deno),
        ProjectFilter::Php => Some(ProjectType::Php),
        ProjectFilter::Haskell => Some(ProjectType::Haskell),
        ProjectFilter::Dart => Some(ProjectType::Dart),
        ProjectFilter::Zig => Some(ProjectType::Zig),
        ProjectFilter::Scala => Some(ProjectType::Scala),
    }
}

/// Whether a filter lets the detector of `kind` run.
pub open spec fn filter_allows(filter: ProjectFilter, kind: ProjectType) -> bool {
    filter == ProjectFilter::All || filter_kind(filter) == Some(kind)
}

/// What the detector of `kind` finds in the directory `dir` at `path`.
#[verifier::opaque]
pub open spec fn detect_kind(
    kind: ProjectType,
    path: Seq<char>,
    dir: FsNode,
    inside_workspace: bool,
) -> Option<ProjectView> {
    match kind {
        ProjectType::Rust => detect_rust(path, dir, inside_workspace),
        ProjectType::Node => detect_node(path, dir),
        ProjectType::Python => detect_python(path, dir),
        ProjectType::Go => detect_go(path, dir),
        ProjectType::Java => detect_java(path, dir),
        ProjectType::Cpp => detect_cpp(path, dir),
        ProjectType::Swift => detect_swift(path, dir),
        ProjectType::DotNet => detect_dotnet(path, dir),
        ProjectType::Ruby => detect_ruby(path, dir),
        ProjectType::Elixir => detect_elixir(path, dir),
        ProjectType::Deno => detect_deno(path, dir),
        ProjectType::Php => detect_php(path, dir),
        ProjectType::Haskell => detect_haskell(path, dir),
        ProjectType::Dart => detect_dart(path, dir),
        ProjectType::Zig => detect_zig(path, dir),
        ProjectType::Scala => detect_scala(path, dir),
    }
}

/// What the detector at position `i` of the order finds, when the filter
/// lets it run.
pub open spec fn attempt(
    filter: ProjectFilter,
    path: Seq<char>,
    dir: FsNode,
    inside_workspace: bool,
    i: int,
) -> Option<ProjectView> {
    if filter_allows(filter, detector_order()[i]) {
        detect_kind(detector_order()[i], path, dir, inside_workspace)
    } else {
        None
    }
}

/// The find of the first detector, from position `i` on, that finds a
/// project.
pub open spec fn classify_from(
    filter: ProjectFilter,
    path: Seq<char>,
    dir: FsNode,
    inside_workspace: bool,
    i: int,
) -> Option<ProjectView>
    decreases detector_count() - i,
{
    if i < 0 || i >= detector_count() {
        None
    } else {
        match attempt(filter, path, dir, inside_workspace, i) {
            Some(p) => Some(p),
            None => classify_from(filter, path, dir, inside_workspace, i + 1),
        }
    }
}

/// The project that the entry `dir` at `path` is: the find of the first
/// detector in order that the filter lets run and that finds one. An
/// entry that is no directory is no project.
pub open spec fn classify(
    filter: ProjectFilter,
    path: Seq<char>,
    dir: FsNode,
    inside_workspace: bool,
) -> Option<ProjectView> {
    if dir.kind == EntryKind::Dir {
        classify_from(filter, path, dir, inside_workspace, 0)
    } else {
        None
    }
}

/// An artifact with its size measured in the tree `dir` at `dir_path`,
/// when it was not measured yet.
pub open spec fn measured(a: ArtifactView, dir: FsNode, dir_path: Seq<char>) -> ArtifactView {
    if a.size == 0 {
        ArtifactView { path: a.path, size: size_at(dir, dir_path, a.path) }
    } else {
        a
    }
}

/// A project with every artifact measured.
pub open spec fn sized(p: ProjectView, dir: FsNode, dir_path: Seq<char>) -> ProjectView {
    ProjectView {
        kind: p.kind,
        root_path: p.root_path,
        artifacts: p.artifacts.map_values(|a: ArtifactView| measured(a, dir, dir_path)),
        name: p.name,
    }
}

/// The project reported for the entry `node` at `path`, if any: the entry
/// survives the prune rules, is classified as a project, and its
/// artifacts, once measured, are not empty.
pub open spec fn report_for(
    skip: Seq<Seq<char>>,
    filter: ProjectFilter,
    path: Seq<char>,
    node: FsNode,
    inside_workspace: bool,
) -> Seq<ProjectView> {
    if survives(skip, path) {
        match classify(filter, path, node, inside_workspace) {
            Some(p) => {
                let s = sized(p, node, path);
                if artifacts_size(s.artifacts) > 0 {
                    seq![s]
                } else {
                    Seq::empty()
                }
            },
            None => Seq::empty(),
        }
    } else {
        Seq::empty()
    }
}

/// The depth left below an entry, given the depth left at it.
pub open spec fn depth_below(depth: Option<usize>) -> Option<usize> {
    match depth {
        Some(d) => Some((d - 1) as usize),
        None => None,
    }
}

/// The projects reported in the tree below and including `node`, parents
/// before their entries and entries in listing order. `depth` is how
/// many levels below `node` are still visited (`None`: all of them).
///
/// The walk starts at `node` whatever its path; below it, the prune rules
/// are applied to an entry before the walk goes into it.
pub open spec fn walk(
    skip: Seq<Seq<char>>,
    filter: ProjectFilter,
    path: Seq<char>,
    node: FsNode,
    inside_workspace: bool,
    depth: Option<usize>,
) -> Seq<ProjectView>
    decreases node, 0nat,
{
    report_for(skip, filter, path, node, inside_workspace) + (if node.kind == EntryKind::Dir
        && depth != Some(0usize) {
        walk_entries(
            skip,
            filter,
            path,
            node.children@,
            inside_workspace || is_workspace_root(node),
            depth_below(depth),
        )
    } else {
        Seq::empty()
    })
}

/// The projects reported for an entry that the walk comes upon at `path`:
/// those of the walk through it where it survives the prune rules, and
/// none where it does not, for then the walk neither classifies the
/// entry nor goes into it.
pub open spec fn enter(
    skip: Seq<Seq<char>>,
    filter: ProjectFilter,
    path: Seq<char>,
    node: FsNode,
    inside_workspace: bool,
    depth: Option<usize>,
) -> Seq<ProjectView>
    decreases node, 1nat,
{
    if survives(skip, path) {
        walk(skip, filter, path, node, inside_workspace, depth)
    } else {
        Seq::empty()
    }
}

/// The projects reported in the trees of `entries`, which stand in the
/// directory at `parent`.
pub open spec fn walk_entries(
    skip: Seq<Seq<char>>,
    filter: ProjectFilter,
    parent: Seq<char>,
    entries: Seq<FsNode>,
    inside_workspace: bool,
    depth: Option<usize>,
) -> Seq<ProjectView>
    decreases entries, 0nat,
{
    if entries.len() == 0 {
        Seq::empty()
    } else {
        walk_entries(skip, filter, parent, entries.drop_last(), inside_workspace, depth) + enter(
            skip,
            filter,
            joined(parent, entries.last().name@),
            entries.last(),
            inside_workspace,
            depth,
        )
    }
}

/// The detector at position `i` of the order.
fn detector_at(i: usize) -> (r: ProjectType)
    requires
        i < 16,
    ensures
        r == detector_order()[i as int],
{
    if i == 0 {
        ProjectType::Rust
    } else if i == 1 {
        ProjectType::Deno
    } else if i == 2 {
        ProjectType::Node
    } else if i == 3 {
        ProjectType::Java
    } else if i == 4 {
        ProjectType::Swift
    } else if i == 5 {
        ProjectType::DotNet
    } else if i == 6 {
        ProjectType::Python
    } else if i == 7 {
        ProjectType::Go
    } else if i == 8 {
        ProjectType::Php
    } else if i == 9 {
        ProjectType::Haskell
    } else if i == 10 {
        ProjectType::Dart
    } else if i == 11 {
        ProjectType::Zig
    } else if i == 12 {
        ProjectType::Scala
    } else if i == 13 {
        ProjectType::Cpp
    } else if i == 14 {
        ProjectType::Ruby
    } else {
        ProjectType::Elixir
    }
}

/// The filter that selects exactly `kind`.
fn filter_for(kind: ProjectType) -> (r: ProjectFilter)
    ensures
        filter_kind(r) == Some(kind),
{
    match kind {
        ProjectType::Rust => ProjectFilter::Rust,
        ProjectType::Node => ProjectFilter::Node,
        ProjectType::Python => ProjectFilter::Python,
        ProjectType::Go => ProjectFilter::Go,
        ProjectType::Java => ProjectFilter::Java,
        ProjectType::Cpp => ProjectFilter::Cpp,
        ProjectType::Swift => ProjectFilter::Swift,
        ProjectType::DotNet => ProjectFilter::DotNet,
        ProjectType::Ruby => ProjectFilter::Ruby,
        ProjectType::Elixir => ProjectFilter::Elixir,
        ProjectType::Deno => ProjectFilter::Deno,
        ProjectType::Php => ProjectFilter::Php,
        ProjectType::Haskell => ProjectFilter::Haskell,
        ProjectType::Dart => ProjectFilter::Dart,
        ProjectType::Zig => ProjectFilter::Zig,
        ProjectType::Scala => ProjectFilter::Scala,
    }
}

impl Scanner {
    /// The skip list as text.
    pub open spec fn skip_names(&self) -> Seq<Seq<char>> {
        skip_views(self.scan_options.skip@)
    }

    /// Runs the detector of one ecosystem.
    pub fn detect_as(kind: ProjectType, path: &str, dir: &FsNode, inside_workspace: bool) -> (r:
        Option<Project>)
        ensures
            found_view(r) == detect_kind(kind, path@, *dir, inside_workspace),
    {
        reveal(detect_kind);
        match kind {
            ProjectType::Rust => Self::detect_rust_project(path, dir, inside_workspace),
            ProjectType::Node => Self::detect_node_project(path, dir),
            ProjectType::Python => Self::detect_python_project(path, dir),
            ProjectType::Go => Self::detect_go_project(path, dir),
            ProjectType::Java => Self::detect_java_project(path, dir),
            ProjectType::Cpp => Self::detect_cpp_project(path, dir),
            ProjectType::Swift => Self::detect_swift_project(path, dir),
            ProjectType::DotNet => Self::detect_dotnet_project(path, dir),
            ProjectType::Ruby => Self::detect_ruby_project(path, dir),
            ProjectType::Elixir => Self::detect_elixir_project(path, dir),
            ProjectType::Deno => Self::detect_deno_project(path, dir),
            ProjectType::Php => Self::detect_php_project(path, dir),
            ProjectType::Haskell => Self::detect_haskell_project(path, dir),
            ProjectType::Dart => Self::detect_dart_project(path, dir),
            ProjectType::Zig => Self::detect_zig_project(path, dir),
            ProjectType::Scala => Self::detect_scala_project(path, dir),
        }
    }

    /// Run a detector only if the current project filter allows it.
    pub fn try_detect(
        &self,
        kind: ProjectType,
        path: &str,
        dir: &FsNode,
        inside_workspace: bool,
    ) -> (r: Option<Project>)
        ensures
            found_view(r) == (if filter_allows(self.project_filter, kind) {
                detect_kind(kind, path@, *dir, inside_workspace)
            } else {
                None
            }),
    {
        if self.project_filter == ProjectFilter::All || self.project_filter == filter_for(kind) {
            Self::detect_as(kind, path, dir, inside_workspace)
        } else {
            None
        }
    }

    /// Detect if an entry of the tree is a development project: the
    /// detectors are tried in their order and the first find wins.
    pub fn detect_project(&self, path: &str, dir: &FsNode, inside_workspace: bool) -> (r: Option<
        Project,
    >)
        ensures
            found_view(r) == classify(self.project_filter, path@, *dir, inside_workspace),
    {
        if dir.kind != EntryKind::Dir {
            return None;
        }
        let mut i: usize = 0;
        while i < 16
            invariant
                i <= 16,
                dir.kind == EntryKind::Dir,
                classify(self.project_filter, path@, *dir, inside_workspace) == classify_from(
                    self.project_filter,
                    path@,
                    *dir,
                    inside_workspace,
                    i as int,
                ),
            decreases 16 - i,
        {
            match self.try_detect(detector_at(i), path, dir, inside_workspace) {
                Some(p) => {
                    return Some(p);
                },
                None => {},
            }
            i += 1;
        }
        None
    }

    /// Calculate the size found at `path` in the tree `dir` listed at
    /// `dir_path`; 0 when there is nothing at `path`.
    pub fn calculate_build_dir_size(dir: &FsNode, dir_path: &str, path: &str) -> (r: u64)
        ensures
            r == size_at(*dir, dir_path@, path@),
    {
        measure_at(dir, dir_path, path)
    }

    /// Measures every artifact of `project` that was not measured yet, in
    /// the tree `dir` listed at `dir_path`.
    pub fn measure_project(project: Project, dir: &FsNode, dir_path: &str) -> (r: Project)
        ensures
            r@ == sized(project@, *dir, dir_path@),
    {
        let mut arts: Vec<BuildArtifacts> = Vec::new();
        let ghost before = artifact_views(project.build_arts@);
        let ghost after = sized(project@, *dir, dir_path@).artifacts;
        let mut i: usize = 0;
        while i < project.build_arts.len()
            invariant
                i <= project.build_arts.len(),
                before == artifact_views(project.build_arts@),
                after == sized(project@, *dir, dir_path@).artifacts,
                artifact_views(arts@) == after.take(i as int),
            decreases project.build_arts.len() - i,
        {
            let a = &project.build_arts[i];
            let size = if a.size == 0 {
                measure_at(dir, dir_path, a.path.as_str())
            } else {
                a.size
            };
            let ghost sofar = artifact_views(arts@);
            arts.push(BuildArtifacts { path: a.path.clone(), size });
            proof {
                assert(artifact_views(arts@) =~= sofar.push(after[i as int]));
            }
            i += 1;
        }
        assert(after.take(after.len() as int) =~= after);
        Project { kind: project.kind, root_path: project.root_path, build_arts: arts, name: project.name }
    }

    /// Reports the project that the entry `node` at `path` is, if it is
    /// one that survives the prune rules and has something to clean.
    fn visit(
        &self,
        path: &str,
        node: &FsNode,
        inside_workspace: bool,
        found: &mut Vec<Project>,
    )
        ensures
            project_views(final(found)@) == project_views(old(found)@) + report_for(
                self.skip_names(),
                self.project_filter,
                path@,
                *node,
                inside_workspace,
            ),
    {
        if !self.should_scan_entry(path) {
            return ;
        }
        match self.detect_project(path, node, inside_workspace) {
            Some(project) => {
                let measured = Self::measure_project(project, node, path);
                if measured.total_size() > 0 {
                    found.push(measured);
                }
            },
            None => {},
        }
    }

    /// Walks the tree below and including `node`, appending the projects
    /// it reports. An entry that does not survive the prune rules is not
    /// gone into.
    fn walk_tree(
        &self,
        path: &str,
        node: &FsNode,
        inside_workspace: bool,
        depth: Option<usize>,
        found: &mut Vec<Project>,
    )
        ensures
            project_views(final(found)@) == project_views(old(found)@) + walk(
                self.skip_names(),
                self.project_filter,
                path@,
                *node,
                inside_workspace,
                depth,
            ),
        decreases *node,
    {
        let ghost start = project_views(found@);
        self.visit(path, node, inside_workspace, found);
        let ghost here = report_for(
            self.skip_names(),
            self.project_filter,
            path@,
            *node,
            inside_workspace,
        );
        let descend = node.kind == EntryKind::Dir && match depth {
            Some(d) => d != 0,
            None => true,
        };
        if !descend {
            return ;
        }
        let below = match depth {
            Some(d) => Some((d - 1) as usize),
            None => None,
        };
        let within = Self::is_inside_cargo_workspace(inside_workspace, node);
        let ghost entries = node.children@;
        let mut i: usize = 0;
        while i < node.children.len()
            invariant
                i <= node.children.len(),
                entries == node.children@,
                project_views(found@) == start + here + walk_entries(
                    self.skip_names(),
                    self.project_filter,
                    path@,
                    entries.take(i as int),
                    within,
                    below,
                ),
            decreases node.children.len() - i,
        {
            let child = &node.children[i];
            let child_path = join(path, child.name.as_str());
            proof {
                assert(entries.take(i + 1).drop_last() =~= entries.take(i as int));
            }
            let ghost sofar = project_views(found@);
            if self.should_scan_entry(child_path.as_str()) {
                self.walk_tree(child_path.as_str(), child, within, below, found);
            }
            proof {
                let done = walk_entries(
                    self.skip_names(),
                    self.project_filter,
                    path@,
                    entries.take(i as int),
                    within,
                    below,
                );
                let next = enter(
                    self.skip_names(),
                    self.project_filter,
                    child_path@,
                    *child,
                    within,
                    below,
                );
                assert(project_views(found@) =~= sofar + next);
                assert(entries.take(i + 1).last() == *child);
                assert(start + here + done + next =~= start + here + (done + next));
            }
            i += 1;
        }
        proof {
            assert(entries.take(entries.len() as int) =~= entries);
        }
    }

    /// Scan a directory tree for development projects.
    ///
    /// The walk starts at the root and visits a directory before its
    /// entries, these in listing order, down to the depth that the options
    /// allow. Before it goes into an entry it applies the prune rules: an
    /// entry that does not survive them is neither classified nor gone
    /// into, so that nothing below it is reported. A directory is reported
    /// when it survives the prune rules, a detector that the filter allows
    /// recognises it, and its artifacts, measured in the snapshot, hold at
    /// least one byte.
    pub fn scan_directory(&self, root: &Snapshot) -> (r: Vec<Project>)
        ensures
            project_views(r@) == walk(
                self.skip_names(),
                self.project_filter,
                root.path@,
                root.root,
                root.inside_workspace,
                self.scan_options.max_depth,
            ),
    {
        let mut found: Vec<Project> = Vec::new();
        self.walk_tree(
            root.path.as_str(),
            &root.root,
            root.inside_workspace,
            self.scan_options.max_depth,
            &mut found,
        );
        found
    }
}

/// What a detector finds is a project of the detector's own kind, rooted
/// at the directory, with at least one artifact.
pub proof fn lemma_detector_reports_its_kind(
    kind: ProjectType,
    path: Seq<char>,
    dir: FsNode,
    inside_workspace: bool,
)
    ensures
        detect_kind(kind, path, dir, inside_workspace) matches Some(p) ==> p.kind == kind
            && p.root_path == path && p.artifacts.len() > 0,
{
    reveal(detect_kind);
    match kind {
        ProjectType::Rust => crate::scanner::detect::lemma_rust_find(path, dir, inside_workspace),
        ProjectType::Node => crate::scanner::detect::lemma_node_find(path, dir),
        ProjectType::Python => crate::scanner::detect::lemma_python_find(path, dir),
        ProjectType::Go => crate::scanner::detect::lemma_go_find(path, dir),
        ProjectType::Java => crate::scanner::detect::lemma_java_find(path, dir),
        ProjectType::Cpp => crate::scanner::detect::lemma_cpp_find(path, dir),
        ProjectType::Swift => crate::scanner::detect::lemma_swift_find(path, dir),
        ProjectType::DotNet => crate::scanner::detect::lemma_dotnet_find(path, dir),
        ProjectType::Ruby => crate::scanner::detect::lemma_ruby_find(path, dir),
        ProjectType::Elixir => crate::scanner::detect::lemma_elixir_find(path, dir),
        ProjectType::Deno => crate::scanner::detect::lemma_deno_find(path, dir),
        ProjectType::Php => crate::scanner::detect::lemma_php_find(path, dir),
        ProjectType::Haskell => crate::scanner::detect::lemma_haskell_find(path, dir),
        ProjectType::Dart => crate::scanner::detect::lemma_dart_find(path, dir),
        ProjectType::Zig => crate::scanner::detect::lemma_zig_find(path, dir),
        ProjectType::Scala => crate::scanner::detect::lemma_scala_find(path, dir),
    }
}

/// The detector for Rust is the one described as such.
pub proof fn lemma_rust_detector(path: Seq<char>, dir: FsNode, inside_workspace: bool)
    ensures
        detect_kind(ProjectType::Rust, path, dir, inside_workspace) == detect_rust(
            path,
            dir,
            inside_workspace,
        ),
        detect_kind(ProjectType::Rust, path, dir, true).is_none(),
{
    reveal(detect_kind);
}

/// The first detector in order that finds a project decides: when the
/// detector at position `i` finds one and none before it does, that is
/// the classification.
pub proof fn lemma_first_match_wins(
    filter: ProjectFilter,
    path: Seq<char>,
    dir: FsNode,
    inside_workspace: bool,
    i: int,
)
    requires
        dir.kind == EntryKind::Dir,
        0 <= i < detector_count(),
        attempt(filter, path, dir, inside_workspace, i).is_some(),
        forall|j: int| 0 <= j < i ==> attempt(filter, path, dir, inside_workspace, j).is_none(),
    ensures
        classify(filter, path, dir, inside_workspace) == attempt(
            filter,
            path,
            dir,
            inside_workspace,
            i,
        ),
{
    lemma_classify_skips_misses(filter, path, dir, inside_workspace, 0, i);
}

/// Detectors that find nothing are passed over.
pub proof fn lemma_classify_skips_misses(
    filter: ProjectFilter,
    path: Seq<char>,
    dir: FsNode,
    inside_workspace: bool,
    from: int,
    to: int,
)
    requires
        0 <= from <= to <= detector_count(),
        forall|j: int| from <= j < to ==> attempt(filter, path, dir, inside_workspace, j).is_none(),
    ensures
        classify_from(filter, path, dir, inside_workspace, from) == classify_from(
            filter,
            path,
            dir,
            inside_workspace,
            to,
        ),
    decreases to - from,
{
    if from < to {
        lemma_classify_skips_misses(filter, path, dir, inside_workspace, from + 1, to);
    }
}

/// A classification comes from exactly one detector: the first in order
/// that the filter lets run and that finds a project. The project is of
/// that detector's kind, so no directory is classified as two ecosystems.
pub proof fn lemma_classified_by_one_detector(
    filter: ProjectFilter,
    path: Seq<char>,
    dir: FsNode,
    inside_workspace: bool,
)
    ensures
        classify(filter, path, dir, inside_workspace) matches Some(p) ==> exists|i: int|
            0 <= i < detector_count() && #[trigger] attempt(
                filter,
                path,
                dir,
                inside_workspace,
                i,
            ) == Some(p) && p.kind == detector_order()[i] && filter_allows(filter, p.kind)
                && forall|j: int|
                0 <= j < i ==> attempt(filter, path, dir, inside_workspace, j).is_none(),
{
    if dir.kind == EntryKind::Dir {
        lemma_classify_from_witness(filter, path, dir, inside_workspace, 0);
    }
}

/// The find from position `from` on comes from the first detector at or
/// behind `from` that finds a project.
pub proof fn lemma_classify_from_witness(
    filter: ProjectFilter,
    path: Seq<char>,
    dir: FsNode,
    inside_workspace: bool,
    from: int,
)
    requires
        0 <= from <= detector_count(),
    ensures
        classify_from(filter, path, dir, inside_workspace, from) matches Some(p) ==> exists|i: int|
            from <= i < detector_count() && #[trigger] attempt(
                filter,
                path,
                dir,
                inside_workspace,
                i,
            ) == Some(p) && p.kind == detector_order()[i] && filter_allows(filter, p.kind)
                && forall|j: int|
                from <= j < i ==> attempt(filter, path, dir, inside_workspace, j).is_none(),
    decreases detector_count() - from,
{
    if from < detector_count() {
        match attempt(filter, path, dir, inside_workspace, from) {
            Some(p) => {
                lemma_detector_reports_its_kind(
                    detector_order()[from],
                    path,
                    dir,
                    inside_workspace,
                );
            },
            None => {
                lemma_classify_from_witness(filter, path, dir, inside_workspace, from + 1);
                match classify_from(filter, path, dir, inside_workspace, from + 1) {
                    Some(p) => {
                        let i = choose|i: int|
                            from + 1 <= i < detector_count() && #[trigger] attempt(
                                filter,
                                path,
                                dir,
                                inside_workspace,
                                i,
                            ) == Some(p) && p.kind == detector_order()[i] && filter_allows(
                                filter,
                                p.kind,
                            ) && forall|j: int|
                                from + 1 <= j < i ==> attempt(
                                    filter,
                                    path,
                                    dir,
                                    inside_workspace,
                                    j,
                                ).is_none();
                        assert forall|j: int| from <= j < i implies attempt(
                            filter,
                            path,
                            dir,
                            inside_workspace,
                            j,
                        ).is_none() by {}
                    },
                    None => {},
                }
            },
        }
    }
}

/// A classified project is rooted at the directory that was classified,
/// is of a kind that the filter lets through, and has at least one
/// artifact.
pub proof fn lemma_classified_project_is_rooted_here(
    filter: ProjectFilter,
    path: Seq<char>,
    dir: FsNode,
    inside_workspace: bool,
)
    ensures
        classify(filter, path, dir, inside_workspace) matches Some(p) ==> p.root_path == path
            && p.artifacts.len() > 0 && filter_allows(filter, p.kind),
{
    lemma_classified_by_one_detector(filter, path, dir, inside_workspace);
    match classify(filter, path, dir, inside_workspace) {
        Some(p) => {
            let i = choose|i: int|
                0 <= i < detector_count() && #[trigger] attempt(
                    filter,
                    path,
                    dir,
                    inside_workspace,
                    i,
                ) == Some(p) && filter_allows(filter, p.kind);
            lemma_detector_reports_its_kind(detector_order()[i], path, dir, inside_workspace);
        },
        None => {},
    }
}

/// Classifying the same directory again yields an equal project: the
/// same kind, root, artifacts and name.
pub proof fn lemma_classification_is_repeatable(
    first: Option<Project>,
    second: Option<Project>,
    filter: ProjectFilter,
    path: Seq<char>,
    dir: FsNode,
    inside_workspace: bool,
)
    requires
        found_view(first) == classify(filter, path, dir, inside_workspace),
        found_view(second) == classify(filter, path, dir, inside_workspace),
    ensures
        found_view(first) == found_view(second),
{
}

/// Inside a workspace no directory is classified as a Rust project.
pub proof fn lemma_no_rust_project_inside_workspace(
    filter: ProjectFilter,
    path: Seq<char>,
    dir: FsNode,
)
    ensures
        classify(filter, path, dir, true) matches Some(p) ==> p.kind != ProjectType::Rust,
        classify(ProjectFilter::Rust, path, dir, true).is_none(),
{
    lemma_rust_detector(path, dir, true);
    lemma_classified_by_one_detector(filter, path, dir, true);
    lemma_classified_by_one_detector(ProjectFilter::Rust, path, dir, true);
    assert(detector_order()[0] == ProjectType::Rust);
    assert forall|i: int| 0 < i < detector_count() implies #[trigger] detector_order()[i]
        != ProjectType::Rust by {}
    assert(attempt(filter, path, dir, true, 0).is_none());
    assert(attempt(ProjectFilter::Rust, path, dir, true, 0).is_none());
}

/// Below a workspace root a scan for Rust projects reports nothing: the
/// members of a workspace are never reported beside its root.
pub proof fn lemma_workspace_members_are_not_reported(
    skip: Seq<Seq<char>>,
    path: Seq<char>,
    node: FsNode,
    depth: Option<usize>,
)
    ensures
        walk(skip, ProjectFilter::Rust, path, node, true, depth).len() == 0,
    decreases node,
{
    lemma_no_rust_project_inside_workspace(ProjectFilter::Rust, path, node);
    if node.kind == EntryKind::Dir && depth != Some(0usize) {
        lemma_workspace_entries_are_not_reported(skip, path, node.children@, depth_below(depth));
    }
}

/// Below a workspace root a scan for Rust projects reports nothing in
/// any of the entries of a directory.
pub proof fn lemma_workspace_entries_are_not_reported(
    skip: Seq<Seq<char>>,
    parent: Seq<char>,
    entries: Seq<FsNode>,
    depth: Option<usize>,
)
    ensures
        walk_entries(skip, ProjectFilter::Rust, parent, entries, true, depth).len() == 0,
    decreases entries,
{
    if entries.len() > 0 {
        lemma_workspace_entries_are_not_reported(skip, parent, entries.drop_last(), depth);
        lemma_workspace_members_are_not_reported(
            skip,
            joined(parent, entries.last().name@),
            entries.last(),
            depth,
        );
        assert(enter(
            skip,
            ProjectFilter::Rust,
            joined(parent, entries.last().name@),
            entries.last(),
            true,
            depth,
        ).len() == 0);
    }
}

/// Scanning a workspace root for Rust projects yields the root alone, if
/// the root itself is reported, and never a member.
pub proof fn lemma_workspace_root_is_reported_alone(
    skip: Seq<Seq<char>>,
    path: Seq<char>,
    root: FsNode,
    inside_workspace: bool,
    depth: Option<usize>,
)
    requires
        is_workspace_root(root),
    ensures
        walk(skip, ProjectFilter::Rust, path, root, inside_workspace, depth) == report_for(
            skip,
            ProjectFilter::Rust,
            path,
            root,
            inside_workspace,
        ),
        walk(skip, ProjectFilter::Rust, path, root, inside_workspace, depth).len() <= 1,
        forall|i: int|
            0 <= i < walk(skip, ProjectFilter::Rust, path, root, inside_workspace, depth).len()
                ==> (#[trigger] walk(
                skip,
                ProjectFilter::Rust,
                path,
                root,
                inside_workspace,
                depth,
            )[i]).root_path == path,
{
    if root.kind == EntryKind::Dir && depth != Some(0usize) {
        lemma_workspace_entries_are_not_reported(skip, path, root.children@, depth_below(depth));
    }
    lemma_classified_project_is_rooted_here(ProjectFilter::Rust, path, root, inside_workspace);
}

/// Whatever the kinds asked for, no member of a workspace is reported as a
/// Rust project.
pub proof fn lemma_no_rust_member_in_any_scan(
    skip: Seq<Seq<char>>,
    filter: ProjectFilter,
    path: Seq<char>,
    node: FsNode,
    depth: Option<usize>,
    i: int,
)
    requires
        0 <= i < walk(skip, filter, path, node, true, depth).len(),
    ensures
        walk(skip, filter, path, node, true, depth)[i].kind != ProjectType::Rust,
    decreases node,
{
    lemma_no_rust_project_inside_workspace(filter, path, node);
    let here = report_for(skip, filter, path, node, true);
    if i >= here.len() {
        lemma_no_rust_member_in_entries(
            skip,
            filter,
            path,
            node.children@,
            depth_below(depth),
            i - here.len(),
        );
    }
}

/// Whatever the kinds asked for, no entry below a workspace root is
/// reported as a Rust project.
pub proof fn lemma_no_rust_member_in_entries(
    skip: Seq<Seq<char>>,
    filter: ProjectFilter,
    parent: Seq<char>,
    entries: Seq<FsNode>,
    depth: Option<usize>,
    i: int,
)
    requires
        0 <= i < walk_entries(skip, filter, parent, entries, true, depth).len(),
    ensures
        walk_entries(skip, filter, parent, entries, true, depth)[i].kind != ProjectType::Rust,
    decreases entries,
{
    if entries.len() > 0 {
        let before = walk_entries(skip, filter, parent, entries.drop_last(), true, depth);
        let last = enter(
            skip,
            filter,
            joined(parent, entries.last().name@),
            entries.last(),
            true,
            depth,
        );
        assert(walk_entries(skip, filter, parent, entries, true, depth) == before + last);
        if i < before.len() {
            lemma_no_rust_member_in_entries(skip, filter, parent, entries.drop_last(), depth, i);
        } else {
            assert(survives(skip, joined(parent, entries.last().name@)));
            lemma_no_rust_member_in_any_scan(
                skip,
                filter,
                joined(parent, entries.last().name@),
                entries.last(),
                depth,
                i - before.len(),
            );
        }
    }
}

/// Nothing is reported in or below an entry that the prune rules remove:
/// the walk does not go into it.
pub proof fn lemma_nothing_is_reported_below_a_pruned_entry(
    skip: Seq<Seq<char>>,
    filter: ProjectFilter,
    path: Seq<char>,
    node: FsNode,
    inside_workspace: bool,
    depth: Option<usize>,
)
    requires
        !survives(skip, path),
    ensures
        enter(skip, filter, path, node, inside_workspace, depth) == Seq::<ProjectView>::empty(),
{
}

/// The number of worker threads, the verbosity and the quiet mode do not
/// change what a scan reports: two scanners that agree on the skip list,
/// the filter and the depth report the same projects in the same order.
pub proof fn lemma_scan_ignores_thread_count(a: Scanner, b: Scanner, root: Snapshot)
    requires
        a.skip_names() == b.skip_names(),
        a.project_filter == b.project_filter,
        a.scan_options.max_depth == b.scan_options.max_depth,
    ensures
        walk(
            a.skip_names(),
            a.project_filter,
            root.path@,
            root.root,
            root.inside_workspace,
            a.scan_options.max_depth,
        ) == walk(
            b.skip_names(),
            b.project_filter,
            root.path@,
            root.root,
            root.inside_workspace,
            b.scan_options.max_depth,
        ),
{
}

/// Measuring keeps the number of artifacts.
pub proof fn lemma_sized_keeps_artifacts(p: ProjectView, dir: FsNode, dir_path: Seq<char>)
    ensures
        sized(p, dir, dir_path).artifacts.len() == p.artifacts.len(),
        sized(p, dir, dir_path).kind == p.kind,
        sized(p, dir, dir_path).root_path == p.root_path,
        sized(p, dir, dir_path).name == p.name,
        forall|k: int|
            0 <= k < p.artifacts.len() ==> (#[trigger] sized(p, dir, dir_path).artifacts[k]).path
                == p.artifacts[k].path,
{
}

/// Every project that a scan reports is sound: its directory survives the
/// prune rules, its kind is one the filter asks for, it is rooted at a
/// path of the tree, and its artifacts, of which there is at least one,
/// hold at least one byte in all.
pub proof fn lemma_reported_projects_are_sound(
    skip: Seq<Seq<char>>,
    filter: ProjectFilter,
    path: Seq<char>,
    node: FsNode,
    inside_workspace: bool,
    depth: Option<usize>,
    i: int,
)
    requires
        0 <= i < walk(skip, filter, path, node, inside_workspace, depth).len(),
    ensures
        ({
            let p = walk(skip, filter, path, node, inside_workspace, depth)[i];
            &&& survives(skip, p.root_path)
            &&& filter_allows(filter, p.kind)
            &&& p.artifacts.len() > 0
            &&& artifacts_size(p.artifacts) > 0
        }),
    decreases node,
{
    let here = report_for(skip, filter, path, node, inside_workspace);
    if i < here.len() {
        lemma_classified_project_is_rooted_here(filter, path, node, inside_workspace);
        match classify(filter, path, node, inside_workspace) {
            Some(p) => {
                lemma_sized_keeps_artifacts(p, node, path);
            },
            None => {},
        }
    } else {
        lemma_reported_entries_are_sound(
            skip,
            filter,
            path,
            node.children@,
            inside_workspace || is_workspace_root(node),
            depth_below(depth),
            i - here.len(),
        );
    }
}

/// Every project reported in the entries of a directory is sound.
pub proof fn lemma_reported_entries_are_sound(
    skip: Seq<Seq<char>>,
    filter: ProjectFilter,
    parent: Seq<char>,
    entries: Seq<FsNode>,
    inside_workspace: bool,
    depth: Option<usize>,
    i: int,
)
    requires
        0 <= i < walk_entries(skip, filter, parent, entries, inside_workspace, depth).len(),
    ensures
        ({
            let p = walk_entries(skip, filter, parent, entries, inside_workspace, depth)[i];
            &&& survives(skip, p.root_path)
            &&& filter_allows(filter, p.kind)
            &&& p.artifacts.len() > 0
            &&& artifacts_size(p.artifacts) > 0
        }),
    decreases entries,
{
    if entries.len() > 0 {
        let before = walk_entries(
            skip,
            filter,
            parent,
            entries.drop_last(),
            inside_workspace,
            depth,
        );
        let last = enter(
            skip,
            filter,
            joined(parent, entries.last().name@),
            entries.last(),
            inside_workspace,
            depth,
        );
        assert(walk_entries(skip, filter, parent, entries, inside_workspace, depth) == before
            + last);
        if i < before.len() {
            lemma_reported_entries_are_sound(
                skip,
                filter,
                parent,
                entries.drop_last(),
                inside_workspace,
                depth,
                i,
            );
        } else {
            assert(survives(skip, joined(parent, entries.last().name@)));
            lemma_reported_projects_are_sound(
                skip,
                filter,
                joined(parent, entries.last().name@),
                entries.last(),
                inside_workspace,
                depth,
                i - before.len(),
            );
        }
    }
}

/// `target` can name an entry of a directory.
pub proof fn lemma_target_is_an_entry_name()
    ensures
        crate::path::is_entry_name("target"@),
{
    reveal_strlit("target");
    let t = "target"@;
    assert(t.len() == 6);
    assert forall|i: int| 0 <= i < t.len() implies #[trigger] t[i] != '/' by {}
}

/// Scanning the root of a Cargo workspace for Rust projects yields
/// exactly one project, the root, with the measured size of its `target`
/// directory, whatever members lie below it with manifests and `target`
/// directories of their own.
pub proof fn lemma_workspace_root_yields_exactly_the_root(
    skip: Seq<Seq<char>>,
    path: Seq<char>,
    root: FsNode,
    depth: Option<usize>,
)
    requires
        is_workspace_root(root),
        root.has("target"@),
        entry_size(root, "target"@) > 0,
        survives(skip, path),
    ensures
        walk(skip, ProjectFilter::Rust, path, root, false, depth) == seq![
            ProjectView {
                kind: ProjectType::Rust,
                root_path: path,
                artifacts: seq![artifact_at(path, "target"@, entry_size(root, "target"@))],
                name: name_or_directory(
                    scanned_name(root, "Cargo.toml"@, LineRule::TomlName),
                    path,
                ),
            },
        ],
{
    lemma_target_is_an_entry_name();
    lemma_entry_is_found_at_its_path(root, path, "target"@);
    lemma_workspace_root_is_reported_alone(skip, path, root, false, depth);
    lemma_rust_detector(path, root, false);
    let found = detect_rust(path, root, false);
    let unmeasured = found.unwrap();
    let measured_size = entry_size(root, "target"@);
    let after = sized(unmeasured, root, path);
    assert(after.artifacts =~= seq![artifact_at(path, "target"@, measured_size)]);
}

/// Measuring a project that a detector found with a single artifact gives
/// the artifact the size of that entry of the directory.
pub proof fn lemma_single_artifact_is_measured_in_its_directory(
    kind: ProjectType,
    path: Seq<char>,
    dir: FsNode,
    name: Seq<char>,
    extracted: Option<Seq<char>>,
)
    requires
        crate::path::is_entry_name(name),
    ensures
        sized(
            crate::scanner::detect::project_at(
                kind,
                path,
                seq![artifact_at(path, name, 0)],
                extracted,
            ),
            dir,
            path,
        ).artifacts == seq![artifact_at(path, name, entry_size(dir, name))],
{
    lemma_entry_is_found_at_its_path(dir, path, name);
}

} // verus!
