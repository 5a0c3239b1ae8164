//! A development project and the build artifacts it owns.

use vstd::prelude::*;
use vstd::string::StringExecFns;

verus! {
/// The ecosystems whose projects can be recognised.
#[derive(Clone, Copy, PartialEq, Eq, Debug, Structural)]
pub enum ProjectType {
    /// Rust: `Cargo.toml` with `target/`.
    Rust,
    /// Node.js: `package.json` with `node_modules/`.
    Node,
    /// Python: a packaging file with cache or build directories.
    Python,
    /// Go: `go.mod` with `vendor/`.
    Go,
    /// Java or Kotlin: Maven with `target/`, or Gradle with `build/`.
    Java,
    /// C or C++: `CMakeLists.txt` or `Makefile` with `build/`.
    Cpp,
    /// Swift: `Package.swift` with `.build/`.
    Swift,
    /// .NET: a `.csproj` file with `bin/` or `obj/`.
    DotNet,
    /// Ruby: `Gemfile` with `.bundle/` or `vendor/bundle/`.
    Ruby,
    /// Elixir: `mix.exs` with `_build/`.
    Elixir,
    /// Deno: `deno.json` or `deno.jsonc` with `vendor/` or `node_modules/`.
    Deno,
    /// PHP: `composer.json` with `vendor/`.
    Php,
    /// Haskell: `stack.yaml` or `cabal.project` with `.stack-work/` or `dist-newstyle/`.
    Haskell,
    /// Dart or Flutter: `pubspec.yaml` with `.dart_tool/` or `build/`.
    Dart,
    /// Zig: `build.zig` with `zig-cache/` or `zig-out/`.
    Zig,
    /// Scala: `build.sbt` with `target/`.
    Scala,
}

/// A directory of regenerable build output, with its size in bytes.
///
/// A size of 0 on a freshly discovered artifact means "not measured yet".
#[derive(Clone, Debug)]
pub struct BuildArtifacts {
    /// The directory that cleaning removes.
    pub path: String,
    /// The total size of the regular files below `path`.
    pub size: u64,
}

/// What a `BuildArtifacts` value holds.
pub struct ArtifactView {
    pub path: Seq<char>,
    pub size: u64,
}

impl View for BuildArtifacts {
    type V = ArtifactView;

    open spec fn view(&self) -> ArtifactView {
        ArtifactView { path: self.path@, size: self.size }
    }
}

/// A project: its ecosystem, its root, its artifacts and, if known, its name.
#[derive(Clone, Debug)]
pub struct Project {
    /// The ecosystem the project belongs to.
    pub kind: ProjectType,
    /// The directory that holds the project's manifest.
    pub root_path: String,
    /// The artifact directories of the project; at least one for a detected project.
    pub build_arts: Vec<BuildArtifacts>,
    /// The name taken from the manifest, if one was found.
    pub name: Option<String>,
}

/// What a `Project` value holds.
pub struct ProjectView {
    pub kind: ProjectType,
    pub root_path: Seq<char>,
    pub artifacts: Seq<ArtifactView>,
    pub name: Option<Seq<char>>,
}

/// The views of a sequence of artifacts.
pub open spec fn artifact_views(arts: Seq<BuildArtifacts>) -> Seq<ArtifactView> {
    arts.map_values(|a: BuildArtifacts| a@)
}

/// The view of an optional string.
pub open spec fn optional_text(name: Option<String>) -> Option<Seq<char>> {
    match name {
        Some(n) => Some(n@),
        None => None,
    }
}

impl View for Project {
    type V = ProjectView;

    open spec fn view(&self) -> ProjectView {
        ProjectView {
            kind: self.kind,
            root_path: self.root_path@,
            artifacts: artifact_views(self.build_arts@),
            name: optional_text(self.name),
        }
    }
}

/// The sum of the sizes of `arts`.
pub open spec fn artifacts_size(arts: Seq<ArtifactView>) -> nat
    decreases arts.len(),
{
    if arts.len() == 0 {
        0
    } else {
        artifacts_size(arts.drop_last()) + arts.last().size as nat
    }
}

/// `n` as a 64-bit number, or the greatest one when `n` exceeds it.
pub open spec fn saturated(n: nat) -> u64 {
    if n > u64::MAX {
        u64::MAX
    } else {
        n as u64
    }
}

/// The sum of two byte counts, held at the 64-bit maximum.
pub fn saturating_sum(a: u64, b: u64) -> (r: u64)
    ensures
        r == saturated((a + b) as nat),
{
    if a > u64::MAX - b {
        u64::MAX
    } else {
        a + b
    }
}

/// The symbol shown in front of a project of kind `kind` in a one-line description.
pub open spec fn display_icon(kind: ProjectType) -> Seq<char> {
    match kind {
        ProjectType::Rust => "ü¶Ä"@,
        ProjectType::Node => "üì¶"@,
        ProjectType::Python => "üêç"@,
        ProjectType::Go => "üêπ"@,
        ProjectType::Java => "‚òï"@,
        ProjectType::Cpp => "‚öô\u{fe0f}"@,
        ProjectType::Swift => "üê¶"@,
        ProjectType::DotNet => "üî∑"@,
        ProjectType::Ruby => "üíé"@,
        ProjectType::Elixir => "üíß"@,
        ProjectType::Deno => "ü¶ï"@,
        ProjectType::Php => "🐘"@,
        ProjectType::Haskell => "λ"@,
        ProjectType::Dart => "🎯"@,
        ProjectType::Zig => "⚡"@,
        ProjectType::Scala => "🔴"@,
    }
}

/// The one-line description of a project: its symbol, then its name with
/// the root in parentheses, or the root alone when it has no name.
pub open spec fn display_text(p: ProjectView) -> Seq<char> {
    match p.name {
        Some(name) => display_icon(p.kind) + " "@ + name + " ("@ + p.root_path + ")"@,
        None => display_icon(p.kind) + " "@ + p.root_path,
    }
}

impl Project {
    /// Create a new project instance.
    pub fn new(
        kind: ProjectType,
        root_path: String,
        build_arts: Vec<BuildArtifacts>,
        name: Option<String>,
    ) -> (r: Self)
        ensures
            r.kind == kind,
            r.root_path == root_path,
            r.build_arts == build_arts,
            r.name == name,
    {
        Self { kind, root_path, build_arts, name }
    }

    /// The exact sum of the artifact sizes.
    pub open spec fn spec_total_size(&self) -> nat {
        artifacts_size(self@.artifacts)
    }

    /// The total size of the project's artifacts, held at the 64-bit maximum.
    pub fn total_size(&self) -> (r: u64)
        ensures
            r == saturated(self.spec_total_size()),
    {
        let mut total: u64 = 0;
        let mut i: usize = 0;
        let ghost arts = self@.artifacts;
        while i < self.build_arts.len()
            invariant
                i <= self.build_arts.len(),
                arts == self@.artifacts,
                arts.len() == self.build_arts.len(),
                total == saturated(artifacts_size(arts.take(i as int))),
            decreases self.build_arts.len() - i,
        {
            proof {
                assert(arts.take(i + 1).drop_last() =~= arts.take(i as int));
            }
            total = saturating_sum(total, self.build_arts[i].size);
            i += 1;
        }
        assert(arts.take(arts.len() as int) =~= arts);
        total
    }

    /// A copy of the project.
    pub fn duplicate(&self) -> (r: Self)
        ensures
            r@ == self@,
    {
        let mut arts: Vec<BuildArtifacts> = Vec::new();
        let mut i: usize = 0;
        while i < self.build_arts.len()
            invariant
                i <= self.build_arts.len(),
                artifact_views(arts@) == artifact_views(self.build_arts@).take(i as int),
            decreases self.build_arts.len() - i,
        {
            let a = &self.build_arts[i];
            let ghost before = arts@;
            let copy = BuildArtifacts { path: a.path.clone(), size: a.size };
            arts.push(copy);
            proof {
                let all = artifact_views(self.build_arts@);
                assert(artifact_views(arts@) =~= artifact_views(before).push(copy@));
            }
            i += 1;
        }
        assert(artifact_views(self.build_arts@).take(self.build_arts@.len() as int)
            =~= artifact_views(self.build_arts@));
        let name = match &self.name {
            Some(n) => Some(n.clone()),
            None => None,
        };
        Self { kind: self.kind, root_path: self.root_path.clone(), build_arts: arts, name }
    }

    /// The symbol shown in front of the project in its one-line description.
    pub fn icon(&self) -> (r: &'static str)
        ensures
            r@ == display_icon(self.kind),
    {
        match self.kind {
            ProjectType::Rust => "ü¶Ä",
            ProjectType::Node => "üì¶",
            ProjectType::Python => "üêç",
            ProjectType::Go => "üêπ",
            ProjectType::Java => "‚òï",
            ProjectType::Cpp => "‚öô\u{fe0f}",
            ProjectType::Swift => "üê¶",
            ProjectType::DotNet => "üî∑",
            ProjectType::Ruby => "üíé",
            ProjectType::Elixir => "üíß",
            ProjectType::Deno => "ü¶ï",
            ProjectType::Php => "🐘",
            ProjectType::Haskell => "λ",
            ProjectType::Dart => "🎯",
            ProjectType::Zig => "⚡",
            ProjectType::Scala => "🔴",
        }
    }

    /// The one-line description of the project.
    pub fn to_string(&self) -> (r: String)
        ensures
            r@ == display_text(self@),
    {
        let mut out = String::from_str(self.icon());
        out.append(" ");
        match &self.name {
            Some(name) => {
                out.append(name.as_str());
                out.append(" (");
                out.append(self.root_path.as_str());
                out.append(")");
            },
            None => {
                out.append(self.root_path.as_str());
            },
        }
        out
    }
}

} // verus!
