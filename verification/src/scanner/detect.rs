//! The detectors: one per ecosystem, each deciding from a directory's
//! listing and its manifests whether the directory is a project.
//!
//! Every detector follows one contract: the ecosystem's manifest is present
//! and at least one of its artifact directories is present. The project's
//! name is read from the manifest where it can be; otherwise it is the
//! final component of the directory's path.

use vstd::prelude::*;
use crate::path::{extension, extension_of, file_name, file_stem, join, joined, path_file_name, stem_of};
use crate::project::project::{
    artifact_views, optional_text, saturated, ArtifactView, BuildArtifacts, Project, ProjectType,
    ProjectView,
};
use crate::scanner::names::{
    cfg_scan, json_name, name_in_json, scan_cfg, scan_manifest, scan_text, LineRule,
};
use crate::scanner::Scanner;
use crate::snapshot::{calculate_dir_size, tree_size, EntryKind, FsNode};
use crate::text::{chars_of, ends_with, lines_of, str_eq, trimmed};

verus! {
/// The view of an optional project.
pub open spec fn found_view(p: Option<Project>) -> Option<ProjectView> {
    match p {
        Some(project) => Some(project@),
        None => None,
    }
}

/// The artifact `name` of the directory at `path`, with a given size.
pub open spec fn artifact_at(path: Seq<char>, name: Seq<char>, size: u64) -> ArtifactView {
    ArtifactView { path: joined(path, name), size }
}

/// The measured size of the entry `name` of `dir`: the total of the regular
/// files below it, held at the 64-bit maximum; 0 when there is no such entry.
pub open spec fn entry_size(dir: FsNode, name: Seq<char>) -> u64 {
    match dir.entry(name) {
        Some(e) => saturated(tree_size(e)),
        None => 0,
    }
}

/// `extracted`, or the directory's own name when nothing was extracted.
pub open spec fn name_or_directory(extracted: Option<Seq<char>>, path: Seq<char>) -> Option<
    Seq<char>,
> {
    match extracted {
        Some(n) => Some(n),
        None => file_name(path),
    }
}

/// A project of kind `kind` rooted at `path`.
pub open spec fn project_at(
    kind: ProjectType,
    path: Seq<char>,
    artifacts: Seq<ArtifactView>,
    extracted: Option<Seq<char>>,
) -> ProjectView {
    ProjectView { kind, root_path: path, artifacts, name: name_or_directory(extracted, path) }
}

/// The name that scanning the manifest `file` of `dir` under `rule` yields.
pub open spec fn scanned_name(dir: FsNode, file: Seq<char>, rule: LineRule) -> Option<Seq<char>> {
    match dir.text_of(file) {
        Some(content) => match scan_text(rule, content) {
            Some(Some(n)) => Some(n),
            _ => None,
        },
        None => None,
    }
}

/// The name under the top-level `name` of the JSON manifest `file` of `dir`.
pub open spec fn json_manifest_name(dir: FsNode, file: Seq<char>) -> Option<Seq<char>> {
    match dir.text_of(file) {
        Some(content) => json_name(content),
        None => None,
    }
}

/// Whether the `Cargo.toml` text declares a workspace: one of its lines,
/// trimmed, is `[workspace]`.
pub open spec fn declares_workspace(content: Seq<char>) -> bool {
    exists|i: int|
        0 <= i < lines_of(content).len() && trimmed(#[trigger] lines_of(content)[i])
            == "[workspace]"@
}

/// Whether `dir` is the root of a Cargo workspace.
pub open spec fn is_workspace_root(dir: FsNode) -> bool {
    match dir.text_of("Cargo.toml"@) {
        Some(content) => declares_workspace(content),
        None => false,
    }
}

/// Rust: `Cargo.toml` with `target/`, unless an ancestor is a workspace root.
pub open spec fn detect_rust(path: Seq<char>, dir: FsNode, inside_workspace: bool) -> Option<
    ProjectView,
> {
    if dir.has("Cargo.toml"@) && dir.has("target"@) && !inside_workspace {
        Some(
            project_at(
                ProjectType::Rust,
                path,
                seq![artifact_at(path, "target"@, 0)],
                scanned_name(dir, "Cargo.toml"@, LineRule::TomlName),
            ),
        )
    } else {
        None
    }
}

/// The manifest of a Deno project: `deno.json`, else `deno.jsonc`.
pub open spec fn deno_manifest(dir: FsNode) -> Seq<char> {
    if dir.has("deno.json"@) {
        "deno.json"@
    } else {
        "deno.jsonc"@
    }
}

/// Deno: `deno.json` or `deno.jsonc` with `vendor/`, or with
/// `node_modules/` where no `package.json` claims it.
pub open spec fn detect_deno(path: Seq<char>, dir: FsNode) -> Option<ProjectView> {
    if !dir.has("deno.json"@) && !dir.has("deno.jsonc"@) {
        None
    } else if dir.has("vendor"@) {
        Some(
            project_at(
                ProjectType::Deno,
                path,
                seq![artifact_at(path, "vendor"@, 0)],
                json_manifest_name(dir, deno_manifest(dir)),
            ),
        )
    } else if dir.has("node_modules"@) && !dir.has("package.json"@) {
        Some(
            project_at(
                ProjectType::Deno,
                path,
                seq![artifact_at(path, "node_modules"@, 0)],
                json_manifest_name(dir, deno_manifest(dir)),
            ),
        )
    } else {
        None
    }
}

/// Node.js: `package.json` with `node_modules/`.
pub open spec fn detect_node(path: Seq<char>, dir: FsNode) -> Option<ProjectView> {
    if dir.has("package.json"@) && dir.has("node_modules"@) {
        Some(
            project_at(
                ProjectType::Node,
                path,
                seq![artifact_at(path, "node_modules"@, 0)],
                json_manifest_name(dir, "package.json"@),
            ),
        )
    } else {
        None
    }
}

/// The name of a Gradle project: the root project's name in
/// `settings.gradle`, else in `settings.gradle.kts`.
pub open spec fn gradle_name(dir: FsNode) -> Option<Seq<char>> {
    match dir.text_of("settings.gradle"@) {
        Some(content) => match scan_text(LineRule::GradleRootProject, content) {
            Some(v) => v,
            None => gradle_kts_name(dir),
        },
        None => gradle_kts_name(dir),
    }
}

/// The root project's name in `settings.gradle.kts`.
pub open spec fn gradle_kts_name(dir: FsNode) -> Option<Seq<char>> {
    match dir.text_of("settings.gradle.kts"@) {
        Some(content) => match scan_text(LineRule::GradleRootProject, content) {
            Some(v) => v,
            None => None,
        },
        None => None,
    }
}

/// Java or Kotlin: Maven's `pom.xml` with `target/`, else Gradle's
/// `build.gradle` or `build.gradle.kts` with `build/`.
pub open spec fn detect_java(path: Seq<char>, dir: FsNode) -> Option<ProjectView> {
    if dir.has("pom.xml"@) && dir.has("target"@) {
        Some(
            project_at(
                ProjectType::Java,
                path,
                seq![artifact_at(path, "target"@, 0)],
                scanned_name(dir, "pom.xml"@, LineRule::MavenArtifact),
            ),
        )
    } else if (dir.has("build.gradle"@) || dir.has("build.gradle.kts"@)) && dir.has("build"@) {
        Some(
            project_at(
                ProjectType::Java,
                path,
                seq![artifact_at(path, "build"@, 0)],
                gradle_name(dir),
            ),
        )
    } else {
        None
    }
}

/// Swift: `Package.swift` with `.build/`.
pub open spec fn detect_swift(path: Seq<char>, dir: FsNode) -> Option<ProjectView> {
    if dir.has("Package.swift"@) && dir.has(".build"@) {
        Some(
            project_at(
                ProjectType::Swift,
                path,
                seq![artifact_at(path, ".build"@, 0)],
                scanned_name(dir, "Package.swift"@, LineRule::SwiftName),
            ),
        )
    } else {
        None
    }
}

/// Whether an entry is a regular file whose name has the extension `ext`.
pub open spec fn is_file_with_extension(e: FsNode, ext: Seq<char>) -> bool {
    e.kind == EntryKind::File && extension_of(e.name@) == Some(ext)
}

/// The position of the first of `entries` that is a regular file with the
/// extension `ext`.
pub open spec fn first_with_extension(entries: Seq<FsNode>, ext: Seq<char>) -> Option<int>
    decreases entries.len(),
{
    if entries.len() == 0 {
        None
    } else if is_file_with_extension(entries[0], ext) {
        Some(0)
    } else {
        match first_with_extension(entries.drop_first(), ext) {
            Some(i) => Some(i + 1),
            None => None,
        }
    }
}

/// The two artifacts of an ecosystem with a pair of output directories:
/// both, measured, when both are present; the one that is present, not yet
/// measured, otherwise.
pub open spec fn pair_artifacts(
    first_present: bool,
    second_present: bool,
    first: ArtifactView,
    second: ArtifactView,
) -> Seq<ArtifactView> {
    if first_present && second_present {
        seq![first, second]
    } else if first_present {
        seq![ArtifactView { path: first.path, size: 0 }]
    } else if second_present {
        seq![ArtifactView { path: second.path, size: 0 }]
    } else {
        Seq::empty()
    }
}

/// .NET: a `.csproj` file with `bin/` or `obj/`; the project is named after
/// the first such file.
pub open spec fn detect_dotnet(path: Seq<char>, dir: FsNode) -> Option<ProjectView> {
    if !dir.has("bin"@) && !dir.has("obj"@) {
        None
    } else {
        match first_with_extension(dir.children@, "csproj"@) {
            Some(i) => Some(
                ProjectView {
                    kind: ProjectType::DotNet,
                    root_path: path,
                    artifacts: pair_artifacts(
                        dir.has("bin"@),
                        dir.has("obj"@),
                        artifact_at(path, "bin"@, entry_size(dir, "bin"@)),
                        artifact_at(path, "obj"@, entry_size(dir, "obj"@)),
                    ),
                    name: Some(stem_of(dir.children@[i].name@)),
                },
            ),
            None => None,
        }
    }
}

/// Whether `dir` holds one of the files by which a Python project is known.
pub open spec fn has_python_manifest(dir: FsNode) -> bool {
    dir.has("requirements.txt"@) || dir.has("setup.py"@) || dir.has("pyproject.toml"@) || dir.has(
        "setup.cfg"@,
    ) || dir.has("Pipfile"@) || dir.has("pipenv.lock"@) || dir.has("poetry.lock"@)
}

/// The artifact for the directory `name` of `dir`, measured, when there is
/// such a directory.
pub open spec fn measured_dir(path: Seq<char>, dir: FsNode, name: Seq<char>) -> Seq<ArtifactView> {
    if dir.has_dir_named(name) {
        seq![artifact_at(path, name, entry_size(dir, name))]
    } else {
        Seq::empty()
    }
}

/// The cache and build directories of a Python project that are present,
/// in their fixed order, measured.
pub open spec fn python_named_artifacts(path: Seq<char>, dir: FsNode) -> Seq<ArtifactView> {
    measured_dir(path, dir, "__pycache__"@) + measured_dir(path, dir, ".pytest_cache"@)
        + measured_dir(path, dir, "venv"@) + measured_dir(path, dir, ".venv"@) + measured_dir(
        path,
        dir,
        "build"@,
    ) + measured_dir(path, dir, "dist"@) + measured_dir(path, dir, ".eggs"@) + measured_dir(
        path,
        dir,
        ".tox"@,
    ) + measured_dir(path, dir, ".coverage"@)
}

/// The `*.egg-info` directories among `entries`, in listing order, measured.
pub open spec fn egg_info_artifacts(path: Seq<char>, entries: Seq<FsNode>) -> Seq<ArtifactView>
    decreases entries.len(),
{
    if entries.len() == 0 {
        Seq::empty()
    } else {
        let rest = egg_info_artifacts(path, entries.drop_last());
        let e = entries.last();
        if e.kind == EntryKind::Dir && ".egg-info"@.is_suffix_of(e.name@) {
            rest.push(
                ArtifactView { path: joined(path, e.name@), size: saturated(tree_size(e)) },
            )
        } else {
            rest
        }
    }
}

/// The artifacts of a Python project.
pub open spec fn python_artifacts(path: Seq<char>, dir: FsNode) -> Seq<ArtifactView> {
    python_named_artifacts(path, dir) + egg_info_artifacts(path, dir.children@)
}

/// The name of a Python project: from `pyproject.toml`, else `setup.py`,
/// else `setup.cfg`.
pub open spec fn python_name(dir: FsNode) -> Option<Seq<char>> {
    match scanned_name(dir, "pyproject.toml"@, LineRule::FirstNameLine) {
        Some(n) => Some(n),
        None => match scanned_name(dir, "setup.py"@, LineRule::SetupCall) {
            Some(n) => Some(n),
            None => match dir.text_of("setup.cfg"@) {
                Some(content) => cfg_scan(lines_of(content), false),
                None => None,
            },
        },
    }
}

/// Python: a packaging file with at least one cache or build directory.
pub open spec fn detect_python(path: Seq<char>, dir: FsNode) -> Option<ProjectView> {
    if dir.kind == EntryKind::Dir && has_python_manifest(dir) && python_artifacts(path, dir).len()
        > 0 {
        Some(project_at(ProjectType::Python, path, python_artifacts(path, dir), python_name(dir)))
    } else {
        None
    }
}

/// Go: `go.mod` with `vendor/`.
pub open spec fn detect_go(path: Seq<char>, dir: FsNode) -> Option<ProjectView> {
    if dir.has("go.mod"@) && dir.has("vendor"@) {
        Some(
            project_at(
                ProjectType::Go,
                path,
                seq![artifact_at(path, "vendor"@, 0)],
                scanned_name(dir, "go.mod"@, LineRule::GoModule),
            ),
        )
    } else {
        None
    }
}

/// PHP: `composer.json` with `vendor/`.
pub open spec fn detect_php(path: Seq<char>, dir: FsNode) -> Option<ProjectView> {
    if dir.has("composer.json"@) && dir.has("vendor"@) {
        Some(
            project_at(
                ProjectType::Php,
                path,
                seq![artifact_at(path, "vendor"@, 0)],
                json_manifest_name(dir, "composer.json"@),
            ),
        )
    } else {
        None
    }
}

/// The artifact for the entry `name` of `dir`, not yet measured, when
/// there is such an entry.
pub open spec fn present_entry(path: Seq<char>, dir: FsNode, name: Seq<char>) -> Seq<ArtifactView> {
    if dir.has(name) {
        seq![artifact_at(path, name, 0)]
    } else {
        Seq::empty()
    }
}

/// Haskell: `stack.yaml` or `cabal.project` with `.stack-work/` or
/// `dist-newstyle/`.
pub open spec fn detect_haskell(path: Seq<char>, dir: FsNode) -> Option<ProjectView> {
    let artifacts = present_entry(path, dir, ".stack-work"@) + present_entry(
        path,
        dir,
        "dist-newstyle"@,
    );
    if (dir.has("stack.yaml"@) || dir.has("cabal.project"@)) && artifacts.len() > 0 {
        Some(project_at(ProjectType::Haskell, path, artifacts, None))
    } else {
        None
    }
}

/// Dart or Flutter: `pubspec.yaml` with `.dart_tool/` or `build/`.
pub open spec fn detect_dart(path: Seq<char>, dir: FsNode) -> Option<ProjectView> {
    let artifacts = present_entry(path, dir, ".dart_tool"@) + present_entry(path, dir, "build"@);
    if dir.has("pubspec.yaml"@) && artifacts.len() > 0 {
        Some(
            project_at(
                ProjectType::Dart,
                path,
                artifacts,
                scanned_name(dir, "pubspec.yaml"@, LineRule::PubspecName),
            ),
        )
    } else {
        None
    }
}

/// Zig: `build.zig` with `zig-cache/` or `zig-out/`.
pub open spec fn detect_zig(path: Seq<char>, dir: FsNode) -> Option<ProjectView> {
    let artifacts = present_entry(path, dir, "zig-cache"@) + present_entry(path, dir, "zig-out"@);
    if dir.has("build.zig"@) && artifacts.len() > 0 {
        Some(project_at(ProjectType::Zig, path, artifacts, None))
    } else {
        None
    }
}

/// Scala: `build.sbt` with `target/`.
pub open spec fn detect_scala(path: Seq<char>, dir: FsNode) -> Option<ProjectView> {
    if dir.has("build.sbt"@) && dir.has("target"@) {
        Some(
            project_at(
                ProjectType::Scala,
                path,
                seq![artifact_at(path, "target"@, 0)],
                scanned_name(dir, "build.sbt"@, LineRule::SbtName),
            ),
        )
    } else {
        None
    }
}

/// C or C++: `CMakeLists.txt` or `Makefile` with `build/`. The name comes
/// from the CMake file when there is one.
pub open spec fn detect_cpp(path: Seq<char>, dir: FsNode) -> Option<ProjectView> {
    if dir.has("build"@) && (dir.has("CMakeLists.txt"@) || dir.has("Makefile"@)) {
        Some(
            project_at(
                ProjectType::Cpp,
                path,
                seq![artifact_at(path, "build"@, 0)],
                scanned_name(dir, "CMakeLists.txt"@, LineRule::CmakeProject),
            ),
        )
    } else {
        None
    }
}

/// The `vendor/bundle` entry of `dir`.
pub open spec fn vendor_bundle(dir: FsNode) -> Option<FsNode> {
    match dir.entry("vendor"@) {
        Some(vendor) => vendor.entry("bundle"@),
        None => None,
    }
}

/// The name that the first `.gemspec` file among `entries` gives which
/// gives one.
pub open spec fn gemspec_name(entries: Seq<FsNode>) -> Option<Seq<char>>
    decreases entries.len(),
{
    if entries.len() == 0 {
        None
    } else {
        let e = entries[0];
        let here = if is_file_with_extension(e, "gemspec"@) {
            match e.content {
                Some(content) => match scan_text(LineRule::GemspecName, content@) {
                    Some(Some(n)) => Some(n),
                    _ => None,
                },
                None => None,
            }
        } else {
            None
        };
        match here {
            Some(n) => Some(n),
            None => gemspec_name(entries.drop_first()),
        }
    }
}

/// Ruby: `Gemfile` with `.bundle/` or `vendor/bundle/`.
pub open spec fn detect_ruby(path: Seq<char>, dir: FsNode) -> Option<ProjectView> {
    if !dir.has("Gemfile"@) {
        None
    } else if !dir.has(".bundle"@) && vendor_bundle(dir).is_none() {
        None
    } else {
        Some(
            project_at(
                ProjectType::Ruby,
                path,
                pair_artifacts(
                    dir.has(".bundle"@),
                    vendor_bundle(dir).is_some(),
                    artifact_at(path, ".bundle"@, entry_size(dir, ".bundle"@)),
                    ArtifactView {
                        path: joined(joined(path, "vendor"@), "bundle"@),
                        size: match vendor_bundle(dir) {
                            Some(e) => saturated(tree_size(e)),
                            None => 0,
                        },
                    },
                ),
                gemspec_name(dir.children@),
            ),
        )
    }
}

/// Elixir: `mix.exs` with `_build/`.
pub open spec fn detect_elixir(path: Seq<char>, dir: FsNode) -> Option<ProjectView> {
    if dir.has("mix.exs"@) && dir.has("_build"@) {
        Some(
            project_at(
                ProjectType::Elixir,
                path,
                seq![artifact_at(path, "_build"@, 0)],
                scanned_name(dir, "mix.exs"@, LineRule::MixApp),
            ),
        )
    } else {
        None
    }
}

/// One artifact as a list.
fn one_artifact(path: String, size: u64) -> (r: Vec<BuildArtifacts>)
    ensures
        artifact_views(r@) == seq![ArtifactView { path: path@, size }],
{
    let mut out: Vec<BuildArtifacts> = Vec::new();
    out.push(BuildArtifacts { path, size });
    out
}

/// Appends an artifact to a list.
fn push_artifact(list: &mut Vec<BuildArtifacts>, path: String, size: u64)
    ensures
        artifact_views(final(list)@) == artifact_views(old(list)@).push(
            ArtifactView { path: path@, size },
        ),
{
    list.push(BuildArtifacts { path, size });
}

/// No artifact.
fn no_artifacts() -> (r: Vec<BuildArtifacts>)
    ensures
        artifact_views(r@) == Seq::<ArtifactView>::empty(),
{
    let out: Vec<BuildArtifacts> = Vec::new();
    out
}

/// The measured size of the entry `name` of `dir`.
fn size_of_entry(dir: &FsNode, name: &str) -> (r: u64)
    ensures
        r == entry_size(*dir, name@),
{
    match dir.child(name) {
        Some(e) => calculate_dir_size(e),
        None => 0,
    }
}

/// A project of kind `kind` rooted at `path`, named as extracted or after
/// its directory.
fn make_project(
    kind: ProjectType,
    path: &str,
    build_arts: Vec<BuildArtifacts>,
    extracted: Option<String>,
) -> (r: Project)
    ensures
        r@ == project_at(kind, path@, artifact_views(build_arts@), optional_text(extracted)),
{
    let name = match extracted {
        Some(n) => Some(n),
        None => path_file_name(path),
    };
    Project::new(kind, chars_to_string(path), build_arts, name)
}

/// An owned copy of `s`.
fn chars_to_string(s: &str) -> (r: String)
    ensures
        r@ == s@,
{
    s.to_owned()
}

/// The name that scanning the manifest `file` of `dir` under `rule` yields.
fn scan_manifest_of(dir: &FsNode, file: &str, rule: LineRule) -> (r: Option<String>)
    ensures
        optional_text(r) == scanned_name(*dir, file@, rule),
{
    match dir.read_to_string(file) {
        Some(content) => match scan_manifest(rule, content) {
            Some(Some(n)) => Some(n),
            Some(None) => None,
            None => None,
        },
        None => None,
    }
}

/// The name under the top-level `name` of the JSON manifest `file` of `dir`.
fn json_name_of(dir: &FsNode, file: &str) -> (r: Option<String>)
    ensures
        optional_text(r) == json_manifest_name(*dir, file@),
{
    match dir.read_to_string(file) {
        Some(content) => name_in_json(content),
        None => None,
    }
}

/// A project with the single artifact `artifact`, when `manifest` and the
/// artifact are both present in `dir`.
fn single_artifact_project(
    kind: ProjectType,
    path: &str,
    artifact: &str,
    extracted: Option<String>,
) -> (r: Project)
    ensures
        r@ == project_at(
            kind,
            path@,
            seq![artifact_at(path@, artifact@, 0)],
            optional_text(extracted),
        ),
{
    let arts = one_artifact(join(path, artifact), 0);
    make_project(kind, path, arts, extracted)
}

impl Scanner {
    /// Read the text of the file `name` of a directory.
    pub fn read_file_content<'a>(dir: &'a FsNode, name: &str) -> (r: Option<&'a str>)
        ensures
            match r {
                Some(t) => dir.text_of(name@) == Some(t@),
                None => dir.text_of(name@).is_none(),
            },
    {
        dir.read_to_string(name)
    }

    /// Extract the project name from a `Cargo.toml` file.
    pub fn extract_rust_project_name(dir: &FsNode) -> (r: Option<String>)
        ensures
            optional_text(r) == scanned_name(*dir, "Cargo.toml"@, LineRule::TomlName),
    {
        scan_manifest_of(dir, "Cargo.toml", LineRule::TomlName)
    }

    /// Extract the project name from a `package.json` file.
    pub fn extract_node_project_name(dir: &FsNode) -> (r: Option<String>)
        ensures
            optional_text(r) == json_manifest_name(*dir, "package.json"@),
    {
        json_name_of(dir, "package.json")
    }

    /// Extract the project name from a `deno.json` or `deno.jsonc` file.
    pub fn extract_deno_project_name(dir: &FsNode, manifest: &str) -> (r: Option<String>)
        ensures
            optional_text(r) == json_manifest_name(*dir, manifest@),
    {
        json_name_of(dir, manifest)
    }

    /// Extract the project name from a `go.mod` file: the last piece of
    /// the module path.
    pub fn extract_go_project_name(dir: &FsNode) -> (r: Option<String>)
        ensures
            optional_text(r) == scanned_name(*dir, "go.mod"@, LineRule::GoModule),
    {
        scan_manifest_of(dir, "go.mod", LineRule::GoModule)
    }

    /// Extract the project name from a Maven `pom.xml` file.
    pub fn extract_java_maven_project_name(dir: &FsNode) -> (r: Option<String>)
        ensures
            optional_text(r) == scanned_name(*dir, "pom.xml"@, LineRule::MavenArtifact),
    {
        scan_manifest_of(dir, "pom.xml", LineRule::MavenArtifact)
    }

    /// Extract the project name from a `CMakeLists.txt` file.
    pub fn extract_cpp_cmake_project_name(dir: &FsNode) -> (r: Option<String>)
        ensures
            optional_text(r) == scanned_name(*dir, "CMakeLists.txt"@, LineRule::CmakeProject),
    {
        scan_manifest_of(dir, "CMakeLists.txt", LineRule::CmakeProject)
    }

    /// Extract the project name from a `Package.swift` file.
    pub fn extract_swift_project_name(dir: &FsNode) -> (r: Option<String>)
        ensures
            optional_text(r) == scanned_name(*dir, "Package.swift"@, LineRule::SwiftName),
    {
        scan_manifest_of(dir, "Package.swift", LineRule::SwiftName)
    }

    /// Extract the project name from a `mix.exs` file.
    pub fn extract_elixir_project_name(dir: &FsNode) -> (r: Option<String>)
        ensures
            optional_text(r) == scanned_name(*dir, "mix.exs"@, LineRule::MixApp),
    {
        scan_manifest_of(dir, "mix.exs", LineRule::MixApp)
    }

    /// Try to extract project name from pyproject.toml
    pub fn try_extract_from_pyproject_toml(dir: &FsNode) -> (r: Option<String>)
        ensures
            optional_text(r) == scanned_name(*dir, "pyproject.toml"@, LineRule::FirstNameLine),
    {
        scan_manifest_of(dir, "pyproject.toml", LineRule::FirstNameLine)
    }

    /// Try to extract project name from setup.py
    pub fn try_extract_from_setup_py(dir: &FsNode) -> (r: Option<String>)
        ensures
            optional_text(r) == scanned_name(*dir, "setup.py"@, LineRule::SetupCall),
    {
        scan_manifest_of(dir, "setup.py", LineRule::SetupCall)
    }

    /// Try to extract project name from setup.cfg
    pub fn try_extract_from_setup_cfg(dir: &FsNode) -> (r: Option<String>)
        ensures
            optional_text(r) == (match dir.text_of("setup.cfg"@) {
                Some(content) => cfg_scan(lines_of(content), false),
                None => None,
            }),
    {
        match dir.read_to_string("setup.cfg") {
            Some(content) => scan_cfg(content),
            None => None,
        }
    }

    /// Whether the entries of `dir` lie inside a Cargo workspace: `dir`
    /// lies inside one, or is the root of one.
    pub fn is_inside_cargo_workspace(above: bool, dir: &FsNode) -> (r: bool)
        ensures
            r == (above || is_workspace_root(*dir)),
    {
        above || Self::is_cargo_workspace_root(dir)
    }

    /// Whether the text of a `Cargo.toml` declares a `[workspace]` section.
    pub fn is_cargo_workspace_root(dir: &FsNode) -> (r: bool)
        ensures
            r == is_workspace_root(*dir),
    {
        match dir.read_to_string("Cargo.toml") {
            Some(content) => {
                let text = chars_of(content);
                let all = crate::text::lines(&text);
                let header = chars_of("[workspace]");
                let ghost views = crate::text::line_views(all@);
                let mut i: usize = 0;
                while i < all.len()
                    invariant
                        i <= all.len(),
                        views == crate::text::line_views(all@),
                        views == lines_of(content@),
                        header@ == "[workspace]"@,
                        dir.text_of("Cargo.toml"@) == Some(content@),
                        forall|k: int| 0 <= k < i ==> trimmed(#[trigger] views[k]) != "[workspace]"@,
                    decreases all.len() - i,
                {
                    let line = crate::text::trim(&all[i]);
                    assert(views[i as int] == all@[i as int]@);
                    if crate::text::same_text(&line, &header) {
                        return true;
                    }
                    i += 1;
                }
                false
            },
            None => false,
        }
    }

    /// Fallback to directory name: the final component of `path`.
    pub fn fallback_to_directory_name(path: &str) -> (r: Option<String>)
        ensures
            optional_text(r) == file_name(path@),
    {
        path_file_name(path)
    }

    /// Detect a Rust project in the specified directory.
    pub fn detect_rust_project(path: &str, dir: &FsNode, inside_workspace: bool) -> (r: Option<
        Project,
    >)
        ensures
            found_view(r) == detect_rust(path@, *dir, inside_workspace),
    {
        if dir.has_entry("Cargo.toml") && dir.has_entry("target") {
            if inside_workspace {
                return None;
            }
            let name = Self::extract_rust_project_name(dir);
            Some(single_artifact_project(ProjectType::Rust, path, "target", name))
        } else {
            None
        }
    }

    /// Detect a Deno project in the specified directory.
    pub fn detect_deno_project(path: &str, dir: &FsNode) -> (r: Option<Project>)
        ensures
            found_view(r) == detect_deno(path@, *dir),
    {
        let has_json = dir.has_entry("deno.json");
        if !has_json && !dir.has_entry("deno.jsonc") {
            return None;
        }
        let manifest = if has_json {
            "deno.json"
        } else {
            "deno.jsonc"
        };
        if dir.has_entry("vendor") {
            let name = Self::extract_deno_project_name(dir, manifest);
            return Some(single_artifact_project(ProjectType::Deno, path, "vendor", name));
        }
        if dir.has_entry("node_modules") && !dir.has_entry("package.json") {
            let name = Self::extract_deno_project_name(dir, manifest);
            return Some(single_artifact_project(ProjectType::Deno, path, "node_modules", name));
        }
        None
    }

    /// Detect a Node.js project in the specified directory.
    pub fn detect_node_project(path: &str, dir: &FsNode) -> (r: Option<Project>)
        ensures
            found_view(r) == detect_node(path@, *dir),
    {
        if dir.has_entry("package.json") && dir.has_entry("node_modules") {
            let name = Self::extract_node_project_name(dir);
            Some(single_artifact_project(ProjectType::Node, path, "node_modules", name))
        } else {
            None
        }
    }

    /// The root project's name in `settings.gradle.kts`.
    fn extract_gradle_kts_name(dir: &FsNode) -> (r: Option<String>)
        ensures
            optional_text(r) == gradle_kts_name(*dir),
    {
        match dir.read_to_string("settings.gradle.kts") {
            Some(content) => match scan_manifest(LineRule::GradleRootProject, content) {
                Some(v) => v,
                None => None,
            },
            None => None,
        }
    }

    /// Extract the project name from a Gradle project's settings files.
    pub fn extract_java_gradle_project_name(dir: &FsNode) -> (r: Option<String>)
        ensures
            optional_text(r) == gradle_name(*dir),
    {
        match dir.read_to_string("settings.gradle") {
            Some(content) => match scan_manifest(LineRule::GradleRootProject, content) {
                Some(v) => v,
                None => Self::extract_gradle_kts_name(dir),
            },
            None => Self::extract_gradle_kts_name(dir),
        }
    }

    /// Detect a Java/Kotlin project in the specified directory.
    pub fn detect_java_project(path: &str, dir: &FsNode) -> (r: Option<Project>)
        ensures
            found_view(r) == detect_java(path@, *dir),
    {
        if dir.has_entry("pom.xml") && dir.has_entry("target") {
            let name = Self::extract_java_maven_project_name(dir);
            return Some(single_artifact_project(ProjectType::Java, path, "target", name));
        }
        let has_gradle = dir.has_entry("build.gradle") || dir.has_entry("build.gradle.kts");
        if has_gradle && dir.has_entry("build") {
            let name = Self::extract_java_gradle_project_name(dir);
            return Some(single_artifact_project(ProjectType::Java, path, "build", name));
        }
        None
    }

    /// Detect a Swift project in the specified directory.
    pub fn detect_swift_project(path: &str, dir: &FsNode) -> (r: Option<Project>)
        ensures
            found_view(r) == detect_swift(path@, *dir),
    {
        if dir.has_entry("Package.swift") && dir.has_entry(".build") {
            let name = Self::extract_swift_project_name(dir);
            Some(single_artifact_project(ProjectType::Swift, path, ".build", name))
        } else {
            None
        }
    }

    /// Detect a Go project in the specified directory.
    pub fn detect_go_project(path: &str, dir: &FsNode) -> (r: Option<Project>)
        ensures
            found_view(r) == detect_go(path@, *dir),
    {
        if dir.has_entry("go.mod") && dir.has_entry("vendor") {
            let name = Self::extract_go_project_name(dir);
            Some(single_artifact_project(ProjectType::Go, path, "vendor", name))
        } else {
            None
        }
    }

    /// Detect a PHP project in the specified directory.
    pub fn detect_php_project(path: &str, dir: &FsNode) -> (r: Option<Project>)
        ensures
            found_view(r) == detect_php(path@, *dir),
    {
        if dir.has_entry("composer.json") && dir.has_entry("vendor") {
            let name = json_name_of(dir, "composer.json");
            Some(single_artifact_project(ProjectType::Php, path, "vendor", name))
        } else {
            None
        }
    }

    /// Detect a Scala project in the specified directory.
    pub fn detect_scala_project(path: &str, dir: &FsNode) -> (r: Option<Project>)
        ensures
            found_view(r) == detect_scala(path@, *dir),
    {
        if dir.has_entry("build.sbt") && dir.has_entry("target") {
            let name = scan_manifest_of(dir, "build.sbt", LineRule::SbtName);
            Some(single_artifact_project(ProjectType::Scala, path, "target", name))
        } else {
            None
        }
    }

    /// Detect a C/C++ project in the specified directory.
    pub fn detect_cpp_project(path: &str, dir: &FsNode) -> (r: Option<Project>)
        ensures
            found_view(r) == detect_cpp(path@, *dir),
    {
        if !dir.has_entry("build") {
            return None;
        }
        if dir.has_entry("CMakeLists.txt") || dir.has_entry("Makefile") {
            let name = Self::extract_cpp_cmake_project_name(dir);
            Some(single_artifact_project(ProjectType::Cpp, path, "build", name))
        } else {
            None
        }
    }

    /// Detect an Elixir project in the specified directory.
    pub fn detect_elixir_project(path: &str, dir: &FsNode) -> (r: Option<Project>)
        ensures
            found_view(r) == detect_elixir(path@, *dir),
    {
        if dir.has_entry("mix.exs") && dir.has_entry("_build") {
            let name = Self::extract_elixir_project_name(dir);
            Some(single_artifact_project(ProjectType::Elixir, path, "_build", name))
        } else {
            None
        }
    }

    /// Find the first regular file with a given extension among the entries
    /// of a directory.
    pub fn find_file_with_extension(dir: &FsNode, ext: &str) -> (r: Option<usize>)
        ensures
            match r {
                Some(i) => first_with_extension(dir.children@, ext@) == Some(i as int) && i
                    < dir.children.len(),
                None => first_with_extension(dir.children@, ext@).is_none(),
            },
    {
        let ghost entries = dir.children@;
        let mut i: usize = 0;
        assert(entries.skip(0) =~= entries);
        while i < dir.children.len()
            invariant
                i <= dir.children.len(),
                entries == dir.children@,
                match first_with_extension(entries.skip(i as int), ext@) {
                    Some(k) => first_with_extension(entries, ext@) == Some(k + i),
                    None => first_with_extension(entries, ext@).is_none(),
                },
            decreases dir.children.len() - i,
        {
            proof {
                assert(entries.skip(i as int).drop_first() =~= entries.skip(i + 1));
            }
            if has_extension(&dir.children[i], ext) {
                return Some(i);
            }
            i += 1;
        }
        None
    }

    /// Detect a .NET/C# project in the specified directory.
    pub fn detect_dotnet_project(path: &str, dir: &FsNode) -> (r: Option<Project>)
        ensures
            found_view(r) == detect_dotnet(path@, *dir),
    {
        let has_bin = dir.has_entry("bin");
        let has_obj = dir.has_entry("obj");
        if !has_bin && !has_obj {
            return None;
        }
        let index = match Self::find_file_with_extension(dir, "csproj") {
            Some(i) => i,
            None => {
                return None;
            },
        };
        let build_arts = if has_bin && has_obj {
            let bin_size = size_of_entry(dir, "bin");
            let obj_size = size_of_entry(dir, "obj");
            let mut both = one_artifact(join(path, "bin"), bin_size);
            push_artifact(&mut both, join(path, "obj"), obj_size);
            both
        } else if has_bin {
            one_artifact(join(path, "bin"), 0)
        } else {
            one_artifact(join(path, "obj"), 0)
        };
        let name = file_stem(dir.children[index].name.as_str());
        assert(artifact_views(build_arts@) =~= pair_artifacts(
            dir.has("bin"@),
            dir.has("obj"@),
            artifact_at(path@, "bin"@, entry_size(*dir, "bin"@)),
            artifact_at(path@, "obj"@, entry_size(*dir, "obj"@)),
        ));
        Some(Project::new(ProjectType::DotNet, chars_to_string(path), build_arts, Some(name)))
    }

    /// Detect a Python project in the specified directory.
    pub fn detect_python_project(path: &str, dir: &FsNode) -> (r: Option<Project>)
        ensures
            found_view(r) == detect_python(path@, *dir),
    {
        if dir.kind != EntryKind::Dir {
            return None;
        }
        let has_config = dir.has_entry("requirements.txt") || dir.has_entry("setup.py")
            || dir.has_entry("pyproject.toml") || dir.has_entry("setup.cfg") || dir.has_entry(
            "Pipfile",
        ) || dir.has_entry("pipenv.lock") || dir.has_entry("poetry.lock");
        if !has_config {
            return None;
        }
        let mut build_arts = no_artifacts();
        append_measured_dir(&mut build_arts, path, dir, "__pycache__");
        append_measured_dir(&mut build_arts, path, dir, ".pytest_cache");
        append_measured_dir(&mut build_arts, path, dir, "venv");
        append_measured_dir(&mut build_arts, path, dir, ".venv");
        append_measured_dir(&mut build_arts, path, dir, "build");
        append_measured_dir(&mut build_arts, path, dir, "dist");
        append_measured_dir(&mut build_arts, path, dir, ".eggs");
        append_measured_dir(&mut build_arts, path, dir, ".tox");
        append_measured_dir(&mut build_arts, path, dir, ".coverage");
        let ghost named = artifact_views(build_arts@);
        let ghost entries = dir.children@;
        let suffix = chars_of(".egg-info");
        let mut i: usize = 0;
        while i < dir.children.len()
            invariant
                i <= dir.children.len(),
                entries == dir.children@,
                suffix@ == ".egg-info"@,
                artifact_views(build_arts@) == named + egg_info_artifacts(
                    path@,
                    entries.take(i as int),
                ),
            decreases dir.children.len() - i,
        {
            let e = &dir.children[i];
            proof {
                assert(entries.take(i + 1).drop_last() =~= entries.take(i as int));
            }
            if e.kind == EntryKind::Dir && ends_with(&chars_of(e.name.as_str()), &suffix) {
                let size = calculate_dir_size(e);
                push_artifact(&mut build_arts, join(path, e.name.as_str()), size);
            }
            i += 1;
        }
        assert(entries.take(entries.len() as int) =~= entries);
        if build_arts.len() == 0 {
            return None;
        }
        let name = Self::extract_python_project_name(dir);
        Some(make_project(ProjectType::Python, path, build_arts, name))
    }

    /// Extract the project name from a Python project directory: from
    /// `pyproject.toml`, else `setup.py`, else `setup.cfg`.
    pub fn extract_python_project_name(dir: &FsNode) -> (r: Option<String>)
        ensures
            optional_text(r) == python_name(*dir),
    {
        match Self::try_extract_from_pyproject_toml(dir) {
            Some(n) => Some(n),
            None => match Self::try_extract_from_setup_py(dir) {
                Some(n) => Some(n),
                None => Self::try_extract_from_setup_cfg(dir),
            },
        }
    }

    /// Extract the project name from the `.gemspec` files of a Ruby project.
    pub fn extract_ruby_project_name(dir: &FsNode) -> (r: Option<String>)
        ensures
            optional_text(r) == gemspec_name(dir.children@),
    {
        let ghost entries = dir.children@;
        let mut i: usize = 0;
        assert(entries.skip(0) =~= entries);
        while i < dir.children.len()
            invariant
                i <= dir.children.len(),
                entries == dir.children@,
                gemspec_name(entries) == gemspec_name(entries.skip(i as int)),
            decreases dir.children.len() - i,
        {
            let e = &dir.children[i];
            proof {
                assert(entries.skip(i as int).drop_first() =~= entries.skip(i + 1));
            }
            if has_extension(e, "gemspec") {
                match &e.content {
                    Some(content) => match scan_manifest(LineRule::GemspecName, content.as_str()) {
                        Some(Some(n)) => {
                            return Some(n);
                        },
                        _ => {},
                    },
                    None => {},
                }
            }
            i += 1;
        }
        None
    }

    /// Detect a Ruby project in the specified directory.
    pub fn detect_ruby_project(path: &str, dir: &FsNode) -> (r: Option<Project>)
        ensures
            found_view(r) == detect_ruby(path@, *dir),
    {
        if !dir.has_entry("Gemfile") {
            return None;
        }
        let has_bundle = dir.has_entry(".bundle");
        let vendored = match dir.child("vendor") {
            Some(vendor) => vendor.child("bundle"),
            None => None,
        };
        let vendor_path = join(join(path, "vendor").as_str(), "bundle");
        let build_arts = match vendored {
            Some(bundle) => {
                if has_bundle {
                    let bundle_size = size_of_entry(dir, ".bundle");
                    let vendor_size = calculate_dir_size(bundle);
                    let mut both = one_artifact(join(path, ".bundle"), bundle_size);
                    push_artifact(&mut both, vendor_path, vendor_size);
                    both
                } else {
                    one_artifact(vendor_path, 0)
                }
            },
            None => {
                if has_bundle {
                    one_artifact(join(path, ".bundle"), 0)
                } else {
                    return None;
                }
            },
        };
        let name = Self::extract_ruby_project_name(dir);
        assert(artifact_views(build_arts@) =~= pair_artifacts(
            dir.has(".bundle"@),
            vendor_bundle(*dir).is_some(),
            artifact_at(path@, ".bundle"@, entry_size(*dir, ".bundle"@)),
            ArtifactView {
                path: joined(joined(path@, "vendor"@), "bundle"@),
                size: match vendor_bundle(*dir) {
                    Some(e) => saturated(tree_size(e)),
                    None => 0,
                },
            },
        ));
        Some(make_project(ProjectType::Ruby, path, build_arts, name))
    }

    /// Detect a Haskell project in the specified directory.
    pub fn detect_haskell_project(path: &str, dir: &FsNode) -> (r: Option<Project>)
        ensures
            found_view(r) == detect_haskell(path@, *dir),
    {
        if !dir.has_entry("stack.yaml") && !dir.has_entry("cabal.project") {
            return None;
        }
        let mut build_arts = no_artifacts();
        append_present_entry(&mut build_arts, path, dir, ".stack-work");
        append_present_entry(&mut build_arts, path, dir, "dist-newstyle");
        if build_arts.len() == 0 {
            return None;
        }
        Some(make_project(ProjectType::Haskell, path, build_arts, None))
    }

    /// Detect a Dart or Flutter project in the specified directory.
    pub fn detect_dart_project(path: &str, dir: &FsNode) -> (r: Option<Project>)
        ensures
            found_view(r) == detect_dart(path@, *dir),
    {
        if !dir.has_entry("pubspec.yaml") {
            return None;
        }
        let mut build_arts = no_artifacts();
        append_present_entry(&mut build_arts, path, dir, ".dart_tool");
        append_present_entry(&mut build_arts, path, dir, "build");
        if build_arts.len() == 0 {
            return None;
        }
        let name = scan_manifest_of(dir, "pubspec.yaml", LineRule::PubspecName);
        Some(make_project(ProjectType::Dart, path, build_arts, name))
    }

    /// Detect a Zig project in the specified directory.
    pub fn detect_zig_project(path: &str, dir: &FsNode) -> (r: Option<Project>)
        ensures
            found_view(r) == detect_zig(path@, *dir),
    {
        if !dir.has_entry("build.zig") {
            return None;
        }
        let mut build_arts = no_artifacts();
        append_present_entry(&mut build_arts, path, dir, "zig-cache");
        append_present_entry(&mut build_arts, path, dir, "zig-out");
        if build_arts.len() == 0 {
            return None;
        }
        Some(make_project(ProjectType::Zig, path, build_arts, None))
    }
}

/// Whether an entry is a regular file whose name has the extension `ext`.
fn has_extension(e: &FsNode, ext: &str) -> (r: bool)
    ensures
        r == is_file_with_extension(*e, ext@),
{
    if e.kind == EntryKind::File {
        match extension(e.name.as_str()) {
            Some(found) => str_eq(found.as_str(), ext),
            None => false,
        }
    } else {
        false
    }
}

/// Appends the artifact for the directory `name` of `dir`, measured, when
/// there is such a directory.
fn append_measured_dir(list: &mut Vec<BuildArtifacts>, path: &str, dir: &FsNode, name: &str)
    ensures
        artifact_views(final(list)@) == artifact_views(old(list)@) + measured_dir(
            path@,
            *dir,
            name@,
        ),
{
    if dir.has_dir(name) {
        let size = size_of_entry(dir, name);
        push_artifact(list, join(path, name), size);
    }
}

/// Appends the artifact for the entry `name` of `dir`, not yet measured,
/// when there is such an entry.
fn append_present_entry(list: &mut Vec<BuildArtifacts>, path: &str, dir: &FsNode, name: &str)
    ensures
        artifact_views(final(list)@) == artifact_views(old(list)@) + present_entry(
            path@,
            *dir,
            name@,
        ),
{
    if dir.has_entry(name) {
        push_artifact(list, join(path, name), 0);
    }
}


/// Whether a find is a project of kind `kind`, rooted at `path`, with at
/// least one artifact.
pub open spec fn is_find_of(found: Option<ProjectView>, kind: ProjectType, path: Seq<char>) -> bool {
    found matches Some(p) ==> p.kind == kind && p.root_path == path && p.artifacts.len() > 0
}

/// What the Rust detector finds is a Rust project rooted at the directory,
/// with at least one artifact.
pub proof fn lemma_rust_find(path: Seq<char>, dir: FsNode, inside_workspace: bool)
    ensures
        is_find_of(detect_rust(path, dir, inside_workspace), ProjectType::Rust, path),
{
}

/// What the Deno detector finds is a Deno project rooted at the directory,
/// with at least one artifact.
pub proof fn lemma_deno_find(path: Seq<char>, dir: FsNode)
    ensures
        is_find_of(detect_deno(path, dir), ProjectType::Deno, path),
{
}

/// What the Node detector finds is a Node project rooted at the directory,
/// with at least one artifact.
pub proof fn lemma_node_find(path: Seq<char>, dir: FsNode)
    ensures
        is_find_of(detect_node(path, dir), ProjectType::Node, path),
{
}

/// What the Java detector finds is a Java project rooted at the directory,
/// with at least one artifact.
pub proof fn lemma_java_find(path: Seq<char>, dir: FsNode)
    ensures
        is_find_of(detect_java(path, dir), ProjectType::Java, path),
{
}

/// What the Swift detector finds is a Swift project rooted at the directory,
/// with at least one artifact.
pub proof fn lemma_swift_find(path: Seq<char>, dir: FsNode)
    ensures
        is_find_of(detect_swift(path, dir), ProjectType::Swift, path),
{
}

/// What the DotNet detector finds is a DotNet project rooted at the directory,
/// with at least one artifact.
pub proof fn lemma_dotnet_find(path: Seq<char>, dir: FsNode)
    ensures
        is_find_of(detect_dotnet(path, dir), ProjectType::DotNet, path),
{
}

/// What the Python detector finds is a Python project rooted at the directory,
/// with at least one artifact.
pub proof fn lemma_python_find(path: Seq<char>, dir: FsNode)
    ensures
        is_find_of(detect_python(path, dir), ProjectType::Python, path),
{
}

/// What the Go detector finds is a Go project rooted at the directory,
/// with at least one artifact.
pub proof fn lemma_go_find(path: Seq<char>, dir: FsNode)
    ensures
        is_find_of(detect_go(path, dir), ProjectType::Go, path),
{
}

/// What the Php detector finds is a Php project rooted at the directory,
/// with at least one artifact.
pub proof fn lemma_php_find(path: Seq<char>, dir: FsNode)
    ensures
        is_find_of(detect_php(path, dir), ProjectType::Php, path),
{
}

/// What the Haskell detector finds is a Haskell project rooted at the directory,
/// with at least one artifact.
pub proof fn lemma_haskell_find(path: Seq<char>, dir: FsNode)
    ensures
        is_find_of(detect_haskell(path, dir), ProjectType::Haskell, path),
{
}

/// What the Dart detector finds is a Dart project rooted at the directory,
/// with at least one artifact.
pub proof fn lemma_dart_find(path: Seq<char>, dir: FsNode)
    ensures
        is_find_of(detect_dart(path, dir), ProjectType::Dart, path),
{
}

/// What the Zig detector finds is a Zig project rooted at the directory,
/// with at least one artifact.
pub proof fn lemma_zig_find(path: Seq<char>, dir: FsNode)
    ensures
        is_find_of(detect_zig(path, dir), ProjectType::Zig, path),
{
}

/// What the Scala detector finds is a Scala project rooted at the directory,
/// with at least one artifact.
pub proof fn lemma_scala_find(path: Seq<char>, dir: FsNode)
    ensures
        is_find_of(detect_scala(path, dir), ProjectType::Scala, path),
{
}

/// What the Cpp detector finds is a Cpp project rooted at the directory,
/// with at least one artifact.
pub proof fn lemma_cpp_find(path: Seq<char>, dir: FsNode)
    ensures
        is_find_of(detect_cpp(path, dir), ProjectType::Cpp, path),
{
}

/// What the Ruby detector finds is a Ruby project rooted at the directory,
/// with at least one artifact.
pub proof fn lemma_ruby_find(path: Seq<char>, dir: FsNode)
    ensures
        is_find_of(detect_ruby(path, dir), ProjectType::Ruby, path),
{
}

/// What the Elixir detector finds is a Elixir project rooted at the directory,
/// with at least one artifact.
pub proof fn lemma_elixir_find(path: Seq<char>, dir: FsNode)
    ensures
        is_find_of(detect_elixir(path, dir), ProjectType::Elixir, path),
{
}

} // verus!
