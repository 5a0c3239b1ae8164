//! The sizes that a scan reports: every artifact of every reported project
//! lies below the project's root and carries the size measured at its
//! path in the snapshot.

use vstd::prelude::*;
use crate::config::ProjectFilter;
use crate::path::{is_entry_name, joined};
use crate::project::project::{ArtifactView, ProjectType, ProjectView};
use crate::scanner::detect::{
    artifact_at, detect_cpp, detect_dart, detect_deno, detect_dotnet, detect_elixir, detect_go,
    detect_haskell, detect_java, detect_node, detect_php, detect_python, detect_ruby, detect_rust,
    detect_scala, detect_swift, detect_zig, egg_info_artifacts, entry_size, is_workspace_root,
    measured_dir, present_entry, python_named_artifacts, vendor_bundle,
};
use crate::scanner::rules::survives;
use crate::scanner::walk::{
    classify, depth_below, detect_kind, enter, lemma_classified_by_one_detector,
    lemma_target_is_an_entry_name, measured, report_for, sized, walk, walk_entries,
};
use crate::snapshot::{
    entries_well_formed, entry_at, lemma_directory_is_found_at_its_path,
    lemma_entries_well_formed, lemma_entry_is_found_at_its_path, lemma_joined_lies_below,
    lemma_lookup_starts_at_the_entry, lemma_name_finds_the_entry, lemma_relative_through,
    relative_to, size_at, tree_size, well_formed, EntryKind, FsNode,
};

verus! {

/// Whether an artifact is placed in the directory `dir` listed at `path`:
/// it lies at or below `path`, and its size is either not measured yet or
/// the size measured at its path.
pub open spec fn is_placed(a: ArtifactView, dir: FsNode, path: Seq<char>) -> bool {
    relative_to(a.path, path).is_some() && a.path.len() > 0 && (a.size == 0 || a.size == size_at(
        dir,
        path,
        a.path,
    ))
}

/// Whether every one of `arts` is placed in `dir`.
pub open spec fn all_placed(arts: Seq<ArtifactView>, dir: FsNode, path: Seq<char>) -> bool {
    forall|k: int| 0 <= k < arts.len() ==> is_placed(#[trigger] arts[k], dir, path)
}

/// Whether an artifact carries the size measured at its path in the tree
/// `root` listed at `base`.
pub open spec fn is_measured(a: ArtifactView, root: FsNode, base: Seq<char>) -> bool {
    a.size == size_at(root, base, a.path)
}

/// `node_modules` can name an entry of a directory.
pub proof fn lemma_node_modules_is_an_entry_name()
    ensures
        is_entry_name("node_modules"@),
{
    reveal_strlit("node_modules");
    let t = "node_modules"@;
    assert(t.len() == 12);
    assert(seq!['.'].len() == 1);
    assert forall|i: int| 0 <= i < t.len() implies #[trigger] t[i] != '/' by {}
}

/// `vendor` can name an entry of a directory.
pub proof fn lemma_vendor_is_an_entry_name()
    ensures
        is_entry_name("vendor"@),
{
    reveal_strlit("vendor");
    let t = "vendor"@;
    assert(t.len() == 6);
    assert(seq!['.'].len() == 1);
    assert forall|i: int| 0 <= i < t.len() implies #[trigger] t[i] != '/' by {}
}

/// `build` can name an entry of a directory.
pub proof fn lemma_build_is_an_entry_name()
    ensures
        is_entry_name("build"@),
{
    reveal_strlit("build");
    let t = "build"@;
    assert(t.len() == 5);
    assert(seq!['.'].len() == 1);
    assert forall|i: int| 0 <= i < t.len() implies #[trigger] t[i] != '/' by {}
}

/// `.build` can name an entry of a directory.
pub proof fn lemma_dot_build_is_an_entry_name()
    ensures
        is_entry_name(".build"@),
{
    reveal_strlit(".build");
    let t = ".build"@;
    assert(t.len() == 6);
    assert(seq!['.'].len() == 1);
    assert forall|i: int| 0 <= i < t.len() implies #[trigger] t[i] != '/' by {}
}

/// `bin` can name an entry of a directory.
pub proof fn lemma_bin_is_an_entry_name()
    ensures
        is_entry_name("bin"@),
{
    reveal_strlit("bin");
    let t = "bin"@;
    assert(t.len() == 3);
    assert(seq!['.'].len() == 1);
    assert forall|i: int| 0 <= i < t.len() implies #[trigger] t[i] != '/' by {}
}

/// `obj` can name an entry of a directory.
pub proof fn lemma_obj_is_an_entry_name()
    ensures
        is_entry_name("obj"@),
{
    reveal_strlit("obj");
    let t = "obj"@;
    assert(t.len() == 3);
    assert(seq!['.'].len() == 1);
    assert forall|i: int| 0 <= i < t.len() implies #[trigger] t[i] != '/' by {}
}

/// `__pycache__` can name an entry of a directory.
pub proof fn lemma_pycache_is_an_entry_name()
    ensures
        is_entry_name("__pycache__"@),
{
    reveal_strlit("__pycache__");
    let t = "__pycache__"@;
    assert(t.len() == 11);
    assert(seq!['.'].len() == 1);
    assert forall|i: int| 0 <= i < t.len() implies #[trigger] t[i] != '/' by {}
}

/// `.pytest_cache` can name an entry of a directory.
pub proof fn lemma_pytest_cache_is_an_entry_name()
    ensures
        is_entry_name(".pytest_cache"@),
{
    reveal_strlit(".pytest_cache");
    let t = ".pytest_cache"@;
    assert(t.len() == 13);
    assert(seq!['.'].len() == 1);
    assert forall|i: int| 0 <= i < t.len() implies #[trigger] t[i] != '/' by {}
}

/// `venv` can name an entry of a directory.
pub proof fn lemma_venv_is_an_entry_name()
    ensures
        is_entry_name("venv"@),
{
    reveal_strlit("venv");
    let t = "venv"@;
    assert(t.len() == 4);
    assert(seq!['.'].len() == 1);
    assert forall|i: int| 0 <= i < t.len() implies #[trigger] t[i] != '/' by {}
}

/// `.venv` can name an entry of a directory.
pub proof fn lemma_dot_venv_is_an_entry_name()
    ensures
        is_entry_name(".venv"@),
{
    reveal_strlit(".venv");
    let t = ".venv"@;
    assert(t.len() == 5);
    assert(seq!['.'].len() == 1);
    assert forall|i: int| 0 <= i < t.len() implies #[trigger] t[i] != '/' by {}
}

/// `dist` can name an entry of a directory.
pub proof fn lemma_dist_is_an_entry_name()
    ensures
        is_entry_name("dist"@),
{
    reveal_strlit("dist");
    let t = "dist"@;
    assert(t.len() == 4);
    assert(seq!['.'].len() == 1);
    assert forall|i: int| 0 <= i < t.len() implies #[trigger] t[i] != '/' by {}
}

/// `.eggs` can name an entry of a directory.
pub proof fn lemma_eggs_is_an_entry_name()
    ensures
        is_entry_name(".eggs"@),
{
    reveal_strlit(".eggs");
    let t = ".eggs"@;
    assert(t.len() == 5);
    assert(seq!['.'].len() == 1);
    assert forall|i: int| 0 <= i < t.len() implies #[trigger] t[i] != '/' by {}
}

/// `.tox` can name an entry of a directory.
pub proof fn lemma_tox_is_an_entry_name()
    ensures
        is_entry_name(".tox"@),
{
    reveal_strlit(".tox");
    let t = ".tox"@;
    assert(t.len() == 4);
    assert(seq!['.'].len() == 1);
    assert forall|i: int| 0 <= i < t.len() implies #[trigger] t[i] != '/' by {}
}

/// `.coverage` can name an entry of a directory.
pub proof fn lemma_coverage_is_an_entry_name()
    ensures
        is_entry_name(".coverage"@),
{
    reveal_strlit(".coverage");
    let t = ".coverage"@;
    assert(t.len() == 9);
    assert(seq!['.'].len() == 1);
    assert forall|i: int| 0 <= i < t.len() implies #[trigger] t[i] != '/' by {}
}

/// `_build` can name an entry of a directory.
pub proof fn lemma_underscore_build_is_an_entry_name()
    ensures
        is_entry_name("_build"@),
{
    reveal_strlit("_build");
    let t = "_build"@;
    assert(t.len() == 6);
    assert(seq!['.'].len() == 1);
    assert forall|i: int| 0 <= i < t.len() implies #[trigger] t[i] != '/' by {}
}

/// `.bundle` can name an entry of a directory.
pub proof fn lemma_dot_bundle_is_an_entry_name()
    ensures
        is_entry_name(".bundle"@),
{
    reveal_strlit(".bundle");
    let t = ".bundle"@;
    assert(t.len() == 7);
    assert(seq!['.'].len() == 1);
    assert forall|i: int| 0 <= i < t.len() implies #[trigger] t[i] != '/' by {}
}

/// `bundle` can name an entry of a directory.
pub proof fn lemma_bundle_is_an_entry_name()
    ensures
        is_entry_name("bundle"@),
{
    reveal_strlit("bundle");
    let t = "bundle"@;
    assert(t.len() == 6);
    assert(seq!['.'].len() == 1);
    assert forall|i: int| 0 <= i < t.len() implies #[trigger] t[i] != '/' by {}
}

/// `.stack-work` can name an entry of a directory.
pub proof fn lemma_stack_work_is_an_entry_name()
    ensures
        is_entry_name(".stack-work"@),
{
    reveal_strlit(".stack-work");
    let t = ".stack-work"@;
    assert(t.len() == 11);
    assert(seq!['.'].len() == 1);
    assert forall|i: int| 0 <= i < t.len() implies #[trigger] t[i] != '/' by {}
}

/// `dist-newstyle` can name an entry of a directory.
pub proof fn lemma_dist_newstyle_is_an_entry_name()
    ensures
        is_entry_name("dist-newstyle"@),
{
    reveal_strlit("dist-newstyle");
    let t = "dist-newstyle"@;
    assert(t.len() == 13);
    assert(seq!['.'].len() == 1);
    assert forall|i: int| 0 <= i < t.len() implies #[trigger] t[i] != '/' by {}
}

/// `.dart_tool` can name an entry of a directory.
pub proof fn lemma_dart_tool_is_an_entry_name()
    ensures
        is_entry_name(".dart_tool"@),
{
    reveal_strlit(".dart_tool");
    let t = ".dart_tool"@;
    assert(t.len() == 10);
    assert(seq!['.'].len() == 1);
    assert forall|i: int| 0 <= i < t.len() implies #[trigger] t[i] != '/' by {}
}

/// `zig-cache` can name an entry of a directory.
pub proof fn lemma_zig_cache_is_an_entry_name()
    ensures
        is_entry_name("zig-cache"@),
{
    reveal_strlit("zig-cache");
    let t = "zig-cache"@;
    assert(t.len() == 9);
    assert(seq!['.'].len() == 1);
    assert forall|i: int| 0 <= i < t.len() implies #[trigger] t[i] != '/' by {}
}

/// `zig-out` can name an entry of a directory.
pub proof fn lemma_zig_out_is_an_entry_name()
    ensures
        is_entry_name("zig-out"@),
{
    reveal_strlit("zig-out");
    let t = "zig-out"@;
    assert(t.len() == 7);
    assert(seq!['.'].len() == 1);
    assert forall|i: int| 0 <= i < t.len() implies #[trigger] t[i] != '/' by {}
}

/// An artifact named after an entry and not measured yet is placed.
pub proof fn lemma_unmeasured_is_placed(path: Seq<char>, dir: FsNode, name: Seq<char>)
    requires
        is_entry_name(name),
    ensures
        is_placed(artifact_at(path, name, 0), dir, path),
        all_placed(seq![artifact_at(path, name, 0)], dir, path),
        all_placed(present_entry(path, dir, name), dir, path),
{
    lemma_joined_lies_below(path, name);
}

/// An artifact named after an entry and measured as that entry is placed.
pub proof fn lemma_measured_is_placed(path: Seq<char>, dir: FsNode, name: Seq<char>)
    requires
        is_entry_name(name),
    ensures
        is_placed(artifact_at(path, name, entry_size(dir, name)), dir, path),
        all_placed(measured_dir(path, dir, name), dir, path),
{
    lemma_joined_lies_below(path, name);
    lemma_entry_is_found_at_its_path(dir, path, name);
}

/// Placed artifacts followed by placed artifacts are placed.
pub proof fn lemma_all_placed_concat(
    a: Seq<ArtifactView>,
    b: Seq<ArtifactView>,
    dir: FsNode,
    path: Seq<char>,
)
    requires
        all_placed(a, dir, path),
        all_placed(b, dir, path),
    ensures
        all_placed(a + b, dir, path),
{
    assert forall|k: int| 0 <= k < (a + b).len() implies is_placed(
        #[trigger] (a + b)[k],
        dir,
        path,
    ) by {
        if k < a.len() {
            assert((a + b)[k] == a[k]);
        } else {
            assert((a + b)[k] == b[k - a.len()]);
        }
    }
}

/// The artifacts that the rust detector finds are placed in the directory.
pub proof fn lemma_rust_artifacts_are_placed(path: Seq<char>, dir: FsNode, inside_workspace: bool)
    ensures
        detect_rust(path, dir, inside_workspace) matches Some(p) ==> all_placed(p.artifacts, dir, path),
{
    lemma_target_is_an_entry_name();
    lemma_unmeasured_is_placed(path, dir, "target"@);
}

/// The artifacts that the node detector finds are placed in the directory.
pub proof fn lemma_node_artifacts_are_placed(path: Seq<char>, dir: FsNode)
    ensures
        detect_node(path, dir) matches Some(p) ==> all_placed(p.artifacts, dir, path),
{
    lemma_node_modules_is_an_entry_name();
    lemma_unmeasured_is_placed(path, dir, "node_modules"@);
}

/// The artifacts that the deno detector finds are placed in the directory.
pub proof fn lemma_deno_artifacts_are_placed(path: Seq<char>, dir: FsNode)
    ensures
        detect_deno(path, dir) matches Some(p) ==> all_placed(p.artifacts, dir, path),
{
    lemma_vendor_is_an_entry_name();
    lemma_unmeasured_is_placed(path, dir, "vendor"@);
    lemma_node_modules_is_an_entry_name();
    lemma_unmeasured_is_placed(path, dir, "node_modules"@);
}

/// The artifacts that the java detector finds are placed in the directory.
pub proof fn lemma_java_artifacts_are_placed(path: Seq<char>, dir: FsNode)
    ensures
        detect_java(path, dir) matches Some(p) ==> all_placed(p.artifacts, dir, path),
{
    lemma_target_is_an_entry_name();
    lemma_unmeasured_is_placed(path, dir, "target"@);
    lemma_build_is_an_entry_name();
    lemma_unmeasured_is_placed(path, dir, "build"@);
}

/// The artifacts that the swift detector finds are placed in the directory.
pub proof fn lemma_swift_artifacts_are_placed(path: Seq<char>, dir: FsNode)
    ensures
        detect_swift(path, dir) matches Some(p) ==> all_placed(p.artifacts, dir, path),
{
    lemma_dot_build_is_an_entry_name();
    lemma_unmeasured_is_placed(path, dir, ".build"@);
}

/// The artifacts that the go detector finds are placed in the directory.
pub proof fn lemma_go_artifacts_are_placed(path: Seq<char>, dir: FsNode)
    ensures
        detect_go(path, dir) matches Some(p) ==> all_placed(p.artifacts, dir, path),
{
    lemma_vendor_is_an_entry_name();
    lemma_unmeasured_is_placed(path, dir, "vendor"@);
}

/// The artifacts that the php detector finds are placed in the directory.
pub proof fn lemma_php_artifacts_are_placed(path: Seq<char>, dir: FsNode)
    ensures
        detect_php(path, dir) matches Some(p) ==> all_placed(p.artifacts, dir, path),
{
    lemma_vendor_is_an_entry_name();
    lemma_unmeasured_is_placed(path, dir, "vendor"@);
}

/// The artifacts that the scala detector finds are placed in the directory.
pub proof fn lemma_scala_artifacts_are_placed(path: Seq<char>, dir: FsNode)
    ensures
        detect_scala(path, dir) matches Some(p) ==> all_placed(p.artifacts, dir, path),
{
    lemma_target_is_an_entry_name();
    lemma_unmeasured_is_placed(path, dir, "target"@);
}

/// The artifacts that the cpp detector finds are placed in the directory.
pub proof fn lemma_cpp_artifacts_are_placed(path: Seq<char>, dir: FsNode)
    ensures
        detect_cpp(path, dir) matches Some(p) ==> all_placed(p.artifacts, dir, path),
{
    lemma_build_is_an_entry_name();
    lemma_unmeasured_is_placed(path, dir, "build"@);
}

/// The artifacts that the elixir detector finds are placed in the directory.
pub proof fn lemma_elixir_artifacts_are_placed(path: Seq<char>, dir: FsNode)
    ensures
        detect_elixir(path, dir) matches Some(p) ==> all_placed(p.artifacts, dir, path),
{
    lemma_underscore_build_is_an_entry_name();
    lemma_unmeasured_is_placed(path, dir, "_build"@);
}

/// The artifacts that the Haskell detector finds are placed in the directory.
pub proof fn lemma_haskell_artifacts_are_placed(path: Seq<char>, dir: FsNode)
    ensures
        detect_haskell(path, dir) matches Some(p) ==> all_placed(p.artifacts, dir, path),
{
    lemma_stack_work_is_an_entry_name();
    lemma_dist_newstyle_is_an_entry_name();
    lemma_unmeasured_is_placed(path, dir, ".stack-work"@);
    lemma_unmeasured_is_placed(path, dir, "dist-newstyle"@);
    lemma_all_placed_concat(
        present_entry(path, dir, ".stack-work"@),
        present_entry(path, dir, "dist-newstyle"@),
        dir,
        path,
    );
}

/// The artifacts that the Dart detector finds are placed in the directory.
pub proof fn lemma_dart_artifacts_are_placed(path: Seq<char>, dir: FsNode)
    ensures
        detect_dart(path, dir) matches Some(p) ==> all_placed(p.artifacts, dir, path),
{
    lemma_dart_tool_is_an_entry_name();
    lemma_build_is_an_entry_name();
    lemma_unmeasured_is_placed(path, dir, ".dart_tool"@);
    lemma_unmeasured_is_placed(path, dir, "build"@);
    lemma_all_placed_concat(
        present_entry(path, dir, ".dart_tool"@),
        present_entry(path, dir, "build"@),
        dir,
        path,
    );
}

/// The artifacts that the Zig detector finds are placed in the directory.
pub proof fn lemma_zig_artifacts_are_placed(path: Seq<char>, dir: FsNode)
    ensures
        detect_zig(path, dir) matches Some(p) ==> all_placed(p.artifacts, dir, path),
{
    lemma_zig_cache_is_an_entry_name();
    lemma_zig_out_is_an_entry_name();
    lemma_unmeasured_is_placed(path, dir, "zig-cache"@);
    lemma_unmeasured_is_placed(path, dir, "zig-out"@);
    lemma_all_placed_concat(
        present_entry(path, dir, "zig-cache"@),
        present_entry(path, dir, "zig-out"@),
        dir,
        path,
    );
}

/// The artifacts that the .NET detector finds are placed in the directory.
pub proof fn lemma_dotnet_artifacts_are_placed(path: Seq<char>, dir: FsNode)
    ensures
        detect_dotnet(path, dir) matches Some(p) ==> all_placed(p.artifacts, dir, path),
{
    lemma_bin_is_an_entry_name();
    lemma_obj_is_an_entry_name();
    lemma_unmeasured_is_placed(path, dir, "bin"@);
    lemma_unmeasured_is_placed(path, dir, "obj"@);
    lemma_measured_is_placed(path, dir, "bin"@);
    lemma_measured_is_placed(path, dir, "obj"@);
}

/// The `vendor/bundle` artifact of a Ruby project lies below the project
/// and is measured as the entry of that name.
pub proof fn lemma_vendor_bundle_is_placed(path: Seq<char>, dir: FsNode)
    ensures
        relative_to(joined(joined(path, "vendor"@), "bundle"@), path).is_some(),
        joined(joined(path, "vendor"@), "bundle"@).len() > 0,
        vendor_bundle(dir) matches Some(e) ==> size_at(
            dir,
            path,
            joined(joined(path, "vendor"@), "bundle"@),
        ) == crate::project::project::saturated(tree_size(e)),
{
    lemma_vendor_is_an_entry_name();
    lemma_bundle_is_an_entry_name();
    let middle = joined(path, "vendor"@);
    let full = joined(middle, "bundle"@);
    lemma_joined_lies_below(path, "vendor"@);
    lemma_joined_lies_below(middle, "bundle"@);
    lemma_relative_through(full, middle, path);
    lemma_entry_is_found_at_its_path(dir, path, "vendor"@);
    match dir.entry("vendor"@) {
        Some(vendor) => {
            lemma_lookup_starts_at_the_entry(dir, path, vendor, middle, full);
            lemma_entry_is_found_at_its_path(vendor, middle, "bundle"@);
        },
        None => {},
    }
}

/// The artifacts that the Ruby detector finds are placed in the directory.
pub proof fn lemma_ruby_artifacts_are_placed(path: Seq<char>, dir: FsNode)
    ensures
        detect_ruby(path, dir) matches Some(p) ==> all_placed(p.artifacts, dir, path),
{
    lemma_dot_bundle_is_an_entry_name();
    lemma_unmeasured_is_placed(path, dir, ".bundle"@);
    lemma_measured_is_placed(path, dir, ".bundle"@);
    lemma_vendor_bundle_is_placed(path, dir);
}

/// The `*.egg-info` artifacts among the first `n` entries of a directory
/// are placed in it.
pub proof fn lemma_egg_info_is_placed(path: Seq<char>, dir: FsNode, n: int)
    requires
        dir.kind == EntryKind::Dir,
        entries_well_formed(dir.children@),
        0 <= n <= dir.children@.len(),
    ensures
        all_placed(egg_info_artifacts(path, dir.children@.take(n)), dir, path),
    decreases n,
{
    if n > 0 {
        let entries = dir.children@.take(n);
        lemma_egg_info_is_placed(path, dir, n - 1);
        assert(entries.drop_last() =~= dir.children@.take(n - 1));
        let e = entries.last();
        assert(e == dir.children@[n - 1]);
        lemma_entries_well_formed(dir.children@);
        lemma_name_finds_the_entry(dir, n - 1);
        lemma_joined_lies_below(path, e.name@);
        lemma_entry_is_found_at_its_path(dir, path, e.name@);
    }
}

/// The cache and build directories of a Python project are placed in it.
pub proof fn lemma_python_named_are_placed(path: Seq<char>, dir: FsNode)
    ensures
        all_placed(python_named_artifacts(path, dir), dir, path),
{
    lemma_pycache_is_an_entry_name();
    lemma_pytest_cache_is_an_entry_name();
    lemma_venv_is_an_entry_name();
    lemma_dot_venv_is_an_entry_name();
    lemma_build_is_an_entry_name();
    lemma_dist_is_an_entry_name();
    lemma_eggs_is_an_entry_name();
    lemma_tox_is_an_entry_name();
    lemma_coverage_is_an_entry_name();
    lemma_measured_is_placed(path, dir, "__pycache__"@);
    lemma_measured_is_placed(path, dir, ".pytest_cache"@);
    lemma_measured_is_placed(path, dir, "venv"@);
    lemma_measured_is_placed(path, dir, ".venv"@);
    lemma_measured_is_placed(path, dir, "build"@);
    lemma_measured_is_placed(path, dir, "dist"@);
    lemma_measured_is_placed(path, dir, ".eggs"@);
    lemma_measured_is_placed(path, dir, ".tox"@);
    lemma_measured_is_placed(path, dir, ".coverage"@);
    let a = measured_dir(path, dir, "__pycache__"@);
    let b = a + measured_dir(path, dir, ".pytest_cache"@);
    let c = b + measured_dir(path, dir, "venv"@);
    let d = c + measured_dir(path, dir, ".venv"@);
    let e = d + measured_dir(path, dir, "build"@);
    let f = e + measured_dir(path, dir, "dist"@);
    let g = f + measured_dir(path, dir, ".eggs"@);
    let h = g + measured_dir(path, dir, ".tox"@);
    lemma_all_placed_concat(a, measured_dir(path, dir, ".pytest_cache"@), dir, path);
    lemma_all_placed_concat(b, measured_dir(path, dir, "venv"@), dir, path);
    lemma_all_placed_concat(c, measured_dir(path, dir, ".venv"@), dir, path);
    lemma_all_placed_concat(d, measured_dir(path, dir, "build"@), dir, path);
    lemma_all_placed_concat(e, measured_dir(path, dir, "dist"@), dir, path);
    lemma_all_placed_concat(f, measured_dir(path, dir, ".eggs"@), dir, path);
    lemma_all_placed_concat(g, measured_dir(path, dir, ".tox"@), dir, path);
    lemma_all_placed_concat(h, measured_dir(path, dir, ".coverage"@), dir, path);
}

/// The artifacts that the Python detector finds in a well-formed
/// directory are placed in it.
pub proof fn lemma_python_artifacts_are_placed(path: Seq<char>, dir: FsNode)
    requires
        well_formed(dir),
    ensures
        detect_python(path, dir) matches Some(p) ==> all_placed(p.artifacts, dir, path),
{
    if dir.kind == EntryKind::Dir {
        lemma_python_named_are_placed(path, dir);
        lemma_egg_info_is_placed(path, dir, dir.children@.len() as int);
        assert(dir.children@.take(dir.children@.len() as int) =~= dir.children@);
        lemma_all_placed_concat(
            python_named_artifacts(path, dir),
            egg_info_artifacts(path, dir.children@),
            dir,
            path,
        );
    }
}

/// The artifacts that a detector finds in a well-formed directory are
/// placed in it.
pub proof fn lemma_detected_artifacts_are_placed(
    kind: ProjectType,
    path: Seq<char>,
    dir: FsNode,
    inside_workspace: bool,
)
    requires
        well_formed(dir),
    ensures
        detect_kind(kind, path, dir, inside_workspace) matches Some(p) ==> all_placed(
            p.artifacts,
            dir,
            path,
        ),
{
    reveal(detect_kind);
    match kind {
        ProjectType::Rust => lemma_rust_artifacts_are_placed(path, dir, inside_workspace),
        ProjectType::Node => lemma_node_artifacts_are_placed(path, dir),
        ProjectType::Python => lemma_python_artifacts_are_placed(path, dir),
        ProjectType::Go => lemma_go_artifacts_are_placed(path, dir),
        ProjectType::Java => lemma_java_artifacts_are_placed(path, dir),
        ProjectType::Cpp => lemma_cpp_artifacts_are_placed(path, dir),
        ProjectType::Swift => lemma_swift_artifacts_are_placed(path, dir),
        ProjectType::DotNet => lemma_dotnet_artifacts_are_placed(path, dir),
        ProjectType::Ruby => lemma_ruby_artifacts_are_placed(path, dir),
        ProjectType::Elixir => lemma_elixir_artifacts_are_placed(path, dir),
        ProjectType::Deno => lemma_deno_artifacts_are_placed(path, dir),
        ProjectType::Php => lemma_php_artifacts_are_placed(path, dir),
        ProjectType::Haskell => lemma_haskell_artifacts_are_placed(path, dir),
        ProjectType::Dart => lemma_dart_artifacts_are_placed(path, dir),
        ProjectType::Zig => lemma_zig_artifacts_are_placed(path, dir),
        ProjectType::Scala => lemma_scala_artifacts_are_placed(path, dir),
    }
}


/// A project reported for a well-formed directory has every artifact at
/// or below the directory, with the size measured at its path.
pub proof fn lemma_reported_sizes_are_measured(
    skip: Seq<Seq<char>>,
    filter: ProjectFilter,
    path: Seq<char>,
    node: FsNode,
    inside_workspace: bool,
    i: int,
    k: int,
)
    requires
        well_formed(node),
        0 <= i < report_for(skip, filter, path, node, inside_workspace).len(),
        0 <= k < report_for(skip, filter, path, node, inside_workspace)[i].artifacts.len(),
    ensures
        is_measured(
            report_for(skip, filter, path, node, inside_workspace)[i].artifacts[k],
            node,
            path,
        ),
        relative_to(
            report_for(skip, filter, path, node, inside_workspace)[i].artifacts[k].path,
            path,
        ).is_some(),
{
    lemma_classified_by_one_detector(filter, path, node, inside_workspace);
    let found = classify(filter, path, node, inside_workspace).unwrap();
    let d = choose|d: int|
        0 <= d < crate::scanner::walk::detector_count() && #[trigger] crate::scanner::walk::attempt(
            filter,
            path,
            node,
            inside_workspace,
            d,
        ) == Some(found);
    lemma_detected_artifacts_are_placed(
        crate::scanner::walk::detector_order()[d],
        path,
        node,
        inside_workspace,
    );
    assert(is_placed(found.artifacts[k], node, path));
    assert(sized(found, node, path).artifacts[k] == measured(found.artifacts[k], node, path));
}

/// In the scan of a well-formed tree every artifact of every reported
/// project carries the size measured at its path in the whole tree: none
/// is left unmeasured, and none carries the size of another place.
pub proof fn lemma_walk_sizes_are_measured(
    skip: Seq<Seq<char>>,
    filter: ProjectFilter,
    root: FsNode,
    base: Seq<char>,
    path: Seq<char>,
    node: FsNode,
    inside_workspace: bool,
    depth: Option<usize>,
    i: int,
    k: int,
)
    requires
        well_formed(node),
        entry_at(root, base, path) == Some(node),
        0 <= i < walk(skip, filter, path, node, inside_workspace, depth).len(),
        0 <= k < walk(skip, filter, path, node, inside_workspace, depth)[i].artifacts.len(),
    ensures
        is_measured(
            walk(skip, filter, path, node, inside_workspace, depth)[i].artifacts[k],
            root,
            base,
        ),
    decreases node, node.children@.len() + 1,
{
    let here = report_for(skip, filter, path, node, inside_workspace);
    lemma_top_is_the_root(root, base, path, node);
    if i < here.len() {
        lemma_reported_sizes_are_measured(skip, filter, path, node, inside_workspace, i, k);
        if path.len() > 0 {
            lemma_lookup_starts_at_the_entry(root, base, node, path, here[i].artifacts[k].path);
        }
    } else {
        assert(node.children@.take(node.children@.len() as int) =~= node.children@);
        lemma_entry_sizes_are_measured(
            skip,
            filter,
            root,
            base,
            path,
            node,
            node.children@.len() as int,
            inside_workspace || is_workspace_root(node),
            depth_below(depth),
            i - here.len(),
            k,
        );
    }
}

/// A directory found at the empty path is the root of the tree, listed at
/// the empty path.
pub proof fn lemma_top_is_the_root(root: FsNode, base: Seq<char>, path: Seq<char>, node: FsNode)
    requires
        entry_at(root, base, path) == Some(node),
    ensures
        path.len() == 0 ==> node == root && base == path,
{
    if path.len() == 0 {
        crate::path::lemma_components_of_nothing();
        assert(base.len() == 0);
        assert(base =~= path);
        assert(path =~= Seq::<char>::empty());
    }
}

/// In the first `n` entries of a well-formed directory of the tree every
/// artifact of every reported project carries the size measured at its
/// path in the whole tree.
pub proof fn lemma_entry_sizes_are_measured(
    skip: Seq<Seq<char>>,
    filter: ProjectFilter,
    root: FsNode,
    base: Seq<char>,
    parent: Seq<char>,
    dir: FsNode,
    n: int,
    inside_workspace: bool,
    depth: Option<usize>,
    i: int,
    k: int,
)
    requires
        dir.kind == EntryKind::Dir,
        well_formed(dir),
        entry_at(root, base, parent) == Some(dir),
        0 <= n <= dir.children@.len(),
        0 <= i < walk_entries(
            skip,
            filter,
            parent,
            dir.children@.take(n),
            inside_workspace,
            depth,
        ).len(),
        0 <= k < walk_entries(
            skip,
            filter,
            parent,
            dir.children@.take(n),
            inside_workspace,
            depth,
        )[i].artifacts.len(),
    ensures
        is_measured(
            walk_entries(
                skip,
                filter,
                parent,
                dir.children@.take(n),
                inside_workspace,
                depth,
            )[i].artifacts[k],
            root,
            base,
        ),
    decreases dir, n,
{
    let entries = dir.children@.take(n);
    if n > 0 {
        assert(entries.drop_last() =~= dir.children@.take(n - 1));
        let child = dir.children@[n - 1];
        assert(entries.last() == child);
        let name = child.name@;
        let at = joined(parent, name);
        let before = walk_entries(
            skip,
            filter,
            parent,
            dir.children@.take(n - 1),
            inside_workspace,
            depth,
        );
        let last = enter(skip, filter, at, child, inside_workspace, depth);
        assert(walk_entries(skip, filter, parent, entries, inside_workspace, depth) == before
            + last);
        if i < before.len() {
            lemma_entry_sizes_are_measured(
                skip,
                filter,
                root,
                base,
                parent,
                dir,
                n - 1,
                inside_workspace,
                depth,
                i,
                k,
            );
        } else {
            assert(survives(skip, at));
            lemma_entries_well_formed(dir.children@);
            lemma_name_finds_the_entry(dir, n - 1);
            lemma_entry_is_found_at_its_path(dir, parent, name);
            lemma_top_is_the_root(root, base, parent, dir);
            if parent.len() > 0 {
                lemma_joined_lies_below(parent, name);
                lemma_lookup_starts_at_the_entry(root, base, dir, parent, at);
            }
            assert(entry_at(root, base, at) == Some(child));
            lemma_walk_sizes_are_measured(
                skip,
                filter,
                root,
                base,
                at,
                child,
                inside_workspace,
                depth,
                i - before.len(),
                k,
            );
        }
    }
}

/// In the scan of a well-formed snapshot every artifact of every reported
/// project carries the size that measuring its path in the snapshot
/// gives.
pub proof fn lemma_scan_sizes_are_measured(
    skip: Seq<Seq<char>>,
    filter: ProjectFilter,
    root_path: Seq<char>,
    root: FsNode,
    inside_workspace: bool,
    depth: Option<usize>,
    i: int,
    k: int,
)
    requires
        well_formed(root),
        0 <= i < walk(skip, filter, root_path, root, inside_workspace, depth).len(),
        0 <= k < walk(skip, filter, root_path, root, inside_workspace, depth)[i].artifacts.len(),
    ensures
        walk(skip, filter, root_path, root, inside_workspace, depth)[i].artifacts[k].size
            == size_at(
            root,
            root_path,
            walk(skip, filter, root_path, root, inside_workspace, depth)[i].artifacts[k].path,
        ),
{
    lemma_directory_is_found_at_its_path(root, root_path);
    lemma_walk_sizes_are_measured(
        skip,
        filter,
        root,
        root_path,
        root_path,
        root,
        inside_workspace,
        depth,
        i,
        k,
    );
}

} // verus!
