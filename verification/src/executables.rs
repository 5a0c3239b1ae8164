//! Which files are copied out of the artifacts before these are removed.
//!
//! The library plans; its caller copies. The plan names, for each file worth
//! keeping, where it is and where it goes below `<project root>/bin/`.

use vstd::prelude::*;
use crate::path::{extension, extension_of, join, joined};
use crate::project::project::{Project, ProjectType, ProjectView};
use crate::snapshot::{entry_at, find_entry, EntryKind, FsNode};
use crate::text::str_eq;

verus! {
/// A record of a single preserved executable file.
#[derive(Debug)]
pub struct PreservedExecutable {
    /// Path of the file inside the build directory
    pub source: String,
    /// Destination path where the file is copied
    pub destination: String,
}

/// What a `PreservedExecutable` value holds.
pub struct CopyView {
    pub source: Seq<char>,
    pub destination: Seq<char>,
}

impl View for PreservedExecutable {
    type V = CopyView;

    open spec fn view(&self) -> CopyView {
        CopyView { source: self.source@, destination: self.destination@ }
    }
}

/// The views of a sequence of copies.
pub open spec fn copy_views(cs: Seq<PreservedExecutable>) -> Seq<CopyView> {
    cs.map_values(|c: PreservedExecutable| c@)
}

/// Whether a file extension marks build metadata or a library rather than
/// a program built by Cargo.
pub open spec fn is_rust_excluded_extension(ext: Seq<char>) -> bool {
    ext == "d"@ || ext == "rmeta"@ || ext == "rlib"@ || ext == "a"@ || ext == "so"@ || ext
        == "dylib"@ || ext == "dll"@ || ext == "pdb"@
}

/// Whether an entry of a Cargo profile directory is a program: a regular
/// file that may be executed and whose extension is not excluded.
pub open spec fn is_rust_executable(e: FsNode) -> bool {
    e.kind == EntryKind::File && e.executable && match extension_of(e.name@) {
        Some(ext) => !is_rust_excluded_extension(ext),
        None => true,
    }
}

/// The copy of the entry named `name` from `from` to `to`.
pub open spec fn copy_of(name: Seq<char>, from: Seq<char>, to: Seq<char>) -> CopyView {
    CopyView { source: joined(from, name), destination: joined(to, name) }
}

/// The copies of the programs among `entries`, in listing order.
pub open spec fn program_copies(entries: Seq<FsNode>, from: Seq<char>, to: Seq<char>) -> Seq<
    CopyView,
>
    decreases entries.len(),
{
    if entries.len() == 0 {
        Seq::empty()
    } else {
        let before = program_copies(entries.drop_last(), from, to);
        if is_rust_executable(entries.last()) {
            before.push(copy_of(entries.last().name@, from, to))
        } else {
            before
        }
    }
}

/// The copies for one Cargo profile: its programs go to `bin/<profile>/`.
pub open spec fn profile_copies(p: ProjectView, root: FsNode, profile: Seq<char>) -> Seq<CopyView> {
    if p.artifacts.len() == 0 {
        Seq::empty()
    } else {
        let from = joined(p.artifacts[0].path, profile);
        match entry_at(root, p.root_path, from) {
            Some(dir) => if dir.kind == EntryKind::Dir {
                program_copies(dir.children@, from, joined(joined(p.root_path, "bin"@), profile))
            } else {
                Seq::empty()
            },
            None => Seq::empty(),
        }
    }
}

/// The copies for a Rust project: the programs of `target/release/` and
/// of `target/debug/`.
pub open spec fn rust_copies(p: ProjectView, root: FsNode) -> Seq<CopyView> {
    profile_copies(p, root, "release"@) + profile_copies(p, root, "debug"@)
}

/// The copies of the wheels among `entries`, in listing order.
pub open spec fn wheel_copies(entries: Seq<FsNode>, from: Seq<char>, to: Seq<char>) -> Seq<CopyView>
    decreases entries.len(),
{
    if entries.len() == 0 {
        Seq::empty()
    } else {
        let before = wheel_copies(entries.drop_last(), from, to);
        if extension_of(entries.last().name@) == Some("whl"@) {
            before.push(copy_of(entries.last().name@, from, to))
        } else {
            before
        }
    }
}

/// Whether an entry is a compiled Python extension.
pub open spec fn is_native_extension(e: FsNode) -> bool {
    e.kind == EntryKind::File && (extension_of(e.name@) == Some("so"@) || extension_of(e.name@)
        == Some("pyd"@))
}

/// The copies of the compiled extensions in the tree of `node`, which
/// stands at `path`: a directory before its entries, these in listing
/// order; all of them go to `to`.
pub open spec fn extension_copies(node: FsNode, path: Seq<char>, to: Seq<char>) -> Seq<CopyView>
    decreases node,
{
    if is_native_extension(node) {
        seq![CopyView { source: path, destination: joined(to, node.name@) }]
    } else if node.kind == EntryKind::Dir {
        extension_copies_in(node.children@, path, to)
    } else {
        Seq::empty()
    }
}

/// The copies of the compiled extensions in the trees of `entries`, which
/// stand in the directory at `parent`.
pub open spec fn extension_copies_in(entries: Seq<FsNode>, parent: Seq<char>, to: Seq<char>) -> Seq<
    CopyView,
>
    decreases entries,
{
    if entries.len() == 0 {
        Seq::empty()
    } else {
        extension_copies_in(entries.drop_last(), parent, to) + extension_copies(
            entries.last(),
            joined(parent, entries.last().name@),
            to,
        )
    }
}

/// The copies for a Python project: the wheels of `dist/` and the compiled
/// extensions below `build/`.
pub open spec fn python_copies(p: ProjectView, root: FsNode) -> Seq<CopyView> {
    let bin = joined(p.root_path, "bin"@);
    (match root.entry("dist"@) {
        Some(dist) => if dist.kind == EntryKind::Dir {
            wheel_copies(dist.children@, joined(p.root_path, "dist"@), bin)
        } else {
            Seq::empty()
        },
        None => Seq::empty(),
    }) + (match root.entry("build"@) {
        Some(build) => if build.kind == EntryKind::Dir {
            extension_copies_in(build.children@, joined(p.root_path, "build"@), bin)
        } else {
            Seq::empty()
        },
        None => Seq::empty(),
    })
}

/// The copies to make before a project is cleaned; only Rust and Python
/// projects have any.
pub open spec fn planned_copies(p: ProjectView, root: FsNode) -> Seq<CopyView> {
    match p.kind {
        ProjectType::Rust => rust_copies(p, root),
        ProjectType::Python => python_copies(p, root),
        _ => Seq::empty(),
    }
}

/// Whether an entry of a Cargo profile directory is a program.
fn is_program(e: &FsNode) -> (r: bool)
    ensures
        r == is_rust_executable(*e),
{
    if e.kind != EntryKind::File || !e.executable {
        return false;
    }
    match extension(e.name.as_str()) {
        Some(ext) => {
            let x = ext.as_str();
            !(str_eq(x, "d") || str_eq(x, "rmeta") || str_eq(x, "rlib") || str_eq(x, "a")
                || str_eq(x, "so") || str_eq(x, "dylib") || str_eq(x, "dll") || str_eq(x, "pdb"))
        },
        None => true,
    }
}

/// Whether the name of an entry has the extension `ext`.
fn named_with_extension(e: &FsNode, ext: &str) -> (r: bool)
    ensures
        r == (extension_of(e.name@) == Some(ext@)),
{
    match extension(e.name.as_str()) {
        Some(found) => str_eq(found.as_str(), ext),
        None => false,
    }
}

/// Record a single file to copy, from `source` to `destination`.
pub fn copy_to_bin(list: &mut Vec<PreservedExecutable>, source: String, destination: String)
    ensures
        copy_views(final(list)@) == copy_views(old(list)@).push(
            CopyView { source: source@, destination: destination@ },
        ),
{
    list.push(PreservedExecutable { source, destination });
}

/// Find executable files in a Rust profile directory (e.g.
/// `target/release/`), each with the place in `to` where it goes.
pub fn find_rust_executables(dir: &FsNode, from: &str, to: &str, list: &mut Vec<
    PreservedExecutable,
>)
    ensures
        copy_views(final(list)@) == copy_views(old(list)@) + program_copies(
            dir.children@,
            from@,
            to@,
        ),
{
    let ghost start = copy_views(list@);
    let ghost entries = dir.children@;
    let mut i: usize = 0;
    while i < dir.children.len()
        invariant
            i <= dir.children.len(),
            entries == dir.children@,
            copy_views(list@) == start + program_copies(entries.take(i as int), from@, to@),
        decreases dir.children.len() - i,
    {
        let e = &dir.children[i];
        proof {
            assert(entries.take(i + 1).drop_last() =~= entries.take(i as int));
        }
        if is_program(e) {
            copy_to_bin(list, join(from, e.name.as_str()), join(to, e.name.as_str()));
        }
        i += 1;
    }
    assert(entries.take(entries.len() as int) =~= entries);
}

/// The copies for one Cargo profile.
fn preserve_profile(project: &Project, root: &FsNode, profile: &str, list: &mut Vec<
    PreservedExecutable,
>)
    ensures
        copy_views(final(list)@) == copy_views(old(list)@) + profile_copies(
            project@,
            *root,
            profile@,
        ),
{
    if project.build_arts.len() == 0 {
        return ;
    }
    let from = join(project.build_arts[0].path.as_str(), profile);
    match find_entry(root, project.root_path.as_str(), from.as_str()) {
        Some(dir) => {
            if dir.kind == EntryKind::Dir {
                let to = join(join(project.root_path.as_str(), "bin").as_str(), profile);
                find_rust_executables(dir, from.as_str(), to.as_str(), list);
            }
        },
        None => {},
    }
}

/// Preserve Rust executables from `target/release/` and `target/debug/`.
pub fn preserve_rust_executables(project: &Project, root: &FsNode) -> (r: Vec<PreservedExecutable>)
    ensures
        copy_views(r@) == rust_copies(project@, *root),
{
    let mut list: Vec<PreservedExecutable> = Vec::new();
    preserve_profile(project, root, "release", &mut list);
    preserve_profile(project, root, "debug", &mut list);
    list
}

/// Collect the `.whl` wheel files of the `dist/` directory.
pub fn collect_wheel_files(dist: &FsNode, from: &str, to: &str, list: &mut Vec<
    PreservedExecutable,
>)
    ensures
        copy_views(final(list)@) == copy_views(old(list)@) + wheel_copies(
            dist.children@,
            from@,
            to@,
        ),
{
    let ghost start = copy_views(list@);
    let ghost entries = dist.children@;
    let mut i: usize = 0;
    while i < dist.children.len()
        invariant
            i <= dist.children.len(),
            entries == dist.children@,
            copy_views(list@) == start + wheel_copies(entries.take(i as int), from@, to@),
        decreases dist.children.len() - i,
    {
        let e = &dist.children[i];
        proof {
            assert(entries.take(i + 1).drop_last() =~= entries.take(i as int));
        }
        if named_with_extension(e, "whl") {
            copy_to_bin(list, join(from, e.name.as_str()), join(to, e.name.as_str()));
        }
        i += 1;
    }
    assert(entries.take(entries.len() as int) =~= entries);
}

/// Collect the compiled extensions in the tree of `node`.
fn collect_from(node: &FsNode, path: &str, to: &str, list: &mut Vec<PreservedExecutable>)
    ensures
        copy_views(final(list)@) == copy_views(old(list)@) + extension_copies(*node, path@, to@),
    decreases *node,
{
    let native = node.kind == EntryKind::File && (named_with_extension(node, "so")
        || named_with_extension(node, "pyd"));
    if native {
        copy_to_bin(list, path.to_owned(), join(to, node.name.as_str()));
    } else if node.kind == EntryKind::Dir {
        collect_native_extensions(node, path, to, list);
    }
}

/// Collect the `.so` / `.pyd` extension files below the directory `dir`,
/// which stands at `path`.
pub fn collect_native_extensions(dir: &FsNode, path: &str, to: &str, list: &mut Vec<
    PreservedExecutable,
>)
    ensures
        copy_views(final(list)@) == copy_views(old(list)@) + extension_copies_in(
            dir.children@,
            path@,
            to@,
        ),
    decreases *dir, 0nat,
{
    let ghost start = copy_views(list@);
    let ghost entries = dir.children@;
    let mut i: usize = 0;
    while i < dir.children.len()
        invariant
            i <= dir.children.len(),
            entries == dir.children@,
            copy_views(list@) == start + extension_copies_in(entries.take(i as int), path@, to@),
        decreases dir.children.len() - i,
    {
        let e = &dir.children[i];
        let child_path = join(path, e.name.as_str());
        proof {
            assert(entries.take(i + 1).drop_last() =~= entries.take(i as int));
        }
        collect_from(e, child_path.as_str(), to, list);
        proof {
            let done = extension_copies_in(entries.take(i as int), path@, to@);
            let next = extension_copies(*e, child_path@, to@);
        }
        i += 1;
    }
    assert(entries.take(entries.len() as int) =~= entries);
}

/// Preserve Python build outputs: `.whl` from `dist/` and C extensions from `build/`.
pub fn preserve_python_executables(project: &Project, root: &FsNode) -> (r: Vec<
    PreservedExecutable,
>)
    ensures
        copy_views(r@) == python_copies(project@, *root),
{
    let bin = join(project.root_path.as_str(), "bin");
    let mut list: Vec<PreservedExecutable> = Vec::new();
    match root.child("dist") {
        Some(dist) => {
            if dist.kind == EntryKind::Dir {
                let from = join(project.root_path.as_str(), "dist");
                collect_wheel_files(dist, from.as_str(), bin.as_str(), &mut list);
            }
        },
        None => {},
    }
    match root.child("build") {
        Some(build) => {
            if build.kind == EntryKind::Dir {
                let from = join(project.root_path.as_str(), "build");
                collect_native_extensions(build, from.as_str(), bin.as_str(), &mut list);
            }
        },
        None => {},
    }
    list
}

/// Preserve compiled executables from a project's build directory: the
/// files to copy to `<project root>/bin/` before the artifacts are removed,
/// as found in `root`, the snapshot of the project's root directory.
pub fn preserve_executables(project: &Project, root: &FsNode) -> (r: Vec<PreservedExecutable>)
    ensures
        copy_views(r@) == planned_copies(project@, *root),
{
    match project.kind {
        ProjectType::Rust => preserve_rust_executables(project, root),
        ProjectType::Python => preserve_python_executables(project, root),
        _ => {
            let list: Vec<PreservedExecutable> = Vec::new();
            list
        },
    }
}

} // verus!
