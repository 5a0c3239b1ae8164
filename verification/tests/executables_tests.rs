use clean_dev_dirs::executables::{
    preserve_executables, preserve_python_executables, preserve_rust_executables,
    PreservedExecutable,
};
use clean_dev_dirs::project::{BuildArtifacts, Project, ProjectType};
use clean_dev_dirs::snapshot::{FsNode, Snapshot};

/// A path below the root of an in-memory directory tree.
#[derive(Clone, Debug, PartialEq)]
struct TestPath(String);

impl TestPath {
    fn join(&self, rest: &str) -> TestPath {
        TestPath(format!("{}/{}", self.0, rest))
    }

    fn as_str(&self) -> &str {
        &self.0
    }
}

impl PartialEq<TestPath> for String {
    fn eq(&self, other: &TestPath) -> bool {
        *self == other.0
    }
}

/// An in-memory directory tree that stands at a path.
struct TempDir {
    path: TestPath,
    root: FsNode,
}

impl TempDir {
    fn new() -> TempDir {
        TempDir {
            path: TestPath("/tmp/.tmpK3x9Qa".to_string()),
            root: FsNode::dir(".tmpK3x9Qa", Vec::new()),
        }
    }

    fn path(&self) -> TestPath {
        self.path.clone()
    }

    fn snapshot(&self) -> Snapshot {
        Snapshot {
            path: self.path.0.clone(),
            root: copy_tree(&self.root),
            inside_workspace: false,
        }
    }

    fn relative<'a>(&self, path: &'a TestPath) -> &'a str {
        let rest = path.0.strip_prefix(self.path.as_str()).expect("path below the root");
        rest.trim_start_matches('/')
    }

    fn has_path(&self, path: &TestPath) -> bool {
        let mut node = &self.root;
        for name in self.relative(path).split('/').filter(|n| !n.is_empty()) {
            match node.children.iter().find(|c| c.name == name) {
                Some(child) => node = child,
                None => return false,
            }
        }
        true
    }
}

fn copy_tree(node: &FsNode) -> FsNode {
    FsNode {
        name: node.name.clone(),
        kind: node.kind,
        size: node.size,
        content: node.content.clone(),
        executable: node.executable,
        children: node.children.iter().map(copy_tree).collect(),
    }
}

fn dir_at<'a>(root: &'a mut FsNode, rel: &str) -> &'a mut FsNode {
    let mut node = root;
    for name in rel.split('/').filter(|n| !n.is_empty()) {
        let position = node.children.iter().position(|c| c.name == name);
        let index = match position {
            Some(i) => i,
            None => {
                node.children.push(FsNode::dir(name, Vec::new()));
                node.children.len() - 1
            }
        };
        node = &mut node.children[index];
    }
    node
}

/// Helper function to create a directory, with the directories above it.
fn create_dir(tmp: &mut TempDir, path: &TestPath) {
    let rel = tmp.relative(path).to_string();
    dir_at(&mut tmp.root, &rel);
}

/// Helper function to create a file with specified content, with the
/// directories above it.
fn create_file(tmp: &mut TempDir, path: &TestPath, content: &str) {
    let rel = tmp.relative(path).to_string();
    let (parent, name) = match rel.rfind('/') {
        Some(i) => (&rel[..i], &rel[i + 1..]),
        None => ("", rel.as_str()),
    };
    let dir = dir_at(&mut tmp.root, parent);
    dir.children.retain(|c| c.name != name);
    dir.children.push(FsNode::text_file(name, content));
}

/// Writes a file and says whether it may be executed.
fn write_with_mode(tmp: &mut TempDir, path: &TestPath, content: &str, executable: bool) {
    create_file(tmp, path, content);
    let rel = tmp.relative(path).to_string();
    let (parent, name) = match rel.rfind('/') {
        Some(i) => (&rel[..i], &rel[i + 1..]),
        None => ("", rel.as_str()),
    };
    let dir = dir_at(&mut tmp.root, parent);
    for child in dir.children.iter_mut() {
        if child.name == name {
            child.executable = executable;
        }
    }
}

/// Carries out a plan in the tree: copies each file to its destination.
fn carry_out(tmp: &mut TempDir, plan: &[PreservedExecutable]) {
    for copy in plan {
        assert!(tmp.has_path(&TestPath(copy.source.clone())));
        create_file(tmp, &TestPath(copy.destination.clone()), "copy");
    }
}

fn is_there(tmp: &TempDir, path: &str) -> bool {
    tmp.has_path(&TestPath(path.to_string()))
}

fn create_test_project(tmp: &mut TempDir, kind: ProjectType) -> Project {
    let root = tmp.path();
    let build_dir = match kind {
        ProjectType::Rust | ProjectType::Java | ProjectType::Scala => root.join("target"),
        ProjectType::Python => root.join("__pycache__"),
        ProjectType::Node | ProjectType::Deno => root.join("node_modules"),
        ProjectType::Go | ProjectType::Ruby | ProjectType::Php => root.join("vendor"),
        ProjectType::Cpp | ProjectType::Dart => root.join("build"),
        ProjectType::Swift => root.join(".build"),
        ProjectType::DotNet => root.join("obj"),
        ProjectType::Elixir => root.join("_build"),
        ProjectType::Haskell => root.join(".stack-work"),
        ProjectType::Zig => root.join("zig-out"),
    };

    create_dir(tmp, &build_dir);

    Project::new(
        kind,
        root.0.clone(),
        vec![BuildArtifacts {
            path: build_dir.0.clone(),
            size: 0,
        }],
        Some("test-project".to_string()),
    )
}

#[test]
fn test_helpers_build_the_tree() {
    let mut tmp = TempDir::new();
    let file = tmp.path().join("a/b/c.txt");
    create_file(&mut tmp, &file, "x");
    assert!(tmp.has_path(&file));
    assert!(tmp.has_path(&tmp.path().join("a/b")));
    assert!(!tmp.has_path(&tmp.path().join("a/z")));
    let snapshot: Snapshot = tmp.snapshot();
    assert_eq!(snapshot.path, "/tmp/.tmpK3x9Qa");
    assert_eq!(snapshot.root.children.len(), 1);
}

#[test]
fn test_preserve_rust_executables_unix() {
    let mut tmp = TempDir::new();
    let project = create_test_project(&mut tmp, ProjectType::Rust);

    // Create target/release/ with an executable and a metadata file
    let release_dir = tmp.path().join("target/release");
    create_dir(&mut tmp, &release_dir);

    let exe_path = release_dir.join("my-binary");
    write_with_mode(&mut tmp, &exe_path, "fake binary", true);

    let dep_file = release_dir.join("my-binary.d");
    write_with_mode(&mut tmp, &dep_file, "dep info", false);

    let result = preserve_executables(&project, &tmp.root);

    carry_out(&mut tmp, &result);

    assert_eq!(result.len(), 1);
    assert_eq!(result[0].source, exe_path);
    assert_eq!(result[0].destination, tmp.path().join("bin/release/my-binary"));
    assert!(is_there(&tmp, &result[0].destination));
}

#[test]
fn test_preserve_rust_skips_non_executable_unix() {
    let mut tmp = TempDir::new();
    let project = create_test_project(&mut tmp, ProjectType::Rust);

    let release_dir = tmp.path().join("target/release");
    create_dir(&mut tmp, &release_dir);

    // Non-executable file (mode 0o644)
    let non_exe = release_dir.join("some-file");
    write_with_mode(&mut tmp, &non_exe, "not executable", false);

    let result = preserve_executables(&project, &tmp.root);
    assert!(result.is_empty());
}

#[test]
fn test_node_is_noop() {
    let mut tmp = TempDir::new();
    let project = create_test_project(&mut tmp, ProjectType::Node);

    let result = preserve_executables(&project, &tmp.root);
    assert!(result.is_empty());
}

#[test]
fn test_go_is_noop() {
    let mut tmp = TempDir::new();
    let project = create_test_project(&mut tmp, ProjectType::Go);

    let result = preserve_executables(&project, &tmp.root);
    assert!(result.is_empty());
}

#[test]
fn test_every_other_kind_is_noop() {
    for kind in [
        ProjectType::Java,
        ProjectType::Cpp,
        ProjectType::Swift,
        ProjectType::DotNet,
        ProjectType::Ruby,
        ProjectType::Elixir,
        ProjectType::Deno,
        ProjectType::Php,
        ProjectType::Haskell,
        ProjectType::Dart,
        ProjectType::Zig,
        ProjectType::Scala,
    ] {
        let mut tmp = TempDir::new();
        let project = create_test_project(&mut tmp, kind);
        let exe = tmp.path().join("target/release/tool");
        write_with_mode(&mut tmp, &exe, "binary", true);
        let wheel = tmp.path().join("dist/pkg.whl");
        create_file(&mut tmp, &wheel, "wheel");
        assert!(preserve_executables(&project, &tmp.root).is_empty());
    }
}

#[test]
fn test_preserve_rust_no_profile_dirs() {
    let mut tmp = TempDir::new();
    let project = create_test_project(&mut tmp, ProjectType::Rust);

    // target/ exists but no release/ or debug/ subdirs
    let result = preserve_executables(&project, &tmp.root);
    assert!(result.is_empty());
    assert!(!tmp.has_path(&tmp.path().join("bin")));
}

#[test]
fn test_find_multiple_rust_executables_unix() {
    let mut tmp = TempDir::new();
    let project = create_test_project(&mut tmp, ProjectType::Rust);

    let release_dir = tmp.path().join("target/release");
    create_dir(&mut tmp, &release_dir);

    // Create multiple executables
    for name in &["binary-a", "binary-b", "binary-c"] {
        let exe_path = release_dir.join(name);
        write_with_mode(&mut tmp, &exe_path, "fake binary", true);
    }

    let result = preserve_executables(&project, &tmp.root);
    carry_out(&mut tmp, &result);
    assert_eq!(result.len(), 3);

    for preserved in &result {
        assert!(is_there(&tmp, &preserved.destination));
        assert!(preserved
            .destination
            .starts_with(tmp.path().join("bin/release").as_str()));
    }
    let names: Vec<&str> = result.iter().map(|p| p.source.as_str()).collect();
    assert_eq!(
        names,
        vec![
            "/tmp/.tmpK3x9Qa/target/release/binary-a",
            "/tmp/.tmpK3x9Qa/target/release/binary-b",
            "/tmp/.tmpK3x9Qa/target/release/binary-c",
        ]
    );
}

#[test]
fn test_find_rust_executables_excludes_metadata_even_if_executable_unix() {
    let mut tmp = TempDir::new();
    let project = create_test_project(&mut tmp, ProjectType::Rust);

    let release_dir = tmp.path().join("target/release");
    create_dir(&mut tmp, &release_dir);

    // Create files with excluded extensions but with executable permissions
    let excluded_files = [
        "dep.d",
        "lib.rmeta",
        "lib.rlib",
        "archive.a",
        "shared.so",
        "shared.dylib",
        "shared.dll",
        "debug.pdb",
    ];

    for name in &excluded_files {
        let file_path = release_dir.join(name);
        write_with_mode(&mut tmp, &file_path, "fake content", true);
    }

    // Also add a real executable to make sure it IS found
    let exe_path = release_dir.join("real-binary");
    write_with_mode(&mut tmp, &exe_path, "real binary", true);

    let result = preserve_executables(&project, &tmp.root);
    assert_eq!(result.len(), 1);
    assert!(result[0].destination.ends_with("/real-binary"));
}

#[test]
fn test_rust_executable_with_other_extension_or_hidden_name() {
    let mut tmp = TempDir::new();
    let project = create_test_project(&mut tmp, ProjectType::Rust);
    let release_dir = tmp.path().join("target/release");
    // an extension that is not excluded, a hidden name that reads like one,
    // and a directory that may be entered
    write_with_mode(&mut tmp, &release_dir.join("tool.exe"), "binary", true);
    write_with_mode(&mut tmp, &release_dir.join(".d"), "binary", true);
    create_dir(&mut tmp, &release_dir.join("deps"));
    let result = preserve_rust_executables(&project, &tmp.root);
    let names: Vec<&str> = result.iter().map(|p| p.destination.as_str()).collect();
    assert_eq!(
        names,
        vec![
            "/tmp/.tmpK3x9Qa/bin/release/tool.exe",
            "/tmp/.tmpK3x9Qa/bin/release/.d",
        ]
    );
}

#[test]
fn test_preserve_rust_debug_and_release_unix() {
    let mut tmp = TempDir::new();
    let project = create_test_project(&mut tmp, ProjectType::Rust);

    // Create executables in both debug and release
    for profile in &["debug", "release"] {
        let profile_dir = tmp.path().join("target").join(profile);
        create_dir(&mut tmp, &profile_dir);

        let exe_path = profile_dir.join("my-binary");
        write_with_mode(&mut tmp, &exe_path, "fake binary", true);
    }

    let result = preserve_executables(&project, &tmp.root);
    assert_eq!(result.len(), 2);

    // Verify both profiles have preserved executables
    let dest_names: Vec<_> = result.iter().map(|p| p.destination.clone()).collect();
    assert!(dest_names.iter().any(|d| d.contains("bin/release")));
    assert!(dest_names.iter().any(|d| d.contains("bin/debug")));
    // release comes first, whatever the listing order
    assert!(dest_names[0].contains("bin/release"));
}

#[test]
fn test_preserve_python_so_extensions_unix() {
    let mut tmp = TempDir::new();
    let project = create_test_project(&mut tmp, ProjectType::Python);

    // Create a build/ directory with .so extensions
    let build_dir = tmp.path().join("build/lib.linux-x86_64-3.9");
    create_dir(&mut tmp, &build_dir);
    create_file(
        &mut tmp,
        &build_dir.join("mymodule.cpython-39-x86_64-linux-gnu.so"),
        "shared object",
    );
    create_file(&mut tmp, &build_dir.join("another.so"), "shared object");

    let result = preserve_python_executables(&project, &tmp.root);
    carry_out(&mut tmp, &result);
    assert_eq!(result.len(), 2);

    for preserved in &result {
        assert!(is_there(&tmp, &preserved.destination));
        assert!(preserved.destination.starts_with(tmp.path().join("bin").as_str()));
    }
    assert_eq!(result[1].source, build_dir.join("another.so"));
    assert_eq!(result[1].destination, tmp.path().join("bin/another.so"));
}

#[test]
fn test_preserve_python_pyd_extensions_windows() {
    let mut tmp = TempDir::new();
    let project = create_test_project(&mut tmp, ProjectType::Python);

    let build_dir = tmp.path().join("build/lib.win-amd64-3.9");
    create_dir(&mut tmp, &build_dir);
    create_file(
        &mut tmp,
        &build_dir.join("mymodule.cp39-win_amd64.pyd"),
        "python extension",
    );
    create_file(&mut tmp, &build_dir.join("another.pyd"), "python extension");

    let result = preserve_python_executables(&project, &tmp.root);
    carry_out(&mut tmp, &result);
    assert_eq!(result.len(), 2);
    for preserved in &result {
        assert!(is_there(&tmp, &preserved.destination));
    }
}

#[test]
fn test_preserve_python_whl_files() {
    let mut tmp = TempDir::new();
    let project = create_test_project(&mut tmp, ProjectType::Python);

    // Create dist/ with .whl files
    let dist_dir = tmp.path().join("dist");
    create_dir(&mut tmp, &dist_dir);
    create_file(
        &mut tmp,
        &dist_dir.join("mypackage-1.0.0-py3-none-any.whl"),
        "wheel content",
    );
    create_file(&mut tmp, &dist_dir.join("mypackage-1.0.0.tar.gz"), "tarball content");

    let result = preserve_python_executables(&project, &tmp.root);

    // Only .whl should be preserved, not .tar.gz
    assert_eq!(result.len(), 1);
    assert!(result[0].destination.ends_with(".whl"));
}

#[test]
fn test_preserve_python_no_dist_no_build() {
    let mut tmp = TempDir::new();
    let project = create_test_project(&mut tmp, ProjectType::Python);

    // No dist/ or build/ dirs exist
    let result = preserve_python_executables(&project, &tmp.root);
    assert!(result.is_empty());
}

#[test]
fn test_preserve_python_empty_dist_and_build() {
    let mut tmp = TempDir::new();
    let project = create_test_project(&mut tmp, ProjectType::Python);

    // Create empty dist/ and build/ directories
    let base = tmp.path();
    create_dir(&mut tmp, &base.join("dist"));
    create_dir(&mut tmp, &base.join("build"));

    let result = preserve_python_executables(&project, &tmp.root);
    assert!(result.is_empty());
}

#[test]
fn test_preserve_python_whl_and_extensions_combined() {
    let mut tmp = TempDir::new();
    let project = create_test_project(&mut tmp, ProjectType::Python);

    // Create dist/ with .whl files
    let dist_dir = tmp.path().join("dist");
    create_dir(&mut tmp, &dist_dir);
    create_file(&mut tmp, &dist_dir.join("mypackage-1.0.0-py3-none-any.whl"), "wheel");

    // Create build/ with extensions
    let build_dir = tmp.path().join("build/lib");
    create_dir(&mut tmp, &build_dir);
    create_file(&mut tmp, &build_dir.join("native.so"), "shared object");

    let result = preserve_python_executables(&project, &tmp.root);
    // Should find both the .whl and the platform-specific extension
    assert_eq!(result.len(), 2);
    // wheels first, then the extensions
    assert!(result[0].source.ends_with(".whl"));
    assert!(result[1].source.ends_with("native.so"));
}

#[test]
fn test_preserve_executables_returns_correct_source_paths() {
    let mut tmp = TempDir::new();
    let project = create_test_project(&mut tmp, ProjectType::Python);

    let dist_dir = tmp.path().join("dist");
    create_dir(&mut tmp, &dist_dir);
    let whl_path = dist_dir.join("pkg-1.0-py3-none-any.whl");
    create_file(&mut tmp, &whl_path, "wheel content");

    let result = preserve_python_executables(&project, &tmp.root);
    assert_eq!(result.len(), 1);
    assert_eq!(result[0].source, whl_path);
    assert_eq!(
        result[0].destination,
        tmp.path().join("bin/pkg-1.0-py3-none-any.whl")
    );
}

#[test]
fn test_python_extensions_are_found_at_every_depth() {
    let mut tmp = TempDir::new();
    let project = create_test_project(&mut tmp, ProjectType::Python);
    let build = tmp.path().join("build");
    create_file(&mut tmp, &build.join("top.so"), "1");
    create_file(&mut tmp, &build.join("a/mid.pyd"), "2");
    create_file(&mut tmp, &build.join("a/b/deep.so"), "3");
    create_file(&mut tmp, &build.join("a/b/readme.txt"), "4");
    create_dir(&mut tmp, &build.join("dir.so"));
    let result = preserve_python_executables(&project, &tmp.root);
    let sources: Vec<&str> = result.iter().map(|p| p.source.as_str()).collect();
    assert_eq!(
        sources,
        vec![
            "/tmp/.tmpK3x9Qa/build/top.so",
            "/tmp/.tmpK3x9Qa/build/a/mid.pyd",
            "/tmp/.tmpK3x9Qa/build/a/b/deep.so",
        ]
    );
    let destinations: Vec<&str> = result.iter().map(|p| p.destination.as_str()).collect();
    assert_eq!(
        destinations,
        vec![
            "/tmp/.tmpK3x9Qa/bin/top.so",
            "/tmp/.tmpK3x9Qa/bin/mid.pyd",
            "/tmp/.tmpK3x9Qa/bin/deep.so",
        ]
    );
}

#[test]
fn test_preserve_rust_executables_windows() {
    let mut tmp = TempDir::new();
    let project = create_test_project(&mut tmp, ProjectType::Rust);

    let release_dir = tmp.path().join("target/release");
    create_dir(&mut tmp, &release_dir);

    // On Windows, executables have the .exe extension
    let exe_path = release_dir.join("my-binary.exe");
    write_with_mode(&mut tmp, &exe_path, "fake binary", true);

    let dep_file = release_dir.join("my-binary.d");
    write_with_mode(&mut tmp, &dep_file, "dep info", false);

    let result = preserve_executables(&project, &tmp.root);

    carry_out(&mut tmp, &result);

    assert_eq!(result.len(), 1);
    assert_eq!(
        result[0].destination,
        tmp.path().join("bin/release/my-binary.exe")
    );
    assert!(is_there(&tmp, &result[0].destination));
}

#[test]
fn test_preserve_rust_skips_non_executable_windows() {
    let mut tmp = TempDir::new();
    let project = create_test_project(&mut tmp, ProjectType::Rust);

    let release_dir = tmp.path().join("target/release");
    create_dir(&mut tmp, &release_dir);

    // On Windows, a file without .exe extension is not treated as executable
    let non_exe = release_dir.join("some-file.txt");
    write_with_mode(&mut tmp, &non_exe, "not executable", false);

    let result = preserve_executables(&project, &tmp.root);
    assert!(result.is_empty());
}

#[test]
fn test_preserve_rust_debug_and_release_windows() {
    let mut tmp = TempDir::new();
    let project = create_test_project(&mut tmp, ProjectType::Rust);

    for profile in &["debug", "release"] {
        let profile_dir = tmp.path().join("target").join(profile);
        create_dir(&mut tmp, &profile_dir);

        let exe_path = profile_dir.join("my-binary.exe");
        write_with_mode(&mut tmp, &exe_path, "fake binary", true);
    }

    let result = preserve_executables(&project, &tmp.root);
    assert_eq!(result.len(), 2);

    let dest_names: Vec<_> = result.iter().map(|p| p.destination.clone()).collect();
    assert!(dest_names.iter().any(|d| d.contains("release")));
    assert!(dest_names.iter().any(|d| d.contains("debug")));
}

#[test]
fn test_find_rust_executables_excludes_metadata_windows() {
    let mut tmp = TempDir::new();
    let project = create_test_project(&mut tmp, ProjectType::Rust);

    let release_dir = tmp.path().join("target/release");
    create_dir(&mut tmp, &release_dir);

    // Files with excluded extensions should be skipped
    write_with_mode(&mut tmp, &release_dir.join("dep.d"), "dep info", false);
    write_with_mode(&mut tmp, &release_dir.join("lib.dll"), "library", false);
    write_with_mode(&mut tmp, &release_dir.join("debug.pdb"), "symbols", false);
    write_with_mode(&mut tmp, &release_dir.join("lib.rlib"), "rust lib", false);

    // Only .exe should be found
    write_with_mode(&mut tmp, &release_dir.join("my-binary.exe"), "real binary", true);

    let result = preserve_executables(&project, &tmp.root);
    assert_eq!(result.len(), 1);
    assert!(result[0].destination.ends_with("/my-binary.exe"));
}

#[test]
fn test_find_multiple_rust_executables_windows() {
    let mut tmp = TempDir::new();
    let project = create_test_project(&mut tmp, ProjectType::Rust);

    let release_dir = tmp.path().join("target/release");
    create_dir(&mut tmp, &release_dir);

    // Create multiple .exe files
    for name in &["binary-a.exe", "binary-b.exe", "binary-c.exe"] {
        write_with_mode(&mut tmp, &release_dir.join(name), "fake binary", true);
    }

    let result = preserve_executables(&project, &tmp.root);
    assert_eq!(result.len(), 3);
}
