use clean_dev_dirs::config::{ProjectFilter, ScanOptions};
use clean_dev_dirs::project::ProjectType;
use clean_dev_dirs::scanner::Scanner;
use clean_dev_dirs::snapshot::{FsNode, Snapshot};

/// A path below the root of an in-memory directory tree.
#[derive(Clone, Debug, PartialEq)]
struct TestPath(String);

impl TestPath {
    fn join(&self, rest: &str) -> TestPath {
        TestPath(format!("{}/{}", self.0, rest))
    }

    fn as_str(&self) -> &str {
        &self.0
    }
}

impl PartialEq<TestPath> for String {
    fn eq(&self, other: &TestPath) -> bool {
        *self == other.0
    }
}

/// An in-memory directory tree that stands at a path.
struct TempDir {
    path: TestPath,
    root: FsNode,
}

impl TempDir {
    fn new() -> TempDir {
        TempDir {
            path: TestPath("/tmp/.tmpK3x9Qa".to_string()),
            root: FsNode::dir(".tmpK3x9Qa", Vec::new()),
        }
    }

    fn path(&self) -> TestPath {
        self.path.clone()
    }

    fn snapshot(&self) -> Snapshot {
        Snapshot {
            path: self.path.0.clone(),
            root: copy_tree(&self.root),
            inside_workspace: false,
        }
    }

    fn relative<'a>(&self, path: &'a TestPath) -> &'a str {
        let rest = path.0.strip_prefix(self.path.as_str()).expect("path below the root");
        rest.trim_start_matches('/')
    }

    fn has_path(&self, path: &TestPath) -> bool {
        let mut node = &self.root;
        for name in self.relative(path).split('/').filter(|n| !n.is_empty()) {
            match node.children.iter().find(|c| c.name == name) {
                Some(child) => node = child,
                None => return false,
            }
        }
        true
    }
}

fn copy_tree(node: &FsNode) -> FsNode {
    FsNode {
        name: node.name.clone(),
        kind: node.kind,
        size: node.size,
        content: node.content.clone(),
        executable: node.executable,
        children: node.children.iter().map(copy_tree).collect(),
    }
}

fn dir_at<'a>(root: &'a mut FsNode, rel: &str) -> &'a mut FsNode {
    let mut node = root;
    for name in rel.split('/').filter(|n| !n.is_empty()) {
        let position = node.children.iter().position(|c| c.name == name);
        let index = match position {
            Some(i) => i,
            None => {
                node.children.push(FsNode::dir(name, Vec::new()));
                node.children.len() - 1
            }
        };
        node = &mut node.children[index];
    }
    node
}

/// Helper function to create a directory, with the directories above it.
fn create_dir(tmp: &mut TempDir, path: &TestPath) {
    let rel = tmp.relative(path).to_string();
    dir_at(&mut tmp.root, &rel);
}

/// Helper function to create a file with specified content, with the
/// directories above it.
fn create_file(tmp: &mut TempDir, path: &TestPath, content: &str) {
    let rel = tmp.relative(path).to_string();
    let (parent, name) = match rel.rfind('/') {
        Some(i) => (&rel[..i], &rel[i + 1..]),
        None => ("", rel.as_str()),
    };
    let dir = dir_at(&mut tmp.root, parent);
    dir.children.retain(|c| c.name != name);
    dir.children.push(FsNode::text_file(name, content));
}

impl TempDir {
    fn node_at(&self, path: &TestPath) -> &FsNode {
        let mut node = &self.root;
        for name in self.relative(path).split('/').filter(|n| !n.is_empty()) {
            node = node.children.iter().find(|c| c.name == name).expect("entry in the tree");
        }
        node
    }

    fn snapshot_at(&self, path: &TestPath) -> Snapshot {
        Snapshot {
            path: path.0.clone(),
            root: copy_tree(self.node_at(path)),
            inside_workspace: false,
        }
    }
}

/// Carries out a plan in the tree: copies each file to its destination.
fn carry_out(tmp: &mut TempDir, plan: &[clean_dev_dirs::executables::PreservedExecutable]) {
    for copy in plan {
        assert!(tmp.has_path(&TestPath(copy.source.clone())));
        create_file(tmp, &TestPath(copy.destination.clone()), "copy");
    }
}

/// Marks the file at `path` as executable.
fn set_executable(tmp: &mut TempDir, path: &TestPath) {
    let rel = tmp.relative(path).to_string();
    let (parent, name) = match rel.rfind('/') {
        Some(i) => (&rel[..i], &rel[i + 1..]),
        None => ("", rel.as_str()),
    };
    let dir = dir_at(&mut tmp.root, parent);
    for child in dir.children.iter_mut() {
        if child.name == name {
            child.executable = true;
        }
    }
}

/// Create a mock Rust project with Cargo.toml and target/ directory
fn create_rust_project(tmp: &mut TempDir, base_path: &TestPath, project_name: &str) -> TestPath {
    let project_path = base_path.join(project_name);

    // Create Cargo.toml
    let cargo_toml_content = format!(
        r#"[package]
name = "{project_name}"
version = "0.1.0"
edition = "2021"

[dependencies]
"#
    );
    create_file(tmp, &project_path.join("Cargo.toml"), &cargo_toml_content);

    // Create target directory with some files
    let target_path = project_path.join("target");
    create_dir(tmp, &target_path);
    create_file(tmp, &target_path.join("debug").join("build.log"),
        "Build log content",
    );
    create_file(tmp, &target_path.join("release").join("binary"),
        "Binary content",
    );

    project_path
}

/// Create a mock Node.js project with package.json and `node_modules`/ directory
fn create_node_project(tmp: &mut TempDir, base_path: &TestPath, project_name: &str) -> TestPath {
    let project_path = base_path.join(project_name);

    // Create package.json
    let package_json_content = format!(
        r#"{{
  "name": "{project_name}",
  "version": "1.0.0",
  "description": "Test Node.js project",
  "main": "index.js",
  "dependencies": {{
    "express": "^4.18.0"
  }}
}}"#
    );
    create_file(tmp, &project_path.join("package.json"), &package_json_content);

    // Create node_modules directory with some files
    let node_modules_path = project_path.join("node_modules");
    create_dir(tmp, &node_modules_path);
    create_file(tmp, &node_modules_path.join("express").join("package.json"),
        "{}",
    );
    create_file(tmp, &node_modules_path.join(".bin").join("express"),
        "#!/bin/bash",
    );

    project_path
}

/// Create a mock Python project with requirements.txt and __pycache__/ directory
fn create_python_project(tmp: &mut TempDir, base_path: &TestPath, project_name: &str) -> TestPath {
    let project_path = base_path.join(project_name);

    // Create requirements.txt
    create_file(tmp, &project_path.join("requirements.txt"),
        "requests==2.28.0\nflask==2.3.0\n",
    );

    // Create __pycache__ directory with some files
    let pycache_path = project_path.join("__pycache__");
    create_dir(tmp, &pycache_path);
    create_file(tmp, &pycache_path.join("main.cpython-39.pyc"), "Python bytecode");
    create_file(tmp, &pycache_path.join("utils.cpython-39.pyc"),
        "Python bytecode",
    );

    project_path
}

/// Create a mock Go project with go.mod and vendor/ directory
fn create_go_project(tmp: &mut TempDir, base_path: &TestPath, project_name: &str) -> TestPath {
    let project_path = base_path.join(project_name);

    // Create go.mod
    let go_mod_content = format!(
        r"module {project_name}

go 1.19

require (
    github.com/gin-gonic/gin v1.9.0
)
"
    );
    create_file(tmp, &project_path.join("go.mod"), &go_mod_content);

    // Create vendor directory with some files
    let vendor_path = project_path.join("vendor");
    create_dir(tmp, &vendor_path);
    create_file(tmp, &vendor_path
            .join("github.com")
            .join("gin-gonic")
            .join("gin")
            .join("gin.go"),
        "package gin",
    );

    project_path
}

#[test]
fn test_scanner_finds_rust_projects() {
    let mut tmp = TempDir::new();
    let base_path = tmp.path();

    // Create test projects
    create_rust_project(&mut tmp, &base_path, "rust-project-1");
    create_rust_project(&mut tmp, &base_path, "rust-project-2");

    let scan_options = ScanOptions {
        verbose: false,
        threads: 1,
        skip: vec![],
        max_depth: None,
    };

    let scanner = Scanner::new(scan_options, ProjectFilter::Rust);
    let projects = scanner.scan_directory(&tmp.snapshot_at(&base_path));

    assert_eq!(projects.len(), 2);

    for project in &projects {
        assert_eq!(project.kind, ProjectType::Rust);
        assert!(project.name.is_some());
        assert!(project.build_arts[0].path.ends_with("target"));
        assert!(project.total_size() > 0);
    }
}

#[test]
fn test_scanner_finds_node_projects() {
    let mut tmp = TempDir::new();
    let base_path = tmp.path();

    // Create test projects
    create_node_project(&mut tmp, &base_path, "node-app-1");
    create_node_project(&mut tmp, &base_path, "node-app-2");

    let scan_options = ScanOptions {
        verbose: false,
        threads: 1,
        skip: vec![],
        max_depth: None,
    };

    let scanner = Scanner::new(scan_options, ProjectFilter::Node);
    let projects = scanner.scan_directory(&tmp.snapshot_at(&base_path));

    assert_eq!(projects.len(), 2);

    for project in &projects {
        assert_eq!(project.kind, ProjectType::Node);
        assert!(project.name.is_some());
        assert!(project.build_arts[0].path.ends_with("node_modules"));
        assert!(project.total_size() > 0);
    }
}

#[test]
fn test_scanner_finds_python_projects() {
    let mut tmp = TempDir::new();
    let base_path = tmp.path();

    // Create test projects
    create_python_project(&mut tmp, &base_path, "python-app-1");
    create_python_project(&mut tmp, &base_path, "python-app-2");

    let scan_options = ScanOptions {
        verbose: false,
        threads: 1,
        skip: vec![],
        max_depth: None,
    };

    let scanner = Scanner::new(scan_options, ProjectFilter::Python);
    let projects = scanner.scan_directory(&tmp.snapshot_at(&base_path));

    assert_eq!(projects.len(), 2);

    for project in &projects {
        assert_eq!(project.kind, ProjectType::Python);
        assert!(
            project
                .build_arts
                .iter()
                .any(|a| a.path.ends_with("__pycache__"))
        );
        assert!(project.total_size() > 0);
    }
}

#[test]
fn test_scanner_finds_go_projects() {
    let mut tmp = TempDir::new();
    let base_path = tmp.path();

    // Create test projects
    create_go_project(&mut tmp, &base_path, "go-service-1");
    create_go_project(&mut tmp, &base_path, "go-service-2");

    let scan_options = ScanOptions {
        verbose: false,
        threads: 1,
        skip: vec![],
        max_depth: None,
    };

    let scanner = Scanner::new(scan_options, ProjectFilter::Go);
    let projects = scanner.scan_directory(&tmp.snapshot_at(&base_path));

    assert_eq!(projects.len(), 2);

    for project in &projects {
        assert_eq!(project.kind, ProjectType::Go);
        assert!(project.name.is_some());
        assert!(project.build_arts[0].path.ends_with("vendor"));
        assert!(project.total_size() > 0);
    }
}

#[test]
fn test_scanner_finds_all_project_types() {
    let mut tmp = TempDir::new();
    let base_path = tmp.path();

    // Create one of each project type
    create_rust_project(&mut tmp, &base_path, "rust-project");
    create_node_project(&mut tmp, &base_path, "node-project");
    create_python_project(&mut tmp, &base_path, "python-project");
    create_go_project(&mut tmp, &base_path, "go-project");

    let scan_options = ScanOptions {
        verbose: false,
        threads: 1,
        skip: vec![],
        max_depth: None,
    };

    let scanner = Scanner::new(scan_options, ProjectFilter::All);
    let projects = scanner.scan_directory(&tmp.snapshot_at(&base_path));

    assert_eq!(projects.len(), 4);

    let mut found_types = vec![];
    for project in &projects {
        found_types.push(project.kind.clone());
    }

    assert!(found_types.contains(&ProjectType::Rust));
    assert!(found_types.contains(&ProjectType::Node));
    assert!(found_types.contains(&ProjectType::Python));
    assert!(found_types.contains(&ProjectType::Go));
}

#[test]
fn test_scanner_skips_directories() {
    let mut tmp = TempDir::new();
    let base_path = tmp.path();

    // Create projects in various subdirectories
    create_rust_project(&mut tmp, &base_path, "rust-project");
    create_rust_project(&mut tmp, &base_path.join("target"), "nested-rust-project");
    create_rust_project(&mut tmp, &base_path.join("skip-me"), "skipped-rust-project");

    let scan_options = ScanOptions {
        verbose: false,
        threads: 1,
        skip: vec!["skip-me".to_string(), "target".to_string()],
        max_depth: None,
    };

    let scanner = Scanner::new(scan_options, ProjectFilter::Rust);
    let projects = scanner.scan_directory(&tmp.snapshot_at(&base_path));

    // Should only find the top-level project, not the ones in skipped directories
    assert_eq!(projects.len(), 1);
    assert!(projects[0].root_path.ends_with("rust-project"));
}

#[test]
fn test_scanner_calculates_build_directory_sizes() {
    let mut tmp = TempDir::new();
    let base_path = tmp.path();

    let project_path = create_rust_project(&mut tmp, &base_path, "rust-project");
    let target_path = project_path.join("target");

    // Add more files with known sizes
    create_file(&mut tmp, &target_path.join("large-file.bin"), &"x".repeat(1000));
    create_file(&mut tmp, &target_path.join("small-file.txt"), "small");

    let scan_options = ScanOptions {
        verbose: false,
        threads: 1,
        skip: vec![],
        max_depth: None,
    };

    let scanner = Scanner::new(scan_options, ProjectFilter::Rust);
    let projects = scanner.scan_directory(&tmp.snapshot_at(&base_path));

    assert_eq!(projects.len(), 1);

    let project = &projects[0];
    assert!(project.total_size() > 1000); // Should include our large file
}

#[test]
fn test_scanner_handles_empty_directories() {
    let mut tmp = TempDir::new();
    let base_path = tmp.path();

    // Create a project structure but with empty build directories
    let project_path = base_path.join("empty-rust-project");
    create_file(&mut tmp, &project_path.join("Cargo.toml"),
        "[package]\nname = \"empty\"\nversion = \"0.1.0\"",
    );
    create_dir(&mut tmp, &project_path.join("target")); // Empty target directory

    let scan_options = ScanOptions {
        verbose: false,
        threads: 1,
        skip: vec![],
        max_depth: None,
    };

    let scanner = Scanner::new(scan_options, ProjectFilter::Rust);
    let projects = scanner.scan_directory(&tmp.snapshot_at(&base_path));

    // Empty target directories should not be included (size = 0)
    assert_eq!(projects.len(), 0);
}

#[test]
fn test_scanner_handles_missing_build_directories() {
    let mut tmp = TempDir::new();
    let base_path = tmp.path();

    // Create project configuration but no build directory
    let project_path = base_path.join("no-target-project");
    create_file(&mut tmp, &project_path.join("Cargo.toml"),
        "[package]\nname = \"no-target\"\nversion = \"0.1.0\"",
    );
    // No target directory created

    let scan_options = ScanOptions {
        verbose: false,
        threads: 1,
        skip: vec![],
        max_depth: None,
    };

    let scanner = Scanner::new(scan_options, ProjectFilter::Rust);
    let projects = scanner.scan_directory(&tmp.snapshot_at(&base_path));

    // Projects without build directories should not be found
    assert_eq!(projects.len(), 0);
}

#[test]
fn test_scanner_nested_projects() {
    let mut tmp = TempDir::new();
    let base_path = tmp.path();

    // Create nested project structure
    create_rust_project(&mut tmp, &base_path, "parent-project");
    create_rust_project(&mut tmp, &base_path.join("parent-project"), "child-project");
    create_node_project(&mut tmp, &base_path.join("parent-project").join("frontend"), "ui-app");

    let scan_options = ScanOptions {
        verbose: false,
        threads: 1,
        skip: vec![],
        max_depth: None,
    };

    let scanner = Scanner::new(scan_options, ProjectFilter::All);
    let projects = scanner.scan_directory(&tmp.snapshot_at(&base_path));

    // Should find all 3 projects (2 Rust + 1 Node.js)
    assert_eq!(projects.len(), 3);

    let rust_count = projects
        .iter()
        .filter(|p| p.kind == ProjectType::Rust)
        .count();
    let node_count = projects
        .iter()
        .filter(|p| p.kind == ProjectType::Node)
        .count();

    assert_eq!(rust_count, 2);
    assert_eq!(node_count, 1);
}

#[test]
fn test_scanner_with_multiple_threads() {
    let mut tmp = TempDir::new();
    let base_path = tmp.path();

    // Create multiple projects
    for i in 0..10 {
        create_rust_project(&mut tmp, &base_path, &format!("rust-project-{i}"));
        create_node_project(&mut tmp, &base_path, &format!("node-project-{i}"));
    }

    let scan_options = ScanOptions {
        verbose: false,
        threads: 4, // Use multiple threads
        skip: vec![],
        max_depth: None,
    };

    let scanner = Scanner::new(scan_options, ProjectFilter::All);
    let projects = scanner.scan_directory(&tmp.snapshot_at(&base_path));

    // Should find all 20 projects (10 Rust + 10 Node.js)
    assert_eq!(projects.len(), 20);
}



// Cross-platform path handling tests

#[test]
fn test_scanner_with_spaces_in_directory_names() {
    let mut tmp = TempDir::new();
    let base = tmp.path().join("directory with spaces");
    create_dir(&mut tmp, &base);

    create_rust_project(&mut tmp, &base, "spaced rust project");
    create_node_project(&mut tmp, &base, "spaced node project");

    let scan_options = ScanOptions {
        verbose: false,
        threads: 1,
        skip: vec![],
        max_depth: None,
    };

    let scanner = Scanner::new(scan_options, ProjectFilter::All);
    let projects = scanner.scan_directory(&tmp.snapshot_at(&base));

    assert_eq!(projects.len(), 2);
}

#[test]
fn test_scanner_with_unicode_directory_names() {
    let mut tmp = TempDir::new();
    let base_path = tmp.path();

    // Japanese characters
    create_rust_project(&mut tmp, &base_path, "ãƒ—ãƒ­ã‚¸ã‚§ã‚¯ãƒˆ");
    // Emoji in directory name
    create_node_project(&mut tmp, &base_path, "my-app-ğŸš€");
    // Accented characters
    create_python_project(&mut tmp, &base_path, "cafÃ©-project");
    // Chinese characters
    create_go_project(&mut tmp, &base_path, "é¡¹ç›®");

    let scan_options = ScanOptions {
        verbose: false,
        threads: 1,
        skip: vec![],
        max_depth: None,
    };

    let scanner = Scanner::new(scan_options, ProjectFilter::All);
    let projects = scanner.scan_directory(&tmp.snapshot_at(&base_path));

    assert_eq!(projects.len(), 4);
}

#[test]
fn test_scanner_with_deeply_nested_directories() {
    let mut tmp = TempDir::new();
    let base_path = tmp.path();

    // Create a deeply nested project (tests platform path length limits)
    let deep_path = base_path
        .join("level1")
        .join("level2")
        .join("level3")
        .join("level4")
        .join("level5");

    create_rust_project(&mut tmp, &deep_path, "deep-project");

    let scan_options = ScanOptions {
        verbose: false,
        threads: 1,
        skip: vec![],
        max_depth: None,
    };

    let scanner = Scanner::new(scan_options, ProjectFilter::Rust);
    let projects = scanner.scan_directory(&tmp.snapshot_at(&base_path));

    assert_eq!(projects.len(), 1);
    assert_eq!(projects[0].name.as_deref(), Some("deep-project"));
}

#[test]
fn test_scanner_with_special_characters_in_paths() {
    let mut tmp = TempDir::new();
    let base_path = tmp.path();

    // Dashes, underscores, dots, parentheses
    create_rust_project(&mut tmp, &base_path, "my-project_v2.0");
    create_node_project(&mut tmp, &base_path, "app (copy)");
    create_python_project(&mut tmp, &base_path, "lib.utils.v3");

    let scan_options = ScanOptions {
        verbose: false,
        threads: 1,
        skip: vec![],
        max_depth: None,
    };

    let scanner = Scanner::new(scan_options, ProjectFilter::All);
    let projects = scanner.scan_directory(&tmp.snapshot_at(&base_path));

    assert_eq!(projects.len(), 3);
}

// Unix-specific integration tests

#[test]
fn test_scanner_hidden_directory_itself_not_detected_unix() {
    let mut tmp = TempDir::new();
    let base_path = tmp.path();

    // Visible project â€” should be found
    create_rust_project(&mut tmp, &base_path, "visible-project");

    // A hidden directory that IS a project (Cargo.toml + target/ inside .hidden-project/)
    // should NOT be detected because its name starts with '.'
    let hidden_project = base_path.join(".hidden-project");
    create_dir(&mut tmp, &hidden_project);
    create_file(&mut tmp, &hidden_project.join("Cargo.toml"),
        "[package]\nname = \"hidden\"\nversion = \"0.1.0\"",
    );
    create_dir(&mut tmp, &hidden_project.join("target"));
    create_file(&mut tmp, &hidden_project.join("target/dummy"), "content");

    let scan_options = ScanOptions {
        verbose: false,
        threads: 1,
        skip: vec![],
        max_depth: None,
    };

    let scanner = Scanner::new(scan_options, ProjectFilter::Rust);
    let projects = scanner.scan_directory(&tmp.snapshot_at(&base_path));

    // Only the visible project should be found
    assert_eq!(projects.len(), 1);
    assert_eq!(projects[0].name.as_deref(), Some("visible-project"));
}

#[test]
fn test_scanner_traverses_into_hidden_dirs_finds_visible_children_unix() {
    let mut tmp = TempDir::new();
    let base_path = tmp.path();

    // A non-hidden project nested inside a hidden directory.
    // The scanner does not descend into hidden dirs, so nothing below them is found.
    let hidden_base = base_path.join(".hidden-dir");
    create_dir(&mut tmp, &hidden_base);
    create_rust_project(&mut tmp, &hidden_base, "child-project");

    let scan_options = ScanOptions {
        verbose: false,
        threads: 1,
        skip: vec![],
        max_depth: None,
    };

    let scanner = Scanner::new(scan_options, ProjectFilter::Rust);
    let projects = scanner.scan_directory(&tmp.snapshot_at(&base_path));

    assert_eq!(projects.len(), 0);
    assert!(projects.iter().all(|p| p.name.as_deref() != Some("child-project")));
}

#[test]
fn test_executable_preservation_integration_unix() {
    let mut tmp = TempDir::new();
    let base_path = tmp.path();
    let project_path = create_rust_project(&mut tmp, &base_path, "exe-project");

    // Create a real executable in the release dir
    let release_dir = project_path.join("target/release");
    create_dir(&mut tmp, &release_dir);
    let exe = release_dir.join("my-tool");
    create_file(&mut tmp, &exe, "#!/bin/bash\necho hello");
    set_executable(&mut tmp, &exe);

    // Also create a non-executable file
    create_file(&mut tmp, &release_dir.join("deps.d"), "dep info");

    let scan_options = ScanOptions {
        verbose: false,
        threads: 1,
        skip: vec![],
        max_depth: None,
    };

    let scanner = Scanner::new(scan_options, ProjectFilter::Rust);
    let projects = scanner.scan_directory(&tmp.snapshot_at(&base_path));

    assert_eq!(projects.len(), 1);

    // Preserve executables
    let preserved =
        clean_dev_dirs::executables::preserve_executables(&projects[0], tmp.node_at(&project_path));
    assert_eq!(preserved.len(), 1);
    carry_out(&mut tmp, &preserved);
    assert!(tmp.has_path(&TestPath(preserved[0].destination.clone())));
    assert!(preserved[0].destination.contains("bin/release/my-tool"));
}


// Windows-specific integration tests



// Python cross-platform extension tests

#[test]
fn test_python_whl_preservation_cross_platform() {
    let mut tmp = TempDir::new();
    let base_path = tmp.path();
    let project_path = create_python_project(&mut tmp, &base_path, "py-dist-project");

    // Create dist/ with .whl files (platform-agnostic format)
    let dist_dir = project_path.join("dist");
    create_dir(&mut tmp, &dist_dir);
    create_file(&mut tmp, &dist_dir.join("mypackage-1.0.0-py3-none-any.whl"),
        "wheel content",
    );

    let scan_options = ScanOptions {
        verbose: false,
        threads: 1,
        skip: vec![],
        max_depth: None,
    };

    let scanner = Scanner::new(scan_options, ProjectFilter::Python);
    let projects = scanner.scan_directory(&tmp.snapshot_at(&base_path));

    assert_eq!(projects.len(), 1);

    let preserved =
        clean_dev_dirs::executables::preserve_executables(&projects[0], tmp.node_at(&project_path));
    // Should find the .whl file on any platform
    assert_eq!(preserved.len(), 1);
    assert!(preserved[0].destination.ends_with(".whl"));
}

#[test]
fn test_python_so_preservation_unix() {
    let mut tmp = TempDir::new();
    let base_path = tmp.path();
    let project_path = create_python_project(&mut tmp, &base_path, "py-native-project");

    // .so files are Unix shared objects
    let build_dir = project_path.join("build/lib.linux-x86_64-cpython-39");
    create_dir(&mut tmp, &build_dir);
    create_file(&mut tmp, &build_dir.join("_native.cpython-39-x86_64-linux-gnu.so"),
        "shared object",
    );

    let scan_options = ScanOptions {
        verbose: false,
        threads: 1,
        skip: vec![],
        max_depth: None,
    };

    let scanner = Scanner::new(scan_options, ProjectFilter::Python);
    let projects = scanner.scan_directory(&tmp.snapshot_at(&base_path));

    assert_eq!(projects.len(), 1);

    let preserved =
        clean_dev_dirs::executables::preserve_executables(&projects[0], tmp.node_at(&project_path));
    assert_eq!(preserved.len(), 1);
    assert!(preserved[0].destination.ends_with(".so"));
}


// Config path cross-platform tests



// Removal strategy tests (cross-platform)


// Parallel scanning consistency (cross-platform)

#[test]
fn test_parallel_and_single_thread_produce_same_results() {
    let mut tmp = TempDir::new();
    let base_path = tmp.path();

    for i in 0..5 {
        create_rust_project(&mut tmp, &base_path, &format!("rust-{i}"));
        create_node_project(&mut tmp, &base_path, &format!("node-{i}"));
        create_python_project(&mut tmp, &base_path, &format!("python-{i}"));
        create_go_project(&mut tmp, &base_path, &format!("go-{i}"));
    }

    let single_thread = ScanOptions {
        verbose: false,
        threads: 1,
        skip: vec![],
        max_depth: None,
    };
    let multi_thread = ScanOptions {
        verbose: false,
        threads: 4,
        skip: vec![],
        max_depth: None,
    };

    let scanner1 = Scanner::new(single_thread, ProjectFilter::All);
    let scanner4 = Scanner::new(multi_thread, ProjectFilter::All);

    let mut projects_1t = scanner1.scan_directory(&tmp.snapshot_at(&base_path));
    let mut projects_4t = scanner4.scan_directory(&tmp.snapshot_at(&base_path));

    // Sort both by path for comparison
    projects_1t.sort_by(|a, b| a.root_path.cmp(&b.root_path));
    projects_4t.sort_by(|a, b| a.root_path.cmp(&b.root_path));

    assert_eq!(projects_1t.len(), projects_4t.len());

    for (p1, p4) in projects_1t.iter().zip(projects_4t.iter()) {
        assert_eq!(p1.kind, p4.kind);
        assert_eq!(p1.root_path, p4.root_path);
        assert_eq!(p1.name, p4.name);
    }
}

#[test]
fn test_scanner_symlink_handling_unix() {
    let mut tmp = TempDir::new();
    let base_path = tmp.path();

    // Create a real project
    let real_project = create_rust_project(&mut tmp, &base_path, "real-project");
    assert!(tmp.has_path(&real_project));

    // Create a symlink to the project directory: an entry that is neither
    // a file nor a directory
    tmp.root.children.push(FsNode {
        name: "linked-project".to_string(),
        kind: clean_dev_dirs::snapshot::EntryKind::Other,
        size: 0,
        content: None,
        executable: false,
        children: Vec::new(),
    });

    let scan_options = ScanOptions {
        verbose: false,
        threads: 1,
        skip: vec![],
        max_depth: None,
    };

    let scanner = Scanner::new(scan_options, ProjectFilter::Rust);
    let projects = scanner.scan_directory(&tmp.snapshot_at(&base_path));

    // Should find at least the real project (symlink behavior may vary)
    assert!(!projects.is_empty());
    assert_eq!(projects.len(), 1);
}

#[test]
fn test_executable_preservation_integration_windows() {
    let mut tmp = TempDir::new();
    let base_path = tmp.path();
    let project_path = create_rust_project(&mut tmp, &base_path, "exe-project");

    let release_dir = project_path.join("target/release");
    create_dir(&mut tmp, &release_dir);

    // On Windows, executables have the .exe extension
    create_file(&mut tmp, &release_dir.join("my-tool.exe"), "fake binary");
    set_executable(&mut tmp, &release_dir.join("my-tool.exe"));
    create_file(&mut tmp, &release_dir.join("deps.d"), "dep info");

    let scan_options = ScanOptions {
        verbose: false,
        threads: 1,
        skip: vec![],
        max_depth: None,
    };

    let scanner = Scanner::new(scan_options, ProjectFilter::Rust);
    let projects = scanner.scan_directory(&tmp.snapshot_at(&base_path));

    assert_eq!(projects.len(), 1);

    let preserved =
        clean_dev_dirs::executables::preserve_executables(&projects[0], tmp.node_at(&project_path));
    assert_eq!(preserved.len(), 1);
    carry_out(&mut tmp, &preserved);
    assert!(tmp.has_path(&TestPath(preserved[0].destination.clone())));
    assert!(preserved[0].destination.contains("my-tool.exe"));
}

#[test]
fn test_scanner_with_windows_long_paths() {
    let mut tmp = TempDir::new();
    let base_path = tmp.path();

    // Create a project with a longer-than-typical path
    let long_segments: Vec<&str> = vec!["somewhat_long_directory_name"; 6];
    let mut long_path = base_path.clone();
    for segment in &long_segments {
        long_path = long_path.join(segment);
    }

    create_rust_project(&mut tmp, &long_path, "deep-windows-project");

    let scan_options = ScanOptions {
        verbose: false,
        threads: 1,
        skip: vec![],
        max_depth: None,
    };

    let scanner = Scanner::new(scan_options, ProjectFilter::Rust);
    let projects = scanner.scan_directory(&tmp.snapshot_at(&base_path));

    assert_eq!(projects.len(), 1);
}

#[test]
fn test_python_pyd_preservation_windows() {
    let mut tmp = TempDir::new();
    let base_path = tmp.path();
    let project_path = create_python_project(&mut tmp, &base_path, "py-native-project");

    // .pyd files are Windows Python extensions
    let build_dir = project_path.join("build/lib.win-amd64-cpython-39");
    create_dir(&mut tmp, &build_dir);
    create_file(
        &mut tmp,
        &build_dir.join("_native.cp39-win_amd64.pyd"),
        "python extension",
    );

    let scan_options = ScanOptions {
        verbose: false,
        threads: 1,
        skip: vec![],
        max_depth: None,
    };

    let scanner = Scanner::new(scan_options, ProjectFilter::Python);
    let projects = scanner.scan_directory(&tmp.snapshot_at(&base_path));

    assert_eq!(projects.len(), 1);

    let preserved =
        clean_dev_dirs::executables::preserve_executables(&projects[0], tmp.node_at(&project_path));
    assert_eq!(preserved.len(), 1);
    assert!(preserved[0].destination.ends_with(".pyd"));
}
