use clean_dev_dirs::config::file::{
    expand_tilde, expand_tilde_with, format_config, FileConfig,
};
use clean_dev_dirs::config::{FilterOptions, ProjectFilter, ScanOptions, SortCriteria, SortOptions};

#[test]
fn test_project_filter_equality() {
    assert_eq!(ProjectFilter::All, ProjectFilter::All);
    assert_eq!(ProjectFilter::Rust, ProjectFilter::Rust);
    assert_eq!(ProjectFilter::Node, ProjectFilter::Node);
    assert_eq!(ProjectFilter::Python, ProjectFilter::Python);
    assert_eq!(ProjectFilter::Go, ProjectFilter::Go);
    assert_eq!(ProjectFilter::Java, ProjectFilter::Java);
    assert_eq!(ProjectFilter::Cpp, ProjectFilter::Cpp);
    assert_eq!(ProjectFilter::Swift, ProjectFilter::Swift);
    assert_eq!(ProjectFilter::DotNet, ProjectFilter::DotNet);
    assert_eq!(ProjectFilter::Ruby, ProjectFilter::Ruby);
    assert_eq!(ProjectFilter::Elixir, ProjectFilter::Elixir);
    assert_eq!(ProjectFilter::Deno, ProjectFilter::Deno);
    assert_eq!(ProjectFilter::Php, ProjectFilter::Php);
    assert_eq!(ProjectFilter::Haskell, ProjectFilter::Haskell);
    assert_eq!(ProjectFilter::Dart, ProjectFilter::Dart);
    assert_eq!(ProjectFilter::Zig, ProjectFilter::Zig);
    assert_eq!(ProjectFilter::Scala, ProjectFilter::Scala);

    assert_ne!(ProjectFilter::All, ProjectFilter::Rust);
    assert_ne!(ProjectFilter::Rust, ProjectFilter::Node);
    assert_ne!(ProjectFilter::Node, ProjectFilter::Python);
    assert_ne!(ProjectFilter::Python, ProjectFilter::Go);
    assert_ne!(ProjectFilter::Go, ProjectFilter::Java);
    assert_ne!(ProjectFilter::Java, ProjectFilter::Cpp);
    assert_ne!(ProjectFilter::Cpp, ProjectFilter::Swift);
    assert_ne!(ProjectFilter::Swift, ProjectFilter::DotNet);
    assert_ne!(ProjectFilter::DotNet, ProjectFilter::Ruby);
    assert_ne!(ProjectFilter::Ruby, ProjectFilter::Elixir);
    assert_ne!(ProjectFilter::Elixir, ProjectFilter::Deno);
    assert_ne!(ProjectFilter::Deno, ProjectFilter::Php);
    assert_ne!(ProjectFilter::Php, ProjectFilter::Haskell);
    assert_ne!(ProjectFilter::Haskell, ProjectFilter::Dart);
    assert_ne!(ProjectFilter::Dart, ProjectFilter::Zig);
    assert_ne!(ProjectFilter::Zig, ProjectFilter::Scala);
}

#[test]
fn test_project_filter_copy() {
    let original = ProjectFilter::Rust;
    let copied = original;

    assert_eq!(original, copied);
}

#[test]
fn test_project_filter_default() {
    let default_filter = ProjectFilter::default();
    assert_eq!(default_filter, ProjectFilter::All);
}

#[test]
fn test_filter_options_creation() {
    let filter_opts = FilterOptions {
        keep_size: "100MB".to_string(),
        keep_days: 30,
    };

    assert_eq!(filter_opts.keep_size, "100MB");
    assert_eq!(filter_opts.keep_days, 30);
}

#[test]
fn test_filter_options_clone() {
    let original = FilterOptions {
        keep_size: "100MB".to_string(),
        keep_days: 30,
    };
    let cloned = original.clone();

    assert_eq!(original.keep_size, cloned.keep_size);
    assert_eq!(original.keep_days, cloned.keep_days);
}

#[test]
fn test_sort_criteria_equality() {
    assert_eq!(SortCriteria::Size, SortCriteria::Size);
    assert_eq!(SortCriteria::Age, SortCriteria::Age);
    assert_eq!(SortCriteria::Name, SortCriteria::Name);
    assert_eq!(SortCriteria::Type, SortCriteria::Type);

    assert_ne!(SortCriteria::Size, SortCriteria::Age);
    assert_ne!(SortCriteria::Name, SortCriteria::Type);
}

#[test]
fn test_sort_criteria_copy() {
    let original = SortCriteria::Size;
    let copied = original;
    assert_eq!(original, copied);
}

#[test]
fn test_sort_options_creation() {
    let sort_opts = SortOptions {
        criteria: Some(SortCriteria::Size),
        reverse: false,
    };
    assert_eq!(sort_opts.criteria, Some(SortCriteria::Size));
    assert!(!sort_opts.reverse);
}

#[test]
fn test_sort_options_none_criteria() {
    let sort_opts = SortOptions {
        criteria: None,
        reverse: false,
    };
    assert!(sort_opts.criteria.is_none());
}

#[test]
fn test_sort_options_clone() {
    let original = SortOptions {
        criteria: Some(SortCriteria::Age),
        reverse: true,
    };
    let cloned = original.clone();

    assert_eq!(original.criteria, cloned.criteria);
    assert_eq!(original.reverse, cloned.reverse);
}

#[test]
fn test_scan_options_creation() {
    let scan_opts = ScanOptions {
        verbose: true,
        threads: 4,
        skip: vec!["test".to_string()],
        max_depth: None,
    };

    assert!(scan_opts.verbose);
    assert_eq!(scan_opts.threads, 4);
    assert_eq!(scan_opts.skip.len(), 1);
}

#[test]
fn test_scan_options_clone() {
    let original = ScanOptions {
        verbose: true,
        threads: 4,
        skip: vec!["test".to_string()],
        max_depth: None,
    };
    let cloned = original.clone();

    assert_eq!(original.verbose, cloned.verbose);
    assert_eq!(original.threads, cloned.threads);
    assert_eq!(original.skip, cloned.skip);
}

#[test]
fn test_default_file_config() {
    let config = FileConfig::default();

    assert!(config.project_type.is_none());
    assert!(config.dirs.is_none());
    assert!(config.dir.is_none());
    assert!(config.filtering.keep_size.is_none());
    assert!(config.filtering.keep_days.is_none());
    assert!(config.filtering.sort.is_none());
    assert!(config.filtering.reverse.is_none());
    assert!(config.scanning.threads.is_none());
    assert!(config.scanning.verbose.is_none());
    assert!(config.scanning.skip.is_none());
    assert!(config.scanning.ignore.is_none());
    assert!(config.execution.keep_executables.is_none());
    assert!(config.execution.interactive.is_none());
    assert!(config.execution.dry_run.is_none());
    assert!(config.execution.use_trash.is_none());
}

#[test]
fn test_config_path_returns_expected_suffix() {
    let path = FileConfig::config_path();
    if let Some(p) = path {
        assert!(p.ends_with("clean-dev-dirs/config.toml"));
    }
}

#[test]
fn test_config_path_ends_with_expected_suffix() {
    if let Some(path) = FileConfig::config_path() {
        // On all platforms, the config file should be named config.toml
        // inside a clean-dev-dirs directory
        let pieces: Vec<&str> = path.split('/').collect();
        assert!(
            pieces[pieces.len() - 1] == "config.toml",
            "Config file should be named config.toml"
        );
        assert!(
            pieces[pieces.len() - 2] == "clean-dev-dirs",
            "Config should be inside clean-dev-dirs directory"
        );
    }
}

#[test]
fn test_config_path_is_platform_appropriate() {
    let path = FileConfig::config_path();
    if let Some(p) = &path {
        let path_str = p.as_str();

        assert!(
            path_str.contains(".config"),
            "Linux config path should be under $XDG_CONFIG_HOME or ~/.config, got: {path_str}"
        );

        // Common: always ends with our application config file name
        assert!(
            p.ends_with("clean-dev-dirs/config.toml")
                || p.ends_with(&format!("{}/{}", "clean-dev-dirs", "config.toml"))
        );
    }
}

#[test]
fn test_config_path_in_a_given_directory() {
    assert_eq!(
        FileConfig::config_path_in(Some("/home/user/.config")),
        Some("/home/user/.config/clean-dev-dirs/config.toml".to_string())
    );
    assert_eq!(FileConfig::config_path_in(None), None);
}

#[test]
fn test_expand_tilde_with_home() {
    let expanded = expand_tilde("~/Projects");

    if let Some(home) = dirs::home_dir() {
        assert_eq!(expanded, format!("{}/Projects", home.display()));
    }
}

#[test]
fn test_expand_tilde_absolute_path_unchanged() {
    let expanded = expand_tilde("/absolute/path");
    assert_eq!(expanded, "/absolute/path");
}

#[test]
fn test_expand_tilde_relative_path_unchanged() {
    let expanded = expand_tilde("relative/path");
    assert_eq!(expanded, "relative/path");
}

#[test]
fn test_expand_tilde_bare() {
    let expanded = expand_tilde("~");

    if let Some(home) = dirs::home_dir() {
        assert_eq!(expanded, format!("{}", home.display()));
    }
}

#[test]
fn test_expand_tilde_deeply_nested() {
    let expanded = expand_tilde("~/a/b/c/d");

    if let Some(home) = dirs::home_dir() {
        assert_eq!(expanded, format!("{}/a/b/c/d", home.display()));
        assert!(!expanded.contains('~'));
    }
}

#[test]
fn test_expand_tilde_no_effect_on_non_tilde() {
    // Relative paths without ~ should be unchanged
    let relative = "some/relative/path";
    assert_eq!(expand_tilde(relative), relative);

    // Absolute Unix-style paths should be unchanged
    let absolute = "/usr/local/bin";
    assert_eq!(expand_tilde(absolute), absolute);

    // Windows-style absolute paths should be unchanged
    let win_abs = r"C:\Users\user\Documents";
    assert_eq!(expand_tilde(win_abs), win_abs);
}

#[test]
fn test_tilde_expansion_cross_platform() {
    let expanded = expand_tilde("~/my-projects");

    if let Some(home) = dirs::home_dir() {
        assert_eq!(expanded, format!("{}/my-projects", home.display()));
        // Should not contain the tilde anymore
        assert!(!expanded.starts_with('~'));
    }
}

#[test]
fn test_expand_tilde_with_a_given_home() {
    assert_eq!(expand_tilde_with("~", Some("/home/alice")), "/home/alice");
    assert_eq!(expand_tilde_with("~/work", Some("/home/alice")), "/home/alice/work");
    assert_eq!(expand_tilde_with("~/work", Some("/home/alice/")), "/home/alice/work");
    assert_eq!(expand_tilde_with("~//work", Some("/home/alice")), "/home/alice/work");
    assert_eq!(expand_tilde_with("~user/work", Some("/home/alice")), "~user/work");
    assert_eq!(expand_tilde_with("a/~/b", Some("/home/alice")), "a/~/b");
    assert_eq!(expand_tilde_with("~/work", None), "~/work");
    assert_eq!(expand_tilde_with("~", None), "~");
}

#[test]
fn test_project_filter_from_str() {
    assert_eq!(ProjectFilter::from_str("rust", true), Ok(ProjectFilter::Rust));
    assert_eq!(ProjectFilter::from_str("RUST", true), Ok(ProjectFilter::Rust));
    assert_eq!(ProjectFilter::from_str("DotNet", true), Ok(ProjectFilter::DotNet));
    assert_eq!(ProjectFilter::from_str("php", false), Ok(ProjectFilter::Php));
    assert_eq!(ProjectFilter::from_str("all", false), Ok(ProjectFilter::All));
    assert_eq!(
        ProjectFilter::from_str("RUST", false),
        Err("invalid variant: RUST".to_string())
    );
    assert_eq!(
        ProjectFilter::from_str("cobol", true),
        Err("invalid variant: cobol".to_string())
    );
    assert_eq!(ProjectFilter::Scala.name(), "scala");
}

#[test]
fn test_sort_criteria_from_str() {
    assert_eq!(SortCriteria::from_str("size", true), Ok(SortCriteria::Size));
    assert_eq!(SortCriteria::from_str("AGE", true), Ok(SortCriteria::Age));
    assert_eq!(SortCriteria::from_str("Name", true), Ok(SortCriteria::Name));
    assert_eq!(SortCriteria::from_str("type", false), Ok(SortCriteria::Type));
    assert_eq!(
        SortCriteria::from_str("Type", false),
        Err("invalid variant: Type".to_string())
    );
    assert_eq!(
        SortCriteria::from_str("colour", true),
        Err("invalid variant: colour".to_string())
    );
}

#[test]
fn test_format_config_defaults() {
    let text = format_config(&FileConfig::default());
    let expected = "project_type  = \"all\"  (default)\n\
dir           = \".\"  (default)\n\
\n\
[filtering]\n\
keep_size     = \"0\"  (default)\n\
keep_days     = 0  (default)\n\
sort          = (none)  (default)\n\
reverse       = false  (default)\n\
\n\
[scanning]\n\
threads       = 0 (all cores)  (default)\n\
verbose       = false  (default)\n\
skip          = []  (default)\n\
ignore        = []  (default)\n\
\n\
[execution]\n\
keep_executables = false  (default)\n\
interactive      = false  (default)\n\
dry_run          = false  (default)\n\
use_trash        = true  (default)";
    assert_eq!(text, expected);
}

#[test]
fn test_format_config_values() {
    let mut config = FileConfig::default();
    config.project_type = Some("rust".to_string());
    config.dir = Some("~/Projects".to_string());
    config.filtering.keep_size = Some("50MB".to_string());
    config.filtering.keep_days = Some(7);
    config.filtering.sort = Some("size".to_string());
    config.filtering.reverse = Some(true);
    config.scanning.threads = Some(12);
    config.scanning.verbose = Some(true);
    config.scanning.skip = Some(vec![".cargo".to_string(), "vendor".to_string()]);
    config.scanning.ignore = Some(vec![]);
    config.execution.keep_executables = Some(true);
    config.execution.use_trash = Some(false);
    let text = format_config(&config);
    let expected = "project_type  = \"rust\"\n\
dir           = \"~/Projects\"\n\
\n\
[filtering]\n\
keep_size     = \"50MB\"\n\
keep_days     = 7\n\
sort          = \"size\"\n\
reverse       = true\n\
\n\
[scanning]\n\
threads       = 12\n\
verbose       = true\n\
skip          = [\".cargo\", \"vendor\"]\n\
ignore        = []  (default)\n\
\n\
[execution]\n\
keep_executables = true\n\
interactive      = false  (default)\n\
dry_run          = false  (default)\n\
use_trash        = false";
    assert_eq!(text, expected);
}
