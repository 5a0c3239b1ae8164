use clean_dev_dirs::cli::{Cli, ExecutionArgs, FilteringArgs, ScanningArgs};
use clean_dev_dirs::config::file::{
    FileConfig, FileExecutionConfig, FileFilterConfig, FileScanConfig,
};
use clean_dev_dirs::config::{ProjectFilter, SortCriteria};

/// The arguments that a command line stands for.
fn parse_from(args: &[&str]) -> Cli {
    let mut cli = Cli {
        subcommand: None,
        dirs: Vec::new(),
        project_type: None,
        json: false,
        execution: ExecutionArgs {
            yes: false,
            dry_run: false,
            interactive: false,
            keep_executables: false,
            permanent: false,
        },
        filtering: FilteringArgs {
            keep_size: None,
            keep_days: None,
            sort: None,
            reverse: false,
        },
        scanning: ScanningArgs {
            threads: None,
            verbose: false,
            ignore: Vec::new(),
            skip: Vec::new(),
            max_depth: None,
        },
    };
    let mut i = 1;
    while i < args.len() {
        let arg = args[i];
        let mut value = || {
            i += 1;
            args[i].to_string()
        };
        match arg {
            "--project-type" | "-p" => {
                cli.project_type = Some(ProjectFilter::from_str(&value(), false).unwrap());
            }
            "--json" => cli.json = true,
            "--yes" | "-y" => cli.execution.yes = true,
            "--dry-run" => cli.execution.dry_run = true,
            "--interactive" | "-i" => cli.execution.interactive = true,
            "--keep-executables" | "-k" => cli.execution.keep_executables = true,
            "--permanent" => cli.execution.permanent = true,
            "--keep-size" | "-s" => cli.filtering.keep_size = Some(value()),
            "--keep-days" | "-d" => cli.filtering.keep_days = Some(value().parse().unwrap()),
            "--sort" => {
                cli.filtering.sort = Some(SortCriteria::from_str(&value(), false).unwrap());
            }
            "--reverse" => cli.filtering.reverse = true,
            "--threads" | "-t" => cli.scanning.threads = Some(value().parse().unwrap()),
            "--verbose" | "-v" => cli.scanning.verbose = true,
            "--ignore" => cli.scanning.ignore.push(value()),
            "--skip" => cli.scanning.skip.push(value()),
            "--max-depth" => cli.scanning.max_depth = Some(value().parse().unwrap()),
            dir => cli.dirs.push(dir.to_string()),
        }
        i += 1;
    }
    cli
}

// ── Existing tests (updated for FileConfig parameter) ──────────────

#[test]
fn test_default_values() {
    let args = parse_from(&["clean-dev-dirs"]);
    let config = FileConfig::default();

    assert_eq!(args.directories(&config), vec![".".to_string()]);
    assert_eq!(args.project_filter(&config), ProjectFilter::All);

    let exec_opts = args.execution_options(&config);
    assert!(!exec_opts.dry_run);
    assert!(!exec_opts.interactive);
    assert!(!exec_opts.keep_executables);
    assert!(exec_opts.use_trash);

    let scan_opts = args.scan_options(&config);
    assert!(!scan_opts.verbose);
    assert_eq!(scan_opts.threads, 0);
    assert!(scan_opts.skip.is_empty());

    let filter_opts = args.filter_options(&config);
    assert_eq!(filter_opts.keep_size, "0");
    assert_eq!(filter_opts.keep_days, 0);
}

#[test]
fn test_project_filters() {
    let config = FileConfig::default();

    let rust_args = parse_from(&["clean-dev-dirs", "--project-type", "rust"]);
    assert_eq!(rust_args.project_filter(&config), ProjectFilter::Rust);

    let node_args = parse_from(&["clean-dev-dirs", "--project-type", "node"]);
    assert_eq!(node_args.project_filter(&config), ProjectFilter::Node);

    let python_args = parse_from(&["clean-dev-dirs", "--project-type", "python"]);
    assert_eq!(python_args.project_filter(&config), ProjectFilter::Python);

    let go_args = parse_from(&["clean-dev-dirs", "--project-type", "go"]);
    assert_eq!(go_args.project_filter(&config), ProjectFilter::Go);

    let java_args = parse_from(&["clean-dev-dirs", "--project-type", "java"]);
    assert_eq!(java_args.project_filter(&config), ProjectFilter::Java);

    let cpp_args = parse_from(&["clean-dev-dirs", "--project-type", "cpp"]);
    assert_eq!(cpp_args.project_filter(&config), ProjectFilter::Cpp);

    let swift_args = parse_from(&["clean-dev-dirs", "--project-type", "swift"]);
    assert_eq!(swift_args.project_filter(&config), ProjectFilter::Swift);

    let dotnet_args = parse_from(&["clean-dev-dirs", "--project-type", "dotnet"]);
    assert_eq!(dotnet_args.project_filter(&config), ProjectFilter::DotNet);

    let ruby_args = parse_from(&["clean-dev-dirs", "--project-type", "ruby"]);
    assert_eq!(ruby_args.project_filter(&config), ProjectFilter::Ruby);

    let elixir_args = parse_from(&["clean-dev-dirs", "--project-type", "elixir"]);
    assert_eq!(elixir_args.project_filter(&config), ProjectFilter::Elixir);

    let deno_args = parse_from(&["clean-dev-dirs", "--project-type", "deno"]);
    assert_eq!(deno_args.project_filter(&config), ProjectFilter::Deno);

    let all_args = parse_from(&["clean-dev-dirs"]);
    assert_eq!(all_args.project_filter(&config), ProjectFilter::All);
}

#[test]
fn test_project_filter_short_flag() {
    let config = FileConfig::default();
    let rust_args = parse_from(&["clean-dev-dirs", "-p", "rust"]);
    assert_eq!(rust_args.project_filter(&config), ProjectFilter::Rust);
}

#[test]
fn test_execution_options() {
    let config = FileConfig::default();
    let args = parse_from(&["clean-dev-dirs", "--dry-run", "--interactive", "--yes"]);
    let exec_opts = args.execution_options(&config);

    assert!(exec_opts.dry_run);
    assert!(exec_opts.interactive);
    assert!(!exec_opts.keep_executables);
    assert!(exec_opts.use_trash);
}

#[test]
fn test_keep_executables_flag() {
    let config = FileConfig::default();

    let args = parse_from(&["clean-dev-dirs", "--keep-executables"]);
    let exec_opts = args.execution_options(&config);
    assert!(exec_opts.keep_executables);

    let args_short = parse_from(&["clean-dev-dirs", "-k"]);
    let exec_opts_short = args_short.execution_options(&config);
    assert!(exec_opts_short.keep_executables);
}

#[test]
fn test_trash_is_default() {
    let config = FileConfig::default();
    let args = parse_from(&["clean-dev-dirs"]);
    let exec_opts = args.execution_options(&config);
    assert!(exec_opts.use_trash);
}

#[test]
fn test_permanent_flag_disables_trash() {
    let config = FileConfig::default();
    let args = parse_from(&["clean-dev-dirs", "--permanent"]);
    let exec_opts = args.execution_options(&config);
    assert!(!exec_opts.use_trash);
}

#[test]
fn test_config_use_trash_false_disables_trash() {
    let args = parse_from(&["clean-dev-dirs"]);
    let config = FileConfig {
        execution: FileExecutionConfig {
            use_trash: Some(false),
            ..FileExecutionConfig::default()
        },
        ..FileConfig::default()
    };

    let exec_opts = args.execution_options(&config);
    assert!(!exec_opts.use_trash);
}

#[test]
fn test_permanent_flag_overrides_config_use_trash_true() {
    let args = parse_from(&["clean-dev-dirs", "--permanent"]);
    let config = FileConfig {
        execution: FileExecutionConfig {
            use_trash: Some(true),
            ..FileExecutionConfig::default()
        },
        ..FileConfig::default()
    };

    let exec_opts = args.execution_options(&config);
    assert!(!exec_opts.use_trash);
}

#[test]
fn test_scanning_options() {
    let config = FileConfig::default();
    let args = parse_from(&[
        "clean-dev-dirs",
        "--verbose",
        "--threads",
        "8",
        "--skip",
        "node_modules",
        "--skip",
        ".git",
    ]);
    let scan_opts = args.scan_options(&config);

    assert!(scan_opts.verbose);
    assert_eq!(scan_opts.threads, 8);
    assert_eq!(scan_opts.skip.len(), 2);
    assert!(scan_opts.skip.contains(&"node_modules".to_string()));
    assert!(scan_opts.skip.contains(&".git".to_string()));
}

#[test]
fn test_filtering_options() {
    let config = FileConfig::default();
    let args = parse_from(&[
        "clean-dev-dirs",
        "--keep-size",
        "100MB",
        "--keep-days",
        "30",
    ]);
    let filter_opts = args.filter_options(&config);

    assert_eq!(filter_opts.keep_size, "100MB");
    assert_eq!(filter_opts.keep_days, 30);
}

#[test]
fn test_custom_directory() {
    let config = FileConfig::default();
    let args = parse_from(&["clean-dev-dirs", "/custom/path"]);
    assert_eq!(
        args.directories(&config),
        vec!["/custom/path".to_string()]
    );
}

#[test]
fn test_multiple_directories() {
    let config = FileConfig::default();
    let args = parse_from(&["clean-dev-dirs", "/path/a", "/path/b"]);
    assert_eq!(
        args.directories(&config),
        vec!["/path/a".to_string(), "/path/b".to_string()]
    );
}

#[test]
fn test_config_dirs_field_used_when_cli_absent() {
    let args = parse_from(&["clean-dev-dirs"]);
    let config = FileConfig {
        dirs: Some(vec![
            "/config/dir1".to_string(),
            "/config/dir2".to_string(),
        ]),
        ..FileConfig::default()
    };
    assert_eq!(
        args.directories(&config),
        vec!["/config/dir1".to_string(), "/config/dir2".to_string()]
    );
}

#[test]
fn test_short_flags() {
    let config = FileConfig::default();
    let args = parse_from(&[
        "clean-dev-dirs",
        "-s",
        "50MB",
        "-d",
        "7",
        "-t",
        "2",
        "-v",
        "-i",
        "-y",
    ]);

    let filter_opts = args.filter_options(&config);
    assert_eq!(filter_opts.keep_size, "50MB");
    assert_eq!(filter_opts.keep_days, 7);

    let scan_opts = args.scan_options(&config);
    assert_eq!(scan_opts.threads, 2);
    assert!(scan_opts.verbose);

    let exec_opts = args.execution_options(&config);
    assert!(exec_opts.interactive);
}

#[test]
fn test_multiple_skip_directories() {
    let config = FileConfig::default();
    let args = parse_from(&[
        "clean-dev-dirs",
        "--skip",
        "node_modules",
        "--skip",
        ".git",
        "--skip",
        "target",
        "--skip",
        "__pycache__",
    ]);

    let scan_opts = args.scan_options(&config);
    assert_eq!(scan_opts.skip.len(), 4);

    let expected_dirs = vec![
        "node_modules".to_string(),
        ".git".to_string(),
        "target".to_string(),
        "__pycache__".to_string(),
    ];

    for expected_dir in expected_dirs {
        assert!(scan_opts.skip.contains(&expected_dir));
    }
}

#[test]
fn test_complex_size_formats() {
    let config = FileConfig::default();
    let test_cases = vec![
        ("100KB", "100KB"),
        ("1.5MB", "1.5MB"),
        ("2GiB", "2GiB"),
        ("500000", "500000"),
    ];

    for (input, expected) in test_cases {
        let args = parse_from(&["clean-dev-dirs", "--keep-size", input]);
        let filter_opts = args.filter_options(&config);
        assert_eq!(filter_opts.keep_size, expected);
    }
}

#[test]
fn test_zero_values() {
    let config = FileConfig::default();
    let args = parse_from(&[
        "clean-dev-dirs",
        "--keep-size",
        "0",
        "--keep-days",
        "0",
        "--threads",
        "0",
    ]);

    let filter_opts = args.filter_options(&config);
    assert_eq!(filter_opts.keep_size, "0");
    assert_eq!(filter_opts.keep_days, 0);

    let scan_opts = args.scan_options(&config);
    assert_eq!(scan_opts.threads, 0);
}

// ── Config merging tests ───────────────────────────────────────────

#[test]
fn test_config_values_used_when_cli_absent() {
    let args = parse_from(&["clean-dev-dirs"]);
    let config = FileConfig {
        project_type: Some("rust".to_string()),
        dirs: None,
        dir: Some("/config/dir".to_string()),
        filtering: FileFilterConfig {
            keep_size: Some("50MB".to_string()),
            keep_days: Some(7),
            ..FileFilterConfig::default()
        },
        scanning: FileScanConfig {
            threads: Some(4),
            verbose: Some(true),
            skip: Some(vec![".cargo".to_string()]),
            ignore: Some(vec![".git".to_string()]),
            max_depth: None,
        },
        execution: FileExecutionConfig {
            keep_executables: Some(true),
            interactive: Some(true),
            dry_run: Some(true),
            use_trash: Some(true),
        },
    };

    assert_eq!(
        args.directories(&config),
        vec!["/config/dir".to_string()]
    );
    assert_eq!(args.project_filter(&config), ProjectFilter::Rust);

    let filter_opts = args.filter_options(&config);
    assert_eq!(filter_opts.keep_size, "50MB");
    assert_eq!(filter_opts.keep_days, 7);

    let scan_opts = args.scan_options(&config);
    assert_eq!(scan_opts.threads, 4);
    assert!(scan_opts.verbose);
    assert_eq!(scan_opts.skip, vec![".cargo".to_string()]);

    let exec_opts = args.execution_options(&config);
    assert!(exec_opts.keep_executables);
    assert!(exec_opts.interactive);
    assert!(exec_opts.dry_run);
    assert!(exec_opts.use_trash);
}

#[test]
fn test_cli_overrides_config_values() {
    let args = parse_from(&[
        "clean-dev-dirs",
        "/cli/dir",
        "--project-type",
        "node",
        "--keep-size",
        "100MB",
        "--keep-days",
        "30",
        "--threads",
        "8",
    ]);
    let config = FileConfig {
        project_type: Some("rust".to_string()),
        dir: Some("/config/dir".to_string()),
        filtering: FileFilterConfig {
            keep_size: Some("50MB".to_string()),
            keep_days: Some(7),
            ..FileFilterConfig::default()
        },
        scanning: FileScanConfig {
            threads: Some(4),
            ..FileScanConfig::default()
        },
        ..FileConfig::default()
    };

    assert_eq!(args.directories(&config), vec!["/cli/dir".to_string()]);
    assert_eq!(args.project_filter(&config), ProjectFilter::Node);

    let filter_opts = args.filter_options(&config);
    assert_eq!(filter_opts.keep_size, "100MB");
    assert_eq!(filter_opts.keep_days, 30);

    let scan_opts = args.scan_options(&config);
    assert_eq!(scan_opts.threads, 8);
}

#[test]
fn test_skip_dirs_merged_from_both_sources() {
    let args = parse_from(&["clean-dev-dirs", "--skip", "node_modules"]);
    let config = FileConfig {
        scanning: FileScanConfig {
            skip: Some(vec![".cargo".to_string(), "vendor".to_string()]),
            ..FileScanConfig::default()
        },
        ..FileConfig::default()
    };

    let scan_opts = args.scan_options(&config);
    assert_eq!(scan_opts.skip.len(), 3);
    assert!(scan_opts.skip.contains(&".cargo".to_string()));
    assert!(scan_opts.skip.contains(&"vendor".to_string()));
    assert!(scan_opts.skip.contains(&"node_modules".to_string()));
}

#[test]
fn test_bool_flags_override_config_false() {
    let args = parse_from(&["clean-dev-dirs", "--dry-run"]);
    let config = FileConfig {
        execution: FileExecutionConfig {
            dry_run: Some(false),
            interactive: Some(true),
            keep_executables: Some(false),
            use_trash: Some(true),
        },
        ..FileConfig::default()
    };

    let exec_opts = args.execution_options(&config);
    assert!(exec_opts.dry_run);
    assert!(exec_opts.interactive);
    assert!(!exec_opts.keep_executables);
    assert!(exec_opts.use_trash);
}

#[test]
fn test_config_dir_with_tilde_expansion() {
    let args = parse_from(&["clean-dev-dirs"]);
    let config = FileConfig {
        dir: Some("~/Projects".to_string()),
        ..FileConfig::default()
    };

    let dirs = args.directories(&config);
    if let Some(home) = dirs::home_dir() {
        assert_eq!(dirs, vec![home.join("Projects")]);
    }
}

#[test]
fn test_config_project_type_case_insensitive() {
    let args = parse_from(&["clean-dev-dirs"]);

    let config_upper = FileConfig {
        project_type: Some("Rust".to_string()),
        ..FileConfig::default()
    };
    assert_eq!(args.project_filter(&config_upper), ProjectFilter::Rust);

    let config_mixed = FileConfig {
        project_type: Some("NODE".to_string()),
        ..FileConfig::default()
    };
    assert_eq!(args.project_filter(&config_mixed), ProjectFilter::Node);
}

#[test]
fn test_invalid_config_project_type_falls_back_to_default() {
    let args = parse_from(&["clean-dev-dirs"]);
    let config = FileConfig {
        project_type: Some("invalid_type".to_string()),
        ..FileConfig::default()
    };

    assert_eq!(args.project_filter(&config), ProjectFilter::All);
}

// ── Sorting option tests ────────────────────────────────────────────

#[test]
fn test_sort_options_default() {
    let args = parse_from(&["clean-dev-dirs"]);
    let config = FileConfig::default();
    let sort_opts = args.sort_options(&config);

    assert!(sort_opts.criteria.is_none());
    assert!(!sort_opts.reverse);
}

#[test]
fn test_sort_options_cli_size() {
    let args = parse_from(&["clean-dev-dirs", "--sort", "size"]);
    let config = FileConfig::default();
    let sort_opts = args.sort_options(&config);

    assert_eq!(sort_opts.criteria, Some(SortCriteria::Size));
    assert!(!sort_opts.reverse);
}

#[test]
fn test_sort_options_cli_all_criteria() {
    let config = FileConfig::default();

    let test_cases = vec![
        ("size", SortCriteria::Size),
        ("age", SortCriteria::Age),
        ("name", SortCriteria::Name),
        ("type", SortCriteria::Type),
    ];

    for (input, expected) in test_cases {
        let args = parse_from(&["clean-dev-dirs", "--sort", input]);
        let sort_opts = args.sort_options(&config);
        assert_eq!(sort_opts.criteria, Some(expected));
    }
}

#[test]
fn test_sort_options_with_reverse() {
    let args = parse_from(&["clean-dev-dirs", "--sort", "name", "--reverse"]);
    let config = FileConfig::default();
    let sort_opts = args.sort_options(&config);

    assert_eq!(sort_opts.criteria, Some(SortCriteria::Name));
    assert!(sort_opts.reverse);
}

#[test]
fn test_sort_options_reverse_only() {
    let args = parse_from(&["clean-dev-dirs", "--reverse"]);
    let config = FileConfig::default();
    let sort_opts = args.sort_options(&config);

    assert!(sort_opts.criteria.is_none());
    assert!(sort_opts.reverse);
}

#[test]
fn test_sort_options_from_config() {
    let args = parse_from(&["clean-dev-dirs"]);
    let config = FileConfig {
        filtering: FileFilterConfig {
            sort: Some("age".to_string()),
            reverse: Some(true),
            ..FileFilterConfig::default()
        },
        ..FileConfig::default()
    };
    let sort_opts = args.sort_options(&config);

    assert_eq!(sort_opts.criteria, Some(SortCriteria::Age));
    assert!(sort_opts.reverse);
}

#[test]
fn test_sort_options_cli_overrides_config() {
    let args = parse_from(&["clean-dev-dirs", "--sort", "name"]);
    let config = FileConfig {
        filtering: FileFilterConfig {
            sort: Some("size".to_string()),
            ..FileFilterConfig::default()
        },
        ..FileConfig::default()
    };
    let sort_opts = args.sort_options(&config);

    assert_eq!(sort_opts.criteria, Some(SortCriteria::Name));
}

#[test]
fn test_sort_options_invalid_config_falls_back_to_none() {
    let args = parse_from(&["clean-dev-dirs"]);
    let config = FileConfig {
        filtering: FileFilterConfig {
            sort: Some("invalid_sort".to_string()),
            ..FileFilterConfig::default()
        },
        ..FileConfig::default()
    };
    let sort_opts = args.sort_options(&config);

    assert!(sort_opts.criteria.is_none());
}

#[test]
fn test_sort_options_config_case_insensitive() {
    let args = parse_from(&["clean-dev-dirs"]);
    let config = FileConfig {
        filtering: FileFilterConfig {
            sort: Some("Size".to_string()),
            ..FileFilterConfig::default()
        },
        ..FileConfig::default()
    };
    let sort_opts = args.sort_options(&config);

    assert_eq!(sort_opts.criteria, Some(SortCriteria::Size));
}

#[test]
fn test_sort_reverse_cli_or_config() {
    // CLI reverse=true overrides config reverse=false
    let args = parse_from(&["clean-dev-dirs", "--reverse"]);
    let config = FileConfig {
        filtering: FileFilterConfig {
            reverse: Some(false),
            ..FileFilterConfig::default()
        },
        ..FileConfig::default()
    };
    let sort_opts = args.sort_options(&config);
    assert!(sort_opts.reverse);

    // Config reverse=true used when CLI doesn't set it
    let args_no_reverse = parse_from(&["clean-dev-dirs"]);
    let config_reverse = FileConfig {
        filtering: FileFilterConfig {
            reverse: Some(true),
            ..FileFilterConfig::default()
        },
        ..FileConfig::default()
    };
    let sort_opts2 = args_no_reverse.sort_options(&config_reverse);
    assert!(sort_opts2.reverse);
}

#[test]
fn test_json_flag() {
    assert!(parse_from(&["clean-dev-dirs", "--json"]).json());
    assert!(!parse_from(&["clean-dev-dirs"]).json());
}

#[test]
fn test_directories_with_a_given_home() {
    let args = parse_from(&["clean-dev-dirs"]);
    let config = FileConfig {
        dirs: Some(vec!["~/Projects".to_string(), "/srv/work".to_string(), "~".to_string()]),
        dir: Some("~/ignored".to_string()),
        ..FileConfig::default()
    };
    assert_eq!(
        args.directories_with_home(&config, Some("/home/alice")),
        vec!["/home/alice/Projects".to_string(), "/srv/work".to_string(), "/home/alice".to_string()]
    );
    assert_eq!(
        args.directories_with_home(&config, None),
        vec!["~/Projects".to_string(), "/srv/work".to_string(), "~".to_string()]
    );
    // an empty list in the file falls through to the single directory
    let config = FileConfig {
        dirs: Some(Vec::new()),
        dir: Some("~/single".to_string()),
        ..FileConfig::default()
    };
    assert_eq!(
        args.directories_with_home(&config, Some("/home/alice")),
        vec!["/home/alice/single".to_string()]
    );
    // arguments win, and are never expanded
    let args = parse_from(&["clean-dev-dirs", "~/cli"]);
    assert_eq!(
        args.directories_with_home(&config, Some("/home/alice")),
        vec!["~/cli".to_string()]
    );
}

#[test]
fn test_max_depth_from_cli_and_config() {
    let config = FileConfig {
        scanning: FileScanConfig {
            max_depth: Some(5),
            ..FileScanConfig::default()
        },
        ..FileConfig::default()
    };
    let args = parse_from(&["clean-dev-dirs"]);
    assert_eq!(args.scan_options(&config).max_depth, Some(5));
    assert_eq!(args.scan_options(&FileConfig::default()).max_depth, None);
    let args = parse_from(&["clean-dev-dirs", "--max-depth", "2"]);
    assert_eq!(args.scan_options(&config).max_depth, Some(2));
}
