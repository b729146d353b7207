use build_cleaner::config::{
    CleanConfig, Config, ConfigFile, ConfigFormat, ConfigLoader, Options, PathKind, ProjectType,
};
use build_cleaner::error::{CleanError, IoFailure};
use build_cleaner::search::{SearchEngine, SearchOptions};

fn plain_options() -> Options {
    Options {
        recursive: true,
        follow_symlinks: false,
        min_size: None,
        max_size: None,
        min_age_days: None,
        max_age_days: None,
    }
}

fn strings(items: &[&str]) -> Vec<String> {
    items.iter().map(|s| s.to_string()).collect()
}

#[test]
fn test_load_default_config() {
    let config = ConfigLoader::load_default_config(&ProjectType::NodeJs);
    assert!(config.clean.folders.contains(&"node_modules".to_string()));
    assert!(config.clean.folders.contains(&"dist".to_string()));
    assert!(config.options.recursive);

    let config = ConfigLoader::load_default_config(&ProjectType::Rust);
    assert!(config.clean.folders.contains(&"target".to_string()));

    let config = ConfigLoader::load_default_config(&ProjectType::Python);
    assert!(config.clean.folders.contains(&"__pycache__".to_string()));
    assert!(config.clean.files.contains(&"*.pyc".to_string()));
}

#[test]
fn test_merge_configs() {
    let default = Config {
        clean: CleanConfig { folders: vec!["default_folder".to_string()], files: vec![] },
        exclude: vec![],
        options: plain_options(),
    };

    let file_config = Config {
        clean: CleanConfig {
            folders: vec!["file_folder".to_string()],
            files: vec!["*.log".to_string()],
        },
        exclude: vec![],
        options: Options {
            recursive: false,
            follow_symlinks: true,
            min_size: None,
            max_size: None,
            min_age_days: None,
            max_age_days: None,
        },
    };

    let cli_patterns = vec!["cli_folder/".to_string(), "*.tmp".to_string()];

    let merged = ConfigLoader::merge_configs(&default, Some(&file_config), &cli_patterns);

    assert!(!merged.options.recursive);
    assert!(merged.options.follow_symlinks);

    assert!(merged.clean.folders.contains(&"default_folder".to_string()));
    assert!(merged.clean.folders.contains(&"file_folder".to_string()));
    assert!(merged.clean.folders.contains(&"cli_folder".to_string()));
    assert!(merged.clean.files.contains(&"*.log".to_string()));
    assert!(merged.clean.files.contains(&"*.tmp".to_string()));
}

#[test]
fn test_validate_config() {
    let valid_config = Config {
        clean: CleanConfig { folders: vec!["test".to_string()], files: vec![] },
        exclude: vec![],
        options: plain_options(),
    };
    assert!(ConfigLoader::validate_config(&valid_config).is_ok());

    let invalid_config = Config {
        clean: CleanConfig { folders: vec![], files: vec![] },
        exclude: vec![],
        options: plain_options(),
    };
    assert!(ConfigLoader::validate_config(&invalid_config).is_err());
}

#[test]
fn test_validate_path() {
    assert!(ConfigLoader::validate_path("/tmp/some/project", PathKind::Directory).is_ok());

    assert!(ConfigLoader::validate_path("/nonexistent/path/12345", PathKind::Missing).is_err());
}

#[test]
fn test_expand_path() {
    let path = ConfigLoader::expand_path("/some/path", "/home/user");
    assert_eq!(path, "/some/path");

    let home = "/home/user";
    let expanded = ConfigLoader::expand_path("~", home);
    assert_eq!(expanded, home);

    let expanded = ConfigLoader::expand_path("~/test", home);
    assert_eq!(expanded, "/home/user/test");
}

#[test]
fn test_detect_project_type() {
    assert_eq!(
        ConfigLoader::detect_project_type(&strings(&["package.json"])),
        ProjectType::NodeJs
    );
    assert_eq!(ConfigLoader::detect_project_type(&strings(&["Cargo.toml"])), ProjectType::Rust);
    assert_eq!(
        ConfigLoader::detect_project_type(&strings(&["requirements.txt"])),
        ProjectType::Python
    );
    assert_eq!(ConfigLoader::detect_project_type(&strings(&["go.mod"])), ProjectType::Go);
    assert_eq!(ConfigLoader::detect_project_type(&strings(&["pom.xml"])), ProjectType::Java);
    assert_eq!(ConfigLoader::detect_project_type(&strings(&[])), ProjectType::Unknown);
}

#[test]
fn test_parse_config_file() {
    assert_eq!(ConfigLoader::config_format("/tmp/x/config.json"), ConfigFormat::Json);
    assert_eq!(ConfigLoader::config_format("/tmp/x/config.yaml"), ConfigFormat::Yaml);
}

#[test]
fn default_config_of_every_project_type() {
    let cases: [(ProjectType, &[&str], &[&str]); 6] = [
        (ProjectType::NodeJs, &["node_modules", "dist", "build", ".next"], &[]),
        (ProjectType::Rust, &["target"], &[]),
        (ProjectType::Python, &["__pycache__"], &["*.pyc"]),
        (ProjectType::Go, &["vendor", "bin"], &[]),
        (ProjectType::Java, &["target", "build"], &[]),
        (ProjectType::Unknown, &["node_modules", "dist", "build", "target"], &[]),
    ];
    for (t, folders, files) in cases {
        let config = ConfigLoader::load_default_config(&t);
        assert_eq!(config.clean.folders, strings(folders));
        assert_eq!(config.clean.files, strings(files));
        assert!(config.exclude.is_empty());
        assert!(config.options.recursive);
        assert!(!config.options.follow_symlinks);
        assert_eq!(config.options.min_size, None);
        assert_eq!(config.options.max_size, None);
        assert_eq!(config.options.min_age_days, None);
        assert_eq!(config.options.max_age_days, None);
    }
}

#[test]
fn merge_keeps_order_and_adds_nothing_twice() {
    let default = Config {
        clean: CleanConfig { folders: strings(&["a", "b"]), files: strings(&["*.x"]) },
        exclude: strings(&["/keep"]),
        options: plain_options(),
    };
    let file = Config {
        clean: CleanConfig { folders: strings(&["b", "c"]), files: strings(&["*.y"]) },
        exclude: strings(&["/also"]),
        options: Options { min_size: Some(7), ..plain_options() },
    };
    let cli = strings(&["c/", "d//", "*.x", "*.z", "d/", "*.z"]);
    let merged = ConfigLoader::merge_configs(&default, Some(&file), &cli);
    assert_eq!(merged.clean.folders, strings(&["a", "b", "b", "c", "d"]));
    assert_eq!(merged.clean.files, strings(&["*.x", "*.y", "*.z"]));
    assert_eq!(merged.exclude, strings(&["/keep", "/also"]));
    assert_eq!(merged.options.min_size, Some(7));
}

#[test]
fn merge_without_file_keeps_default_options() {
    let default = Config {
        clean: CleanConfig { folders: strings(&["a"]), files: vec![] },
        exclude: vec![],
        options: Options { max_age_days: Some(3), ..plain_options() },
    };
    let merged = ConfigLoader::merge_configs(&default, None, &strings(&["*.log"]));
    assert_eq!(merged.clean.folders, strings(&["a"]));
    assert_eq!(merged.clean.files, strings(&["*.log"]));
    assert_eq!(merged.options.max_age_days, Some(3));
    assert!(merged.options.recursive);
}

#[test]
fn validate_config_says_what_is_missing() {
    let empty = Config {
        clean: CleanConfig { folders: vec![], files: vec![] },
        exclude: strings(&["/x"]),
        options: plain_options(),
    };
    match ConfigLoader::validate_config(&empty) {
        Err(CleanError::ConfigParseError(m)) => {
            assert_eq!(m, "At least one folder or file pattern must be specified")
        }
        other => panic!("unexpected {:?}", other),
    }
    let files_only = Config {
        clean: CleanConfig { folders: vec![], files: strings(&["*.o"]) },
        exclude: vec![],
        options: plain_options(),
    };
    assert!(ConfigLoader::validate_config(&files_only).is_ok());
}

#[test]
fn validate_path_by_kind() {
    assert!(ConfigLoader::validate_path("/p", PathKind::File).is_ok());
    assert!(ConfigLoader::validate_path("/p", PathKind::Directory).is_ok());
    match ConfigLoader::validate_path("/p", PathKind::Missing) {
        Err(CleanError::PathNotFound(p)) => assert_eq!(p, "/p"),
        other => panic!("unexpected {:?}", other),
    }
    match ConfigLoader::validate_path("/dev/null", PathKind::Other) {
        Err(CleanError::Other(m)) => assert_eq!(m, "Path is not a file or directory: /dev/null"),
        other => panic!("unexpected {:?}", other),
    }
}

#[test]
fn expand_path_only_expands_a_leading_tilde() {
    assert_eq!(ConfigLoader::expand_path("~", "/h"), "/h");
    assert_eq!(ConfigLoader::expand_path("~/", "/h"), "/h/");
    assert_eq!(ConfigLoader::expand_path("~/a/b", "/h"), "/h/a/b");
    assert_eq!(ConfigLoader::expand_path("~/a", "/h/"), "/h/a");
    assert_eq!(ConfigLoader::expand_path("~/a", ""), "a");
    assert_eq!(ConfigLoader::expand_path("~//abs", "/h"), "/abs");
    assert_eq!(ConfigLoader::expand_path("~user/a", "/h"), "~user/a");
    assert_eq!(ConfigLoader::expand_path("a/~", "/h"), "a/~");
    assert_eq!(ConfigLoader::expand_path("", "/h"), "");
    assert_eq!(ConfigLoader::expand_path("test", "/h"), "test");
    for (path, home) in [("~/a", "/h"), ("~/", "/h"), ("~/a", "/h/"), ("~/a", ""), ("~//abs", "/h")]
    {
        let joined = std::path::PathBuf::from(home).join(&path[2..]);
        assert_eq!(ConfigLoader::expand_path(path, home), joined.to_str().unwrap());
    }
}

#[test]
fn home_directory_falls_back() {
    assert_eq!(
        ConfigLoader::home_directory(Some("/h".to_string()), Some("/u".to_string())),
        "/h"
    );
    assert_eq!(ConfigLoader::home_directory(None, Some("/u".to_string())), "/u");
    assert_eq!(ConfigLoader::home_directory(None, None), ".");
}

#[test]
fn first_telling_name_decides_the_project_type() {
    let names = strings(&["README.md", "src", "go.mod", "package.json"]);
    assert_eq!(ConfigLoader::detect_project_type(&names), ProjectType::Go);
    let names = strings(&["build.gradle"]);
    assert_eq!(ConfigLoader::detect_project_type(&names), ProjectType::Java);
    for n in ["setup.py", "pyproject.toml", "requirements.txt"] {
        assert_eq!(ConfigLoader::detect_project_type(&strings(&[n])), ProjectType::Python);
    }
    let names = strings(&["cargo.toml", "Package.json", "pom.xml.bak"]);
    assert_eq!(ConfigLoader::detect_project_type(&names), ProjectType::Unknown);
}

#[test]
fn config_format_goes_by_extension() {
    for (path, format) in [
        ("a.yaml", ConfigFormat::Yaml),
        ("a.yml", ConfigFormat::Yaml),
        (".bc.yaml", ConfigFormat::Yaml),
        ("/x/y.z/conf.yml", ConfigFormat::Yaml),
        ("dir.yaml/conf", ConfigFormat::Json),
        (".yaml", ConfigFormat::Json),
        (".yml", ConfigFormat::Json),
        ("yaml", ConfigFormat::Json),
        ("a.YAML", ConfigFormat::Json),
        ("a.yaml.json", ConfigFormat::Json),
        ("a.json", ConfigFormat::Json),
        ("a.yaml/", ConfigFormat::Yaml),
        ("a.toml", ConfigFormat::Json),
        ("", ConfigFormat::Json),
    ] {
        assert_eq!(ConfigLoader::config_format(path), format, "{:?}", path);
        let ext = std::path::Path::new(path).extension().and_then(|s| s.to_str());
        let expected = if ext == Some("yaml") || ext == Some("yml") {
            ConfigFormat::Yaml
        } else {
            ConfigFormat::Json
        };
        assert_eq!(format, expected, "extension of {:?}", path);
    }
}

#[test]
fn load_config_merges_defaults_and_command_line() {
    let config = ConfigLoader::load_config(
        "/p",
        PathKind::Directory,
        &strings(&["Cargo.toml", "src"]),
        None,
        &strings(&["*.log", "out/"]),
    )
    .unwrap();
    assert_eq!(config.clean.folders, strings(&["target", "out"]));
    assert_eq!(config.clean.files, strings(&["*.log"]));
}

#[test]
fn load_config_reports_the_first_failure() {
    let good_file = || ConfigFile {
        path: "/c.json".to_string(),
        kind: PathKind::File,
        parsed: Ok(Config {
            clean: CleanConfig { folders: strings(&["x"]), files: vec![] },
            exclude: strings(&["/p/keep"]),
            options: plain_options(),
        }),
    };
    let r = ConfigLoader::load_config("/p", PathKind::Missing, &[], Some(good_file()), &[]);
    assert!(matches!(r, Err(CleanError::PathNotFound(p)) if p == "/p"));

    let missing = ConfigFile { kind: PathKind::Missing, ..good_file() };
    let r = ConfigLoader::load_config("/p", PathKind::Directory, &[], Some(missing), &[]);
    assert!(matches!(r, Err(CleanError::PathNotFound(p)) if p == "/c.json"));

    let broken = ConfigFile {
        parsed: Err(CleanError::ConfigParseError("Failed to parse JSON: eof".to_string())),
        ..good_file()
    };
    let r = ConfigLoader::load_config("/p", PathKind::Directory, &[], Some(broken), &[]);
    assert!(
        matches!(r, Err(CleanError::ConfigParseError(m)) if m == "Failed to parse JSON: eof")
    );

    let r = ConfigLoader::load_config("/p", PathKind::Directory, &[], Some(good_file()), &[]);
    let config = r.unwrap();
    assert_eq!(config.clean.folders, strings(&["node_modules", "dist", "build", "target", "x"]));
    assert_eq!(config.exclude, strings(&["/p/keep"]));
}

#[test]
fn search_options_come_from_options() {
    let options = Options {
        recursive: false,
        follow_symlinks: true,
        min_size: Some(1),
        max_size: Some(2),
        min_age_days: Some(3),
        max_age_days: Some(4),
    };
    let so: SearchOptions = (&options).into();
    assert!(!so.recursive);
    assert!(so.follow_symlinks);
    assert_eq!(so.max_depth, None);
    assert_eq!(so.min_size, Some(1));
    assert_eq!(so.max_size, Some(2));
    assert_eq!(so.min_age_days, Some(3));
    assert_eq!(so.max_age_days, Some(4));
}

#[test]
fn test_walk_path() {
    let options = SearchOptions {
        recursive: true,
        follow_symlinks: false,
        max_depth: None,
        min_size: None,
        max_size: None,
        min_age_days: None,
        max_age_days: None,
    };
    let request = SearchEngine::walk_path("/tmp/project", &options);
    assert_eq!(request.root, "/tmp/project");
    assert_eq!(request.max_depth, usize::MAX);
    assert!(!request.follow_links);
}

#[test]
fn walk_depth_policy() {
    let mut options = SearchOptions {
        recursive: false,
        follow_symlinks: true,
        max_depth: Some(7),
        min_size: None,
        max_size: None,
        min_age_days: None,
        max_age_days: None,
    };
    let request = SearchEngine::walk_path("r", &options);
    assert_eq!(request.max_depth, 1);
    assert!(request.follow_links);
    options.recursive = true;
    assert_eq!(SearchEngine::walk_path("r", &options).max_depth, 7);
}

#[test]
fn error_texts() {
    assert_eq!(CleanError::PathNotFound("/a".to_string()).message(), "Path not found: /a");
    assert_eq!(CleanError::PermissionDenied("/a".to_string()).message(), "Permission denied: /a");
    assert_eq!(CleanError::FileInUse("/a".to_string()).message(), "File in use: /a");
    assert_eq!(
        CleanError::ConfigParseError("bad".to_string()).message(),
        "Config parse error: bad"
    );
    assert_eq!(
        CleanError::SafetyRejected("no".to_string()).message(),
        "Safety check failed: no"
    );
    assert_eq!(CleanError::Cancelled.message(), "Operation cancelled by user");
    assert_eq!(CleanError::Other("x".to_string()).message(), "Other error: x");
}

#[test]
fn io_failures_keep_their_class() {
    assert!(matches!(
        CleanError::from_io(IoFailure::NotFound, "gone".to_string()),
        CleanError::PathNotFound(p) if p.is_empty()
    ));
    assert!(matches!(
        CleanError::from_io(IoFailure::PermissionDenied, "no".to_string()),
        CleanError::PermissionDenied(p) if p.is_empty()
    ));
    assert!(matches!(
        CleanError::from_io(IoFailure::Other, "disk full".to_string()),
        CleanError::Other(m) if m == "disk full"
    ));
}
