//! What to clean and how to search for it.

use vstd::prelude::*;
use crate::error::CleanError;
use crate::path::{base_name, file_name};
use crate::search::{without_trailing_separators, SearchEngine};
use crate::text::{chars_of, copy_texts, extend_texts, has_text, text_eq, texts};

verus! {

/// The names and globs that mark an entry for removal.
#[derive(Debug)]
pub struct CleanConfig {
    /// Folder names; a folder matches when its name equals one of them.
    pub folders: Vec<String>,
    /// File globs over the file's name, with `*` and `?`.
    pub files: Vec<String>,
}

/// How the search walks and which files it considers.
#[derive(Debug, Clone, Copy)]
pub struct Options {
    /// Whether to descend below the first level.
    pub recursive: bool,
    /// Whether to follow symbolic links.
    pub follow_symlinks: bool,
    /// Files smaller than this many bytes are left alone.
    pub min_size: Option<u64>,
    /// Files larger than this many bytes are left alone.
    pub max_size: Option<u64>,
    /// Files modified fewer than this many days ago are left alone.
    pub min_age_days: Option<u32>,
    /// Files modified more than this many days ago are left alone.
    pub max_age_days: Option<u32>,
}

/// A complete configuration of one run.
#[derive(Debug)]
pub struct Config {
    pub clean: CleanConfig,
    /// Paths that the search must not see, with all beneath them.
    pub exclude: Vec<String>,
    pub options: Options,
}

/// A configuration as plain text.
#[verifier::ext_equal]
pub struct ConfigView {
    pub folders: Seq<Seq<char>>,
    pub files: Seq<Seq<char>>,
    pub exclude: Seq<Seq<char>>,
    pub options: Options,
}

impl View for Config {
    type V = ConfigView;

    open spec fn view(&self) -> ConfigView {
        ConfigView {
            folders: texts(self.clean.folders@),
            files: texts(self.clean.files@),
            exclude: texts(self.exclude@),
            options: self.options,
        }
    }
}

/// The kind of project that a directory holds.
#[derive(Debug, Clone, Copy, PartialEq, Eq, Structural)]
pub enum ProjectType {
    NodeJs,
    Rust,
    Python,
    Go,
    Java,
    Unknown,
}

/// What the file system says of a path.
#[derive(Debug, Clone, Copy, PartialEq, Eq, Structural)]
pub enum PathKind {
    /// Nothing is there.
    Missing,
    File,
    Directory,
    /// Something is there that is neither a file nor a directory.
    Other,
}

/// The format of a configuration file.
#[derive(Debug, Clone, Copy, PartialEq, Eq, Structural)]
pub enum ConfigFormat {
    Yaml,
    Json,
}

/// What the driver found out about the configuration file that the user named.
#[derive(Debug)]
pub struct ConfigFile {
    pub path: String,
    pub kind: PathKind,
    /// The configuration read from the file, or why it could not be read.
    pub parsed: Result<Config, CleanError>,
}

/// The project type that a file of this name gives away.
pub open spec fn marker_type(name: Seq<char>) -> Option<ProjectType> {
    if name == "package.json"@ {
        Some(ProjectType::NodeJs)
    } else if name == "Cargo.toml"@ {
        Some(ProjectType::Rust)
    } else if name == "go.mod"@ {
        Some(ProjectType::Go)
    } else if name == "pom.xml"@ || name == "build.gradle"@ {
        Some(ProjectType::Java)
    } else if name == "requirements.txt"@ || name == "setup.py"@ || name == "pyproject.toml"@ {
        Some(ProjectType::Python)
    } else {
        None
    }
}

/// The project type of a directory with these entries, in the order in
/// which they are listed: the first telling name decides.
pub open spec fn detected_type(names: Seq<Seq<char>>) -> ProjectType
    decreases names.len(),
{
    if names.len() == 0 {
        ProjectType::Unknown
    } else {
        match marker_type(names[0]) {
            Some(t) => t,
            None => detected_type(names.skip(1)),
        }
    }
}

/// The folders that are cleaned by default in a project of this type.
pub open spec fn default_folders(t: ProjectType) -> Seq<Seq<char>> {
    match t {
        ProjectType::NodeJs => seq!["node_modules"@, "dist"@, "build"@, ".next"@],
        ProjectType::Rust => seq!["target"@],
        ProjectType::Python => seq!["__pycache__"@],
        ProjectType::Go => seq!["vendor"@, "bin"@],
        ProjectType::Java => seq!["target"@, "build"@],
        ProjectType::Unknown => seq!["node_modules"@, "dist"@, "build"@, "target"@],
    }
}

/// The file globs that are cleaned by default in a project of this type.
pub open spec fn default_files(t: ProjectType) -> Seq<Seq<char>> {
    match t {
        ProjectType::Python => seq!["*.pyc"@],
        _ => Seq::empty(),
    }
}

/// The options that hold unless a configuration file says otherwise.
pub open spec fn default_options() -> Options {
    Options {
        recursive: true,
        follow_symlinks: false,
        min_size: None,
        max_size: None,
        min_age_days: None,
        max_age_days: None,
    }
}

/// The default configuration of a project of this type.
pub open spec fn default_config(t: ProjectType) -> ConfigView {
    ConfigView {
        folders: default_folders(t),
        files: default_files(t),
        exclude: Seq::empty(),
        options: default_options(),
    }
}

/// The defaults with a configuration file laid over them: its patterns
/// and exclusions are added, its options replace the default ones.
pub open spec fn with_file(base: ConfigView, file: Option<ConfigView>) -> ConfigView {
    match file {
        None => base,
        Some(f) => ConfigView {
            folders: base.folders + f.folders,
            files: base.files + f.files,
            exclude: base.exclude + f.exclude,
            options: f.options,
        },
    }
}

/// A configuration with one more pattern from the command line. A pattern
/// that ends in a separator names a folder, any other is a file glob.
/// A pattern that is already there is not added again.
pub open spec fn with_pattern(c: ConfigView, pattern: Seq<char>) -> ConfigView {
    if pattern.len() > 0 && pattern.last() == '/' {
        let folder = without_trailing_separators(pattern);
        if c.folders.contains(folder) {
            c
        } else {
            ConfigView { folders: c.folders.push(folder), ..c }
        }
    } else if c.files.contains(pattern) {
        c
    } else {
        ConfigView { files: c.files.push(pattern), ..c }
    }
}

/// A configuration with the patterns from the command line, one after another.
pub open spec fn with_patterns(c: ConfigView, patterns: Seq<Seq<char>>) -> ConfigView
    decreases patterns.len(),
{
    if patterns.len() == 0 {
        c
    } else {
        with_pattern(with_patterns(c, patterns.drop_last()), patterns.last())
    }
}

/// The merged configuration: defaults, then the file, then the command line.
pub open spec fn merged(base: ConfigView, file: Option<ConfigView>, patterns: Seq<Seq<char>>) -> ConfigView {
    with_patterns(with_file(base, file), patterns)
}

/// Whether a configuration names anything to search for.
pub open spec fn names_something(c: ConfigView) -> bool {
    c.folders.len() > 0 || c.files.len() > 0
}

/// `rest` seen from `base`: `rest` itself if it starts at the root, else
/// `base` and `rest` with one separator between them.
pub open spec fn joined(base: Seq<char>, rest: Seq<char>) -> Seq<char> {
    if rest.len() > 0 && rest[0] == '/' {
        rest
    } else if base.len() == 0 || base.last() == '/' {
        base + rest
    } else {
        base.push('/') + rest
    }
}

/// `path` with a leading `~` replaced by the home directory. Only `~`
/// alone and `~/...` are expanded.
pub open spec fn expanded(path: Seq<char>, home: Seq<char>) -> Seq<char> {
    if path.len() == 1 && path[0] == '~' {
        home
    } else if path.len() >= 2 && path[0] == '~' && path[1] == '/' {
        joined(home, path.skip(2))
    } else {
        path
    }
}

/// Whether `name` has the extension `ext`, itself free of dots: it ends in
/// a dot and `ext`, and something stands before the dot.
pub open spec fn has_extension(name: Seq<char>, ext: Seq<char>) -> bool {
    &&& name.len() > ext.len() + 1
    &&& name[name.len() - ext.len() - 1] == '.'
    &&& name.skip(name.len() - ext.len()) == ext
}

/// The format in which a configuration file of this path is read: YAML for
/// the extensions `yaml` and `yml`, JSON for anything else.
pub open spec fn format_of(path: Seq<char>) -> ConfigFormat {
    if has_extension(base_name(path), "yaml"@) || has_extension(base_name(path), "yml"@) {
        ConfigFormat::Yaml
    } else {
        ConfigFormat::Json
    }
}

/// The configuration that these parts make up.
spec fn assembled(
    folders: Seq<String>,
    files: Seq<String>,
    exclude: Seq<String>,
    options: Options,
) -> ConfigView {
    ConfigView { folders: texts(folders), files: texts(files), exclude: texts(exclude), options }
}

fn ends_in_extension(name: &Vec<char>, ext: &str) -> (yes: bool)
    ensures
        yes == has_extension(name@, ext@),
{
    let e = chars_of(ext);
    if name.len() < e.len() || name.len() - e.len() < 2 {
        return false;
    }
    let start = name.len() - e.len();
    if name[start - 1] != '.' {
        return false;
    }
    let mut i: usize = 0;
    while i < e.len()
        invariant
            i <= e.len(),
            e@ == ext@,
            start + e.len() == name.len(),
            forall|k: int| 0 <= k < i ==> name@[start + k] == e@[k],
        decreases e.len() - i,
    {
        if name[start + i] != e[i] {
            return false;
        }
        i += 1;
    }
    assert(name@.skip(start as int) =~= e@);
    true
}

/// Loads, merges and validates configurations.
pub struct ConfigLoader;

impl ConfigLoader {
    /// The home directory, from what the environment holds: `HOME`, else
    /// `USERPROFILE`, else the current directory.
    pub fn home_directory(home: Option<String>, user_profile: Option<String>) -> (dir: String)
        ensures
            home matches Some(h) ==> dir@ == h@,
            home is None ==> (user_profile matches Some(u) ==> dir@ == u@),
            home is None && user_profile is None ==> dir@ == "."@,
    {
        match home {
            Some(h) => h,
            None => match user_profile {
                Some(u) => u,
                None => ".".to_owned(),
            },
        }
    }

    /// Expands a leading `~` in `path` to the home directory.
    pub fn expand_path(path: &str, home: &str) -> (out: String)
        ensures
            out@ == expanded(path@, home@),
    {
        let chars = chars_of(path);
        let n = chars.len();
        if n == 1 && chars[0] == '~' {
            home.to_owned()
        } else if n >= 2 && chars[0] == '~' && chars[1] == '/' {
            let rest = path.substring_char(2, n);
            let base = chars_of(home);
            if n > 2 && chars[2] == '/' {
                rest.to_owned()
            } else if base.len() == 0 || base[base.len() - 1] == '/' {
                home.to_owned().concat(rest)
            } else {
                proof {
                    reveal_strlit("/");
                }
                home.to_owned().concat("/").concat(rest)
            }
        } else {
            path.to_owned()
        }
    }

    /// Validates a root path by what the file system says of it: it must
    /// exist, and be a file or a directory.
    pub fn validate_path(path: &str, kind: PathKind) -> (verdict: Result<(), CleanError>)
        ensures
            kind is File || kind is Directory <==> verdict is Ok,
            kind is Missing ==> (verdict matches Err(CleanError::PathNotFound(p)) && p@ == path@),
            kind is Other ==> (verdict matches Err(CleanError::Other(m)) && m@
                == "Path is not a file or directory: "@ + path@),
    {
        match kind {
            PathKind::Missing => Err(CleanError::PathNotFound(path.to_owned())),
            PathKind::Other => Err(
                CleanError::Other("Path is not a file or directory: ".to_owned().concat(path)),
            ),
            _ => Ok(()),
        }
    }

    fn marker(name: &str) -> (t: Option<ProjectType>)
        ensures
            t == marker_type(name@),
    {
        if text_eq(name, "package.json") {
            Some(ProjectType::NodeJs)
        } else if text_eq(name, "Cargo.toml") {
            Some(ProjectType::Rust)
        } else if text_eq(name, "go.mod") {
            Some(ProjectType::Go)
        } else if text_eq(name, "pom.xml") || text_eq(name, "build.gradle") {
            Some(ProjectType::Java)
        } else if text_eq(name, "requirements.txt") || text_eq(name, "setup.py") || text_eq(
            name,
            "pyproject.toml",
        ) {
            Some(ProjectType::Python)
        } else {
            None
        }
    }

    /// Tells the type of a project from the names of the entries in its
    /// root, in the order in which the directory lists them.
    pub fn detect_project_type(names: &[String]) -> (t: ProjectType)
        ensures
            t == detected_type(texts(names@)),
    {
        let ghost all = texts(names@);
        let mut i: usize = 0;
        assert(all.skip(0) =~= all);
        while i < names.len()
            invariant
                i <= names.len(),
                all == texts(names@),
                detected_type(all) == detected_type(all.skip(i as int)),
            decreases names.len() - i,
        {
            assert(all.skip(i as int).skip(1) =~= all.skip(i + 1));
            match Self::marker(names[i].as_str()) {
                Some(t) => {
                    return t;
                },
                None => {},
            }
            i += 1;
        }
        ProjectType::Unknown
    }

    /// The default configuration of a project of this type.
    pub fn load_default_config(project_type: &ProjectType) -> (config: Config)
        ensures
            config@ == default_config(*project_type),
    {
        let mut folders: Vec<String> = Vec::new();
        let mut files: Vec<String> = Vec::new();
        match project_type {
            ProjectType::NodeJs => {
                folders.push("node_modules".to_owned());
                folders.push("dist".to_owned());
                folders.push("build".to_owned());
                folders.push(".next".to_owned());
            },
            ProjectType::Rust => {
                folders.push("target".to_owned());
            },
            ProjectType::Python => {
                folders.push("__pycache__".to_owned());
                files.push("*.pyc".to_owned());
            },
            ProjectType::Go => {
                folders.push("vendor".to_owned());
                folders.push("bin".to_owned());
            },
            ProjectType::Java => {
                folders.push("target".to_owned());
                folders.push("build".to_owned());
            },
            ProjectType::Unknown => {
                folders.push("node_modules".to_owned());
                folders.push("dist".to_owned());
                folders.push("build".to_owned());
                folders.push("target".to_owned());
            },
        }
        let config = Config {
            clean: CleanConfig { folders, files },
            exclude: Vec::new(),
            options: Options {
                recursive: true,
                follow_symlinks: false,
                min_size: None,
                max_size: None,
                min_age_days: None,
                max_age_days: None,
            },
        };
        config
    }

    /// The format in which the configuration file at `path` is to be read.
    pub fn config_format(path: &str) -> (format: ConfigFormat)
        ensures
            format == format_of(path@),
    {
        let name = file_name(path);
        if ends_in_extension(&name, "yaml") || ends_in_extension(&name, "yml") {
            ConfigFormat::Yaml
        } else {
            ConfigFormat::Json
        }
    }

    /// Merges the defaults, the configuration file if there is one, and the
    /// patterns from the command line, in this order.
    pub fn merge_configs(
        default: &Config,
        file_config: Option<&Config>,
        cli_patterns: &[String],
    ) -> (config: Config)
        ensures
            config@ == merged(
                default@,
                match file_config {
                    Some(f) => Some(f@),
                    None => None,
                },
                texts(cli_patterns@),
            ),
    {
        let mut folders = copy_texts(&default.clean.folders);
        let mut files = copy_texts(&default.clean.files);
        let mut exclude = copy_texts(&default.exclude);
        let mut options = default.options;
        if let Some(f) = file_config {
            extend_texts(&mut folders, &f.clean.folders);
            extend_texts(&mut files, &f.clean.files);
            extend_texts(&mut exclude, &f.exclude);
            options = f.options;
        }
        let ghost base = with_file(
            default@,
            match file_config {
                Some(f) => Some(f@),
                None => None,
            },
        );
        let ghost patterns = texts(cli_patterns@);
        let mut i: usize = 0;
        while i < cli_patterns.len()
            invariant
                i <= cli_patterns.len(),
                patterns == texts(cli_patterns@),
                assembled(folders@, files@, exclude@, options) == with_patterns(
                    base,
                    patterns.take(i as int),
                ),
            decreases cli_patterns.len() - i,
        {
            let pattern = &cli_patterns[i];
            let chars = chars_of(pattern.as_str());
            proof {
                assert(patterns.take(i + 1).drop_last() =~= patterns.take(i as int));
            }
            if chars.len() > 0 && chars[chars.len() - 1] == '/' {
                let end = SearchEngine::stem_length(&chars);
                let folder = pattern.as_str().substring_char(0, end);
                if !has_text(&folders, folder) {
                    folders.push(folder.to_owned());
                }
            } else if !has_text(&files, pattern.as_str()) {
                files.push(pattern.clone());
            }
            i += 1;
        }
        assert(patterns.take(i as int) =~= patterns);
        Config { clean: CleanConfig { folders, files }, exclude, options }
    }

    /// Validates a configuration: it must name a folder or a file pattern.
    pub fn validate_config(config: &Config) -> (verdict: Result<(), CleanError>)
        ensures
            verdict is Ok <==> names_something(config@),
            verdict is Err ==> (verdict matches Err(CleanError::ConfigParseError(m)) && m@
                == "At least one folder or file pattern must be specified"@),
    {
        if config.clean.folders.len() == 0 && config.clean.files.len() == 0 {
            return Err(
                CleanError::ConfigParseError(
                    "At least one folder or file pattern must be specified".to_owned(),
                ),
            );
        }
        Ok(())
    }
}

impl ConfigLoader {
    /// Loads the configuration of a run from what the driver found: the
    /// kind of the root `path`, the names of the root's entries, the
    /// configuration file if the user named one, and the patterns from the
    /// command line.
    ///
    /// The root is validated first, then the configuration file's path, then
    /// what was read from it; the merged configuration is validated last.
    /// The first of these that fails decides the error.
    pub fn load_config(
        path: &str,
        kind: PathKind,
        entries: &[String],
        config_file: Option<ConfigFile>,
        cli_patterns: &[String],
    ) -> (outcome: Result<Config, CleanError>)
        ensures
            kind is Missing ==> (outcome matches Err(CleanError::PathNotFound(p)) && p@ == path@),
            kind is Other ==> (outcome matches Err(CleanError::Other(m)) && m@
                == "Path is not a file or directory: "@ + path@),
            (kind is File || kind is Directory) ==> match config_file {
                Some(f) => match f.kind {
                    PathKind::Missing => (outcome matches Err(CleanError::PathNotFound(p)) && p@
                        == f.path@),
                    PathKind::Other => (outcome matches Err(CleanError::Other(m)) && m@
                        == "Path is not a file or directory: "@ + f.path@),
                    _ => match f.parsed {
                        Err(e) => outcome == Err::<Config, CleanError>(e),
                        Ok(c) => Self::loaded(
                            merged(
                                default_config(detected_type(texts(entries@))),
                                Some(c@),
                                texts(cli_patterns@),
                            ),
                            outcome,
                        ),
                    },
                },
                None => Self::loaded(
                    merged(
                        default_config(detected_type(texts(entries@))),
                        None,
                        texts(cli_patterns@),
                    ),
                    outcome,
                ),
            },
    {
        match Self::validate_path(path, kind) {
            Err(e) => {
                return Err(e);
            },
            Ok(_) => {},
        }
        let project_type = Self::detect_project_type(entries);
        let default = Self::load_default_config(&project_type);
        let file_config: Option<Config> = match config_file {
            Some(f) => {
                match Self::validate_path(f.path.as_str(), f.kind) {
                    Err(e) => {
                        return Err(e);
                    },
                    Ok(_) => {},
                }
                match f.parsed {
                    Ok(c) => Some(c),
                    Err(e) => {
                        return Err(e);
                    },
                }
            },
            None => None,
        };
        let config = Self::merge_configs(&default, file_config.as_ref(), cli_patterns);
        match Self::validate_config(&config) {
            Err(e) => Err(e),
            Ok(_) => Ok(config),
        }
    }

    /// Whether `outcome` is what loading yields once `config` is merged:
    /// the configuration itself if it names something to search for, else
    /// the error that says that it does not.
    pub open spec fn loaded(config: ConfigView, outcome: Result<Config, CleanError>) -> bool {
        if names_something(config) {
            outcome matches Ok(c) && c@ == config
        } else {
            outcome matches Err(CleanError::ConfigParseError(m)) && m@
                == "At least one folder or file pattern must be specified"@
        }
    }
}

} // verus!
