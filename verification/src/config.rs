//! Persistent configuration: defaults, validation, and keyed updates.

use vstd::prelude::*;
use crate::error::IaGetError;

verus! {

/// A saved filter combination.
#[derive(Debug, Clone)]
pub struct FilterPreset {
    /// Display name; never empty in a valid configuration.
    pub name: String,
    /// Short description.
    pub description: String,
    /// Comma-separated formats to keep.
    pub include_ext: Option<String>,
    /// Comma-separated formats to drop.
    pub exclude_ext: Option<String>,
    /// Size cap as a size string.
    pub max_file_size: Option<String>,
}

/// Tool configuration with per-run defaults.
#[derive(Debug, Clone)]
pub struct Config {
    /// Default output directory.
    pub default_output_path: Option<String>,
    /// Concurrent downloads; valid between 1 and 10.
    pub concurrent_downloads: usize,
    /// Attempt-level retry cap; valid between 1 and 20.
    pub max_retries: usize,
    /// Default formats to keep.
    pub default_include_ext: Option<String>,
    /// Default formats to drop.
    pub default_exclude_ext: Option<String>,
    /// Default size cap as a size string.
    pub default_max_file_size: Option<String>,
    /// Whether runs resume by default.
    pub default_resume: bool,
    /// Whether runs are verbose by default.
    pub default_verbose: bool,
    /// Whether digest mismatches are logged by default.
    pub default_log_hash_errors: bool,
    /// Whether runs are dry by default.
    pub default_dry_run: bool,
    /// HTTP timeout in seconds; valid between 1 and 300.
    pub http_timeout: u64,
    /// Overrides the built-in user agent.
    pub user_agent_override: Option<String>,
    /// Recently used URLs, newest first.
    pub recent_urls: Vec<String>,
    /// Saved filter combinations.
    pub filter_presets: Vec<FilterPreset>,
    /// Whether HTTP compression is requested by default.
    pub default_compress: bool,
    /// Whether downloads are decompressed by default.
    pub default_decompress: bool,
    /// Comma-separated formats decompressed by default.
    pub default_decompress_formats: Option<String>,
}

/// The built-in filter presets.
pub fn default_filter_presets() -> (r: Vec<FilterPreset>)
    ensures
        r@.len() == 2,
        r@[0].name@ == "Documents"@,
        r@[1].name@ == "Audio"@,
        forall|i: int|
            0 <= i < r@.len() ==> (#[trigger] r@[i]).name@.len() > 0 && r@[i].include_ext
                is Some,
{
    let mut v: Vec<FilterPreset> = Vec::new();
    v.push(
        FilterPreset {
            name: String::from_str("Documents"),
            description: String::from_str("Text documents and books"),
            include_ext: Some(String::from_str("pdf,epub,txt")),
            exclude_ext: None,
            max_file_size: None,
        },
    );
    v.push(
        FilterPreset {
            name: String::from_str("Audio"),
            description: String::from_str("Audio recordings"),
            include_ext: Some(String::from_str("mp3,flac,ogg")),
            exclude_ext: None,
            max_file_size: None,
        },
    );
    proof {
        reveal_strlit("Documents");
        reveal_strlit("Audio");
    }
    v
}

impl Default for Config {
    /// The built-in defaults: three concurrent downloads, three retries, a
    /// thirty-second HTTP timeout, and the built-in filter presets.
    fn default() -> (r: Config)
        ensures
            r.default_output_path is None,
            r.concurrent_downloads == 3,
            r.max_retries == 3,
            r.default_include_ext is None,
            r.default_exclude_ext is None,
            r.default_max_file_size is None,
            r.default_resume == true,
            r.default_verbose == false,
            r.default_log_hash_errors == false,
            r.default_dry_run == false,
            r.http_timeout == 30,
            r.user_agent_override is None,
            r.recent_urls@.len() == 0,
            r.filter_presets@.len() == 2,
            forall|i: int|
                0 <= i < r.filter_presets@.len() ==> (
                #[trigger] r.filter_presets@[i]).name@.len() > 0
                    && r.filter_presets@[i].include_ext is Some,
            r.default_compress == false,
            r.default_decompress == false,
            r.default_decompress_formats is None,
    {
        Config {
            default_output_path: None,
            concurrent_downloads: 3,
            max_retries: 3,
            default_include_ext: None,
            default_exclude_ext: None,
            default_max_file_size: None,
            default_resume: true,
            default_verbose: false,
            default_log_hash_errors: false,
            default_dry_run: false,
            http_timeout: 30,
            user_agent_override: None,
            recent_urls: Vec::new(),
            filter_presets: default_filter_presets(),
            default_compress: false,
            default_decompress: false,
            default_decompress_formats: None,
        }
    }
}

/// A configuration is valid when its numeric bounds hold and every preset
/// bears a name and at least one filter.
pub open spec fn spec_config_valid(c: Config) -> bool {
    &&& 1 <= c.concurrent_downloads <= 10
    &&& 1 <= c.max_retries <= 20
    &&& forall|i: int|
        0 <= i < c.filter_presets@.len() ==> {
            let p = #[trigger] c.filter_presets@[i];
            p.name@.len() > 0 && (p.include_ext is Some || p.exclude_ext is Some)
        }
}

/// Manages where the configuration lives. The configuration directory is
/// handed in by the caller; reading and writing the file is the caller's
/// business too.
#[derive(Debug, Clone)]
pub struct ConfigManager {
    /// Directory the configuration file lives in.
    pub config_dir: String,
}

impl ConfigManager {
    /// A manager rooted at the given configuration directory.
    pub fn new(config_dir: String) -> (r: ConfigManager)
        ensures
            r.config_dir == config_dir,
    {
        ConfigManager { config_dir }
    }

    /// The configuration directory.
    pub fn config_directory(&self) -> (r: &String)
        ensures
            r == &self.config_dir,
    {
        &self.config_dir
    }

    /// The configuration file path: `<dir>/ia-get.toml`.
    pub fn config_file_path(&self) -> (r: String)
        ensures
            r@ == self.config_dir@ + "/ia-get.toml"@,
    {
        let d = crate::strutil::str_to_chars(self.config_dir.as_str());
        let f = crate::strutil::str_to_chars("/ia-get.toml");
        let w = crate::strutil::concat_chars(&d, &f);
        crate::strutil::chars_to_string(&w)
    }

    /// Checks the bounds of `spec_config_valid`, reporting the first broken
    /// rule as a configuration error.
    pub fn validate_config(config: &Config) -> (r: Result<(), IaGetError>)
        ensures
            match r {
                Ok(_) => spec_config_valid(*config),
                Err(e) => !spec_config_valid(*config) && e is Config,
            },
    {
        if config.concurrent_downloads == 0 || config.concurrent_downloads > 10 {
            return Err(
                IaGetError::Config(
                    String::from_str("concurrent downloads must be between 1 and 10"),
                ),
            );
        }
        if config.max_retries == 0 || config.max_retries > 20 {
            return Err(
                IaGetError::Config(String::from_str("max retries must be between 1 and 20")),
            );
        }
        let mut i: usize = 0;
        while i < config.filter_presets.len()
            invariant
                i <= config.filter_presets@.len(),
                forall|j: int|
                    0 <= j < i ==> {
                        let p = #[trigger] config.filter_presets@[j];
                        p.name@.len() > 0 && (p.include_ext is Some || p.exclude_ext is Some)
                    },
            decreases config.filter_presets@.len() - i,
        {
            let p = &config.filter_presets[i];
            if p.name.as_str().is_empty() {
                return Err(
                    IaGetError::Config(String::from_str("filter preset name must not be empty")),
                );
            }
            let has_filter = match (&p.include_ext, &p.exclude_ext) {
                (None, None) => false,
                _ => true,
            };
            if !has_filter {
                return Err(
                    IaGetError::Config(
                        String::from_str("filter preset must name formats to keep or drop"),
                    ),
                );
            }
            i = i + 1;
        }
        Ok(())
    }
}


/// The configuration keys are pairwise distinct words.
proof fn lemma_config_keys_distinct()
    ensures
        "output_dir"@ != "concurrent"@,
        "output_dir"@ != "user_agent"@,
        "concurrent"@ != "user_agent"@,
        "retries"@ != "timeout"@,
        "retries"@ != "verbose"@,
        "retries"@ != "dry_run"@,
        "timeout"@ != "verbose"@,
        "timeout"@ != "dry_run"@,
        "verbose"@ != "dry_run"@,
        "include_ext"@ != "exclude_ext"@,
        "include_ext"@ != "max_retries"@,
        "exclude_ext"@ != "max_retries"@,
        "include_extensions"@ != "exclude_extensions"@,
{
    reveal_strlit("output_dir");
    reveal_strlit("concurrent");
    reveal_strlit("user_agent");
    reveal_strlit("retries");
    reveal_strlit("timeout");
    reveal_strlit("verbose");
    reveal_strlit("dry_run");
    reveal_strlit("include_ext");
    reveal_strlit("exclude_ext");
    reveal_strlit("max_retries");
    reveal_strlit("include_extensions");
    reveal_strlit("exclude_extensions");
    assert("output_dir"@[0] != "concurrent"@[0]);
    assert("output_dir"@[0] != "user_agent"@[0]);
    assert("concurrent"@[0] != "user_agent"@[0]);
    assert("retries"@[0] != "timeout"@[0]);
    assert("retries"@[0] != "verbose"@[0]);
    assert("retries"@[0] != "dry_run"@[0]);
    assert("timeout"@[0] != "verbose"@[0]);
    assert("timeout"@[0] != "dry_run"@[0]);
    assert("verbose"@[0] != "dry_run"@[0]);
    assert("include_ext"@[0] != "exclude_ext"@[0]);
    assert("include_ext"@[0] != "max_retries"@[0]);
    assert("exclude_ext"@[0] != "max_retries"@[0]);
    assert("include_extensions"@[0] != "exclude_extensions"@[0]);
}

/// Renders an optional value or the empty string.
fn opt_or_empty(v: &Option<String>) -> (r: String)
    ensures
        crate::metadata_storage::opt_str_view(*v) matches Some(x) ==> r@ == x,
        crate::metadata_storage::opt_str_view(*v) is None ==> r@ == Seq::<char>::empty(),
{
    match v {
        Some(x) => x.clone(),
        None => String::new(),
    }
}

impl Config {
    /// Sets one configuration value by key. `Ok(true)` means the key was
    /// known and the value stored; `Ok(false)` means the key is unknown and
    /// nothing changed; a configuration error means the value was rejected
    /// and nothing changed. For optional keys the empty string clears the
    /// value; numeric keys demand a number in range (concurrency between 1
    /// and 16, retries at most 20, timeout between 1 and 300 seconds);
    /// boolean keys take the usual words.
    pub fn set_value(&mut self, key: &str, value: &str) -> (r: Result<bool, IaGetError>)
        ensures
            (r matches Err(e) ==> e is Config && *final(self) == *old(self)),
            (r == Ok::<bool, IaGetError>(false) ==> *final(self) == *old(self)),
            ((key@ == "output_dir"@ || key@ == "output_directory"@) && r is Ok ==> r
                == Ok::<bool, IaGetError>(true) && *final(self) == (Config {
                default_output_path: final(self).default_output_path,
                ..*old(self)
            }) && crate::metadata_storage::opt_str_view(final(self).default_output_path) == (
            if value@.len() == 0 {
                None
            } else {
                Some(value@)
            })),
            ((key@ == "concurrent_downloads"@ || key@ == "concurrent"@) && r is Ok ==> r
                == Ok::<bool, IaGetError>(true) && *final(self) == (Config {
                concurrent_downloads: final(self).concurrent_downloads,
                ..*old(self)
            }) && 1 <= final(self).concurrent_downloads <= 16 && crate::strutil::all_digits(
                value@,
            ) && final(self).concurrent_downloads as int == crate::strutil::dec_value(value@)),
            ((key@ == "max_retries"@ || key@ == "retries"@) && r is Ok ==> r == Ok::<
                bool,
                IaGetError,
            >(true) && *final(self) == (Config {
                max_retries: final(self).max_retries,
                ..*old(self)
            }) && final(self).max_retries <= 20 && crate::strutil::all_digits(value@)
                && final(self).max_retries as int == crate::strutil::dec_value(value@)),
            ((key@ == "include_ext"@ || key@ == "include_extensions"@) && r is Ok ==> r
                == Ok::<bool, IaGetError>(true) && *final(self) == (Config {
                default_include_ext: final(self).default_include_ext,
                ..*old(self)
            }) && crate::metadata_storage::opt_str_view(final(self).default_include_ext) == (
            if value@.len() == 0 {
                None
            } else {
                Some(value@)
            })),
            ((key@ == "exclude_ext"@ || key@ == "exclude_extensions"@) && r is Ok ==> r
                == Ok::<bool, IaGetError>(true) && *final(self) == (Config {
                default_exclude_ext: final(self).default_exclude_ext,
                ..*old(self)
            }) && crate::metadata_storage::opt_str_view(final(self).default_exclude_ext) == (
            if value@.len() == 0 {
                None
            } else {
                Some(value@)
            })),
            ((key@ == "max_file_size"@ || key@ == "max_size"@) && r is Ok ==> r == Ok::<
                bool,
                IaGetError,
            >(true) && *final(self) == (Config {
                default_max_file_size: final(self).default_max_file_size,
                ..*old(self)
            }) && crate::metadata_storage::opt_str_view(final(self).default_max_file_size) == (
            if value@.len() == 0 {
                None
            } else {
                Some(value@)
            })),
            (key@ == "resume"@ && r is Ok ==> r == Ok::<bool, IaGetError>(true) && *final(self)
                == (Config { default_resume: final(self).default_resume, ..*old(self) })),
            (key@ == "verbose"@ && r is Ok ==> r == Ok::<bool, IaGetError>(true) && *final(self)
                == (Config { default_verbose: final(self).default_verbose, ..*old(self) })),
            (key@ == "log_hash_errors"@ && r is Ok ==> r == Ok::<bool, IaGetError>(true)
                && *final(self) == (Config {
                default_log_hash_errors: final(self).default_log_hash_errors,
                ..*old(self)
            })),
            (key@ == "dry_run"@ && r is Ok ==> r == Ok::<bool, IaGetError>(true) && *final(self)
                == (Config { default_dry_run: final(self).default_dry_run, ..*old(self) })),
            ((key@ == "http_timeout"@ || key@ == "timeout"@) && r is Ok ==> r == Ok::<
                bool,
                IaGetError,
            >(true) && *final(self) == (Config {
                http_timeout: final(self).http_timeout,
                ..*old(self)
            }) && 1 <= final(self).http_timeout <= 300),
            (key@ == "user_agent"@ && r is Ok ==> r == Ok::<bool, IaGetError>(true)
                && *final(self) == (Config {
                user_agent_override: final(self).user_agent_override,
                ..*old(self)
            }) && crate::metadata_storage::opt_str_view(final(self).user_agent_override) == (
            if value@.len() == 0 {
                None
            } else {
                Some(value@)
            })),
            ((key@ == "output_dir"@ || key@ == "output_directory"@ || key@ == "include_ext"@
                || key@ == "include_extensions"@ || key@ == "exclude_ext"@ || key@
                == "exclude_extensions"@ || key@ == "max_file_size"@ || key@ == "max_size"@
                || key@ == "user_agent"@) ==> r == Ok::<bool, IaGetError>(true)),
            ((key@ == "resume"@ || key@ == "verbose"@ || key@ == "log_hash_errors"@ || key@
                == "dry_run"@) && (crate::command_handlers::spec_is_true_word(
                crate::strutil::lower_seq(value@),
            ) || crate::command_handlers::spec_is_false_word(
                crate::strutil::lower_seq(value@),
            )) ==> r == Ok::<bool, IaGetError>(true)),
            ((key@ == "concurrent_downloads"@ || key@ == "concurrent"@)
                && crate::strutil::all_digits(value@) && value@.len() > 0 && 1
                <= crate::strutil::dec_value(value@) <= 16 ==> r == Ok::<bool, IaGetError>(
                true,
            )),
            ((key@ == "max_retries"@ || key@ == "retries"@) && crate::strutil::all_digits(
                value@,
            ) && value@.len() > 0 && crate::strutil::dec_value(value@) <= 20 ==> r == Ok::<
                bool,
                IaGetError,
            >(true)),
            ((key@ == "http_timeout"@ || key@ == "timeout"@) && crate::strutil::all_digits(
                value@,
            ) && value@.len() > 0 && 1 <= crate::strutil::dec_value(value@) <= 300 ==> r
                == Ok::<bool, IaGetError>(true)),
    {
        proof {
            reveal_strlit("output_dir");
            reveal_strlit("output_directory");
            reveal_strlit("concurrent_downloads");
            reveal_strlit("concurrent");
            reveal_strlit("max_retries");
            reveal_strlit("retries");
            reveal_strlit("include_ext");
            reveal_strlit("include_extensions");
            reveal_strlit("exclude_ext");
            reveal_strlit("exclude_extensions");
            reveal_strlit("max_file_size");
            reveal_strlit("max_size");
            reveal_strlit("resume");
            reveal_strlit("verbose");
            reveal_strlit("log_hash_errors");
            reveal_strlit("dry_run");
            reveal_strlit("http_timeout");
            reveal_strlit("timeout");
            reveal_strlit("user_agent");
            lemma_config_keys_distinct();
            assert("output_dir"@.len() == 10);
            assert("output_directory"@.len() == 16);
            assert("concurrent_downloads"@.len() == 20);
            assert("concurrent"@.len() == 10);
            assert("max_retries"@.len() == 11);
            assert("retries"@.len() == 7);
            assert("include_ext"@.len() == 11);
            assert("include_extensions"@.len() == 18);
            assert("exclude_ext"@.len() == 11);
            assert("exclude_extensions"@.len() == 18);
            assert("max_file_size"@.len() == 13);
            assert("max_size"@.len() == 8);
            assert("resume"@.len() == 6);
            assert("verbose"@.len() == 7);
            assert("log_hash_errors"@.len() == 15);
            assert("dry_run"@.len() == 7);
            assert("http_timeout"@.len() == 12);
            assert("timeout"@.len() == 7);
            assert("user_agent"@.len() == 10);
        }
        let opt_value: Option<String> = if value.unicode_len() == 0 {
            None
        } else {
            Some(String::from_str(value))
        };
        if crate::strutil::str_eq(key, "output_dir") || crate::strutil::str_eq(
            key,
            "output_directory",
        ) {
            self.default_output_path = opt_value;
            return Ok(true);
        }
        if crate::strutil::str_eq(key, "concurrent_downloads") || crate::strutil::str_eq(
            key,
            "concurrent",
        ) {
            let n = match crate::strutil::parse_u64_chars(&crate::strutil::str_to_chars(value)) {
                Some(n) => n,
                None => {
                    return Err(
                        IaGetError::Config(
                            String::from_str("invalid number for concurrent downloads"),
                        ),
                    );
                },
            };
            if n == 0 || n > 16 {
                return Err(
                    IaGetError::Config(
                        String::from_str("concurrent downloads must be between 1 and 16"),
                    ),
                );
            }
            self.concurrent_downloads = n as usize;
            return Ok(true);
        }
        if crate::strutil::str_eq(key, "max_retries") || crate::strutil::str_eq(key, "retries") {
            let n = match crate::strutil::parse_u64_chars(&crate::strutil::str_to_chars(value)) {
                Some(n) => n,
                None => {
                    return Err(
                        IaGetError::Config(String::from_str("invalid number for max retries")),
                    );
                },
            };
            if n > 20 {
                return Err(
                    IaGetError::Config(String::from_str("max retries cannot exceed 20")),
                );
            }
            self.max_retries = n as usize;
            return Ok(true);
        }
        if crate::strutil::str_eq(key, "include_ext") || crate::strutil::str_eq(
            key,
            "include_extensions",
        ) {
            self.default_include_ext = opt_value;
            return Ok(true);
        }
        if crate::strutil::str_eq(key, "exclude_ext") || crate::strutil::str_eq(
            key,
            "exclude_extensions",
        ) {
            self.default_exclude_ext = opt_value;
            return Ok(true);
        }
        if crate::strutil::str_eq(key, "max_file_size") || crate::strutil::str_eq(
            key,
            "max_size",
        ) {
            self.default_max_file_size = opt_value;
            return Ok(true);
        }
        if crate::strutil::str_eq(key, "resume") {
            match crate::command_handlers::parse_bool(value) {
                Ok(b) => {
                    self.default_resume = b;
                    return Ok(true);
                },
                Err(e) => {
                    return Err(e);
                },
            }
        }
        if crate::strutil::str_eq(key, "verbose") {
            match crate::command_handlers::parse_bool(value) {
                Ok(b) => {
                    self.default_verbose = b;
                    return Ok(true);
                },
                Err(e) => {
                    return Err(e);
                },
            }
        }
        if crate::strutil::str_eq(key, "log_hash_errors") {
            match crate::command_handlers::parse_bool(value) {
                Ok(b) => {
                    self.default_log_hash_errors = b;
                    return Ok(true);
                },
                Err(e) => {
                    return Err(e);
                },
            }
        }
        if crate::strutil::str_eq(key, "dry_run") {
            match crate::command_handlers::parse_bool(value) {
                Ok(b) => {
                    self.default_dry_run = b;
                    return Ok(true);
                },
                Err(e) => {
                    return Err(e);
                },
            }
        }
        if crate::strutil::str_eq(key, "http_timeout") || crate::strutil::str_eq(key, "timeout") {
            let n = match crate::strutil::parse_u64_chars(&crate::strutil::str_to_chars(value)) {
                Some(n) => n,
                None => {
                    return Err(
                        IaGetError::Config(String::from_str("invalid number for HTTP timeout")),
                    );
                },
            };
            if n == 0 || n > 300 {
                return Err(
                    IaGetError::Config(
                        String::from_str("HTTP timeout must be between 1 and 300 seconds"),
                    ),
                );
            }
            self.http_timeout = n;
            return Ok(true);
        }
        if crate::strutil::str_eq(key, "user_agent") {
            self.user_agent_override = opt_value;
            return Ok(true);
        }
        Ok(false)
    }

    /// Reads one configuration value by key, rendered as a plain string:
    /// optional values show themselves or `(not set)`, numbers show their
    /// digits, booleans show `Yes` or `No`. An unknown key reads nothing.
    pub fn get_value(&self, key: &str) -> (r: Option<String>)
        ensures
            ((key@ == "concurrent_downloads"@ || key@ == "concurrent"@) ==> (r matches Some(s)
                && s@ == crate::strutil::dec_digits(self.concurrent_downloads as nat))),
            ((key@ == "max_retries"@ || key@ == "retries"@) ==> (r matches Some(s) && s@
                == crate::strutil::dec_digits(self.max_retries as nat))),
            ((key@ == "http_timeout"@ || key@ == "timeout"@) ==> (r matches Some(s) && s@
                == crate::strutil::dec_digits(self.http_timeout as nat))),
            (key@ == "resume"@ ==> (r matches Some(s) && s@ == (if self.default_resume {
                "Yes"@
            } else {
                "No"@
            }))),
            (key@ == "verbose"@ ==> (r matches Some(s) && s@ == (if self.default_verbose {
                "Yes"@
            } else {
                "No"@
            }))),
            (key@ == "log_hash_errors"@ ==> (r matches Some(s) && s@ == (
            if self.default_log_hash_errors {
                "Yes"@
            } else {
                "No"@
            }))),
            (key@ == "dry_run"@ ==> (r matches Some(s) && s@ == (if self.default_dry_run {
                "Yes"@
            } else {
                "No"@
            }))),
    {
        proof {
            reveal_strlit("output_dir");
            reveal_strlit("output_directory");
            reveal_strlit("concurrent_downloads");
            reveal_strlit("concurrent");
            reveal_strlit("max_retries");
            reveal_strlit("retries");
            reveal_strlit("include_ext");
            reveal_strlit("include_extensions");
            reveal_strlit("exclude_ext");
            reveal_strlit("exclude_extensions");
            reveal_strlit("max_file_size");
            reveal_strlit("max_size");
            reveal_strlit("resume");
            reveal_strlit("verbose");
            reveal_strlit("log_hash_errors");
            reveal_strlit("dry_run");
            reveal_strlit("http_timeout");
            reveal_strlit("timeout");
            reveal_strlit("user_agent");
            lemma_config_keys_distinct();
            assert("output_dir"@.len() == 10);
            assert("output_directory"@.len() == 16);
            assert("concurrent_downloads"@.len() == 20);
            assert("concurrent"@.len() == 10);
            assert("max_retries"@.len() == 11);
            assert("retries"@.len() == 7);
            assert("include_ext"@.len() == 11);
            assert("include_extensions"@.len() == 18);
            assert("exclude_ext"@.len() == 11);
            assert("exclude_extensions"@.len() == 18);
            assert("max_file_size"@.len() == 13);
            assert("max_size"@.len() == 8);
            assert("resume"@.len() == 6);
            assert("verbose"@.len() == 7);
            assert("log_hash_errors"@.len() == 15);
            assert("dry_run"@.len() == 7);
            assert("http_timeout"@.len() == 12);
            assert("timeout"@.len() == 7);
            assert("user_agent"@.len() == 10);
        }
        if crate::strutil::str_eq(key, "output_dir") || crate::strutil::str_eq(
            key,
            "output_directory",
        ) {
            return Some(crate::command_handlers::format_option(&self.default_output_path));
        }
        if crate::strutil::str_eq(key, "concurrent_downloads") || crate::strutil::str_eq(
            key,
            "concurrent",
        ) {
            return Some(crate::strutil::u64_to_dec(self.concurrent_downloads as u64));
        }
        if crate::strutil::str_eq(key, "max_retries") || crate::strutil::str_eq(key, "retries") {
            return Some(crate::strutil::u64_to_dec(self.max_retries as u64));
        }
        if crate::strutil::str_eq(key, "include_ext") || crate::strutil::str_eq(
            key,
            "include_extensions",
        ) {
            return Some(crate::command_handlers::format_option(&self.default_include_ext));
        }
        if crate::strutil::str_eq(key, "exclude_ext") || crate::strutil::str_eq(
            key,
            "exclude_extensions",
        ) {
            return Some(crate::command_handlers::format_option(&self.default_exclude_ext));
        }
        if crate::strutil::str_eq(key, "max_file_size") || crate::strutil::str_eq(
            key,
            "max_size",
        ) {
            return Some(crate::command_handlers::format_option(&self.default_max_file_size));
        }
        if crate::strutil::str_eq(key, "resume") {
            return Some(crate::command_handlers::format_bool(self.default_resume));
        }
        if crate::strutil::str_eq(key, "verbose") {
            return Some(crate::command_handlers::format_bool(self.default_verbose));
        }
        if crate::strutil::str_eq(key, "log_hash_errors") {
            return Some(crate::command_handlers::format_bool(self.default_log_hash_errors));
        }
        if crate::strutil::str_eq(key, "dry_run") {
            return Some(crate::command_handlers::format_bool(self.default_dry_run));
        }
        if crate::strutil::str_eq(key, "http_timeout") || crate::strutil::str_eq(key, "timeout") {
            return Some(crate::strutil::u64_to_dec(self.http_timeout));
        }
        if crate::strutil::str_eq(key, "user_agent") {
            return Some(crate::command_handlers::format_option(&self.user_agent_override));
        }
        None
    }
}

} // verus!
