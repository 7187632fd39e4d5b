//! The unified download request and the service both front ends drive.

use vstd::prelude::*;
use crate::config::Config;
use crate::error::IaGetError;
use crate::filters::{parse_size_string, spec_size_usable, spec_size_value};
use crate::metadata_storage::{apply_file_filters, spec_filter_files, ArchiveFile, DownloadSession};
use crate::strutil::{chars_to_string, str_to_chars, trim_chars, trim_spec};

verus! {

/// Where a comma ends the current segment, or the length.
pub open spec fn spec_comma_end(s: Seq<char>, i: int) -> int
    recommends
        0 <= i <= s.len(),
    decreases s.len() - i,
{
    if i < 0 || i >= s.len() {
        s.len() as int
    } else if s[i] == ',' {
        i
    } else {
        spec_comma_end(s, i + 1)
    }
}

/// The comma-separated segments of the string from position `i` on, each
/// trimmed of spaces. The empty string yields one empty segment.
pub open spec fn spec_split_trim_from(s: Seq<char>, i: int) -> Seq<Seq<char>>
    decreases s.len() - i,
    when 0 <= i <= s.len()
    via spec_split_trim_from_decreases
{
    let e = spec_comma_end(s, i);
    if e >= s.len() {
        seq![trim_spec(s.subrange(i, s.len() as int))]
    } else {
        seq![trim_spec(s.subrange(i, e))] + spec_split_trim_from(s, e + 1)
    }
}

#[via_fn]
proof fn spec_split_trim_from_decreases(s: Seq<char>, i: int) {
    lemma_comma_end(s, i);
}

/// The comma-separated segments of a string, each trimmed of spaces.
pub open spec fn spec_split_trim(s: Seq<char>) -> Seq<Seq<char>> {
    spec_split_trim_from(s, 0)
}

/// The comma end is within bounds.
proof fn lemma_comma_end(s: Seq<char>, i: int)
    requires
        0 <= i <= s.len(),
    ensures
        i <= spec_comma_end(s, i) <= s.len(),
        spec_comma_end(s, i) < s.len() ==> s[spec_comma_end(s, i)] == ',',
    decreases s.len() - i,
{
    if i < s.len() && s[i] != ',' {
        lemma_comma_end(s, i + 1);
    }
}

/// Splits a string on commas and trims each piece, per `spec_split_trim`.
pub fn split_and_trim(s: &str) -> (r: Vec<String>)
    ensures
        r.deep_view() == spec_split_trim(s@),
{
    let v = str_to_chars(s);
    let mut out: Vec<String> = Vec::new();
    let mut start: usize = 0;
    let ghost whole = s@;
    proof {
        assert(Seq::<Seq<char>>::empty() + spec_split_trim_from(whole, 0) =~= spec_split_trim(
            whole,
        ));
        assert(out.deep_view() =~= Seq::<Seq<char>>::empty());
    }
    loop
        invariant_except_break
            start <= v.len(),
            v@ == whole,
            out.deep_view() + spec_split_trim_from(whole, start as int) == spec_split_trim(
                whole,
            ),
        ensures
            out.deep_view() == spec_split_trim(whole),
        decreases v.len() - start,
    {
        let mut e: usize = start;
        while e < v.len() && v[e] != ','
            invariant
                start <= e <= v.len(),
                v@ == whole,
                spec_comma_end(whole, start as int) == spec_comma_end(whole, e as int),
            decreases v.len() - e,
        {
            e = e + 1;
        }
        proof {
            assert(spec_comma_end(whole, start as int) == e as int);
        }
        let mut seg: Vec<char> = Vec::new();
        let mut i: usize = start;
        while i < e
            invariant
                start <= i <= e,
                e <= v.len(),
                v@ == whole,
                seg@ == whole.subrange(start as int, i as int),
            decreases e - i,
        {
            seg.push(v[i]);
            i = i + 1;
            proof {
                assert(seg@ =~= whole.subrange(start as int, i as int));
            }
        }
        let trimmed = trim_chars(&seg);
        let ghost before = out.deep_view();
        out.push(chars_to_string(&trimmed));
        proof {
            assert(out.deep_view() =~= before.push(
                trim_spec(whole.subrange(start as int, e as int)),
            ));
        }
        if e >= v.len() {
            proof {
                assert(whole.subrange(start as int, e as int) =~= whole.subrange(
                    start as int,
                    whole.len() as int,
                ));
                assert(spec_split_trim_from(whole, start as int) == seq![
                    trim_spec(whole.subrange(start as int, whole.len() as int)),
                ]);
                assert(out.deep_view() =~= before + spec_split_trim_from(
                    whole,
                    start as int,
                ));
            }
            break;
        }
        proof {
            assert(spec_split_trim_from(whole, start as int) == seq![
                trim_spec(whole.subrange(start as int, e as int)),
            ] + spec_split_trim_from(whole, e + 1));
            assert(out.deep_view() + spec_split_trim_from(whole, e + 1) =~= spec_split_trim(
                whole,
            ));
        }
        start = e + 1;
    }
    out
}

/// Download request parameters shared by every front end.
#[derive(Debug, Clone)]
pub struct DownloadRequest {
    /// Archive identifier or URL.
    pub identifier: String,
    /// Output directory for downloaded files.
    pub output_dir: String,
    /// Formats to keep; empty keeps all.
    pub include_formats: Vec<String>,
    /// Formats to drop.
    pub exclude_formats: Vec<String>,
    /// Minimum file size as a size string; empty means no minimum.
    pub min_file_size: String,
    /// Maximum file size as a size string, when set.
    pub max_file_size: Option<String>,
    /// Concurrent downloads, between 1 and 16.
    pub concurrent_downloads: usize,
    /// Whether HTTP compression is requested.
    pub enable_compression: bool,
    /// Whether downloads are decompressed afterwards.
    pub auto_decompress: bool,
    /// Compression format tags to decompress.
    pub decompress_formats: Vec<String>,
    /// Preview only; no download.
    pub dry_run: bool,
    /// Whether MD5 digests are verified.
    pub verify_md5: bool,
    /// Whether modification times are preserved.
    pub preserve_mtime: bool,
    /// Verbose output.
    pub verbose: bool,
    /// Whether partial files are resumed.
    pub resume: bool,
}

impl Default for DownloadRequest {
    /// The built-in request defaults: four concurrent downloads, HTTP
    /// compression on, digests verified, modification times preserved,
    /// resume on; the output directory is the current one.
    fn default() -> (r: DownloadRequest)
        ensures
            r.identifier@.len() == 0,
            r.output_dir@ == "."@,
            r.include_formats@.len() == 0,
            r.exclude_formats@.len() == 0,
            r.min_file_size@.len() == 0,
            r.max_file_size is None,
            r.concurrent_downloads == 4,
            r.enable_compression == true,
            r.auto_decompress == false,
            r.decompress_formats@.len() == 0,
            r.dry_run == false,
            r.verify_md5 == true,
            r.preserve_mtime == true,
            r.verbose == false,
            r.resume == true,
    {
        DownloadRequest {
            identifier: String::new(),
            output_dir: String::from_str("."),
            include_formats: Vec::new(),
            exclude_formats: Vec::new(),
            min_file_size: String::new(),
            max_file_size: None,
            concurrent_downloads: 4,
            enable_compression: true,
            auto_decompress: false,
            decompress_formats: Vec::new(),
            dry_run: false,
            verify_md5: true,
            preserve_mtime: true,
            verbose: false,
            resume: true,
        }
    }
}

impl DownloadRequest {
    /// A request built from a configuration: run options come from the
    /// configuration, everything else from the defaults.
    pub fn from_config(config: &Config, identifier: String, output_dir: String) -> (r:
        DownloadRequest)
        ensures
            r.identifier == identifier,
            r.output_dir == output_dir,
            r.include_formats@.len() == 0,
            r.exclude_formats@.len() == 0,
            r.min_file_size@.len() == 0,
            r.max_file_size is None,
            r.concurrent_downloads == config.concurrent_downloads,
            r.enable_compression == config.default_compress,
            r.auto_decompress == config.default_decompress,
            r.decompress_formats.deep_view() == (match config.default_decompress_formats {
                Some(f) => spec_split_trim(f@),
                None => Seq::<Seq<char>>::empty(),
            }),
            r.dry_run == config.default_dry_run,
            r.verify_md5 == true,
            r.preserve_mtime == true,
            r.verbose == config.default_verbose,
            r.resume == config.default_resume,
    {
        let decompress_formats: Vec<String> = match &config.default_decompress_formats {
            Some(f) => split_and_trim(f.as_str()),
            None => Vec::new(),
        };
        proof {
            if config.default_decompress_formats is None {
                assert(Seq::<String>::empty().map_values(|x: String| x@) =~= Seq::<
                    Seq<char>,
                >::empty());
            }
        }
        DownloadRequest {
            identifier,
            output_dir,
            include_formats: Vec::new(),
            exclude_formats: Vec::new(),
            min_file_size: String::new(),
            max_file_size: None,
            concurrent_downloads: config.concurrent_downloads,
            enable_compression: config.default_compress,
            auto_decompress: config.default_decompress,
            decompress_formats,
            dry_run: config.default_dry_run,
            verify_md5: true,
            preserve_mtime: true,
            verbose: config.default_verbose,
            resume: config.default_resume,
        }
    }

    /// Parses the size bounds: an empty minimum means none; a missing
    /// maximum means none. The call fails exactly when a present bound is
    /// not a usable size string, and then with the parse error it produced.
    pub fn get_parsed_sizes(&self) -> (r: Result<(Option<u64>, Option<u64>), IaGetError>)
        ensures
            match r {
                Ok((mn, mx)) => {
                    &&& (match mn {
                        Some(n) => self.min_file_size@.len() > 0 && spec_size_usable(
                            self.min_file_size@,
                        ) && n as int == spec_size_value(self.min_file_size@),
                        None => self.min_file_size@.len() == 0,
                    })
                    &&& (match (self.max_file_size, mx) {
                        (Some(s), Some(n)) => spec_size_usable(s@) && n as int
                            == spec_size_value(s@),
                        (None, None) => true,
                        _ => false,
                    })
                },
                Err(e) => e is Parse && ((self.min_file_size@.len() > 0 && !spec_size_usable(
                    self.min_file_size@,
                )) || (self.max_file_size matches Some(s) && !spec_size_usable(s@))),
            },
    {
        let min_size: Option<u64> = if self.min_file_size.as_str().is_empty() {
            None
        } else {
            match parse_size_string(self.min_file_size.as_str()) {
                Ok(n) => Some(n),
                Err(e) => {
                    return Err(e);
                },
            }
        };
        let max_size: Option<u64> = match &self.max_file_size {
            Some(s) => {
                match parse_size_string(s.as_str()) {
                    Ok(n) => Some(n),
                    Err(e) => {
                        return Err(e);
                    },
                }
            },
            None => None,
        };
        Ok((min_size, max_size))
    }
}

/// The result of one download run.
#[derive(Debug)]
pub enum DownloadResult {
    /// The run finished; the session holds the per-file outcomes.
    Success(Box<DownloadSession>),
    /// The run could not finish.
    Error(String),
}

/// The service both front ends drive. It owns the HTTP client; the shell
/// performs the requests and hands results back to the library.
pub struct DownloadService {
    /// The shared HTTP client.
    pub client: reqwest::Client,
}

/// `reqwest::Client`, declared so the library can own one.
#[verifier::external_type_specification]
#[verifier::external_body]
pub struct ExReqwestClient(reqwest::Client);

/// Relies on `reqwest::ClientBuilder`: builds a pooled client with the given
/// user agent and a request timeout of the given seconds.
#[verifier::external_body]
fn build_basic_client(user_agent: &str, timeout_secs: u64) -> (r: Result<reqwest::Client, String>)
{
    reqwest::Client::builder()
        .user_agent(user_agent)
        .timeout(std::time::Duration::from_secs(timeout_secs))
        .build()
        .map_err(|e| format!("{}", e))
}

impl DownloadService {
    /// A service over a fresh client with the tool's user agent and a
    /// thirty-second timeout. Fails as a network error when the client
    /// cannot be built.
    pub fn new() -> (r: Result<DownloadService, IaGetError>)
        ensures
            r matches Err(e) ==> e is Network,
    {
        let ua = crate::constants::get_user_agent();
        match build_basic_client(ua.as_str(), 30) {
            Ok(client) => Ok(DownloadService { client }),
            Err(m) => Err(IaGetError::Network(m)),
        }
    }

    /// The underlying HTTP client.
    pub fn client(&self) -> (r: &reqwest::Client) {
        &self.client
    }

    /// Applies the include/exclude format rules and size bounds to a file
    /// list, keeping descriptor order.
    pub fn apply_file_filters(
        &self,
        files: &Vec<ArchiveFile>,
        include_formats: &Vec<String>,
        exclude_formats: &Vec<String>,
        min_file_size: Option<u64>,
        max_file_size: Option<u64>,
    ) -> (r: Vec<ArchiveFile>)
        ensures
            r@ == spec_filter_files(
                files@,
                include_formats.deep_view(),
                exclude_formats.deep_view(),
                min_file_size,
                max_file_size,
            ),
    {
        apply_file_filters(files, include_formats, exclude_formats, min_file_size, max_file_size)
    }
}

} // verus!
