//! Compression format tags: detection from names and metadata, and the
//! table deciding which formats are decompressed automatically.

use vstd::prelude::*;
use crate::error::IaGetError;
use crate::metadata_storage::ArchiveFile;
use crate::strutil::{
    chars_eq, chars_to_string, ends_with, ends_with_exec, eq_ignore_case, lower_chars,
    lower_seq, str_to_chars,
};

verus! {

/// A recognised compression format.
#[derive(Debug, Clone, Copy, PartialEq, Eq, Structural)]
pub enum CompressionFormat {
    /// A gzip stream.
    Gzip,
    /// A bzip2 stream.
    Bzip2,
    /// An xz stream.
    Xz,
    /// A zip archive.
    Zip,
    /// A plain tar archive.
    Tar,
    /// A gzip-compressed tar archive.
    TarGz,
    /// A bzip2-compressed tar archive.
    TarBz2,
    /// An xz-compressed tar archive.
    TarXz,
}

/// The format a file name announces through its suffix, compared ignoring
/// ASCII case; combined tar suffixes win over their plain counterparts.
pub open spec fn spec_format_from_name(name: Seq<char>) -> Option<CompressionFormat> {
    let l = lower_seq(name);
    if ends_with(l, ".tar.gz"@) {
        Some(CompressionFormat::TarGz)
    } else if ends_with(l, ".tar.bz2"@) {
        Some(CompressionFormat::TarBz2)
    } else if ends_with(l, ".tar.xz"@) {
        Some(CompressionFormat::TarXz)
    } else if ends_with(l, ".gz"@) {
        Some(CompressionFormat::Gzip)
    } else if ends_with(l, ".bz2"@) {
        Some(CompressionFormat::Bzip2)
    } else if ends_with(l, ".xz"@) {
        Some(CompressionFormat::Xz)
    } else if ends_with(l, ".zip"@) {
        Some(CompressionFormat::Zip)
    } else if ends_with(l, ".tar"@) {
        Some(CompressionFormat::Tar)
    } else {
        None
    }
}

/// How many characters the format's own suffix occupies.
pub open spec fn spec_suffix_len(f: CompressionFormat) -> int {
    match f {
        CompressionFormat::Gzip => 3,
        CompressionFormat::Bzip2 => 4,
        CompressionFormat::Xz => 3,
        CompressionFormat::Zip => 4,
        CompressionFormat::Tar => 4,
        CompressionFormat::TarGz => 3,
        CompressionFormat::TarBz2 => 4,
        CompressionFormat::TarXz => 3,
    }
}

/// The format's own suffix, the part removed on decompression.
pub open spec fn spec_suffix(f: CompressionFormat) -> Seq<char> {
    match f {
        CompressionFormat::Gzip => ".gz"@,
        CompressionFormat::Bzip2 => ".bz2"@,
        CompressionFormat::Xz => ".xz"@,
        CompressionFormat::Zip => ".zip"@,
        CompressionFormat::Tar => ".tar"@,
        CompressionFormat::TarGz => ".gz"@,
        CompressionFormat::TarBz2 => ".bz2"@,
        CompressionFormat::TarXz => ".xz"@,
    }
}

/// The codec a format stands for, as a tag string.
pub open spec fn spec_codec_name(f: CompressionFormat) -> Seq<char> {
    match f {
        CompressionFormat::Gzip => "gzip"@,
        CompressionFormat::Bzip2 => "bzip2"@,
        CompressionFormat::Xz => "xz"@,
        CompressionFormat::Zip => "zip"@,
        CompressionFormat::Tar => "tar"@,
        CompressionFormat::TarGz => "gzip"@,
        CompressionFormat::TarBz2 => "bzip2"@,
        CompressionFormat::TarXz => "xz"@,
    }
}

/// The names under which a configuration entry selects the format, compared
/// ignoring ASCII case.
pub open spec fn spec_format_selected_by(f: CompressionFormat, entry: Seq<char>) -> bool {
    match f {
        CompressionFormat::Gzip => eq_ignore_case(entry, "gzip"@) || eq_ignore_case(
            entry,
            "gz"@,
        ),
        CompressionFormat::Bzip2 => eq_ignore_case(entry, "bzip2"@) || eq_ignore_case(
            entry,
            "bz2"@,
        ),
        CompressionFormat::Xz => eq_ignore_case(entry, "xz"@),
        CompressionFormat::Zip => eq_ignore_case(entry, "zip"@),
        CompressionFormat::Tar => eq_ignore_case(entry, "tar"@),
        CompressionFormat::TarGz => eq_ignore_case(entry, "tar.gz"@) || eq_ignore_case(
            entry,
            "tgz"@,
        ),
        CompressionFormat::TarBz2 => eq_ignore_case(entry, "tar.bz2"@),
        CompressionFormat::TarXz => eq_ignore_case(entry, "tar.xz"@),
    }
}

/// Formats decompressed when no explicit configuration is given: the
/// compressed stream codecs, but not container-only or zip archives.
pub open spec fn spec_default_decompress(f: CompressionFormat) -> bool {
    match f {
        CompressionFormat::Gzip => true,
        CompressionFormat::Bzip2 => true,
        CompressionFormat::Xz => true,
        CompressionFormat::Zip => false,
        CompressionFormat::Tar => false,
        CompressionFormat::TarGz => true,
        CompressionFormat::TarBz2 => true,
        CompressionFormat::TarXz => true,
    }
}

impl CompressionFormat {
    /// The format a file name announces through its suffix.
    pub fn from_filename(filename: &str) -> (r: Option<CompressionFormat>)
        ensures
            r == spec_format_from_name(filename@),
    {
        let l = lower_chars(&str_to_chars(filename));
        if ends_with_exec(&l, &str_to_chars(".tar.gz")) {
            Some(CompressionFormat::TarGz)
        } else if ends_with_exec(&l, &str_to_chars(".tar.bz2")) {
            Some(CompressionFormat::TarBz2)
        } else if ends_with_exec(&l, &str_to_chars(".tar.xz")) {
            Some(CompressionFormat::TarXz)
        } else if ends_with_exec(&l, &str_to_chars(".gz")) {
            Some(CompressionFormat::Gzip)
        } else if ends_with_exec(&l, &str_to_chars(".bz2")) {
            Some(CompressionFormat::Bzip2)
        } else if ends_with_exec(&l, &str_to_chars(".xz")) {
            Some(CompressionFormat::Xz)
        } else if ends_with_exec(&l, &str_to_chars(".zip")) {
            Some(CompressionFormat::Zip)
        } else if ends_with_exec(&l, &str_to_chars(".tar")) {
            Some(CompressionFormat::Tar)
        } else {
            None
        }
    }

    /// The name after decompression: the format's suffix is stripped when
    /// the name carries it (ignoring ASCII case); otherwise the name stays.
    pub fn get_decompressed_name(&self, name: &str) -> (r: String)
        ensures
            r@ == if ends_with(lower_seq(name@), spec_suffix(*self)) {
                name@.subrange(0, name@.len() - spec_suffix_len(*self))
            } else {
                name@
            },
    {
        let v = str_to_chars(name);
        let l = lower_chars(&v);
        let suffix = match self {
            CompressionFormat::Gzip => str_to_chars(".gz"),
            CompressionFormat::Bzip2 => str_to_chars(".bz2"),
            CompressionFormat::Xz => str_to_chars(".xz"),
            CompressionFormat::Zip => str_to_chars(".zip"),
            CompressionFormat::Tar => str_to_chars(".tar"),
            CompressionFormat::TarGz => str_to_chars(".gz"),
            CompressionFormat::TarBz2 => str_to_chars(".bz2"),
            CompressionFormat::TarXz => str_to_chars(".xz"),
        };
        proof {
            assert(suffix@ == spec_suffix(*self));
            assert(spec_suffix(*self).len() == spec_suffix_len(*self)) by {
                reveal_strlit(".gz");
                reveal_strlit(".bz2");
                reveal_strlit(".xz");
                reveal_strlit(".zip");
                reveal_strlit(".tar");
            }
        }
        if ends_with_exec(&l, &suffix) {
            let keep: usize = v.len() - suffix.len();
            let mut out: Vec<char> = Vec::new();
            let mut i: usize = 0;
            while i < keep
                invariant
                    i <= keep,
                    keep <= v.len(),
                    out@ == v@.subrange(0, i as int),
                decreases keep - i,
            {
                out.push(v[i]);
                i = i + 1;
                proof {
                    assert(out@ =~= v@.subrange(0, i as int));
                }
            }
            chars_to_string(&out)
        } else {
            String::from_str(name)
        }
    }
}

/// Whether a format is decompressed under the given configuration: an empty
/// configuration enables the default set; otherwise some entry must select
/// the format.
pub fn should_decompress(format: &CompressionFormat, config: &[String]) -> (r: bool)
    ensures
        r == if config@.len() == 0 {
            spec_default_decompress(*format)
        } else {
            exists|i: int|
                0 <= i < config@.len() && spec_format_selected_by(
                    *format,
                    (#[trigger] config@[i])@,
                )
        },
{
    if config.len() == 0 {
        return match format {
            CompressionFormat::Gzip => true,
            CompressionFormat::Bzip2 => true,
            CompressionFormat::Xz => true,
            CompressionFormat::Zip => false,
            CompressionFormat::Tar => false,
            CompressionFormat::TarGz => true,
            CompressionFormat::TarBz2 => true,
            CompressionFormat::TarXz => true,
        };
    }
    let mut i: usize = 0;
    while i < config.len()
        invariant
            i <= config@.len(),
            forall|j: int|
                0 <= j < i ==> !spec_format_selected_by(*format, (#[trigger] config@[j])@),
        decreases config@.len() - i,
    {
        let entry = str_to_chars(config[i].as_str());
        let selected = match format {
            CompressionFormat::Gzip => crate::strutil::chars_eq_ignore_case(
                &entry,
                &str_to_chars("gzip"),
            ) || crate::strutil::chars_eq_ignore_case(&entry, &str_to_chars("gz")),
            CompressionFormat::Bzip2 => crate::strutil::chars_eq_ignore_case(
                &entry,
                &str_to_chars("bzip2"),
            ) || crate::strutil::chars_eq_ignore_case(&entry, &str_to_chars("bz2")),
            CompressionFormat::Xz => crate::strutil::chars_eq_ignore_case(
                &entry,
                &str_to_chars("xz"),
            ),
            CompressionFormat::Zip => crate::strutil::chars_eq_ignore_case(
                &entry,
                &str_to_chars("zip"),
            ),
            CompressionFormat::Tar => crate::strutil::chars_eq_ignore_case(
                &entry,
                &str_to_chars("tar"),
            ),
            CompressionFormat::TarGz => crate::strutil::chars_eq_ignore_case(
                &entry,
                &str_to_chars("tar.gz"),
            ) || crate::strutil::chars_eq_ignore_case(&entry, &str_to_chars("tgz")),
            CompressionFormat::TarBz2 => crate::strutil::chars_eq_ignore_case(
                &entry,
                &str_to_chars("tar.bz2"),
            ),
            CompressionFormat::TarXz => crate::strutil::chars_eq_ignore_case(
                &entry,
                &str_to_chars("tar.xz"),
            ),
        };
        if selected {
            return true;
        }
        i = i + 1;
    }
    false
}

impl ArchiveFile {
    /// Whether the record announces compression, through its format tag or
    /// through its name's suffix.
    pub fn is_compressed(&self) -> (r: bool)
        ensures
            r == (spec_tag_is_compression(opt_format_view(self)) || spec_format_from_name(
                self.name@,
            ) is Some),
    {
        match &self.format {
            Some(f) => {
                let l = lower_chars(&str_to_chars(f.as_str()));
                let is_tag = chars_eq(&l, &str_to_chars("gzip")) || chars_eq(
                    &l,
                    &str_to_chars("gz"),
                ) || chars_eq(&l, &str_to_chars("bzip2")) || chars_eq(&l, &str_to_chars("bz2"))
                    || chars_eq(&l, &str_to_chars("xz")) || chars_eq(&l, &str_to_chars("zip"))
                    || chars_eq(&l, &str_to_chars("tar")) || chars_eq(
                    &l,
                    &str_to_chars("tar.gz"),
                ) || chars_eq(&l, &str_to_chars("tar.bz2")) || chars_eq(
                    &l,
                    &str_to_chars("tar.xz"),
                );
                if is_tag {
                    return true;
                }
            },
            None => {},
        }
        match CompressionFormat::from_filename(self.name.as_str()) {
            Some(_) => true,
            None => false,
        }
    }

    /// The compression format name of the record: the format tag itself when
    /// one is present, the codec read from the name's suffix otherwise, and
    /// `None` for an uncompressed record.
    pub fn get_compression_format(&self) -> (r: Option<String>)
        ensures
            match r {
                Some(name) => (spec_tag_is_compression(opt_format_view(self))
                    || spec_format_from_name(self.name@) is Some) && (match self.format {
                    Some(f) => name@ == f@,
                    None => name@ == spec_codec_name(
                        spec_format_from_name(self.name@)->Some_0,
                    ),
                }),
                None => !spec_tag_is_compression(opt_format_view(self))
                    && spec_format_from_name(self.name@) is None,
            },
    {
        if !self.is_compressed() {
            return None;
        }
        match &self.format {
            Some(f) => Some(f.clone()),
            None => {
                match CompressionFormat::from_filename(self.name.as_str()) {
                    Some(fmt) => {
                        let name = match fmt {
                            CompressionFormat::Gzip => str_to_chars("gzip"),
                            CompressionFormat::Bzip2 => str_to_chars("bzip2"),
                            CompressionFormat::Xz => str_to_chars("xz"),
                            CompressionFormat::Zip => str_to_chars("zip"),
                            CompressionFormat::Tar => str_to_chars("tar"),
                            CompressionFormat::TarGz => str_to_chars("gzip"),
                            CompressionFormat::TarBz2 => str_to_chars("bzip2"),
                            CompressionFormat::TarXz => str_to_chars("xz"),
                        };
                        Some(chars_to_string(&name))
                    },
                    None => None,
                }
            },
        }
    }

    /// The local name after decompression: the announced format's suffix is
    /// stripped from the name; an uncompressed record keeps its name.
    pub fn get_decompressed_name(&self) -> (r: String)
        ensures
            match spec_format_from_name(self.name@) {
                Some(f) => r@ == if ends_with(lower_seq(self.name@), spec_suffix(f)) {
                    self.name@.subrange(0, self.name@.len() - spec_suffix_len(f))
                } else {
                    self.name@
                },
                None => r@ == self.name@,
            },
    {
        match CompressionFormat::from_filename(self.name.as_str()) {
            Some(fmt) => fmt.get_decompressed_name(self.name.as_str()),
            None => self.name.clone(),
        }
    }
}

/// The view of the record's format tag.
pub open spec fn opt_format_view(f: &ArchiveFile) -> Option<Seq<char>> {
    crate::metadata_storage::opt_str_view(f.format)
}

/// Whether a format tag names a compression format, ignoring ASCII case.
pub open spec fn spec_tag_is_compression(tag: Option<Seq<char>>) -> bool {
    match tag {
        Some(t) => {
            let l = lower_seq(t);
            ||| l == "gzip"@
            ||| l == "gz"@
            ||| l == "bzip2"@
            ||| l == "bz2"@
            ||| l == "xz"@
            ||| l == "zip"@
            ||| l == "tar"@
            ||| l == "tar.gz"@
            ||| l == "tar.bz2"@
            ||| l == "tar.xz"@
        },
        None => false,
    }
}

/// Extracting archives in place is not offered yet; every call reports the
/// same file system error, naming the missing piece, and touches no file.
pub fn decompress_archive(archive_path: &str, output_dir: &str) -> (r: Result<
    Vec<String>,
    IaGetError,
>)
    ensures
        r matches Err(e) && (e matches IaGetError::FileSystem(m) && m@
            == "Decompression not yet implemented in stateless module"@),
{
    let _ = archive_path;
    let _ = output_dir;
    Err(
        IaGetError::FileSystem(
            String::from_str("Decompression not yet implemented in stateless module"),
        ),
    )
}

/// The JSON-returning variant of `decompress_archive`; it fails exactly as
/// that function does.
pub fn decompress_archive_json(archive_path: &str, output_dir: &str) -> (r: Result<
    String,
    IaGetError,
>)
    ensures
        r matches Err(e) && (e matches IaGetError::FileSystem(m) && m@
            == "Decompression not yet implemented in stateless module"@),
{
    match decompress_archive(archive_path, output_dir) {
        Ok(_) => Err(
            IaGetError::FileSystem(
                String::from_str("Decompression not yet implemented in stateless module"),
            ),
        ),
        Err(e) => Err(e),
    }
}

} // verus!
