//! The gateway's settings: transcoder, library, database and metadata
//! service sections.
//!
//! A configuration is built once from explicit values at process start and
//! shared read-only afterwards; nothing here reads a hidden file.
use std::sync::Arc;
use vstd::prelude::*;

verus! {

/// Codec settings used with the transcoder: an argument template whose
/// `%name` tokens are substituted per request.
#[derive(Debug)]
pub struct CodecConfig {
    pub args: Vec<String>,
}

/// Settings for the metadata database.
#[derive(Debug)]
pub struct DatabaseConfig {
    pub name: String,
}

/// Settings for the transcoder: the binary to spawn and the argument
/// templates, keyed by codec profile.
#[derive(Debug)]
pub struct FFmpegConfig {
    pub bin: String,
    pub codecs: Vec<(String, CodecConfig)>,
}

/// Settings for the media library.
#[derive(Debug)]
pub struct LibraryConfig {
    pub movies: String,
}

/// Settings for the external movie-database service.
#[derive(Debug)]
pub struct TmdbConfig {
    pub api_key: String,
}

/// The gateway's whole configuration.
#[derive(Debug)]
pub struct Config {
    pub ffmpeg: FFmpegConfig,
    pub library: LibraryConfig,
    pub database: DatabaseConfig,
    pub tmdb: TmdbConfig,
}

/// The configuration handle shared across request tasks, read-only.
pub type SharedCfg = Arc<Config>;

/// Index of the first codec entry under `key`, or -1 if none is.
pub open spec fn find_codec(codecs: Seq<(String, CodecConfig)>, key: Seq<char>) -> int
    decreases codecs.len(),
{
    if codecs.len() == 0 {
        -1
    } else if codecs[0].0@ == key {
        0
    } else if find_codec(codecs.skip(1), key) == -1 {
        -1
    } else {
        1 + find_codec(codecs.skip(1), key)
    }
}

/// `find_codec` is -1 exactly when no entry carries the key.
pub proof fn lemma_find_codec_none(codecs: Seq<(String, CodecConfig)>, key: Seq<char>)
    requires
        forall|j: int| 0 <= j < codecs.len() ==> codecs[j].0@ != key,
    ensures
        find_codec(codecs, key) == -1,
    decreases codecs.len(),
{
    if codecs.len() > 0 {
        assert(forall|j: int|
            0 <= j < codecs.skip(1).len() ==> codecs.skip(1)[j] == codecs[j + 1]);
        lemma_find_codec_none(codecs.skip(1), key);
    }
}

/// `find_codec` is the first index carrying the key.
pub proof fn lemma_find_codec_is(codecs: Seq<(String, CodecConfig)>, key: Seq<char>, i: int)
    requires
        0 <= i < codecs.len(),
        codecs[i].0@ == key,
        forall|j: int| 0 <= j < i ==> codecs[j].0@ != key,
    ensures
        find_codec(codecs, key) == i,
    decreases codecs.len(),
{
    if i > 0 {
        assert(codecs[0].0@ != key);
        assert(forall|j: int|
            0 <= j < codecs.skip(1).len() ==> codecs.skip(1)[j] == codecs[j + 1]);
        lemma_find_codec_is(codecs.skip(1), key, i - 1);
    }
}

impl FFmpegConfig {
    /// The first codec entry registered under `key`, if any.
    #[verifier::loop_isolation(false)]
    pub fn codec_for(&self, key: &str) -> (r: Option<&CodecConfig>)
        ensures
            ({
                let i = find_codec(self.codecs@, key@);
                match r {
                    Some(c) => i >= 0 && *c == self.codecs@[i].1,
                    None => i == -1,
                }
            }),
    {
        let n = self.codecs.len();
        let mut i: usize = 0;
        while i < n
            invariant
                0 <= i <= n == self.codecs.len(),
                forall|j: int| 0 <= j < i ==> self.codecs@[j].0@ != key@,
            decreases n - i,
        {
            if crate::text::str_eq(self.codecs[i].0.as_str(), key) {
                proof {
                    lemma_find_codec_is(self.codecs@, key@, i as int);
                }
                return Some(&self.codecs[i].1);
            }
            i += 1;
        }
        proof {
            lemma_find_codec_none(self.codecs@, key@);
        }
        None
    }
}

impl Config {
    /// A shared configuration from explicit section values; nothing is
    /// read from disk on this path.
    pub fn new(
        ffmpeg: FFmpegConfig,
        library: LibraryConfig,
        database: DatabaseConfig,
        tmdb: TmdbConfig,
    ) -> (c: SharedCfg)
        ensures
            c.ffmpeg == ffmpeg,
            c.library == library,
            c.database == database,
            c.tmdb == tmdb,
    {
        Config { ffmpeg, library, database, tmdb }.into_shared()
    }

    /// A handle to this configuration for sharing across request tasks.
    pub fn into_shared(self) -> (c: SharedCfg)
        ensures
            *c == self,
    {
        Arc::new(self)
    }
}

} // verus!
