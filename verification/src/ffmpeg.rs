//! The transcoder's command line.
//!
//! A transcode run takes the argument template registered under the
//! wildcard codec profile and fills in the seek offset, input path,
//! container format and codec policies. A template token left unresolved
//! is an error before the stream starts, never an argument passed on
//! verbatim.
use crate::args::apply_substitutions;
use crate::args::build_arguments;
use crate::args::fully_resolved;
use crate::args::ArgBuilder;
use crate::config::find_codec;
use crate::config::FFmpegConfig;
use std::sync::Arc;
use vstd::prelude::*;

verus! {

/// Why a transcode run could not be prepared.
#[derive(Debug, Clone, Copy, PartialEq, Eq, Structural)]
pub enum TranscodeError {
    /// No codec entry is registered under the wildcard profile.
    MissingCodec,
    /// A substitution found no token, or a `%` token was left standing.
    UnresolvedArgument,
}

/// The substitutions one transcode run fills in: seek offset, input path,
/// container format, and the copied video and audio codec policies.
pub open spec fn transcode_subs(file: Seq<char>) -> Seq<(Seq<char>, Seq<char>)> {
    seq![
        ("ss"@, "0"@),
        ("i"@, file),
        ("f"@, "mp4"@),
        ("vcodec"@, "copy"@),
        ("acodec"@, "copy"@),
    ]
}

/// Prepares transcoder invocations from the shared transcoder settings.
pub struct FFmpeg {
    pub config: Arc<FFmpegConfig>,
}

impl FFmpeg {
    /// A transcoder front end over the given settings.
    pub fn new(config: Arc<FFmpegConfig>) -> (f: FFmpeg)
        ensures
            f.config == config,
    {
        FFmpeg { config }
    }

    /// The argument template registered under the wildcard codec profile,
    /// ready for substitution; an absent entry is an error, not a panic.
    pub fn build_args(&self) -> (r: Result<ArgBuilder, TranscodeError>)
        ensures
            ({
                let i = find_codec(self.config.codecs@, "*"@);
                match r {
                    Ok(b) => i >= 0 && b.args.deep_view() == self.config.codecs@[i].1.args.deep_view(),
                    Err(e) => i == -1 && e == TranscodeError::MissingCodec,
                }
            }),
    {
        match self.config.codec_for("*") {
            Some(codec) => {
                let args = codec.args.clone();
                proof {
                    assert(args.deep_view() =~= codec.args.deep_view());
                }
                Ok(ArgBuilder::new(args))
            },
            None => Err(TranscodeError::MissingCodec),
        }
    }

    /// The full argument list for streaming `file`: the wildcard template
    /// with every substitution applied and nothing left unresolved.
    pub fn transcode_args(&self, file: &str) -> (r: Result<Vec<String>, TranscodeError>)
        ensures
            ({
                let i = find_codec(self.config.codecs@, "*"@);
                if i == -1 {
                    r == Result::<Vec<String>, TranscodeError>::Err(TranscodeError::MissingCodec)
                } else {
                    let template = self.config.codecs@[i].1.args.deep_view();
                    match r {
                        Ok(out) => apply_substitutions(template, transcode_subs(file@)) == Some(
                            out.deep_view(),
                        ) && fully_resolved(out.deep_view()),
                        Err(e) => e == TranscodeError::UnresolvedArgument && (
                        match apply_substitutions(template, transcode_subs(file@)) {
                            Some(out) => !fully_resolved(out),
                            None => true,
                        }),
                    }
                }
            }),
    {
        let builder = match self.build_args() {
            Ok(b) => b,
            Err(e) => {
                return Err(e);
            },
        };
        let mut subs: Vec<(String, String)> = Vec::new();
        subs.push(("ss".to_owned(), "0".to_owned()));
        subs.push(("i".to_owned(), file.to_owned()));
        subs.push(("f".to_owned(), "mp4".to_owned()));
        subs.push(("vcodec".to_owned(), "copy".to_owned()));
        subs.push(("acodec".to_owned(), "copy".to_owned()));
        proof {
            assert(subs.deep_view() =~= transcode_subs(file@));
        }
        match build_arguments(builder.build(), &subs) {
            Ok(out) => Ok(out),
            Err(_) => Err(TranscodeError::UnresolvedArgument),
        }
    }
}

} // verus!
