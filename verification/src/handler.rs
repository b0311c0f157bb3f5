//! The request handlers and the responses they build.
//!
//! Every response — success, 404, 400 or 500 — carries the permissive
//! cross-origin header. A store failure becomes a 500-class response and a
//! missing record a 404, never a crash of the serving task.
use crate::config::FFmpegConfig;
use crate::ffmpeg::transcode_subs;
use crate::ffmpeg::TranscodeError;
use crate::jsonwire::movie_json;
use crate::jsonwire::movies_json;
use crate::jsonwire::encode_movie;
use crate::jsonwire::encode_movies;
use crate::movie::first_movie_with;
use crate::movie::MovieRecord;
use crate::movie::Store;
use crate::movie::StoreError;
use vstd::prelude::*;

verus! {

/// One complete response: status code, headers, and body text.
pub struct HttpResponse {
    pub status: u16,
    pub headers: Vec<(String, String)>,
    pub body: String,
}

/// Whether a header list carries `name: value`.
pub open spec fn has_header(headers: Seq<(String, String)>, name: Seq<char>, value: Seq<char>) -> bool {
    exists|i: int| 0 <= i < headers.len() && headers[i].0@ == name && headers[i].1@ == value
}

/// The permissive cross-origin header every response carries.
pub open spec fn has_cors_header(headers: Seq<(String, String)>) -> bool {
    has_header(headers, "Access-Control-Allow-Origin"@, "*"@)
}

/// The JSON content type.
pub open spec fn has_json_header(headers: Seq<(String, String)>) -> bool {
    has_header(headers, "Content-Type"@, "application/json"@)
}

/// The headers a streaming response opens with.
pub open spec fn stream_headers_ok(headers: Seq<(String, String)>) -> bool {
    &&& has_cors_header(headers)
    &&& has_header(headers, "Content-Type"@, "video/mp4"@)
    &&& has_header(headers, "Content-Disposition"@, "inline"@)
    &&& has_header(headers, "Content-Transfer-Encoding"@, "binary"@)
}

/// Appends one header.
fn push_header(headers: &mut Vec<(String, String)>, name: &str, value: &str)
    ensures
        final(headers)@.len() == old(headers)@.len() + 1,
        forall|j: int| 0 <= j < old(headers)@.len() ==> final(headers)@[j] == old(headers)@[j],
        has_header(final(headers)@, name@, value@),
        forall|n: Seq<char>, v: Seq<char>|
            has_header(old(headers)@, n, v) ==> has_header(final(headers)@, n, v),
{
    let ghost before = headers@;
    headers.push((name.to_owned(), value.to_owned()));
    proof {
        assert(headers@[before.len() as int].0@ == name@);
        assert forall|n: Seq<char>, v: Seq<char>|
            has_header(before, n, v) implies has_header(headers@, n, v) by {
            let i = choose|i: int|
                0 <= i < before.len() && before[i].0@ == n && before[i].1@ == v;
            assert(headers@[i] == before[i]);
        }
    }
}

/// The cross-origin header alone.
fn cors_headers() -> (h: Vec<(String, String)>)
    ensures
        has_cors_header(h@),
{
    let mut h: Vec<(String, String)> = Vec::new();
    push_header(&mut h, "Access-Control-Allow-Origin", "*");
    h
}

/// A 404 with the CORS header; the body says only "Not Found".
pub fn not_found() -> (r: HttpResponse)
    ensures
        r.status == 404,
        has_cors_header(r.headers@),
        r.body@ == "Not Found"@,
{
    HttpResponse { status: 404, headers: cors_headers(), body: "Not Found".to_owned() }
}

/// A 400 with the CORS header: a matched route carried a parameter that is
/// no movie id.
pub fn bad_request() -> (r: HttpResponse)
    ensures
        r.status == 400,
        has_cors_header(r.headers@),
{
    HttpResponse { status: 400, headers: cors_headers(), body: "Bad Request".to_owned() }
}

/// A 500 with the CORS header: the store or the transcoder setup failed
/// before the response started.
pub fn server_error() -> (r: HttpResponse)
    ensures
        r.status == 500,
        has_cors_header(r.headers@),
{
    HttpResponse {
        status: 500,
        headers: cors_headers(),
        body: "INTERNAL_SERVER_ERROR".to_owned(),
    }
}

/// A 200 whose body is JSON text.
fn json_response(body: String) -> (r: HttpResponse)
    ensures
        r.status == 200,
        has_cors_header(r.headers@),
        has_json_header(r.headers@),
        r.body == body,
{
    let mut headers = cors_headers();
    push_header(&mut headers, "Content-Type", "application/json");
    HttpResponse { status: 200, headers, body }
}

/// Turns the store's catalog answer into a response: the catalog as a JSON
/// array on success, a 500 on a store failure, always with CORS.
pub fn movies_response(res: Result<Vec<MovieRecord>, StoreError>) -> (r: HttpResponse)
    ensures
        has_cors_header(r.headers@),
        match res {
            Ok(list) => r.status == 200 && r.body@ == movies_json(list.deep_view())
                && has_json_header(r.headers@),
            Err(_) => r.status == 500,
        },
{
    match res {
        Ok(list) => json_response(encode_movies(&list)),
        Err(_) => server_error(),
    }
}

/// Turns the store's single-record answer into a response: the record as
/// JSON, a 404 when the id is unknown, a 500 on a store failure.
pub fn movie_response(res: Result<Option<MovieRecord>, StoreError>) -> (r: HttpResponse)
    ensures
        has_cors_header(r.headers@),
        match res {
            Ok(Some(m)) => r.status == 200 && r.body@ == movie_json(m@) && has_json_header(
                r.headers@,
            ),
            Ok(None) => r.status == 404,
            Err(_) => r.status == 500,
        },
{
    match res {
        Ok(Some(m)) => json_response(encode_movie(&m)),
        Ok(None) => not_found(),
        Err(_) => server_error(),
    }
}

/// Handles the catalog listing: 200 with every record as a JSON array.
pub fn get_movies(db: &Store) -> (r: HttpResponse)
    ensures
        r.status == 200,
        r.body@ == movies_json(db.movies.deep_view()),
        has_cors_header(r.headers@),
        has_json_header(r.headers@),
{
    movies_response(db.list_movies())
}

/// Handles a single record: 200 with its JSON when the store holds the id,
/// a 404 when it does not — never a crash.
pub fn get_movie(db: &Store, id: i32) -> (r: HttpResponse)
    ensures
        has_cors_header(r.headers@),
        ({
            let i = first_movie_with(db.movies@, id as int);
            if i >= 0 {
                r.status == 200 && r.body@ == movie_json(db.movies@[i]@) && has_json_header(
                    r.headers@,
                )
            } else {
                r.status == 404
            }
        }),
{
    movie_response(db.get_movie(id))
}

/// Everything a streaming response needs before its first byte: the
/// transcoder command line and the response headers.
pub struct StreamPlan {
    pub bin: String,
    pub args: Vec<String>,
    pub headers: Vec<(String, String)>,
}

/// Prepares the transcode stream for a file: the wildcard template with
/// every substitution applied, under the streaming headers. An unresolved
/// argument or a missing codec entry surfaces as an error before the
/// stream starts, never as a silent empty success.
pub fn get_stream(config: &FFmpegConfig, file: &str) -> (r: Result<StreamPlan, TranscodeError>)
    ensures
        ({
            let i = crate::config::find_codec(config.codecs@, "*"@);
            if i == -1 {
                r == Result::<StreamPlan, TranscodeError>::Err(TranscodeError::MissingCodec)
            } else {
                let template = config.codecs@[i].1.args.deep_view();
                match r {
                    Ok(plan) => {
                        &&& crate::args::apply_substitutions(template, transcode_subs(file@))
                            == Some(plan.args.deep_view())
                        &&& crate::args::fully_resolved(plan.args.deep_view())
                        &&& plan.bin@ == config.bin@
                        &&& stream_headers_ok(plan.headers@)
                    },
                    Err(e) => e == TranscodeError::UnresolvedArgument && (
                    match crate::args::apply_substitutions(template, transcode_subs(file@)) {
                        Some(out) => !crate::args::fully_resolved(out),
                        None => true,
                    }),
                }
            }
        }),
{
    let codec = match config.codec_for("*") {
        Some(c) => c,
        None => {
            return Err(TranscodeError::MissingCodec);
        },
    };
    let template = codec.args.clone();
    proof {
        assert(template.deep_view() =~= codec.args.deep_view());
    }
    let mut subs: Vec<(String, String)> = Vec::new();
    subs.push(("ss".to_owned(), "0".to_owned()));
    subs.push(("i".to_owned(), file.to_owned()));
    subs.push(("f".to_owned(), "mp4".to_owned()));
    subs.push(("vcodec".to_owned(), "copy".to_owned()));
    subs.push(("acodec".to_owned(), "copy".to_owned()));
    proof {
        assert(subs.deep_view() =~= transcode_subs(file@));
    }
    let args = match crate::args::build_arguments(template, &subs) {
        Ok(a) => a,
        Err(_) => {
            return Err(TranscodeError::UnresolvedArgument);
        },
    };
    let mut headers = cors_headers();
    push_header(&mut headers, "Content-Type", "video/mp4");
    push_header(&mut headers, "Content-Disposition", "inline");
    push_header(&mut headers, "Content-Transfer-Encoding", "binary");
    Ok(StreamPlan { bin: config.bin.clone(), args, headers })
}

} // verus!
