//! The per-connection service: dispatching one request to its handler.
//!
//! The service resolves the request's path against the route table, reads
//! the captured id — a non-numeric id is a 400-class answer, never a crash
//! — and runs the named handler. Each request is independent and stateless
//! across calls.
use crate::config::find_codec;
use crate::config::SharedCfg;
use crate::ffmpeg::transcode_subs;
use crate::handler::bad_request;
use crate::handler::get_movie;
use crate::handler::get_movies;
use crate::handler::get_stream;
use crate::handler::has_cors_header;
use crate::handler::has_json_header;
use crate::handler::not_found;
use crate::handler::server_error;
use crate::handler::stream_headers_ok;
use crate::handler::HttpResponse;
use crate::handler::StreamPlan;
use crate::jsonwire::digits_val;
use crate::jsonwire::movie_json;
use crate::jsonwire::movies_json;
use crate::matcher::is_digit_char;
use crate::matcher::PathMatcher;
use crate::movie::first_movie_with;
use crate::movie::SharedDb;
use crate::router::first_where;
use crate::router::lookup_params;
use crate::router::route_matches;
use crate::router::Method;
use crate::router::Route;
use crate::router::Router;
use crate::text::str_chars;
use crate::text::str_eq;
use vstd::prelude::*;

verus! {

/// A route parameter that names a movie: one or more decimal digits whose
/// value fits the id field.
pub open spec fn is_movie_id(s: Seq<char>) -> bool {
    &&& s.len() >= 1
    &&& forall|i: int| 0 <= i < s.len() ==> is_digit_char(s[i])
    &&& digits_val(s) <= 2147483647
}

/// The value of a digit string is never negative.
proof fn lemma_digits_val_nonneg(s: Seq<char>)
    requires
        forall|i: int| 0 <= i < s.len() ==> is_digit_char(s[i]),
    ensures
        digits_val(s) >= 0,
    decreases s.len(),
{
    if s.len() > 0 {
        assert(forall|i: int| 0 <= i < s.drop_last().len() ==> s.drop_last()[i] == s[i]);
        lemma_digits_val_nonneg(s.drop_last());
    }
}

/// More digits never shrink the value.
proof fn lemma_digits_val_mono(s: Seq<char>, i: int)
    requires
        0 <= i <= s.len(),
        forall|j: int| 0 <= j < s.len() ==> is_digit_char(s[j]),
    ensures
        digits_val(s) >= digits_val(s.take(i)),
    decreases s.len() - i,
{
    if i == s.len() {
        assert(s.take(i) =~= s);
    } else {
        assert(forall|j: int| 0 <= j < s.take(i).len() ==> s.take(i)[j] == s[j]);
        lemma_digits_val_nonneg(s.take(i));
        assert(s.take(i + 1).drop_last() =~= s.take(i));
        assert(s.take(i + 1).last() == s[i]);
        assert(digits_val(s.take(i + 1)) == digits_val(s.take(i)) * 10 + (s[i] as u32 - 48));
        lemma_digits_val_mono(s, i + 1);
    }
}

/// Reads a route parameter as a movie id: exactly the non-empty all-digit
/// strings whose value fits are accepted, at their numeric value.
#[verifier::loop_isolation(false)]
pub fn parse_id(s: &str) -> (r: Option<i32>)
    ensures
        match r {
            Some(v) => is_movie_id(s@) && v as int == digits_val(s@),
            None => !is_movie_id(s@),
        },
{
    let chars = str_chars(s);
    let n = chars.len();
    if n == 0 {
        return None;
    }
    let mut acc: u64 = 0;
    let mut i: usize = 0;
    while i < n
        invariant
            0 <= i <= n == chars.len(),
            chars@ == s@,
            forall|j: int| 0 <= j < i ==> is_digit_char(s@[j]),
            acc as int == digits_val(s@.take(i as int)),
            acc <= 2147483647,
        decreases n - i,
    {
        let c = chars[i];
        let u = c as u32;
        if u < 48 || u > 57 {
            proof {
                assert(!is_digit_char(s@[i as int]));
            }
            return None;
        }
        acc = acc * 10 + ((u - 48) as u64);
        proof {
            assert(s@.take(i + 1).drop_last() =~= s@.take(i as int));
            assert(s@.take(i + 1).last() == s@[i as int]);
            assert(acc as int == digits_val(s@.take(i + 1)));
        }
        if acc > 2147483647 {
            proof {
                if is_movie_id(s@) {
                    lemma_digits_val_mono(s@, i + 1);
                }
            }
            return None;
        }
        i += 1;
    }
    proof {
        assert(s@.take(n as int) =~= s@);
    }
    Some(acc as i32)
}

/// What the dispatcher decides for one request.
#[derive(Debug, Clone, Copy, PartialEq, Eq, Structural)]
pub enum DispatchDecision {
    /// Serve the catalog listing.
    ListMovies,
    /// Serve the movie with this id.
    GetMovie(i32),
    /// Stream the movie with this id.
    GetStream(i32),
    /// A matched route carried a parameter that is no movie id.
    BadParameter,
    /// No route matched, or the matched name is in no handler table.
    NotFound,
}

/// The decision for a request: the first matching route's handler, with
/// its parameter read as a movie id.
pub open spec fn spec_dispatch(routes: Seq<Route>, method: Method, path: Seq<char>) -> DispatchDecision {
    let i = first_where(routes, (|rt: Route| route_matches(rt, method, path)));
    if i == -1 {
        DispatchDecision::NotFound
    } else {
        let rt = routes[i];
        let ps = lookup_params(rt, path);
        if rt.name@ == "get_movies"@ {
            DispatchDecision::ListMovies
        } else if rt.name@ == "get_movie"@ {
            if ps.len() >= 1 && is_movie_id(ps[0]) {
                DispatchDecision::GetMovie(digits_val(ps[0]) as i32)
            } else {
                DispatchDecision::BadParameter
            }
        } else if rt.name@ == "get_stream"@ {
            if ps.len() >= 1 && is_movie_id(ps[0]) {
                DispatchDecision::GetStream(digits_val(ps[0]) as i32)
            } else {
                DispatchDecision::BadParameter
            }
        } else {
            DispatchDecision::NotFound
        }
    }
}

/// What serving one request yields: a finished page, or the plan for a
/// streaming body that the caller starts.
pub enum ServeOutcome {
    /// A complete response.
    Page(HttpResponse),
    /// Streaming headers and the transcoder command line to run.
    Stream(StreamPlan),
}

/// The per-connection service: the shared configuration and store handles
/// and the route table, read-only while serving.
pub struct ApiService {
    pub config: SharedCfg,
    pub db: SharedDb,
    pub router: Router,
}

impl ApiService {
    /// A service over the shared store and configuration, with the movie,
    /// catalog and stream routes registered — the capturing movie route
    /// before the general catalog route.
    pub fn new(db: SharedDb, config: SharedCfg) -> (s: ApiService)
        ensures
            s.db == db,
            s.config == config,
            s.router.routes@.len() == 3,
            ({
                let r0 = s.router.routes@[0];
                &&& r0.method == Method::Get
                &&& r0.name@ == "get_movie"@
                &&& r0.path.capture
                &&& r0.path.prefix@ == "/movies/"@
                &&& r0.path.suffix@ == Seq::<char>::empty()
                &&& r0.params@ == Seq::<String>::empty()
            }),
            ({
                let r1 = s.router.routes@[1];
                &&& r1.method == Method::Get
                &&& r1.name@ == "get_movies"@
                &&& !r1.path.capture
                &&& r1.path.prefix@ == "/movies/"@
                &&& r1.params@ == Seq::<String>::empty()
            }),
            ({
                let r2 = s.router.routes@[2];
                &&& r2.method == Method::Get
                &&& r2.name@ == "get_stream"@
                &&& r2.path.capture
                &&& r2.path.prefix@ == "/stream/"@
                &&& r2.path.suffix@ == Seq::<char>::empty()
                &&& r2.params@ == Seq::<String>::empty()
            }),
    {
        proof {
            reveal_strlit("");
            assert(""@ =~= Seq::<char>::empty());
        }
        let mut router = Router::new();
        router.add(
            Route {
                method: Method::Get,
                path: PathMatcher::capture_between("/movies/", ""),
                name: "get_movie".to_owned(),
                params: Vec::new(),
            },
        );
        router.add(
            Route {
                method: Method::Get,
                path: PathMatcher::literal("/movies/"),
                name: "get_movies".to_owned(),
                params: Vec::new(),
            },
        );
        router.add(
            Route {
                method: Method::Get,
                path: PathMatcher::capture_between("/stream/", ""),
                name: "get_stream".to_owned(),
                params: Vec::new(),
            },
        );
        ApiService { config, db, router }
    }

    /// Decides one request against the route table.
    pub fn dispatch(&self, method: Method, path: &str) -> (d: DispatchDecision)
        ensures
            d == spec_dispatch(self.router.routes@, method, path@),
    {
        let res = match self.router.resolve(method, path) {
            Some(res) => res,
            None => {
                return DispatchDecision::NotFound;
            },
        };
        if str_eq(res.handler_name.as_str(), "get_movies") {
            DispatchDecision::ListMovies
        } else if str_eq(res.handler_name.as_str(), "get_movie") {
            if res.params.len() >= 1 {
                match parse_id(res.params[0].as_str()) {
                    Some(v) => DispatchDecision::GetMovie(v),
                    None => DispatchDecision::BadParameter,
                }
            } else {
                DispatchDecision::BadParameter
            }
        } else if str_eq(res.handler_name.as_str(), "get_stream") {
            if res.params.len() >= 1 {
                match parse_id(res.params[0].as_str()) {
                    Some(v) => DispatchDecision::GetStream(v),
                    None => DispatchDecision::BadParameter,
                }
            } else {
                DispatchDecision::BadParameter
            }
        } else {
            DispatchDecision::NotFound
        }
    }

    /// Serves one request: a 404 with CORS when nothing matches, a 400 for
    /// a bad id, the handler's response otherwise; a stream request hands
    /// back the streaming plan, or a 404 for an unknown id, or a 500 when
    /// the transcoder setup fails before the stream starts.
    pub fn serve(&self, method: Method, path: &str) -> (r: ServeOutcome)
        ensures
            ({
                let d = spec_dispatch(self.router.routes@, method, path@);
                match d {
                    DispatchDecision::NotFound => r matches ServeOutcome::Page(p) && p.status
                        == 404 && has_cors_header(p.headers@) && p.body@ == "Not Found"@,
                    DispatchDecision::BadParameter => r matches ServeOutcome::Page(p) && p.status
                        == 400 && has_cors_header(p.headers@),
                    DispatchDecision::ListMovies => r matches ServeOutcome::Page(p) && p.status
                        == 200 && p.body@ == movies_json(self.db.movies.deep_view())
                        && has_cors_header(p.headers@) && has_json_header(p.headers@),
                    DispatchDecision::GetMovie(id) => r matches ServeOutcome::Page(p)
                        && has_cors_header(p.headers@) && ({
                        let i = first_movie_with(self.db.movies@, id as int);
                        if i >= 0 {
                            p.status == 200 && p.body@ == movie_json(self.db.movies@[i]@)
                        } else {
                            p.status == 404
                        }
                    }),
                    DispatchDecision::GetStream(id) => ({
                        let i = first_movie_with(self.db.movies@, id as int);
                        if i == -1 {
                            r matches ServeOutcome::Page(p) && p.status == 404 && has_cors_header(
                                p.headers@,
                            )
                        } else {
                            let file = self.db.movies@[i]@.file_path;
                            let c = find_codec(self.config.ffmpeg.codecs@, "*"@);
                            if c == -1 {
                                r matches ServeOutcome::Page(p) && p.status == 500
                                    && has_cors_header(p.headers@)
                            } else {
                                let template = self.config.ffmpeg.codecs@[c].1.args.deep_view();
                                match crate::args::apply_substitutions(
                                    template,
                                    transcode_subs(file),
                                ) {
                                    Some(out) => if crate::args::fully_resolved(out) {
                                        r matches ServeOutcome::Stream(plan) && plan.args.deep_view()
                                            == out && plan.bin@ == self.config.ffmpeg.bin@
                                            && stream_headers_ok(plan.headers@)
                                    } else {
                                        r matches ServeOutcome::Page(p) && p.status == 500
                                            && has_cors_header(p.headers@)
                                    },
                                    None => r matches ServeOutcome::Page(p) && p.status == 500
                                        && has_cors_header(p.headers@),
                                }
                            }
                        }
                    }),
                }
            }),
    {
        match self.dispatch(method, path) {
            DispatchDecision::NotFound => ServeOutcome::Page(not_found()),
            DispatchDecision::BadParameter => ServeOutcome::Page(bad_request()),
            DispatchDecision::ListMovies => ServeOutcome::Page(get_movies(&self.db)),
            DispatchDecision::GetMovie(id) => ServeOutcome::Page(get_movie(&self.db, id)),
            DispatchDecision::GetStream(id) => {
                match self.db.get_movie(id) {
                    Ok(Some(m)) => {
                        match get_stream(&self.config.ffmpeg, m.file_path.as_str()) {
                            Ok(plan) => ServeOutcome::Stream(plan),
                            Err(_) => ServeOutcome::Page(server_error()),
                        }
                    },
                    Ok(None) => ServeOutcome::Page(not_found()),
                    Err(_) => ServeOutcome::Page(server_error()),
                }
            },
        }
    }
}

/// The factory the listener uses: it holds the shared handles and makes
/// one `ApiService` per accepted connection.
pub struct MakeApiSvc {
    pub config: SharedCfg,
    pub db: SharedDb,
}

impl MakeApiSvc {
    /// A factory over the shared configuration and store.
    pub fn new(config: SharedCfg, db: SharedDb) -> (m: MakeApiSvc)
        ensures
            m.config == config,
            m.db == db,
    {
        MakeApiSvc { config, db }
    }

    /// The per-connection service, over the factory's shared handles.
    pub fn make_service(self) -> (s: ApiService)
        ensures
            s.db == self.db,
            s.config == self.config,
            s.router.routes@.len() == 3,
    {
        ApiService::new(self.db, self.config)
    }
}

} // verus!
