use moviebay::config::CodecConfig;
use moviebay::config::Config;
use moviebay::config::DatabaseConfig;
use moviebay::config::FFmpegConfig;
use moviebay::config::LibraryConfig;
use moviebay::config::SharedCfg;
use moviebay::config::TmdbConfig;
use moviebay::movie::MovieRecord;
use moviebay::movie::SharedDb;
use moviebay::movie::Store;
use moviebay::router::Method;
use moviebay::service::parse_id;
use moviebay::service::ApiService;
use moviebay::service::DispatchDecision;
use moviebay::service::MakeApiSvc;
use moviebay::service::ServeOutcome;

fn sample_movie(id: i32, title: &str, file: &str) -> MovieRecord {
    MovieRecord {
        id,
        title: title.to_string(),
        release_year: 2004,
        file_path: file.to_string(),
        poster_path: "/p.jpg".to_string(),
        backdrop_path: "/b.jpg".to_string(),
    }
}

fn sample_config() -> SharedCfg {
    Config::new(
        FFmpegConfig {
            bin: "ffmpeg".to_string(),
            codecs: vec![(
                "*".to_string(),
                CodecConfig {
                    args: vec![
                        "-ss".to_string(),
                        "%ss".to_string(),
                        "-i".to_string(),
                        "%i".to_string(),
                        "-f".to_string(),
                        "%f".to_string(),
                        "-vcodec".to_string(),
                        "%vcodec".to_string(),
                        "-acodec".to_string(),
                        "%acodec".to_string(),
                    ],
                },
            )],
        },
        LibraryConfig { movies: "/library".to_string() },
        DatabaseConfig { name: "moviebay.db".to_string() },
        TmdbConfig { api_key: "test-key".to_string() },
    )
}

fn sample_db() -> SharedDb {
    Store::new(vec![
        sample_movie(1, "Collateral", "/library/collateral.mkv"),
        sample_movie(2, "Heat", "/library/heat.mkv"),
    ])
    .into_shared()
}

fn service() -> ApiService {
    MakeApiSvc::new(sample_config(), sample_db()).make_service()
}

fn header(headers: &[(String, String)], name: &str) -> Option<String> {
    headers.iter().find(|(n, _)| n == name).map(|(_, v)| v.clone())
}

#[test]
fn dispatch_movie_id_wins_over_listing() {
    let svc = service();
    assert_eq!(svc.dispatch(Method::Get, "/movies/42"), DispatchDecision::GetMovie(42));
    assert_eq!(svc.dispatch(Method::Get, "/movies/"), DispatchDecision::ListMovies);
    assert_eq!(svc.dispatch(Method::Get, "/stream/2"), DispatchDecision::GetStream(2));
    assert_eq!(svc.dispatch(Method::Get, "/else"), DispatchDecision::NotFound);
}

#[test]
fn unmatched_path_serves_404_with_cors() {
    let svc = service();
    match svc.serve(Method::Get, "/nothing/here") {
        ServeOutcome::Page(p) => {
            assert_eq!(p.status, 404);
            assert_eq!(p.body, "Not Found");
            assert_eq!(header(&p.headers, "Access-Control-Allow-Origin").as_deref(), Some("*"));
        },
        ServeOutcome::Stream(_) => panic!("an unmatched path must not stream"),
    }
}

#[test]
fn unknown_movie_id_serves_404_not_a_crash() {
    let svc = service();
    match svc.serve(Method::Get, "/movies/7") {
        ServeOutcome::Page(p) => {
            assert_eq!(p.status, 404);
            assert_eq!(header(&p.headers, "Access-Control-Allow-Origin").as_deref(), Some("*"));
        },
        ServeOutcome::Stream(_) => panic!("a catalog path must not stream"),
    }
}

#[test]
fn non_numeric_movie_id_serves_400_not_a_crash() {
    let svc = service();
    // An all-digit id too large for the id field is a bad parameter too.
    assert_eq!(
        svc.dispatch(Method::Get, "/movies/99999999999999999999"),
        DispatchDecision::BadParameter
    );
    match svc.serve(Method::Get, "/movies/99999999999999999999") {
        ServeOutcome::Page(p) => {
            assert_eq!(p.status, 400);
            assert_eq!(header(&p.headers, "Access-Control-Allow-Origin").as_deref(), Some("*"));
        },
        ServeOutcome::Stream(_) => panic!("a bad parameter must not stream"),
    }
}

#[test]
fn known_movie_id_serves_its_json() {
    let svc = service();
    match svc.serve(Method::Get, "/movies/2") {
        ServeOutcome::Page(p) => {
            assert_eq!(p.status, 200);
            assert_eq!(header(&p.headers, "Content-Type").as_deref(), Some("application/json"));
            assert_eq!(header(&p.headers, "Access-Control-Allow-Origin").as_deref(), Some("*"));
            assert!(p.body.contains("\"title\":\"Heat\""));
        },
        ServeOutcome::Stream(_) => panic!("a catalog path must not stream"),
    }
}

#[test]
fn listing_serves_the_whole_catalog() {
    let svc = service();
    match svc.serve(Method::Get, "/movies/") {
        ServeOutcome::Page(p) => {
            assert_eq!(p.status, 200);
            assert!(p.body.starts_with('['));
            assert!(p.body.contains("Collateral"));
            assert!(p.body.contains("Heat"));
        },
        ServeOutcome::Stream(_) => panic!("the listing must not stream"),
    }
}

#[test]
fn stream_request_yields_the_transcoder_plan() {
    let svc = service();
    match svc.serve(Method::Get, "/stream/1") {
        ServeOutcome::Stream(plan) => {
            assert_eq!(plan.bin, "ffmpeg");
            assert_eq!(
                plan.args,
                vec![
                    "-ss".to_string(),
                    "0".to_string(),
                    "-i".to_string(),
                    "/library/collateral.mkv".to_string(),
                    "-f".to_string(),
                    "mp4".to_string(),
                    "-vcodec".to_string(),
                    "copy".to_string(),
                    "-acodec".to_string(),
                    "copy".to_string(),
                ]
            );
            assert_eq!(header(&plan.headers, "Content-Type").as_deref(), Some("video/mp4"));
            assert_eq!(header(&plan.headers, "Content-Disposition").as_deref(), Some("inline"));
            assert_eq!(
                header(&plan.headers, "Access-Control-Allow-Origin").as_deref(),
                Some("*")
            );
        },
        ServeOutcome::Page(p) => panic!("a known stream id must stream, got status {}", p.status),
    }
}

#[test]
fn stream_of_unknown_id_serves_404() {
    let svc = service();
    match svc.serve(Method::Get, "/stream/9") {
        ServeOutcome::Page(p) => assert_eq!(p.status, 404),
        ServeOutcome::Stream(_) => panic!("an unknown id must not stream"),
    }
}

#[test]
fn parse_id_accepts_digits_and_rejects_the_rest() {
    assert_eq!(parse_id("0"), Some(0));
    assert_eq!(parse_id("42"), Some(42));
    assert_eq!(parse_id("2147483647"), Some(2147483647));
    assert_eq!(parse_id("2147483648"), None);
    assert_eq!(parse_id(""), None);
    assert_eq!(parse_id("abc"), None);
    assert_eq!(parse_id("-1"), None);
    assert_eq!(parse_id("4 2"), None);
}
