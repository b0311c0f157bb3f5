use moviebay::handler::get_movie;
use moviebay::handler::get_movies;
use moviebay::handler::get_stream;
use moviebay::handler::movie_response;
use moviebay::handler::movies_response;
use moviebay::config::CodecConfig;
use moviebay::config::FFmpegConfig;
use moviebay::ffmpeg::TranscodeError;
use moviebay::movie::MovieRecord;
use moviebay::movie::Store;
use moviebay::movie::StoreError;

fn sample_movie(id: i32) -> MovieRecord {
    MovieRecord {
        id,
        title: "Collateral".to_string(),
        release_year: 2004,
        file_path: "/lib/collateral.mkv".to_string(),
        poster_path: "/p.jpg".to_string(),
        backdrop_path: "/b.jpg".to_string(),
    }
}

fn cors(headers: &[(String, String)]) -> bool {
    headers.iter().any(|(n, v)| n == "Access-Control-Allow-Origin" && v == "*")
}

#[test]
fn store_failure_becomes_a_500_with_cors() {
    let listing = movies_response(Err(StoreError::Unavailable));
    assert_eq!(listing.status, 500);
    assert!(cors(&listing.headers));

    let single = movie_response(Err(StoreError::Unavailable));
    assert_eq!(single.status, 500);
    assert!(cors(&single.headers));
}

#[test]
fn missing_record_becomes_a_404_with_cors() {
    let r = movie_response(Ok(None));
    assert_eq!(r.status, 404);
    assert!(cors(&r.headers));
}

#[test]
fn catalog_handler_serializes_every_record() {
    let db = Store::new(vec![sample_movie(1), sample_movie(2)]);
    let r = get_movies(&db);
    assert_eq!(r.status, 200);
    assert!(cors(&r.headers));
    assert!(r.body.starts_with('[') && r.body.ends_with(']'));
}

#[test]
fn single_handler_finds_the_record_or_404s() {
    let db = Store::new(vec![sample_movie(1)]);
    let hit = get_movie(&db, 1);
    assert_eq!(hit.status, 200);
    assert!(hit.body.contains("\"id\":1"));
    let miss = get_movie(&db, 7);
    assert_eq!(miss.status, 404);
    assert!(cors(&miss.headers));
}

#[test]
fn stream_setup_without_codec_entry_fails_before_the_stream() {
    let cfg = FFmpegConfig { bin: "ffmpeg".to_string(), codecs: Vec::new() };
    match get_stream(&cfg, "/lib/a.mkv") {
        Err(e) => assert_eq!(e, TranscodeError::MissingCodec),
        Ok(_) => panic!("a missing codec entry must not start a stream"),
    }
}

#[test]
fn stream_setup_with_leftover_placeholder_fails_before_the_stream() {
    let cfg = FFmpegConfig {
        bin: "ffmpeg".to_string(),
        codecs: vec![(
            "*".to_string(),
            CodecConfig { args: vec!["-i".to_string(), "%i".to_string(), "%extra".to_string()] },
        )],
    };
    match get_stream(&cfg, "/lib/a.mkv") {
        Err(e) => assert_eq!(e, TranscodeError::UnresolvedArgument),
        Ok(_) => panic!("an unresolved token must not start a stream"),
    }
}
