use moviebay::jsonparse::parse_movie;
use moviebay::jsonwire::encode_movie;
use moviebay::jsonwire::encode_movies;
use moviebay::movie::MovieRecord;
use serde_json::Value;

fn record(id: i32, title: &str, year: i32, file: &str, poster: &str, backdrop: &str) -> MovieRecord {
    MovieRecord {
        id,
        title: title.to_string(),
        release_year: year,
        file_path: file.to_string(),
        poster_path: poster.to_string(),
        backdrop_path: backdrop.to_string(),
    }
}

fn parse_back(wire: &str) -> MovieRecord {
    let v: Value = serde_json::from_str(wire).expect("the wire format is valid JSON");
    record(
        v["id"].as_i64().expect("id is a number") as i32,
        v["title"].as_str().expect("title is a string"),
        v["release_year"].as_i64().expect("release_year is a number") as i32,
        v["file_path"].as_str().expect("file_path is a string"),
        v["poster_path"].as_str().expect("poster_path is a string"),
        v["backdrop_path"].as_str().expect("backdrop_path is a string"),
    )
}

#[test]
fn wire_format_is_exact_for_a_plain_record() {
    let m = record(7, "Collateral", 2004, "/lib/collateral.mkv", "/p.jpg", "/b.jpg");
    let expected = "{\"id\":7,\"title\":\"Collateral\",\"release_year\":2004,\"file_path\":\"/lib/collateral.mkv\",\"poster_path\":\"/p.jpg\",\"backdrop_path\":\"/b.jpg\"}";
    assert_eq!(encode_movie(&m), expected);
}

#[test]
fn conformant_client_reads_back_every_field() {
    let m = record(7, "Collateral", 2004, "/lib/collateral.mkv", "/p.jpg", "/b.jpg");
    assert!(parse_back(&encode_movie(&m)) == m);
}

#[test]
fn quotes_backslashes_and_controls_round_trip() {
    let m = record(
        3,
        "A \"quoted\" title \\ with\nnewline and\ttab",
        1999,
        "/lib/a b.mkv",
        "",
        "\u{03c0} unicode stays raw",
    );
    let wire = encode_movie(&m);
    assert!(wire.contains("\\\"quoted\\\""));
    assert!(wire.contains("\\u000a"));
    assert!(wire.contains("\\u0009"));
    assert!(parse_back(&wire) == m);
}

#[test]
fn negative_numbers_travel_signed() {
    let m = record(-12, "Before Zero", -44, "/x.mkv", "/p", "/b");
    let wire = encode_movie(&m);
    assert!(wire.contains("\"id\":-12"));
    assert!(wire.contains("\"release_year\":-44"));
    assert!(parse_back(&wire) == m);
}

#[test]
fn catalog_listing_is_a_json_array_in_order() {
    let a = record(1, "First", 2001, "/1.mkv", "/p1", "/b1");
    let b = record(2, "Second", 2002, "/2.mkv", "/p2", "/b2");
    let wire = encode_movies(&vec![a.clone(), b.clone()]);
    let v: Value = serde_json::from_str(&wire).expect("the listing is valid JSON");
    let items = v.as_array().expect("the listing is an array");
    assert_eq!(items.len(), 2);
    assert_eq!(items[0]["id"].as_i64(), Some(1));
    assert_eq!(items[1]["title"].as_str(), Some("Second"));
}

#[test]
fn empty_catalog_is_an_empty_array() {
    assert_eq!(encode_movies(&Vec::new()), "[]");
}

#[test]
fn library_parser_inverts_the_encoder() {
    let m = record(
        -7,
        "A \"quoted\" \\ title\nwith controls",
        2004,
        "/lib/a b.mkv",
        "",
        "\u{03c0} stays raw",
    );
    let back = parse_movie(&encode_movie(&m)).expect("the encoder's output parses");
    assert!(back == m);
}

#[test]
fn library_parser_rejects_malformed_text() {
    assert!(parse_movie("").is_none());
    assert!(parse_movie("{\"id\":x}").is_none());
    let m = record(7, "t", 2004, "/f", "/p", "/b");
    let mut trailing = encode_movie(&m);
    trailing.push('x');
    assert!(parse_movie(&trailing).is_none());
    let overflow = "{\"id\":9999999999,\"title\":\"t\",\"release_year\":1,\"file_path\":\"\",\"poster_path\":\"\",\"backdrop_path\":\"\"}";
    assert!(parse_movie(overflow).is_none());
}
