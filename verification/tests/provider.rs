use map_preview::provider::{tile_body, tile_request};
use map_preview::tiles::TileKey;

#[test]
fn request_names_the_tile_and_the_host() {
    let key = TileKey { zoom: 17, column: 70000, row: 45000 };
    assert_eq!(
        tile_request("tiles.example:7770", key),
        "GET /17/70000/45000.png HTTP/1.0\r\nHost: tiles.example:7770\r\nConnection: close\r\n\r\n"
    );
    let key = TileKey { zoom: 0, column: 0, row: 0 };
    assert_eq!(
        tile_request("h", key),
        "GET /0/0/0.png HTTP/1.0\r\nHost: h\r\nConnection: close\r\n\r\n"
    );
}

#[test]
fn body_follows_the_first_empty_line() {
    let answer = b"HTTP/1.0 200 OK\r\nContent-Type: image/png\r\n\r\n\x89PNG\r\n\r\nrest";
    assert_eq!(tile_body(answer), Some(b"\x89PNG\r\n\r\nrest".to_vec()));
    assert_eq!(tile_body(b"HTTP/1.1 200 OK\r\n\r\n"), Some(vec![]));
    assert_eq!(tile_body(b"HTTP/1.1 200\r\n\r\nx"), Some(vec![b'x']));
    assert_eq!(tile_body(b"  HTTP/1.1 \t 200   OK\r\n\r\nabc"), Some(b"abc".to_vec()));
}

#[test]
fn other_statuses_carry_no_tile() {
    assert_eq!(tile_body(b"HTTP/1.0 404 Not Found\r\n\r\nnothing"), None);
    assert_eq!(tile_body(b"HTTP/1.0 500 Oops\r\n\r\n"), None);
    assert_eq!(tile_body(b"HTTP/1.0 2000 OK\r\n\r\nabc"), None);
    assert_eq!(tile_body(b"HTTP/1.0 20 OK\r\n\r\nabc"), None);
    assert_eq!(tile_body(b"HTTP/1.0 201 Created\r\n\r\nabc"), None);
    // the status is the second word, not any word
    assert_eq!(tile_body(b"200 HTTP/1.0 OK\r\n\r\nabc"), None);
    assert_eq!(tile_body(b"HTTP/1.0 404 200\r\n\r\nabc"), None);
    assert_eq!(tile_body(b"HTTP/1.0\r\n\r\nabc"), None);
}

#[test]
fn answer_without_an_empty_line_carries_no_tile() {
    assert_eq!(tile_body(b""), None);
    assert_eq!(tile_body(b"\r\n\r"), None);
    assert_eq!(tile_body(b"HTTP/1.0 200 OK\r\nContent-Length: 3\r\nabc"), None);
    assert_eq!(tile_body(b"HTTP/1.0 200 OK\n\nabc"), None);
    // a head that is cut off by the empty line before its status
    assert_eq!(tile_body(b"\r\n\r\nHTTP/1.0 200 OK\r\n\r\nabc"), None);
}
