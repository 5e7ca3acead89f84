use picture_vault::network::login_reply;
use picture_vault::network::is_description_request;
use picture_vault::network::{
    media_url_id, parse_range, range_response, request_credentials, route, sanitize, stream_target, Route,
};

#[test]
fn routes_by_exact_url() {
    assert!(route("/library/all") == Route::Libraries);
    assert!(route("/library/media") == Route::LibraryMedia);
    assert!(route("/media/thumb") == Route::MediaThumb);
    assert!(route("/media/info") == Route::MediaInfo);
    assert!(route("/media/load") == Route::MediaStream);
    assert!(route("/media/upload") == Route::Upload);
    assert!(route("/media/upload/ios") == Route::UploadMultipart);
    assert!(route("/media/search") == Route::Search);
    assert!(route("/lastsync/get") == Route::GetLastSync);
    assert!(route("/lastsync/set") == Route::SetLastSync);
    assert!(route("/pulse") == Route::Echo);
    assert!(route("/test/echo") == Route::Echo);
    assert!(route("/nothing") == Route::NotFound);
    assert!(route("/library/all/") == Route::NotFound);
}

#[test]
fn routes_by_prefix() {
    assert!(route("/media/load/12/file.jpg") == Route::MediaUrl);
    assert!(route("/media/stream/12/seg_1.m4s") == Route::StreamMedia);
}

#[test]
fn parse_range_reads_first_byte() {
    assert_eq!(parse_range("bytes=100-"), 100);
    assert_eq!(parse_range("bytes=100-200"), 100);
    assert_eq!(parse_range("bytes=0-"), 0);
    assert_eq!(parse_range("bytes=abc-"), 0);
    assert_eq!(parse_range("items=5-"), 0);
    assert_eq!(parse_range(""), 0);
}

#[test]
fn media_url_id_reads_third_segment() {
    assert_eq!(media_url_id("/media/load/42/picture.jpg"), Some(42));
    assert_eq!(media_url_id("/media/load/"), None);
    assert_eq!(media_url_id("/media/load/x/picture.jpg"), None);
}

#[test]
fn stream_target_reads_id_and_file() {
    assert_eq!(stream_target("/media/stream/7/video_1.m4s"), Some((7, "video_1.m4s".to_string())));
    assert_eq!(stream_target("/media/stream/7"), None);
    assert_eq!(stream_target("/media/stream/x/a"), None);
}

#[test]
fn range_response_statuses() {
    assert_eq!(range_response(0, 1000), (200, 1000, "bytes 0-1000".to_string()));
    assert_eq!(range_response(100, 1000), (206, 900, "bytes 100-1000".to_string()));
    assert_eq!(range_response(1000, 1000), (416, 0, "bytes 1000-1000".to_string()));
}

fn headers(hs: &[(&str, &str)]) -> Vec<(String, String)> {
    hs.iter().map(|(a, b)| (a.to_string(), b.to_string())).collect()
}

#[test]
fn request_credentials_reads_authorization_and_range() {
    let hs = headers(&[("Host", "x"), ("Authorization", "Basic dXNlcjpwYXNz"), ("Range", "bytes=10-")]);
    let info = request_credentials(&hs).unwrap();
    assert_eq!(info.user, "user");
    assert_eq!(info.pass, "pass");
    assert_eq!(info.range, 10);
}

#[test]
fn request_credentials_without_headers_is_empty() {
    let info = request_credentials(&headers(&[("Host", "x")])).unwrap();
    assert_eq!(info.user, "");
    assert_eq!(info.pass, "");
    assert_eq!(info.range, 0);
}

#[test]
fn request_credentials_stop_at_text_without_colon() {
    assert!(request_credentials(&headers(&[("Authorization", "Basic dXNlcg==")])).is_none());
}

#[test]
fn sanitize_strips_white_space_and_line_ends() {
    assert_eq!(sanitize("  name.jpg \n".to_string()), "name.jpg");
    assert_eq!(sanitize("name.jpg\\n".to_string()), "name.jpg");
    assert_eq!(sanitize("name.jpg\\r\\r".to_string()), "name.jpg");
    assert_eq!(sanitize("clean".to_string()), "clean");
    assert_eq!(sanitize("".to_string()), "");
}

#[test]
fn description_requests() {
    assert!(is_description_request("mpd"));
    assert!(!is_description_request("v_1.m4s"));
    assert!(!is_description_request("MPD"));
}

#[test]
fn login_replies() {
    assert_eq!(login_reply(Ok(4), "u", "p", "/x"), Ok(4));
    assert_eq!(
        login_reply(Err(-5), "u", "p", "/x"),
        Err((401, "Bad Login: u with password: p and URL: /x".to_string()))
    );
    assert_eq!(login_reply(Err(-2), "u", "p", "/x"), Err((500, "Error while verifying login".to_string())));
}
