use picture_vault::media::{hidden_name, record_cleanup};
use picture_vault::media::media_from_lookup;
use picture_vault::media::first_media;
use picture_vault::config::Config;
use picture_vault::media::{
    get_full_path_of, record_from_row, thumbnail_transforms, FileLookup, ImageOp, Media, MediaRecord,
    MediaRow, Orientation, DAY_MILLIS,
};

fn record(path: &str, filename: &str) -> MediaRecord {
    MediaRecord {
        id: 42,
        path: path.to_string(),
        filename: filename.to_string(),
        longitude_bits: 1.5f64.to_bits(),
        latitude_bits: 2.5f64.to_bits(),
        created: 1000,
        modified: 2000,
        h_resolution: 640,
        v_resolution: 480,
        duration: -1,
        last_request: 5,
    }
}

fn media(path: &str, filename: &str) -> Media {
    match Media::new(record(path, filename), FileLookup::Size(1234)) {
        Ok(m) => m,
        Err(_) => panic!("media not built"),
    }
}

#[test]
fn new_media_takes_size_and_swaps_coordinates() {
    let m = media("testdata", "test_landscape.jpg");
    assert_eq!(m.id, 42);
    assert_eq!(m.size, 1234);
    assert_eq!(f64::from_bits(m.longitude_bits), 2.5);
    assert_eq!(f64::from_bits(m.latitude_bits), 1.5);
    assert!(m.is_picture());
}

#[test]
fn new_media_errors() {
    assert!(matches!(Media::new(record("a", "b"), FileLookup::NotFound), Err(-1)));
    assert!(matches!(Media::new(record("a", "b"), FileLookup::Unreadable), Err(-2)));
    match Media::new(record("a", "b"), FileLookup::NoMetadata) {
        Ok(m) => assert_eq!(m.size, 0),
        Err(_) => panic!("expected media"),
    }
}

#[test]
fn full_path_adds_one_slash() {
    assert_eq!(get_full_path_of("testdata", "a.jpg"), "testdata/a.jpg");
    assert_eq!(get_full_path_of("testdata/", "a.jpg"), "testdata/a.jpg");
    assert_eq!(media("testdata/", "video_landscape.mp4").get_full_path(), "testdata/video_landscape.mp4");
}

#[test]
fn streaming_path() {
    assert_eq!(media("/home/u", "v.mp4").get_streaming_path(), "/home/u/.streaming_42/");
}

#[test]
fn thumbnail_names() {
    let m = media("testdata", "test_landscape.jpg");
    assert_eq!(m.get_thumbname(false), Ok("testdata/.test_landscape_350.jpg".to_string()));
    assert_eq!(m.get_thumbname(true), Ok("testdata/.test_landscape_350_quick.jpg".to_string()));
}

#[test]
fn thumbnail_names_differ() {
    let m = media("/srv/pics/2020", "holiday.png");
    assert_ne!(m.get_thumbname(true), m.get_thumbname(false));
}

#[test]
fn mpd_path() {
    let m = media("/home/u", "clip.mp4");
    assert_eq!(m.get_mpd_path(Ok(0)), Ok("/home/u/.streaming_42/clip.mpd".to_string()));
    assert_eq!(m.get_mpd_path(Err(-1)), Err(-1));
}

#[test]
fn streaming_arguments_use_configured_server() {
    let m = media("/home/u", "clip.mp4");
    let config = Config::from_lines(&vec![Some("server_ip=10.0.0.1".to_string()), Some("server_port=8000".to_string())]);
    let args = m.streaming_arguments(&config).unwrap();
    assert_eq!(args.len(), 16);
    assert_eq!(args[8], "/home/u/.streaming_42/clip.mp4");
    assert_eq!(args[10], "clip.mp4");
    assert_eq!(args[12], "http://10.0.0.1:8000/pulse");
    assert_eq!(args[14], "http://10.0.0.1:8000/media/stream/42/");
    assert_eq!(args[15], "/home/u/clip.mp4");
}

#[test]
fn streaming_arguments_errors() {
    let m = media("/home/u", "clip.mp4");
    assert_eq!(m.streaming_arguments(&Config::new()), Err(-1));
    let only_ip = Config::from_lines(&vec![Some("server_ip=1.2.3.4".to_string())]);
    assert_eq!(m.streaming_arguments(&only_ip), Err(-2));
}

#[test]
fn cleanup_uses_bitwise_complement() {
    let m = media("a", "b");
    assert!(m.needs_cleanup(0));
    assert!(m.needs_cleanup(DAY_MILLIS * 3));
    assert!(!m.needs_cleanup(u64::MAX));
}

#[test]
fn to_string_lists_fields_one_per_line() {
    let m = media("p", "f.jpg");
    assert_eq!(m.to_string("2.5", "1.5"), "42\np\nf.jpg\n1000\n2000\n2.5\n1.5\n640\n480\n-1\n1234");
}

#[test]
fn record_from_row_defaults() {
    let row = MediaRow {
        id: Some(Some(1)),
        path: Some(Some("p".to_string())),
        filename: Some(Some("f".to_string())),
        longitude_bits: None,
        latitude_bits: Some(None),
        created: None,
        modified: Some(Some(7)),
        h_resolution: None,
        v_resolution: None,
        duration: None,
        last_request: None,
    };
    let r = record_from_row(row).unwrap();
    assert_eq!(r.id, 1);
    assert_eq!(r.modified, 7);
    assert_eq!(r.created, 0);
    assert_eq!(r.duration, -1);
    assert_eq!(r.longitude_bits, 0);
}

#[test]
fn record_from_row_needs_id_path_and_name() {
    let row = MediaRow {
        id: Some(None),
        path: Some(Some("p".to_string())),
        filename: Some(Some("f".to_string())),
        longitude_bits: None,
        latitude_bits: None,
        created: None,
        modified: None,
        h_resolution: None,
        v_resolution: None,
        duration: None,
        last_request: None,
    };
    assert!(record_from_row(row).is_none());
}

#[test]
fn transforms_by_orientation() {
    assert!(thumbnail_transforms(Orientation::Normal).is_empty());
    assert!(thumbnail_transforms(Orientation::Rotate90) == vec![ImageOp::FlipHorizontal]);
    assert!(thumbnail_transforms(Orientation::Rotate90VerticalFlip) == vec![ImageOp::Rotate90, ImageOp::FlipVertical]);
    assert!(thumbnail_transforms(Orientation::Rotate270) == vec![ImageOp::Rotate270]);
}

#[test]
fn media_from_lookup_outcomes() {
    assert!(matches!(media_from_lookup(None), Err(1)));
    assert!(matches!(media_from_lookup(Some((record("a", "b"), FileLookup::NotFound))), Err(-2)));
    assert!(matches!(media_from_lookup(Some((record("a", "b"), FileLookup::Unreadable))), Err(-2)));
    match media_from_lookup(Some((record("a", "b"), FileLookup::Size(3)))) {
        Ok(m) => assert_eq!(m.size, 3),
        Err(_) => panic!("expected media"),
    }
}

#[test]
fn first_media_takes_first_usable_file() {
    assert!(matches!(first_media(vec![]), Err(1)));
    assert!(matches!(first_media(vec![(record("a", "b"), FileLookup::NotFound)]), Err(1)));
    let mut second = record("c", "d");
    second.id = 7;
    match first_media(vec![(record("a", "b"), FileLookup::Unreadable), (second, FileLookup::NoMetadata)]) {
        Ok(m) => {
            assert_eq!(m.id, 7);
            assert_eq!(m.size, 0);
        }
        Err(_) => panic!("expected media"),
    }
}

#[test]
fn thumbnail_plans() {
    let picture = media("/p", "a.jpg");
    let p = picture.thumbnail_plan(false, true, false).unwrap_or_else(|_| panic!("plan"));
    assert!(!p.queue && p.make.is_none());
    assert_eq!(p.serve, "/p/.a_350.jpg");
    let p = picture.thumbnail_plan(false, false, false).unwrap_or_else(|_| panic!("plan"));
    assert!(!p.queue);
    assert_eq!(p.make, Some(true));
    let p = picture.thumbnail_plan(true, false, false).unwrap_or_else(|_| panic!("plan"));
    assert!(p.queue);
    assert_eq!(p.make, Some(true));
    assert_eq!(p.serve, "/p/.a_350_quick.jpg");
    let p = picture.thumbnail_plan(true, false, true).unwrap_or_else(|_| panic!("plan"));
    assert!(p.queue && p.make.is_none());
    let mut video = media("/p", "v.mp4");
    video.duration = 3000;
    let p = video.thumbnail_plan(false, false, false).unwrap_or_else(|_| panic!("plan"));
    assert_eq!(p.make, Some(false));
}

#[test]
fn streaming_decisions() {
    let picture = media("/p", "a.jpg");
    assert_eq!(picture.streaming_decision(true, false), Some(Err(-5)));
    let mut video = media("/p", "v.mp4");
    video.duration = 10;
    assert_eq!(video.streaming_decision(false, false), Some(Err(-1)));
    assert_eq!(video.streaming_decision(true, true), Some(Ok(0)));
    assert_eq!(video.streaming_decision(true, false), None);
    assert_eq!(video.streaming_file("v_1.m4s"), "/p/.streaming_42/v_1.m4s");
}

#[test]
fn missing_file_record_is_removed() {
    let config = Config::from_lines(&vec![Some("db_name=vault".to_string())]);
    let rec = record("a", "b");
    let s = record_cleanup(&config, &rec, &FileLookup::NotFound).unwrap_or_else(|| panic!("removal"));
    assert_eq!(s.statements.len(), 2);
    assert_eq!(s.statements[0].query, Some("DELETE FROM vault.Places\n        WHERE picture = ?".to_string()));
    assert_eq!(s.statements[1].query, Some("DELETE FROM vault.Media\n        WHERE id = ?".to_string()));
    assert!(matches!(s.statements[1].params[0], picture_vault::database::SqlParam::Unsigned(42)));
    assert!(record_cleanup(&config, &rec, &FileLookup::Unreadable).is_none());
    assert!(record_cleanup(&config, &rec, &FileLookup::Size(3)).is_none());
}

#[test]
fn hidden_names() {
    assert_eq!(hidden_name("/p", "a"), "/p/.a");
    assert_eq!(hidden_name("/p/", "a"), "/p/.a");
}
