use picture_vault::upload::upload_complete;
use picture_vault::upload::upload_reply;
use picture_vault::upload::{
    is_raw_image, number_or, plain_upload, signed_number_or, stored_path, temp_dir, temp_file, upload_base,
    upload_dir, upload_fields, FormValue,
};

fn full_form() -> Vec<(String, FormValue)> {
    vec![
        ("Bucket".to_string(), FormValue::Text("Camera".to_string())),
        ("Created".to_string(), FormValue::Int(1000)),
        ("Modified".to_string(), FormValue::Int(2000)),
        ("Latitude".to_string(), FormValue::FloatBits(1.25f64.to_bits())),
        ("Longitude".to_string(), FormValue::FloatBits(2.5f64.to_bits())),
        ("h_res".to_string(), FormValue::Int(640)),
        ("v_res".to_string(), FormValue::Int(480)),
        ("Size".to_string(), FormValue::Int(12345)),
        ("Duration".to_string(), FormValue::Int(-1)),
        ("Filename".to_string(), FormValue::Text("a.jpg".to_string())),
    ]
}

fn error_of(fields: &Vec<(String, FormValue)>) -> String {
    match upload_fields(fields) {
        Ok(_) => "ok".to_string(),
        Err(m) => m.to_string(),
    }
}

#[test]
fn upload_fields_are_read() {
    let info = match upload_fields(&full_form()) {
        Ok(i) => i,
        Err(m) => panic!("{}", m),
    };
    assert_eq!(info.bucket, "Camera");
    assert_eq!(info.filename, "a.jpg");
    assert_eq!(info.created, 1000);
    assert_eq!(info.modified, 2000);
    assert_eq!(f64::from_bits(info.latitude_bits), 1.25);
    assert_eq!(f64::from_bits(info.longitude_bits), 2.5);
    assert_eq!(info.h_res, 640);
    assert_eq!(info.v_res, 480);
    assert_eq!(info.size, 12345);
    assert_eq!(info.duration, -1);
}

#[test]
fn missing_bucket_is_empty() {
    let mut f = full_form();
    f.remove(0);
    match upload_fields(&f) {
        Ok(i) => assert_eq!(i.bucket, ""),
        Err(m) => panic!("{}", m),
    }
}

#[test]
fn upload_field_errors_in_order() {
    let mut f = full_form();
    f[0].1 = FormValue::Int(3);
    assert_eq!(error_of(&f), "Could not read bucket");
    let cases = [
        (1, "Could not read created timestamp"),
        (2, "Could not read modified timestamp"),
        (3, "Could not read latitude"),
        (4, "Could not read longitude"),
        (5, "Could not read horizontal resolution"),
        (6, "Could not read vertical resolution"),
        (7, "Could not read filesize"),
        (8, "Could not read video duration"),
        (9, "Could not read filename"),
    ];
    for (i, msg) in cases.iter() {
        let mut f = full_form();
        f[*i].1 = FormValue::Other;
        assert_eq!(error_of(&f), *msg);
    }
}

#[test]
fn first_field_of_a_name_counts() {
    let mut f = full_form();
    f.push(("Size".to_string(), FormValue::Int(1)));
    match upload_fields(&f) {
        Ok(i) => assert_eq!(i.size, 12345),
        Err(m) => panic!("{}", m),
    }
}

#[test]
fn upload_locations() {
    assert_eq!(upload_base(Ok("/home/u".to_string())), "/home/u");
    assert_eq!(upload_base(Err(-4)), "/tmp");
    assert_eq!(temp_dir("/home/u"), "/home/u/.temp/");
    assert_eq!(temp_file("/home/u", 77), "/home/u/.temp/77");
    assert_eq!(upload_dir("/home/u/2020/"), "/home/u/2020//");
    assert_eq!(upload_dir("/home/u/2020"), "/home/u/2020");
    assert_eq!(stored_path("/d/", "a.jpg"), "/d/a.jpg");
}

#[test]
fn raw_images() {
    assert!(is_raw_image("IMG_1.dng"));
    assert!(!is_raw_image("IMG_1.DNG"));
    assert!(!is_raw_image("IMG_1.jpg"));
}

#[test]
fn plain_upload_lines() {
    let lines: Vec<String> = vec![
        " a.jpg\n", "Camera\\n", "1.5", "2.5", "1000\r\n", "2000", "640", "480", "-1", "12",
    ]
    .into_iter()
    .map(|s| s.to_string())
    .collect();
    let p = plain_upload(&lines);
    assert_eq!(p.filename, "a.jpg");
    assert_eq!(p.bucket, "Camera");
    assert_eq!(p.latitude_text, "1.5");
    assert_eq!(p.longitude_text, "2.5");
    assert_eq!(p.created, 1000);
    assert_eq!(p.modified, 2000);
    assert_eq!(p.h_res, 640);
    assert_eq!(p.v_res, 480);
    assert_eq!(p.duration, -1);
    assert_eq!(p.size, 12);
    assert!(!p.malformed);
}

#[test]
fn plain_upload_malformed_numbers() {
    let lines: Vec<String> = vec!["a", "b", "c", "d", "x", "2", "3", "4", "y", "5"]
        .into_iter()
        .map(|s| s.to_string())
        .collect();
    let p = plain_upload(&lines);
    assert!(p.malformed);
    assert_eq!(p.created, 0);
    assert_eq!(p.duration, -1);
    assert_eq!(p.size, 5);
}

#[test]
fn numbers_with_defaults() {
    assert_eq!(number_or(Some("12".to_string()), 0), 12);
    assert_eq!(number_or(Some("x".to_string()), 7), 7);
    assert_eq!(number_or(None, 9), 9);
    assert_eq!(signed_number_or(Some("-3".to_string()), 0), -3);
    assert_eq!(signed_number_or(None, -1), -1);
}

#[test]
fn upload_replies() {
    assert_eq!(upload_reply(None), (200, "-1".to_string(), None));
    assert_eq!(upload_reply(Some(Ok(17))), (200, "17".to_string(), Some(17)));
    assert_eq!(
        upload_reply(Some(Err(-4))),
        (500, "Error adding file to database, it was created successfully though".to_string(), None)
    );
}

#[test]
fn uploads_must_arrive_whole() {
    assert!(upload_complete(Some(12), 12));
    assert!(!upload_complete(Some(11), 12));
    assert!(!upload_complete(None, 12));
}
