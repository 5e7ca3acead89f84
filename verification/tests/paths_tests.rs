use picture_vault::config::Config;
use picture_vault::paths::{build_path, build_path_date, ownership_chain, path_for_date, Gen};

fn months() -> Config {
    Config::from_lines(&vec![
        Some("de5=Mai".to_string()),
        Some("en_GB6=June".to_string()),
        Some("de6=Juni".to_string()),
    ])
}

#[test]
fn month_name_falls_back_to_language() {
    assert_eq!(path_for_date(2020, 5, "Camera", "de_DE.UTF-8", &months()), "2020/05 Mai/Camera/");
}

#[test]
fn month_name_of_full_locale_wins() {
    assert_eq!(path_for_date(2021, 6, "Camera", "en_GB", &months()), "2021/06 June/Camera/");
}

#[test]
fn month_name_missing_is_empty_and_two_digits_are_kept() {
    assert_eq!(path_for_date(2019, 11, "B", "fr", &months()), "2019/11 /B/");
}

#[test]
fn build_path_without_user_directory_is_minus_one() {
    let r = build_path(Err(-4), 1_592_222_400_000, 0, "Camera", "de_DE", &months());
    assert_eq!(r, Some(Err(-1)));
}

#[test]
fn build_path_below_user_directory() {
    // 15 June 2020, noon UTC: June in every time zone.
    let r = build_path(Ok("/home/u".to_string()), 1_592_222_400_000, 0, "Camera", "de_DE", &months());
    assert_eq!(r, Some(Ok("/home/u/2020/06 Juni/Camera/".to_string())));
}

#[test]
fn build_path_uses_modified_when_created_is_zero() {
    let r = build_path(Ok("/home/u/".to_string()), 0, 1_592_222_400_000, "X", "de", &months());
    assert_eq!(r, Some(Ok("/home/u/2020/06 Juni/X/".to_string())));
}

#[test]
fn build_path_date_alone() {
    assert_eq!(build_path_date(1_592_222_400_000, "X", "de", &months()), Some("2020/06 Juni/X/".to_string()));
}

#[test]
fn ownership_chain_walks_up_to_user_directory() {
    let (dirs, reached) = ownership_chain("/home/u/2020/05 Mai/Camera/", "/home/u");
    assert!(reached);
    assert_eq!(
        dirs,
        vec![
            "/home/u/2020/05 Mai/Camera/".to_string(),
            "/home/u/2020/05 Mai/".to_string(),
            "/home/u/2020/".to_string(),
            "/home/u/".to_string(),
        ]
    );
}

#[test]
fn ownership_chain_of_user_directory_itself() {
    let (dirs, reached) = ownership_chain("/home/u", "/home/u/");
    assert!(reached);
    assert_eq!(dirs, vec!["/home/u/".to_string()]);
}

#[test]
fn ownership_chain_stops_at_relative_top() {
    let (dirs, reached) = ownership_chain("a/b/", "");
    assert!(!reached);
    assert_eq!(dirs, vec!["a/b/".to_string(), "a/".to_string()]);
}

#[test]
fn gen_keeps_path() {
    assert_eq!(Gen::new("/tmp/x".to_string()).path, "/tmp/x");
}

#[test]
fn upload_is_dated_by_its_own_time() {
    // 15 January 2021, noon UTC, and 15 July 2021, noon UTC.
    let jan = build_path_date(1_610_712_000_000, "X", "de", &months()).unwrap();
    let jul = build_path_date(1_626_350_400_000, "X", "de", &months()).unwrap();
    assert!(jan.starts_with("2021/01 "));
    assert!(jul.starts_with("2021/07 "));
}
