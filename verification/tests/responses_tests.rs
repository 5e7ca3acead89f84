use picture_vault::responses::bad_login_message;
use picture_vault::library::LibraryEntry;
use picture_vault::responses::{
    bad_login_text, format_libraries, format_media_list, gone_text, internal_error_log, url_not_found_text,
};

#[test]
fn libraries_listing() {
    let libs = vec![
        LibraryEntry { id: 1, name: "Camera".to_string(), count: 3, samples: (5, 6, 0, 0) },
        LibraryEntry { id: 2, name: "Holiday".to_string(), count: 0, samples: (0, 0, 0, 0) },
    ];
    assert_eq!(format_libraries(&libs), "1;Camera;3;5;6\n2;Holiday;0");
    assert_eq!(format_libraries(&vec![]), "");
}

#[test]
fn media_listing() {
    let items = vec![(7u64, "a.jpg".to_string(), -1i64, 100u64), (8, "b.mp4".to_string(), 3000, 5)];
    assert_eq!(format_media_list(&items), "7;a.jpg;-1;100\n8;b.mp4;3000;5");
}

#[test]
fn response_texts() {
    assert_eq!(internal_error_log("boom"), "Internal server error: boom");
    assert_eq!(gone_text(), "Object not found, it is probably gone");
    assert_eq!(bad_login_text(), "Bad login");
    assert_eq!(url_not_found_text(), "URL not found");
}

#[test]
fn bad_login_message_names_what_was_given() {
    assert_eq!(bad_login_message("u", "p", "/x"), "Bad Login: u with password: p and URL: /x");
}
