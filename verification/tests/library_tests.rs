use picture_vault::library::{get_libs, join_lists, samples_from_rows, select_samples, LibraryEntry, SampleChoice};

fn entry(id: u64, name: &str) -> LibraryEntry {
    LibraryEntry { id, name: name.to_string(), count: id * 10, samples: (id, 0, 0, 0) }
}

fn names(v: &[LibraryEntry]) -> Vec<String> {
    v.iter().map(|e| e.name.clone()).collect()
}

#[test]
fn join_lists_puts_matches_in_front_last_first() {
    let mut list = vec![entry(1, "Holiday")];
    let list2 = vec![entry(2, "Camera"), entry(3, "Instagram"), entry(4, "Camera")];
    join_lists(&mut list, &list2, "Camera");
    let ids: Vec<u64> = list.iter().map(|e| e.id).collect();
    assert_eq!(ids, vec![4, 2, 1]);
}

#[test]
fn join_lists_without_match_changes_nothing() {
    let mut list = vec![entry(1, "Holiday")];
    join_lists(&mut list, &vec![entry(2, "Camera")], "Kamera");
    assert_eq!(names(&list), vec!["Holiday".to_string()]);
}

#[test]
fn get_libs_lists_special_libraries_first() {
    let entries = vec![
        Some(entry(1, "Holiday")),
        Some(entry(2, "Instagram")),
        Some(entry(3, "Birthday")),
        Some(entry(4, "Camera")),
        Some(entry(5, "PhotoDirector")),
        Some(entry(6, "Kamera")),
    ];
    let libs = get_libs(entries).unwrap();
    assert_eq!(
        names(&libs),
        vec!["Kamera", "Camera", "Instagram", "PhotoDirector", "Holiday", "Birthday"]
            .into_iter()
            .map(|s| s.to_string())
            .collect::<Vec<_>>()
    );
}

#[test]
fn get_libs_is_a_permutation() {
    let entries = vec![Some(entry(1, "A")), Some(entry(2, "WhatsApp Images")), Some(entry(3, "B"))];
    let libs = get_libs(entries).unwrap();
    let mut ids: Vec<u64> = libs.iter().map(|e| e.id).collect();
    assert_eq!(ids, vec![2, 1, 3]);
    ids.sort();
    assert_eq!(ids, vec![1, 2, 3]);
}

#[test]
fn get_libs_fails_on_unreadable_entry() {
    assert!(matches!(get_libs(vec![Some(entry(1, "A")), None]), Err(-5)));
}

fn choice(even: bool, offset: usize, picks: (usize, usize, usize, usize)) -> SampleChoice {
    SampleChoice { even_time: even, offset, picks }
}

#[test]
fn select_samples_small_lists() {
    let c = choice(true, 0, (0, 0, 0, 0));
    assert_eq!(select_samples(&vec![], &c), Err(-5));
    assert_eq!(select_samples(&vec![7], &c), Ok((7, 0, 0, 0)));
    assert_eq!(select_samples(&vec![7, 8], &c), Ok((7, 8, 0, 0)));
    assert_eq!(select_samples(&vec![7, 8, 9], &c), Ok((7, 8, 9, 0)));
    assert_eq!(select_samples(&vec![7, 8, 9, 10], &c), Ok((7, 8, 9, 10)));
}

#[test]
fn select_samples_five_by_clock() {
    let ids = vec![1, 2, 3, 4, 5];
    assert_eq!(select_samples(&ids, &choice(true, 0, (0, 0, 0, 0))), Ok((1, 2, 3, 4)));
    assert_eq!(select_samples(&ids, &choice(false, 0, (0, 0, 0, 0))), Ok((1, 2, 3, 5)));
}

#[test]
fn select_samples_window_and_quarters() {
    let six = vec![1, 2, 3, 4, 5, 6];
    assert_eq!(select_samples(&six, &choice(true, 2, (0, 0, 0, 0))), Ok((3, 4, 5, 6)));
    let eight: Vec<u64> = (10..18).collect();
    assert_eq!(select_samples(&eight, &choice(true, 0, (0, 2, 4, 6))), Ok((10, 12, 14, 16)));
}

#[test]
fn samples_from_rows_of_few_media_are_fixed() {
    assert_eq!(samples_from_rows(vec![]), Err(-5));
    assert_eq!(samples_from_rows(vec![Some(3), None, Some(4)]), Ok((3, 4, 0, 0)));
}

#[test]
fn samples_from_rows_of_many_media_come_from_the_list_in_quarters() {
    let rows: Vec<Option<u64>> = (100..120).map(Some).collect();
    let (a, b, c, d) = samples_from_rows(rows).unwrap();
    assert!(a < b && b < c && c < d);
    assert!(a >= 100 && d < 120);
    assert!(a < 104 && b >= 105 && b < 109 && c >= 110 && c < 114 && d >= 115 && d < 119);
}

#[test]
fn samples_from_rows_of_seven_media_are_a_window() {
    let rows: Vec<Option<u64>> = (1..8).map(Some).collect();
    let (a, b, c, d) = samples_from_rows(rows).unwrap();
    assert!(a >= 1 && a <= 4);
    assert_eq!((b, c, d), (a + 1, a + 2, a + 3));
}
