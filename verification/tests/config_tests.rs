use picture_vault::config::Config;

fn lines(ls: &[&str]) -> Vec<Option<String>> {
    ls.iter().map(|l| Some(l.to_string())).collect()
}

fn sample_config() -> Config {
    Config::from_lines(&lines(&[
        "db_name=pictures",
        "test1=test10",
        "test2=test11",
        "port=8080",
        "bad_port=eighty",
        "not a setting",
    ]))
}

#[test]
fn get_string_test() {
    let config = sample_config();
    assert_eq!(config.get_string("test2").unwrap(), "test11");
}

#[test]
fn get_string_missing_key_is_minus_two() {
    let config = sample_config();
    assert_eq!(config.get_string("nothing"), Err(-2));
}

#[test]
fn get_int_reads_numbers() {
    let config = sample_config();
    assert_eq!(config.get_int("port"), Ok(8080));
}

#[test]
fn get_int_errors() {
    let config = sample_config();
    assert_eq!(config.get_int("nothing"), Err(-2));
    assert_eq!(config.get_int("bad_port"), Err(-3));
}

#[test]
fn get_int_negative_and_out_of_range() {
    let config = Config::from_lines(&lines(&["a=-42", "b=2147483648", "c=-2147483648"]));
    assert_eq!(config.get_int("a"), Ok(-42));
    assert_eq!(config.get_int("b"), Err(-3));
    assert_eq!(config.get_int("c"), Ok(-2147483648));
}

#[test]
fn later_line_wins_on_concrete_lines() {
    let config = Config::from_lines(&lines(&["key=first", "key=second"]));
    assert_eq!(config.get_string("key").unwrap(), "second");
}

#[test]
fn value_stops_at_second_equals_sign() {
    let config = Config::from_lines(&lines(&["key=a=b", "empty="]));
    assert_eq!(config.get_string("key").unwrap(), "a");
    assert_eq!(config.get_string("empty").unwrap(), "");
}

#[test]
fn unreadable_lines_and_lines_without_equals_are_skipped() {
    let mut ls = lines(&["key=value", "no equals here"]);
    ls.push(None);
    let config = Config::from_lines(&ls);
    assert_eq!(config.get("key"), Some("value".to_string()));
    assert_eq!(config.get("no equals here"), None);
}

#[test]
fn insert_replaces_value() {
    let mut config = Config::new();
    config.insert("k".to_string(), "1".to_string());
    config.insert("k".to_string(), "2".to_string());
    assert_eq!(config.get("k"), Some("2".to_string()));
}
