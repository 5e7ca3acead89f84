use picture_vault::config::Config;
use picture_vault::database::SqlParam;
use picture_vault::ingest::{
    add_media_start, add_media_step, insert_params, lookup_result, AddAction, AddEvent, AddPhase, NewMedia,
};

fn config() -> Config {
    Config::from_lines(&vec![Some("db_name=vault".to_string())])
}

fn new_media() -> NewMedia {
    NewMedia {
        path: "/home/u/2020/06 Juni/Camera/".to_string(),
        filename: "a.jpg".to_string(),
        bucket: "Camera".to_string(),
        created: 1,
        modified: 2,
        latitude_bits: 1.5f64.to_bits(),
        longitude_bits: 2.5f64.to_bits(),
        h_res: 640,
        v_res: 480,
        duration: -1,
        size: 99,
        uid: 3,
    }
}

fn kind(a: &AddAction) -> String {
    match a {
        AddAction::GetPool => "pool".to_string(),
        AddAction::Prepare(q) => format!("prepare {}", q),
        AddAction::FindLibrary(s) => format!("find library {}", s.statements[0].query.clone().unwrap()),
        AddAction::AddLibrary(s) => format!("add library {}", s.statements[0].query.clone().unwrap()),
        AddAction::Insert(p) => match p[8] {
            SqlParam::Unsigned(l) => format!("insert library {}", l),
            _ => "insert ?".to_string(),
        },
        AddAction::FindId(s) => format!("find id {}", s.statements[0].query.clone().unwrap()),
        AddAction::Finish(Ok(id)) => format!("ok {}", id),
        AddAction::Finish(Err(e)) => format!("err {}", e),
    }
}

fn run(events: Vec<AddEvent>) -> Vec<String> {
    let c = config();
    let m = new_media();
    let (mut state, action) = add_media_start();
    let mut out = vec![kind(&action)];
    for e in events {
        let (s, a) = add_media_step(&c, &m, state, e);
        state = s;
        out.push(kind(&a));
    }
    out
}

#[test]
fn recording_in_known_library() {
    let out = run(vec![
        AddEvent::Step(true),
        AddEvent::Step(true),
        AddEvent::Found(Ok(5)),
        AddEvent::Step(true),
        AddEvent::Found(Ok(77)),
    ]);
    assert_eq!(out[0], "pool");
    assert!(out[1].starts_with("prepare INSERT IGNORE INTO vault.Media"));
    assert_eq!(out[2], "find library SELECT id FROM vault.Library WHERE name = ?;");
    assert_eq!(out[3], "insert library 5");
    assert_eq!(out[4], "find id SELECT id FROM vault.Media WHERE path = ? AND filename = ?;");
    assert_eq!(out[5], "ok 77");
}

#[test]
fn recording_adds_missing_library() {
    let out = run(vec![
        AddEvent::Step(true),
        AddEvent::Step(true),
        AddEvent::Found(Err(-5)),
        AddEvent::Added(Ok(0)),
        AddEvent::Found(Ok(9)),
        AddEvent::Step(true),
        AddEvent::Found(Err(-5)),
    ]);
    assert_eq!(out[3], "add library INSERT IGNORE INTO vault.Library (name) VALUES (?);");
    assert_eq!(out[4], "find library SELECT id FROM vault.Library WHERE name = ?;");
    assert_eq!(out[5], "insert library 9");
    assert_eq!(out[7], "err -5");
}

#[test]
fn recording_failures() {
    assert_eq!(run(vec![AddEvent::Step(false)]).last().unwrap(), "err -1");
    assert_eq!(run(vec![AddEvent::Step(true), AddEvent::Step(false)]).last().unwrap(), "err -2");
    let out = run(vec![AddEvent::Step(true), AddEvent::Step(true), AddEvent::Found(Err(-4)), AddEvent::Added(Err(-4))]);
    assert_eq!(out.last().unwrap(), "err -5");
    let out = run(vec![
        AddEvent::Step(true),
        AddEvent::Step(true),
        AddEvent::Found(Err(-5)),
        AddEvent::Added(Ok(0)),
        AddEvent::Found(Err(-5)),
    ]);
    assert_eq!(out.last().unwrap(), "err -5");
    let out = run(vec![AddEvent::Step(true), AddEvent::Step(true), AddEvent::Found(Ok(1)), AddEvent::Step(false)]);
    assert_eq!(out.last().unwrap(), "err -4");
}

#[test]
fn recording_without_database_name() {
    let c = Config::new();
    let m = new_media();
    let (state, _) = add_media_start();
    let (s, a) = add_media_step(&c, &m, state, AddEvent::Step(true));
    assert!(s.phase == AddPhase::Done);
    assert_eq!(kind(&a), "err -3");
}

#[test]
fn insert_values_in_column_order() {
    let p = insert_params(&new_media(), 4);
    assert_eq!(p.len(), 12);
    assert!(matches!(&p[0], SqlParam::Text(t) if t == "/home/u/2020/06 Juni/Camera/"));
    assert!(matches!(&p[1], SqlParam::Text(t) if t == "a.jpg"));
    assert!(matches!(p[4], SqlParam::FloatBits(b) if f64::from_bits(b) == 1.5));
    assert!(matches!(p[8], SqlParam::Unsigned(4)));
    assert!(matches!(p[9], SqlParam::Signed(-1)));
    assert!(matches!(p[10], SqlParam::Unsigned(3)));
    assert!(matches!(p[11], SqlParam::Unsigned(99)));
}

#[test]
fn lookup_results() {
    assert_eq!(lookup_result(Err(-2), vec![Some(1)]), Err(-2));
    assert_eq!(lookup_result(Ok(0), vec![None, Some(8)]), Ok(8));
    assert_eq!(lookup_result(Ok(0), vec![]), Err(-5));
}
