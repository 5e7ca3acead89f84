use picture_vault::config::Config;
use picture_vault::database::SqlParam;
use picture_vault::geocode::{
    answer_events_of, decode_text, geocode_start, geocode_step, is_zero_coordinate, GeoAction,
    GeoEvent, GeoPhase, GeoSlot, XmlEvent,
};

fn kind(a: &GeoAction) -> String {
    match a {
        GeoAction::GetPool(GeoSlot::Location) => "pool location".to_string(),
        GeoAction::GetPool(GeoSlot::Place) => "pool place".to_string(),
        GeoAction::Prepare(_, q) => format!("prepare {}", q),
        GeoAction::Execute(_, p) => match p.get(1) {
            Some(SqlParam::Text(t)) => format!("execute place {}", t),
            Some(SqlParam::Unsigned(id)) => format!("execute mark {}", id),
            _ => "execute location".to_string(),
        },
        GeoAction::NextRow => "row".to_string(),
        GeoAction::Fetch(a, b) => format!("fetch {} {}", f64::from_bits(*a), f64::from_bits(*b)),
        GeoAction::NextXml => "xml".to_string(),
        GeoAction::Decode => "decode".to_string(),
        GeoAction::Finish(Ok(v)) => format!("ok {}", v),
        GeoAction::Finish(Err(e)) => format!("err {}", e),
    }
}

fn run(events: Vec<GeoEvent>) -> Vec<String> {
    let c = Config::from_lines(&vec![Some("db_name=vault".to_string())]);
    let (mut state, action) = geocode_start();
    let mut out = vec![kind(&action)];
    for e in events {
        let (s, a) = geocode_step(&c, 12, state, e);
        state = s;
        out.push(kind(&a));
    }
    out
}

fn coords(lat: f64, long: f64) -> GeoEvent {
    GeoEvent::Row(Some(Some((lat.to_bits(), long.to_bits()))))
}

#[test]
fn lookup_stores_place_texts_and_marks_file() {
    let out = run(vec![
        GeoEvent::Step(true),
        GeoEvent::Step(true),
        GeoEvent::Step(true),
        coords(48.1, 11.5),
        GeoEvent::Step(true),
        GeoEvent::Xml(XmlEvent::Start(b"road".to_vec())),
        GeoEvent::Xml(XmlEvent::Text),
        GeoEvent::Xml(XmlEvent::Start(b"city".to_vec())),
        GeoEvent::Xml(XmlEvent::Text),
        GeoEvent::Step(true),
        GeoEvent::Step(true),
        GeoEvent::Decoded(Some("Munich".to_string())),
        GeoEvent::Step(true),
        GeoEvent::Xml(XmlEvent::Other),
        GeoEvent::Xml(XmlEvent::Eof),
        GeoEvent::Step(true),
        GeoEvent::Step(true),
        GeoEvent::Row(None),
    ]);
    assert_eq!(
        out,
        vec![
            "pool location",
            "prepare SELECT latitude, longitude FROM vault.Media WHERE id = ?;",
            "execute location",
            "row",
            "fetch 48.1 11.5",
            "xml",
            "xml",
            "xml",
            "xml",
            "pool place",
            "prepare INSERT IGNORE INTO vault.Places (picture, place) VALUES (?, ?);",
            "decode",
            "execute place Munich",
            "xml",
            "xml",
            "prepare UPDATE vault.Media SET doneCoding = ? WHERE id = ?;",
            "execute mark 12",
            "row",
            "ok 0",
        ]
        .into_iter()
        .map(|s| s.to_string())
        .collect::<Vec<_>>()
    );
}

#[test]
fn zero_and_unreadable_rows_are_skipped() {
    let out = run(vec![
        GeoEvent::Step(true),
        GeoEvent::Step(true),
        GeoEvent::Step(true),
        coords(0.0, 11.5),
        coords(48.0, -0.0),
        GeoEvent::Row(Some(None)),
        GeoEvent::Row(None),
    ]);
    assert_eq!(out[4..].to_vec(), vec!["row", "row", "row", "ok 0"]);
}

#[test]
fn lookup_failures() {
    assert_eq!(run(vec![GeoEvent::Step(false)]).last().unwrap(), "err -1");
    assert_eq!(run(vec![GeoEvent::Step(true), GeoEvent::Step(false)]).last().unwrap(), "err -2");
    assert_eq!(run(vec![GeoEvent::Step(true), GeoEvent::Step(true), GeoEvent::Step(false)]).last().unwrap(), "err -4");
    let fetch_failed = run(vec![
        GeoEvent::Step(true),
        GeoEvent::Step(true),
        GeoEvent::Step(true),
        coords(1.0, 2.0),
        GeoEvent::Step(false),
    ]);
    assert_eq!(fetch_failed.last().unwrap(), "err -7");
}

#[test]
fn failed_place_prepare_keeps_waiting_for_text() {
    let c = Config::from_lines(&vec![Some("db_name=vault".to_string())]);
    let (s, _) = geocode_step(&c, 1, picture_vault::geocode::GeoState { phase: GeoPhase::PlacePrepare, found: true }, GeoEvent::Step(false));
    assert!(s.phase == GeoPhase::Xml && s.found);
}

#[test]
fn failed_mark_prepare_goes_to_next_row() {
    let c = Config::from_lines(&vec![Some("db_name=vault".to_string())]);
    let (s, a) = geocode_step(&c, 1, picture_vault::geocode::GeoState { phase: GeoPhase::MarkPrepare, found: false }, GeoEvent::Step(false));
    assert!(s.phase == GeoPhase::Rows);
    assert_eq!(kind(&a), "row");
}

#[test]
fn zero_coordinates() {
    assert!(is_zero_coordinate(0.0f64.to_bits()));
    assert!(is_zero_coordinate((-0.0f64).to_bits()));
    assert!(!is_zero_coordinate(1e-300f64.to_bits()));
}

fn describe_event(e: &XmlEvent) -> String {
    match e {
        XmlEvent::Start(n) => format!("start {}", String::from_utf8_lossy(n)),
        XmlEvent::Text => "text".to_string(),
        XmlEvent::Eof => "eof".to_string(),
        XmlEvent::Other => "other".to_string(),
    }
}

#[test]
fn answer_events_are_read_in_order() {
    let answer = "<reversegeocode>\n  <addressparts>\n    <city>Caf&#233; &amp; Bar</city>\n  </addressparts>\n</reversegeocode>";
    let mut kinds = Vec::new();
    let mut texts = Vec::new();
    for (e, raw) in answer_events_of(answer) {
        kinds.push(describe_event(&e));
        if let Some(r) = raw {
            texts.push(r);
        }
    }
    assert_eq!(
        kinds,
        vec!["start reversegeocode", "start addressparts", "start city", "text", "other", "other", "other", "eof"]
    );
    assert_eq!(texts.len(), 1);
    assert_eq!(decode_text(texts[0].clone()), Some("Caf\u{e9} & Bar".to_string()));
}

#[test]
fn text_decoding_failures() {
    assert_eq!(decode_text(b"a &bogus; b".to_vec()), None);
    assert_eq!(decode_text(vec![0xff, 0xfe]), None);
    assert_eq!(decode_text(b"plain".to_vec()), Some("plain".to_string()));
}

#[test]
fn broken_answer_still_ends() {
    let events = answer_events_of("<city>Bonn</town><x");
    assert!(matches!(events.last(), Some((XmlEvent::Eof, None))));
    assert!(matches!(&events[0], (XmlEvent::Start(n), None) if n == b"city"));
}

#[test]
fn lookup_stores_the_place_texts_of_an_answer() {
    let answer = "<reversegeocode><addressparts><road>Main</road><city>Bonn</city><state>NRW</state><country>Germany</country></addressparts></reversegeocode>";
    let c = Config::from_lines(&vec![Some("db_name=vault".to_string())]);
    let (mut state, _) = geocode_start();
    let mut stored = Vec::new();
    for _ in 0..3 {
        state = geocode_step(&c, 1, state, GeoEvent::Step(true)).0;
    }
    state = geocode_step(&c, 1, state, coords(50.7, 7.1)).0;
    let (s, _) = geocode_step(&c, 1, state, GeoEvent::Step(true));
    state = s;
    let mut events: std::collections::VecDeque<_> = answer_events_of(answer).into_iter().collect();
    let mut raw: Option<Vec<u8>> = None;
    let mut action = GeoAction::NextXml;
    loop {
        let event = match action {
            GeoAction::NextXml => {
                let (e, r) = events.pop_front().unwrap();
                raw = r;
                GeoEvent::Xml(e)
            }
            GeoAction::Decode => GeoEvent::Decoded(raw.take().and_then(decode_text)),
            GeoAction::Execute(GeoSlot::Place, ref p) => {
                if let SqlParam::Text(t) = &p[1] {
                    stored.push(t.clone());
                }
                GeoEvent::Step(true)
            }
            GeoAction::GetPool(_) | GeoAction::Prepare(_, _) => GeoEvent::Step(true),
            _ => break,
        };
        let next = geocode_step(&c, 1, state, event);
        state = next.0;
        action = next.1;
    }
    assert_eq!(stored, vec!["Bonn".to_string(), "NRW".to_string(), "Germany".to_string()]);
}
