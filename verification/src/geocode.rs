//! Looking up the places of a media file: its coordinates are read from the
//! database, a reverse-geocoding service is asked about each usable pair, the text
//! of each place element of the answer is stored, and the file is marked as done.
//! The decisions are made here; the caller performs each action and reports back.
use vstd::prelude::*;
use crate::config::Config;
use crate::database::{built_query, params_view, ParamView, SqlParam};
use crate::maintenance::{is_place_element, is_place_tag};
use crate::queries::{INSERT_PLACE, MARK_MEDIA_CODED, SELECT_MEDIA_LOCATION};
use vstd::utf8::{decode_utf8, valid_utf8};
use quick_xml::events::Event;

verus! {

/// The two statements of a lookup: the one on the pool of the coordinate query
/// (also used to mark the file as done) and the one that stores a place.
#[derive(PartialEq, Eq, Structural, Clone, Copy)]
pub enum GeoSlot {
    Location,
    Place,
}

/// An event of the answer's XML, as far as the lookup cares.
pub enum XmlEvent {
    /// An element opens, with this name.
    Start(Vec<u8>),
    /// Text.
    Text,
    /// The end of the answer.
    Eof,
    /// Anything else, including a reading error.
    Other,
}

/// What the caller reports after an action.
pub enum GeoEvent {
    /// Whether fetching a pool, preparing, executing or fetching the answer succeeded.
    Step(bool),
    /// The next row of the coordinate query: `None` when there are no more rows,
    /// `Some(None)` for a row that could not be read, else the bits of latitude and
    /// longitude.
    Row(Option<Option<(u64, u64)>>),
    /// The next event of the answer.
    Xml(XmlEvent),
    /// The decoded text of the current text event, `None` when it does not decode.
    Decoded(Option<String>),
}

/// What the caller does next.
pub enum GeoAction {
    /// Fetch a pool for the statement in this slot.
    GetPool(GeoSlot),
    /// Prepare this query in this slot.
    Prepare(GeoSlot, String),
    /// Execute the statement in this slot with these values.
    Execute(GeoSlot, Vec<SqlParam>),
    /// Report the next row of the coordinate query.
    NextRow,
    /// Ask the service about these coordinates (bits of latitude and longitude) and
    /// report whether an answer came.
    Fetch(u64, u64),
    /// Report the next event of the answer.
    NextXml,
    /// Decode the current text event.
    Decode,
    /// Stop with this result.
    Finish(Result<u8, i8>),
}

/// Where a lookup stands.
#[derive(PartialEq, Eq, Structural, Clone, Copy)]
pub enum GeoPhase {
    LocationPool,
    LocationPrepare,
    LocationExecute,
    Rows,
    Fetch,
    Xml,
    PlacePool,
    PlacePrepare,
    Decode,
    PlaceExecute,
    MarkPrepare,
    MarkExecute,
    Done,
}

/// The state of a lookup: its phase and whether a place element has opened whose
/// text has not been stored yet.
#[derive(PartialEq, Eq, Structural, Clone, Copy)]
pub struct GeoState {
    pub phase: GeoPhase,
    pub found: bool,
}

pub enum XmlView {
    Start(Seq<u8>),
    Text,
    Eof,
    Other,
}

pub enum GeoEventView {
    Step(bool),
    Row(Option<Option<(u64, u64)>>),
    Xml(XmlView),
    Decoded(Option<Seq<char>>),
}

pub enum GeoActionView {
    GetPool(GeoSlot),
    Prepare(GeoSlot, Seq<char>),
    Execute(GeoSlot, Seq<ParamView>),
    NextRow,
    Fetch(u64, u64),
    NextXml,
    Decode,
    Finish(Result<u8, i8>),
}

impl GeoEvent {
    pub open spec fn view(&self) -> GeoEventView {
        match self {
            GeoEvent::Step(b) => GeoEventView::Step(*b),
            GeoEvent::Row(r) => GeoEventView::Row(*r),
            GeoEvent::Xml(e) => GeoEventView::Xml(match e {
                XmlEvent::Start(n) => XmlView::Start(n@),
                XmlEvent::Text => XmlView::Text,
                XmlEvent::Eof => XmlView::Eof,
                XmlEvent::Other => XmlView::Other,
            }),
            GeoEvent::Decoded(d) => GeoEventView::Decoded(match d {
                Some(s) => Some(s@),
                None => None,
            }),
        }
    }
}

impl GeoAction {
    pub open spec fn view(&self) -> GeoActionView {
        match self {
            GeoAction::GetPool(s) => GeoActionView::GetPool(*s),
            GeoAction::Prepare(s, q) => GeoActionView::Prepare(*s, q@),
            GeoAction::Execute(s, p) => GeoActionView::Execute(*s, params_view(p@)),
            GeoAction::NextRow => GeoActionView::NextRow,
            GeoAction::Fetch(a, b) => GeoActionView::Fetch(*a, *b),
            GeoAction::NextXml => GeoActionView::NextXml,
            GeoAction::Decode => GeoActionView::Decode,
            GeoAction::Finish(r) => GeoActionView::Finish(*r),
        }
    }
}

/// The bits of an `f64` that equals `0.0` (positive or negative zero).
pub open spec fn zero_bits(b: u64) -> bool {
    b == 0 || b == 0x8000_0000_0000_0000
}

/// Whether a coordinate, given by its bits, equals `0.0`.
pub fn is_zero_coordinate(b: u64) -> (r: bool)
    ensures
        r == zero_bits(b),
{
    b == 0 || b == 0x8000_0000_0000_0000
}

/// The event that a phase waits for.
pub open spec fn geo_event_fits(phase: GeoPhase, e: GeoEventView) -> bool {
    match phase {
        GeoPhase::Rows => e is Row,
        GeoPhase::Xml => e is Xml,
        GeoPhase::Decode => e is Decoded,
        GeoPhase::Done => false,
        _ => e is Step,
    }
}

/// The state `s` in phase `p`.
pub open spec fn at(s: GeoState, p: GeoPhase) -> GeoState {
    GeoState { phase: p, ..s }
}

/// The action that asks for the next row.
pub open spec fn next_row(s: GeoState) -> (GeoState, GeoActionView) {
    (at(s, GeoPhase::Rows), GeoActionView::NextRow)
}

/// Stopping with `r`.
pub open spec fn stop(s: GeoState, r: Result<u8, i8>) -> (GeoState, GeoActionView) {
    (at(s, GeoPhase::Done), GeoActionView::Finish(r))
}

/// The next state and action of the lookup for media `id` under `config`, after
/// event `e` in state `s`.
pub open spec fn geo_next(config: Map<Seq<char>, Seq<char>>, id: u64, s: GeoState, e: GeoEventView) -> (GeoState, GeoActionView) {
    match (s.phase, e) {
        (GeoPhase::LocationPool, GeoEventView::Step(ok)) => if !ok {
            stop(s, Err(-1i8))
        } else {
            match built_query(config, SELECT_MEDIA_LOCATION@) {
                None => stop(s, Err(-1i8)),
                Some(q) => (at(s, GeoPhase::LocationPrepare), GeoActionView::Prepare(GeoSlot::Location, q)),
            }
        },
        (GeoPhase::LocationPrepare, GeoEventView::Step(ok)) => if !ok {
            stop(s, Err(-2i8))
        } else {
            (at(s, GeoPhase::LocationExecute), GeoActionView::Execute(GeoSlot::Location, seq![ParamView::Unsigned(id)]))
        },
        (GeoPhase::LocationExecute, GeoEventView::Step(ok)) => if !ok {
            stop(s, Err(-4i8))
        } else {
            next_row(s)
        },
        (GeoPhase::Rows, GeoEventView::Row(r)) => match r {
            None => stop(s, Ok(0u8)),
            Some(None) => next_row(s),
            Some(Some(c)) => if zero_bits(c.0) || zero_bits(c.1) {
                next_row(s)
            } else {
                (at(s, GeoPhase::Fetch), GeoActionView::Fetch(c.0, c.1))
            },
        },
        (GeoPhase::Fetch, GeoEventView::Step(ok)) => if !ok {
            stop(s, Err(-7i8))
        } else {
            (GeoState { phase: GeoPhase::Xml, found: false }, GeoActionView::NextXml)
        },
        (GeoPhase::Xml, GeoEventView::Xml(x)) => match x {
            XmlView::Start(name) => (GeoState { phase: GeoPhase::Xml, found: s.found || is_place_tag(name) },
                GeoActionView::NextXml),
            XmlView::Text => if s.found {
                (at(s, GeoPhase::PlacePool), GeoActionView::GetPool(GeoSlot::Place))
            } else {
                (s, GeoActionView::NextXml)
            },
            XmlView::Eof => match built_query(config, MARK_MEDIA_CODED@) {
                None => stop(s, Err(-1i8)),
                Some(q) => (at(s, GeoPhase::MarkPrepare), GeoActionView::Prepare(GeoSlot::Location, q)),
            },
            XmlView::Other => (s, GeoActionView::NextXml),
        },
        (GeoPhase::PlacePool, GeoEventView::Step(ok)) => if !ok {
            stop(s, Err(-1i8))
        } else {
            match built_query(config, INSERT_PLACE@) {
                None => stop(s, Err(-1i8)),
                Some(q) => (at(s, GeoPhase::PlacePrepare), GeoActionView::Prepare(GeoSlot::Place, q)),
            }
        },
        (GeoPhase::PlacePrepare, GeoEventView::Step(ok)) => if !ok {
            (at(s, GeoPhase::Xml), GeoActionView::NextXml)
        } else {
            (at(s, GeoPhase::Decode), GeoActionView::Decode)
        },
        (GeoPhase::Decode, GeoEventView::Decoded(d)) => match d {
            None => stop(s, Err(-7i8)),
            Some(place) => (at(s, GeoPhase::PlaceExecute),
                GeoActionView::Execute(GeoSlot::Place, seq![ParamView::Unsigned(id), ParamView::Text(place)])),
        },
        (GeoPhase::PlaceExecute, GeoEventView::Step(ok)) => if !ok {
            stop(s, Err(-4i8))
        } else {
            (GeoState { phase: GeoPhase::Xml, found: false }, GeoActionView::NextXml)
        },
        (GeoPhase::MarkPrepare, GeoEventView::Step(ok)) => if !ok {
            next_row(s)
        } else {
            (at(s, GeoPhase::MarkExecute),
                GeoActionView::Execute(GeoSlot::Location, seq![ParamView::Flag(true), ParamView::Unsigned(id)]))
        },
        (GeoPhase::MarkExecute, GeoEventView::Step(ok)) => if !ok {
            stop(s, Err(-4i8))
        } else {
            next_row(s)
        },
        _ => stop(s, Err(-1i8)),
    }
}

/// The first state and action of a lookup: fetch the pool of the coordinate query.
pub fn geocode_start() -> (r: (GeoState, GeoAction))
    ensures
        r.0 == (GeoState { phase: GeoPhase::LocationPool, found: false }),
        r.1@ == GeoActionView::GetPool(GeoSlot::Location),
{
    (GeoState { phase: GeoPhase::LocationPool, found: false }, GeoAction::GetPool(GeoSlot::Location))
}

fn query_action(config: &Config, query: &str, next: GeoState, slot: GeoSlot, done: GeoState) -> (r: (GeoState, GeoAction))
    ensures
        match built_query(config@, query@) {
            None => r.0 == done && r.1@ == GeoActionView::Finish(Err(-1i8)),
            Some(q) => r.0 == next && r.1@ == GeoActionView::Prepare(slot, q),
        },
{
    match crate::database::build_query(config, query) {
        Ok(q) => (next, GeoAction::Prepare(slot, q)),
        Err(_) => (done, GeoAction::Finish(Err(-1))),
    }
}

/// The next state and action of the lookup for media `id`, after `event` was
/// reported in `state`.
pub fn geocode_step(config: &Config, id: u64, state: GeoState, event: GeoEvent) -> (r: (GeoState, GeoAction))
    requires
        geo_event_fits(state.phase, event@),
    ensures
        r.0 == geo_next(config@, id, state, event@).0,
        r.1@ == geo_next(config@, id, state, event@).1,
{
    let done = GeoState { phase: GeoPhase::Done, found: state.found };
    let rows = GeoState { phase: GeoPhase::Rows, found: state.found };
    match event {
        GeoEvent::Step(ok) => {
            match state.phase {
                GeoPhase::LocationPool => {
                    if !ok {
                        (done, GeoAction::Finish(Err(-1)))
                    } else {
                        query_action(config, SELECT_MEDIA_LOCATION,
                            GeoState { phase: GeoPhase::LocationPrepare, found: state.found }, GeoSlot::Location, done)
                    }
                },
                GeoPhase::LocationPrepare => {
                    if !ok {
                        (done, GeoAction::Finish(Err(-2)))
                    } else {
                        let mut p: Vec<SqlParam> = Vec::new();
                        p.push(SqlParam::Unsigned(id));
                        assert(params_view(p@) =~= seq![ParamView::Unsigned(id)]);
                        (GeoState { phase: GeoPhase::LocationExecute, found: state.found }, GeoAction::Execute(GeoSlot::Location, p))
                    }
                },
                GeoPhase::LocationExecute => {
                    if !ok {
                        (done, GeoAction::Finish(Err(-4)))
                    } else {
                        (rows, GeoAction::NextRow)
                    }
                },
                GeoPhase::Fetch => {
                    if !ok {
                        (done, GeoAction::Finish(Err(-7)))
                    } else {
                        (GeoState { phase: GeoPhase::Xml, found: false }, GeoAction::NextXml)
                    }
                },
                GeoPhase::PlacePool => {
                    if !ok {
                        (done, GeoAction::Finish(Err(-1)))
                    } else {
                        query_action(config, INSERT_PLACE,
                            GeoState { phase: GeoPhase::PlacePrepare, found: state.found }, GeoSlot::Place, done)
                    }
                },
                GeoPhase::PlacePrepare => {
                    if !ok {
                        (GeoState { phase: GeoPhase::Xml, found: state.found }, GeoAction::NextXml)
                    } else {
                        (GeoState { phase: GeoPhase::Decode, found: state.found }, GeoAction::Decode)
                    }
                },
                GeoPhase::PlaceExecute => {
                    if !ok {
                        (done, GeoAction::Finish(Err(-4)))
                    } else {
                        (GeoState { phase: GeoPhase::Xml, found: false }, GeoAction::NextXml)
                    }
                },
                GeoPhase::MarkPrepare => {
                    if !ok {
                        (rows, GeoAction::NextRow)
                    } else {
                        let mut p: Vec<SqlParam> = Vec::new();
                        p.push(SqlParam::Flag(true));
                        p.push(SqlParam::Unsigned(id));
                        assert(params_view(p@) =~= seq![ParamView::Flag(true), ParamView::Unsigned(id)]);
                        (GeoState { phase: GeoPhase::MarkExecute, found: state.found }, GeoAction::Execute(GeoSlot::Location, p))
                    }
                },
                _ => {
                    if !ok {
                        (done, GeoAction::Finish(Err(-4)))
                    } else {
                        (rows, GeoAction::NextRow)
                    }
                },
            }
        },
        GeoEvent::Row(r) => match r {
            None => (done, GeoAction::Finish(Ok(0))),
            Some(None) => (rows, GeoAction::NextRow),
            Some(Some((lat, long))) => {
                if is_zero_coordinate(lat) || is_zero_coordinate(long) {
                    (rows, GeoAction::NextRow)
                } else {
                    (GeoState { phase: GeoPhase::Fetch, found: state.found }, GeoAction::Fetch(lat, long))
                }
            },
        },
        GeoEvent::Xml(x) => match x {
            XmlEvent::Start(name) => {
                let place = is_place_element(name.as_slice());
                (GeoState { phase: GeoPhase::Xml, found: state.found || place }, GeoAction::NextXml)
            },
            XmlEvent::Text => {
                if state.found {
                    (GeoState { phase: GeoPhase::PlacePool, found: state.found }, GeoAction::GetPool(GeoSlot::Place))
                } else {
                    (state, GeoAction::NextXml)
                }
            },
            XmlEvent::Eof => query_action(config, MARK_MEDIA_CODED,
                GeoState { phase: GeoPhase::MarkPrepare, found: state.found }, GeoSlot::Location, done),
            XmlEvent::Other => (state, GeoAction::NextXml),
        },
        GeoEvent::Decoded(d) => match d {
            None => (done, GeoAction::Finish(Err(-7))),
            Some(place) => {
                let ghost pv = place@;
                let mut p: Vec<SqlParam> = Vec::new();
                p.push(SqlParam::Unsigned(id));
                p.push(SqlParam::Text(place));
                assert(params_view(p@) =~= seq![ParamView::Unsigned(id), ParamView::Text(pv)]);
                (GeoState { phase: GeoPhase::PlaceExecute, found: state.found }, GeoAction::Execute(GeoSlot::Place, p))
            },
        },
    }
}

} // verus!

verus! {

/// Only the text of a place element is stored: text read while no place element is
/// open is skipped, text after a place element opens leads to storing it, and once
/// it is stored the next text is skipped again until another place element opens.
pub proof fn law_only_place_text_is_stored(config: Map<Seq<char>, Seq<char>>, id: u64, s: GeoState, name: Seq<u8>)
    requires
        s.phase == GeoPhase::Xml,
    ensures
        !s.found ==> geo_next(config, id, s, GeoEventView::Xml(XmlView::Text)) == (s, GeoActionView::NextXml),
        is_place_tag(name) ==> ({
            let opened = geo_next(config, id, s, GeoEventView::Xml(XmlView::Start(name))).0;
            &&& opened.found
            &&& geo_next(config, id, opened, GeoEventView::Xml(XmlView::Text)).1 == GeoActionView::GetPool(GeoSlot::Place)
        }),
        !geo_next(config, id, GeoState { phase: GeoPhase::PlaceExecute, found: true }, GeoEventView::Step(true)).0.found,
{
}

/// A lookup succeeds only after the last row of the coordinate query: every other
/// way to finish reports an error.
pub proof fn law_success_only_after_last_row(config: Map<Seq<char>, Seq<char>>, id: u64, s: GeoState, e: GeoEventView)
    requires
        geo_event_fits(s.phase, e),
        geo_next(config, id, s, e).1 == GeoActionView::Finish(Ok(0u8)),
    ensures
        s.phase == GeoPhase::Rows,
        e == GeoEventView::Row(None),
{
}

} // verus!

verus! {

/// What reading one event of an answer gives, by kind: the name of an opening
/// element, the raw bytes of a text, the end, another event, or a reading error.
pub enum XmlRead {
    Start(Vec<u8>),
    Text(Vec<u8>),
    Eof,
    Other,
    Error,
}

/// The events of the answer `text`, up to and including the end, as quick-xml
/// reads them with white space around texts dropped. Each event is a kind (`0`
/// an opening element, `1` a text, `2` the end, `3` another event, `4` a reading
/// error) with its bytes (the element's name, the text's raw bytes, else empty).
pub uninterp spec fn answer_events(text: Seq<char>) -> Seq<(u8, Seq<u8>)>;

/// The kind and bytes of a read event, as [`answer_events`] gives them.
pub open spec fn read_code(x: XmlRead) -> (u8, Seq<u8>) {
    match x {
        XmlRead::Start(n) => (0u8, n@),
        XmlRead::Text(raw) => (1u8, raw@),
        XmlRead::Eof => (2u8, Seq::empty()),
        XmlRead::Other => (3u8, Seq::empty()),
        XmlRead::Error => (4u8, Seq::empty()),
    }
}

/// `quick_xml::reader::Reader::from_str(text)` with `trim_text(true)`, its
/// `read_event` called until it yields `Event::Eof`, each event told apart by
/// kind. The events depend on `text` alone (the reader reads from the slice and
/// its configuration) and are named `answer_events`; the XML rules are not
/// restated. quick-xml ends the reading after any error but an ill-formed one,
/// which consumes the faulty input, so the reading reaches the end.
#[verifier::external_body]
fn read_answer(text: &str) -> (r: Vec<XmlRead>)
    ensures
        r@.map_values(|x: XmlRead| read_code(x)) == answer_events(text@),
{
    let mut reader = quick_xml::reader::Reader::from_str(text);
    reader.config_mut().trim_text(true);
    let mut out: Vec<XmlRead> = Vec::new();
    loop {
        match reader.read_event() {
            Ok(Event::Start(e)) => out.push(XmlRead::Start(e.name().as_ref().to_vec())),
            Ok(Event::Text(t)) => out.push(XmlRead::Text(t.into_inner().into_owned())),
            Ok(Event::Eof) => {
                out.push(XmlRead::Eof);
                return out;
            },
            Ok(_) => out.push(XmlRead::Other),
            Err(_) => out.push(XmlRead::Error),
        }
    }
}

/// The text that `quick_xml::escape::unescape` makes of `raw`: every XML escape
/// (`&amp;`, `&lt;`, `&#38;`, ...) replaced by its character, or `None` when an
/// escape is malformed or unknown.
pub uninterp spec fn xml_unescaped(raw: Seq<char>) -> Option<Seq<char>>;

/// `quick_xml::escape::unescape(raw)`: the text with its XML escapes replaced, or
/// `None` on an error. The result depends on `raw` alone and is named
/// `xml_unescaped`; the escape rules are not restated.
#[verifier::external_body]
fn xml_unescape(raw: &str) -> (r: Option<String>)
    ensures
        match r {
            Some(s) => xml_unescaped(raw@) == Some(s@),
            None => xml_unescaped(raw@) is None,
        },
{
    quick_xml::escape::unescape(raw).ok().map(|c| c.into_owned())
}

/// An event of the answer with the raw bytes of a text, viewed.
pub open spec fn answer_pair_view(p: (XmlEvent, Option<Vec<u8>>)) -> (XmlView, Option<Seq<u8>>) {
    (
        match p.0 {
            XmlEvent::Start(n) => XmlView::Start(n@),
            XmlEvent::Text => XmlView::Text,
            XmlEvent::Eof => XmlView::Eof,
            XmlEvent::Other => XmlView::Other,
        },
        match p.1 {
            Some(raw) => Some(raw@),
            None => None,
        },
    )
}

/// The event of the answer that a coded event stands for, and the raw bytes of a
/// text: a reading error counts as an event of another kind.
pub open spec fn code_event(c: (u8, Seq<u8>)) -> (XmlView, Option<Seq<u8>>) {
    if c.0 == 0 {
        (XmlView::Start(c.1), None)
    } else if c.0 == 1 {
        (XmlView::Text, Some(c.1))
    } else if c.0 == 2 {
        (XmlView::Eof, None)
    } else {
        (XmlView::Other, None)
    }
}

/// The events of the answer `text` of the geocoding service, in order up to its
/// end, each text with its raw bytes.
pub fn answer_events_of(text: &str) -> (r: Vec<(XmlEvent, Option<Vec<u8>>)>)
    ensures
        r@.len() == answer_events(text@).len(),
        forall|i: int| 0 <= i < r@.len() ==> #[trigger] answer_pair_view(r@[i]) == code_event(answer_events(text@)[i]),
{
    let mut reads = read_answer(text);
    let ghost codes = reads@.map_values(|x: XmlRead| read_code(x));
    let n: usize = reads.len();
    let mut out: Vec<(XmlEvent, Option<Vec<u8>>)> = Vec::new();
    let mut k: usize = 0;
    while reads.len() > 0
        invariant
            codes == answer_events(text@),
            codes.len() == n,
            k + reads@.len() == n,
            out@.len() == k,
            forall|j: int| 0 <= j < reads@.len() ==> #[trigger] read_code(reads@[j]) == codes[k + j],
            forall|i: int| 0 <= i < k ==> #[trigger] answer_pair_view(out@[i]) == code_event(codes[i]),
        decreases reads.len(),
    {
        let ghost before = reads@;
        let read = reads.remove(0);
        proof {
            assert(read_code(read) == codes[k as int]);
            assert forall|j: int| 0 <= j < reads@.len() implies #[trigger] read_code(reads@[j]) == codes[k + 1 + j] by {
                assert(reads@[j] == before[j + 1]);
            }
        }
        let pair = match read {
            XmlRead::Start(name) => (XmlEvent::Start(name), None),
            XmlRead::Text(raw) => (XmlEvent::Text, Some(raw)),
            XmlRead::Eof => (XmlEvent::Eof, None),
            XmlRead::Other => (XmlEvent::Other, None),
            XmlRead::Error => (XmlEvent::Other, None),
        };
        assert(answer_pair_view(pair) == code_event(codes[k as int]));
        out.push(pair);
        k = k + 1;
    }
    out
}

/// The text of a text event: its bytes read as UTF-8 with the XML escapes
/// replaced; `None` when either step fails.
pub open spec fn decoded_text(raw: Seq<u8>) -> Option<Seq<char>> {
    if valid_utf8(raw) {
        xml_unescaped(decode_utf8(raw))
    } else {
        None
    }
}

/// The text of a text event with raw bytes `raw`.
pub fn decode_text(raw: Vec<u8>) -> (r: Option<String>)
    ensures
        match r {
            Some(s) => decoded_text(raw@) == Some(s@),
            None => decoded_text(raw@) is None,
        },
{
    match crate::auth::utf8_text(raw) {
        Some(s) => xml_unescape(s.as_str()),
        None => None,
    }
}

} // verus!


verus! {

/// The raw bytes of a text event (empty for other events).
pub open spec fn raw_of(e: (XmlView, Option<Seq<u8>>)) -> Seq<u8> {
    match e.1 {
        Some(raw) => raw,
        None => Seq::empty(),
    }
}

/// The texts of an answer's events that are stored as places: each text that
/// follows a place element's opening with no stored text in between, up to the
/// end of the answer. `found` says whether a place element is already open.
pub open spec fn place_texts(evs: Seq<(XmlView, Option<Seq<u8>>)>, found: bool) -> Seq<Seq<u8>>
    decreases evs.len(),
{
    if evs.len() == 0 {
        Seq::empty()
    } else {
        match evs[0].0 {
            XmlView::Start(name) => place_texts(evs.skip(1), found || is_place_tag(name)),
            XmlView::Text => if found {
                seq![raw_of(evs[0])] + place_texts(evs.skip(1), false)
            } else {
                place_texts(evs.skip(1), found)
            },
            XmlView::Eof => Seq::empty(),
            XmlView::Other => place_texts(evs.skip(1), found),
        }
    }
}

/// The place text that an execution stores (its second value).
pub open spec fn stored_place(a: GeoActionView) -> Option<Seq<char>> {
    match a {
        GeoActionView::Execute(GeoSlot::Place, ps) => if ps.len() == 2 {
            match ps[1] {
                ParamView::Text(p) => Some(p),
                _ => None,
            }
        } else {
            None
        },
        _ => None,
    }
}

/// The places stored while the lookup in state `s` reads the answer's events
/// `evs`, when every pool, preparation and execution succeeds and each text is
/// decoded as [`decoded_text`] says.
pub open spec fn answer_run(config: Map<Seq<char>, Seq<char>>, id: u64, s: GeoState, evs: Seq<(XmlView, Option<Seq<u8>>)>) -> Seq<Seq<char>>
    decreases evs.len(),
{
    if evs.len() == 0 || s.phase != GeoPhase::Xml {
        Seq::empty()
    } else {
        let n1 = geo_next(config, id, s, GeoEventView::Xml(evs[0].0));
        match n1.1 {
            GeoActionView::NextXml => answer_run(config, id, n1.0, evs.skip(1)),
            GeoActionView::GetPool(GeoSlot::Place) => {
                let n2 = geo_next(config, id, n1.0, GeoEventView::Step(true));
                let n3 = geo_next(config, id, n2.0, GeoEventView::Step(true));
                let n4 = geo_next(config, id, n3.0, GeoEventView::Decoded(decoded_text(raw_of(evs[0]))));
                let n5 = geo_next(config, id, n4.0, GeoEventView::Step(true));
                match stored_place(n4.1) {
                    Some(p) => seq![p] + answer_run(config, id, n5.0, evs.skip(1)),
                    None => Seq::empty(),
                }
            },
            _ => Seq::empty(),
        }
    }
}

/// The events of the answer `text`, viewed.
pub open spec fn answer_views(text: Seq<char>) -> Seq<(XmlView, Option<Seq<u8>>)> {
    answer_events(text).map_values(|c: (u8, Seq<u8>)| code_event(c))
}

/// The places of an answer, decoded.
pub open spec fn decoded_places(raws: Seq<Seq<u8>>) -> Seq<Seq<char>> {
    raws.map_values(|r: Seq<u8>| decoded_text(r)->0)
}

proof fn lemma_answer_run(config: Map<Seq<char>, Seq<char>>, id: u64, found: bool, evs: Seq<(XmlView, Option<Seq<u8>>)>)
    requires
        built_query(config, INSERT_PLACE@) is Some,
        forall|i: int| 0 <= i < place_texts(evs, found).len() ==> #[trigger] decoded_text(place_texts(evs, found)[i]) is Some,
    ensures
        answer_run(config, id, GeoState { phase: GeoPhase::Xml, found }, evs) == decoded_places(place_texts(evs, found)),
    decreases evs.len(),
{
    let s = GeoState { phase: GeoPhase::Xml, found };
    if evs.len() == 0 {
        assert(decoded_places(place_texts(evs, found)) =~= Seq::<Seq<char>>::empty());
    } else {
        let rest = evs.skip(1);
        match evs[0].0 {
            XmlView::Start(name) => {
                lemma_answer_run(config, id, found || is_place_tag(name), rest);
            },
            XmlView::Text => {
                if found {
                    let t = place_texts(rest, false);
                    assert(place_texts(evs, found) == seq![raw_of(evs[0])] + t);
                    assert forall|i: int| 0 <= i < t.len() implies #[trigger] decoded_text(t[i]) is Some by {
                        assert(place_texts(evs, found)[i + 1] == t[i]);
                    }
                    assert(decoded_text(place_texts(evs, found)[0]) is Some);
                    lemma_answer_run(config, id, false, rest);
                    assert(decoded_places(seq![raw_of(evs[0])] + t)
                        =~= seq![decoded_text(raw_of(evs[0]))->0] + decoded_places(t));
                } else {
                    lemma_answer_run(config, id, found, rest);
                }
            },
            XmlView::Eof => {
                assert(decoded_places(place_texts(evs, found)) =~= Seq::<Seq<char>>::empty());
            },
            XmlView::Other => {
                lemma_answer_run(config, id, found, rest);
            },
        }
    }
}

/// What a lookup stores for the answer `text`: once the answer has been fetched,
/// each text of the answer that follows the opening of a place element (suburb,
/// city, county, town, village, state, neighbourhood, country, state district) is
/// stored, decoded, in order, when every database step succeeds and each such text
/// decodes.
pub proof fn law_places_of_answer(config: Map<Seq<char>, Seq<char>>, id: u64, text: Seq<char>)
    requires
        built_query(config, INSERT_PLACE@) is Some,
        forall|i: int| 0 <= i < place_texts(answer_views(text), false).len()
            ==> #[trigger] decoded_text(place_texts(answer_views(text), false)[i]) is Some,
    ensures
        answer_run(config, id, GeoState { phase: GeoPhase::Xml, found: false },
            answer_views(text))
            == decoded_places(place_texts(answer_views(text), false)),
        geo_next(config, id, GeoState { phase: GeoPhase::Fetch, found: false }, GeoEventView::Step(true))
            == (GeoState { phase: GeoPhase::Xml, found: false }, GeoActionView::NextXml),
{
    lemma_answer_run(config, id, false, answer_views(text));
}

} // verus!

verus! {

/// Reaching the end of a fetched answer marks the media file as done: the mark
/// statement is prepared on the location slot, and once it is prepared the
/// statement executed there binds `true` (the file's places have been looked up)
/// and the media's own id, whatever was found in the answer.
pub proof fn law_end_of_answer_marks_done(config: Map<Seq<char>, Seq<char>>, id: u64, found: bool)
    requires
        built_query(config, MARK_MEDIA_CODED@) is Some,
    ensures
        ({
            let at_end = geo_next(config, id, GeoState { phase: GeoPhase::Xml, found }, GeoEventView::Xml(XmlView::Eof));
            &&& at_end.1 == GeoActionView::Prepare(GeoSlot::Location, built_query(config, MARK_MEDIA_CODED@)->0)
            &&& geo_next(config, id, at_end.0, GeoEventView::Step(true)).1
                == GeoActionView::Execute(GeoSlot::Location, seq![ParamView::Flag(true), ParamView::Unsigned(id)])
            &&& geo_next(config, id, at_end.0, GeoEventView::Step(true)).0.phase == GeoPhase::MarkExecute
        }),
        forall|f: bool| #[trigger] geo_next(config, id, GeoState { phase: GeoPhase::MarkPrepare, found: f }, GeoEventView::Step(true)).1
            == GeoActionView::Execute(GeoSlot::Location, seq![ParamView::Flag(true), ParamView::Unsigned(id)]),
{
}

} // verus!

verus! {

/// Every statement that a lookup executes is about the media file being looked
/// up: the coordinate query and the mark bind its id as their last value, and each
/// stored place binds its id first and the decoded place text second.
pub proof fn law_statements_bind_the_media(config: Map<Seq<char>, Seq<char>>, id: u64, s: GeoState, e: GeoEventView)
    ensures
        geo_next(config, id, s, e).1 matches GeoActionView::Execute(GeoSlot::Location, ps)
            ==> ps.len() >= 1 && ps.last() == ParamView::Unsigned(id),
        geo_next(config, id, s, e).1 matches GeoActionView::Execute(GeoSlot::Place, ps)
            ==> (ps.len() == 2 && ps[0] == ParamView::Unsigned(id) && (e matches GeoEventView::Decoded(Some(p))
                && ps[1] == ParamView::Text(p))),
{
}

} // verus!
