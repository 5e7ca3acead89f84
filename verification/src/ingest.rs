//! Recording an uploaded media file in the database. The insert is prepared on a
//! pool of its own; then the file's library is looked up (and added when it is
//! missing), the insert runs with the library's id, and the id of the new row is
//! read back.
use vstd::prelude::*;
use crate::config::Config;
use crate::database::{
    add_library, built_query, first_row, first_some, get_lib_id_from_name, params_view, single,
    statement_is, DbScript, ParamView, SqlParam,
};
use crate::queries::{INSERT_LIBRARY, INSERT_MEDIA, SELECT_LIBRARY_ID, SELECT_MEDIA_ID_BY_FILE};

verus! {

/// The details of an uploaded media file that are stored with it. Coordinates are
/// carried as the bits of their `f64` values.
pub struct NewMedia {
    pub path: String,
    pub filename: String,
    pub bucket: String,
    pub created: u64,
    pub modified: u64,
    pub latitude_bits: u64,
    pub longitude_bits: u64,
    pub h_res: u64,
    pub v_res: u64,
    pub duration: i64,
    pub size: u64,
    pub uid: u64,
}

/// The values bound to the insert, with the id `library` of the file's library.
pub open spec fn insert_params_of(m: NewMedia, library: u64) -> Seq<ParamView> {
    seq![
        ParamView::Text(m.path@),
        ParamView::Text(m.filename@),
        ParamView::Unsigned(m.created),
        ParamView::Unsigned(m.modified),
        ParamView::FloatBits(m.latitude_bits),
        ParamView::FloatBits(m.longitude_bits),
        ParamView::Unsigned(m.h_res),
        ParamView::Unsigned(m.v_res),
        ParamView::Unsigned(library),
        ParamView::Signed(m.duration),
        ParamView::Unsigned(m.uid),
        ParamView::Unsigned(m.size),
    ]
}

/// The values bound to the insert of `m` into library `library`.
pub fn insert_params(m: &NewMedia, library: u64) -> (p: Vec<SqlParam>)
    ensures
        params_view(p@) == insert_params_of(*m, library),
{
    let mut p: Vec<SqlParam> = Vec::new();
    p.push(SqlParam::Text(m.path.clone()));
    p.push(SqlParam::Text(m.filename.clone()));
    p.push(SqlParam::Unsigned(m.created));
    p.push(SqlParam::Unsigned(m.modified));
    p.push(SqlParam::FloatBits(m.latitude_bits));
    p.push(SqlParam::FloatBits(m.longitude_bits));
    p.push(SqlParam::Unsigned(m.h_res));
    p.push(SqlParam::Unsigned(m.v_res));
    p.push(SqlParam::Unsigned(library));
    p.push(SqlParam::Signed(m.duration));
    p.push(SqlParam::Unsigned(m.uid));
    p.push(SqlParam::Unsigned(m.size));
    assert(params_view(p@) =~= insert_params_of(*m, library));
    p
}

/// The outcome of a lookup script that reads one id: the script's error, or the
/// first readable row (`Err(-5)` when there is none).
pub open spec fn lookup_outcome(script: Result<u8, i8>, rows: Seq<Option<u64>>) -> Result<u64, i8> {
    match script {
        Err(e) => Err(e),
        Ok(_) => match first_some(rows) {
            Some(id) => Ok(id),
            None => Err(-5i8),
        },
    }
}

/// The id that a lookup script gave, from how the script ended and the rows it read.
pub fn lookup_result(script: Result<u8, i8>, rows: Vec<Option<u64>>) -> (r: Result<u64, i8>)
    ensures
        r == lookup_outcome(script, rows@),
{
    match script {
        Err(e) => Err(e),
        Ok(_) => first_row(rows),
    }
}

/// Where the recording of a media file stands.
#[derive(PartialEq, Eq, Structural, Clone, Copy)]
pub enum AddPhase {
    /// About to fetch the pool for the insert.
    NeedPool,
    /// About to prepare the insert.
    NeedPrepare,
    /// Looking up the library.
    FindLibrary,
    /// Adding the library, which was not found.
    AddLibrary,
    /// Looking up the library that was just added.
    FindAddedLibrary,
    /// About to execute the insert.
    NeedInsert,
    /// Reading back the id of the new row.
    FindId,
    /// Finished.
    Done,
}

/// The state of a recording: its phase and the id of the library once it is known.
#[derive(PartialEq, Eq, Structural, Clone, Copy)]
pub struct AddState {
    pub phase: AddPhase,
    pub library: u64,
}

/// What the caller reports back after an action.
pub enum AddEvent {
    /// Whether fetching the pool, preparing or executing the insert succeeded.
    Step(bool),
    /// The outcome of a lookup script (see [`lookup_result`]).
    Found(Result<u64, i8>),
    /// The outcome of the script that adds the library.
    Added(Result<u8, i8>),
}

/// What the caller does next.
pub enum AddAction {
    /// Fetch a pool for the insert.
    GetPool,
    /// Prepare the insert, with this query, on that pool.
    Prepare(String),
    /// Run this script to look up the library's id.
    FindLibrary(DbScript),
    /// Run this script to add the library.
    AddLibrary(DbScript),
    /// Execute the prepared insert with these values.
    Insert(Vec<SqlParam>),
    /// Run this script to read back the id of the new row.
    FindId(DbScript),
    /// Stop with the id of the new row, or an error code.
    Finish(Result<u64, i8>),
}

/// The spec-level view of an action; scripts are described by [`script_fits`].
pub enum AddActionView {
    GetPool,
    Prepare(Seq<char>),
    FindLibrary,
    AddLibrary,
    Insert(Seq<ParamView>),
    FindId,
    Finish(Result<u64, i8>),
}

impl AddAction {
    pub open spec fn view(&self) -> AddActionView {
        match self {
            AddAction::GetPool => AddActionView::GetPool,
            AddAction::Prepare(q) => AddActionView::Prepare(q@),
            AddAction::FindLibrary(_) => AddActionView::FindLibrary,
            AddAction::AddLibrary(_) => AddActionView::AddLibrary,
            AddAction::Insert(p) => AddActionView::Insert(params_view(p@)),
            AddAction::FindId(_) => AddActionView::FindId,
            AddAction::Finish(r) => AddActionView::Finish(*r),
        }
    }
}

/// `s` runs the one-statement query `q` with parameters `params` on a fresh pool,
/// reporting a failed execution as `-4` and a query that cannot be built as `-3`.
pub open spec fn one_statement(s: DbScript, config: Map<Seq<char>, Seq<char>>, q: Seq<char>, params: Seq<ParamView>) -> bool {
    &&& s.statements.len() == 1
    &&& s.execute_error == -4
    &&& s.query_error == -3
    &&& statement_is(s.statements@[0], config, q, params, true)
}

/// The scripts that an action carries are the library lookup, the library insert
/// and the id lookup for `m`.
pub open spec fn script_fits(a: AddAction, config: Map<Seq<char>, Seq<char>>, m: NewMedia) -> bool {
    match a {
        AddAction::FindLibrary(s) => one_statement(s, config, SELECT_LIBRARY_ID@, seq![ParamView::Text(m.bucket@)]),
        AddAction::AddLibrary(s) => one_statement(s, config, INSERT_LIBRARY@, seq![ParamView::Text(m.bucket@)]),
        AddAction::FindId(s) => one_statement(s, config, SELECT_MEDIA_ID_BY_FILE@,
            seq![ParamView::Text(m.path@), ParamView::Text(m.filename@)]),
        _ => true,
    }
}

/// The event that a phase waits for.
pub open spec fn event_fits(phase: AddPhase, e: AddEvent) -> bool {
    match phase {
        AddPhase::NeedPool | AddPhase::NeedPrepare | AddPhase::NeedInsert => e is Step,
        AddPhase::FindLibrary | AddPhase::FindAddedLibrary | AddPhase::FindId => e is Found,
        AddPhase::AddLibrary => e is Added,
        AddPhase::Done => false,
    }
}

/// A finished state.
pub open spec fn finished(s: AddState) -> AddState {
    AddState { phase: AddPhase::Done, ..s }
}

/// The next state and action of recording `m` under `config`, after event `e` in state `s`.
pub open spec fn add_next(
    config: Map<Seq<char>, Seq<char>>,
    m: NewMedia,
    s: AddState,
    e: AddEvent,
) -> (AddState, AddActionView) {
    match (s.phase, e) {
        (AddPhase::NeedPool, AddEvent::Step(ok)) => if !ok {
            (finished(s), AddActionView::Finish(Err(-1i8)))
        } else {
            match built_query(config, INSERT_MEDIA@) {
                None => (finished(s), AddActionView::Finish(Err(-3i8))),
                Some(q) => (AddState { phase: AddPhase::NeedPrepare, ..s }, AddActionView::Prepare(q)),
            }
        },
        (AddPhase::NeedPrepare, AddEvent::Step(ok)) => if !ok {
            (finished(s), AddActionView::Finish(Err(-2i8)))
        } else {
            (AddState { phase: AddPhase::FindLibrary, ..s }, AddActionView::FindLibrary)
        },
        (AddPhase::FindLibrary, AddEvent::Found(r)) => match r {
            Ok(id) => (AddState { phase: AddPhase::NeedInsert, library: id }, AddActionView::Insert(insert_params_of(m, id))),
            Err(_) => (AddState { phase: AddPhase::AddLibrary, ..s }, AddActionView::AddLibrary),
        },
        (AddPhase::AddLibrary, AddEvent::Added(r)) => match r {
            Ok(_) => (AddState { phase: AddPhase::FindAddedLibrary, ..s }, AddActionView::FindLibrary),
            Err(_) => (finished(s), AddActionView::Finish(Err(-5i8))),
        },
        (AddPhase::FindAddedLibrary, AddEvent::Found(r)) => match r {
            Ok(id) => (AddState { phase: AddPhase::NeedInsert, library: id }, AddActionView::Insert(insert_params_of(m, id))),
            Err(_) => (finished(s), AddActionView::Finish(Err(-5i8))),
        },
        (AddPhase::NeedInsert, AddEvent::Step(ok)) => if !ok {
            (finished(s), AddActionView::Finish(Err(-4i8)))
        } else {
            (AddState { phase: AddPhase::FindId, ..s }, AddActionView::FindId)
        },
        (AddPhase::FindId, AddEvent::Found(r)) => (finished(s), AddActionView::Finish(r)),
        _ => (finished(s), AddActionView::Finish(Err(-1i8))),
    }
}

/// The first state and action of recording a media file: fetch a pool.
pub fn add_media_start() -> (r: (AddState, AddAction))
    ensures
        r.0 == (AddState { phase: AddPhase::NeedPool, library: 0 }),
        r.1@ == AddActionView::GetPool,
{
    (AddState { phase: AddPhase::NeedPool, library: 0 }, AddAction::GetPool)
}

/// The next state and action of recording `m`, after `event` was reported in `state`.
pub fn add_media_step(config: &Config, m: &NewMedia, state: AddState, event: AddEvent) -> (r: (AddState, AddAction))
    requires
        event_fits(state.phase, event),
    ensures
        r.0 == add_next(config@, *m, state, event).0,
        r.1@ == add_next(config@, *m, state, event).1,
        script_fits(r.1, config@, *m),
{
    let done = AddState { phase: AddPhase::Done, library: state.library };
    match (state.phase, event) {
        (AddPhase::NeedPool, AddEvent::Step(ok)) => {
            if !ok {
                return (done, AddAction::Finish(Err(-1)));
            }
            match crate::database::build_query(config, INSERT_MEDIA) {
                Ok(q) => (AddState { phase: AddPhase::NeedPrepare, library: state.library }, AddAction::Prepare(q)),
                Err(_) => (done, AddAction::Finish(Err(-3))),
            }
        },
        (AddPhase::NeedPrepare, AddEvent::Step(ok)) => {
            if !ok {
                (done, AddAction::Finish(Err(-2)))
            } else {
                (AddState { phase: AddPhase::FindLibrary, library: state.library },
                    AddAction::FindLibrary(get_lib_id_from_name(config, m.bucket.as_str())))
            }
        },
        (AddPhase::FindLibrary, AddEvent::Found(r)) => match r {
            Ok(id) => (AddState { phase: AddPhase::NeedInsert, library: id }, AddAction::Insert(insert_params(m, id))),
            Err(_) => (AddState { phase: AddPhase::AddLibrary, library: state.library },
                AddAction::AddLibrary(add_library(config, m.bucket.as_str()))),
        },
        (AddPhase::AddLibrary, AddEvent::Added(r)) => match r {
            Ok(_) => (AddState { phase: AddPhase::FindAddedLibrary, library: state.library },
                AddAction::FindLibrary(get_lib_id_from_name(config, m.bucket.as_str()))),
            Err(_) => (done, AddAction::Finish(Err(-5))),
        },
        (AddPhase::FindAddedLibrary, AddEvent::Found(r)) => match r {
            Ok(id) => (AddState { phase: AddPhase::NeedInsert, library: id }, AddAction::Insert(insert_params(m, id))),
            Err(_) => (done, AddAction::Finish(Err(-5))),
        },
        (AddPhase::NeedInsert, AddEvent::Step(ok)) => {
            if !ok {
                (done, AddAction::Finish(Err(-4)))
            } else {
                let mut params: Vec<SqlParam> = Vec::new();
                params.push(SqlParam::Text(m.path.clone()));
                params.push(SqlParam::Text(m.filename.clone()));
                assert(params_view(params@) =~= seq![ParamView::Text(m.path@), ParamView::Text(m.filename@)]);
                let s = single(config, SELECT_MEDIA_ID_BY_FILE, params, -4, -3);
                (AddState { phase: AddPhase::FindId, library: state.library }, AddAction::FindId(s))
            }
        },
        (AddPhase::FindId, AddEvent::Found(r)) => (done, AddAction::Finish(r)),
        _ => (done, AddAction::Finish(Err(-1))),
    }
}

} // verus!

verus! {

/// The state reached and the actions called for when `events` are reported in turn,
/// starting in state `s`.
pub open spec fn run_events(
    config: Map<Seq<char>, Seq<char>>,
    m: NewMedia,
    s: AddState,
    events: Seq<AddEvent>,
) -> (AddState, Seq<AddActionView>)
    decreases events.len(),
{
    if events.len() == 0 {
        (s, Seq::empty())
    } else {
        let step = add_next(config, m, s, events[0]);
        let rest = run_events(config, m, step.0, events.skip(1));
        (rest.0, seq![step.1] + rest.1)
    }
}

/// Recording a file whose library exists: the insert is prepared, the library is
/// looked up, the insert runs with the library's id, and the id read back is the
/// result.
pub proof fn law_recording_in_known_library(config: Map<Seq<char>, Seq<char>>, m: NewMedia, library: u64, id: u64)
    requires
        built_query(config, INSERT_MEDIA@) is Some,
    ensures
        run_events(config, m, AddState { phase: AddPhase::NeedPool, library: 0 }, seq![
            AddEvent::Step(true),
            AddEvent::Step(true),
            AddEvent::Found(Ok(library)),
            AddEvent::Step(true),
            AddEvent::Found(Ok(id)),
        ]) == (AddState { phase: AddPhase::Done, library }, seq![
            AddActionView::Prepare(built_query(config, INSERT_MEDIA@)->0),
            AddActionView::FindLibrary,
            AddActionView::Insert(insert_params_of(m, library)),
            AddActionView::FindId,
            AddActionView::Finish(Ok(id)),
        ]),
{
    let e = seq![
        AddEvent::Step(true),
        AddEvent::Step(true),
        AddEvent::Found(Ok(library)),
        AddEvent::Step(true),
        AddEvent::Found(Ok(id)),
    ];
    let s0 = AddState { phase: AddPhase::NeedPool, library: 0 };
    assert(e.skip(1).skip(1).skip(1).skip(1).skip(1) =~= Seq::<AddEvent>::empty());
    assert(e.skip(1)[0] == e[1]);
    assert(e.skip(1).skip(1)[0] == e[2]);
    assert(e.skip(1).skip(1).skip(1)[0] == e[3]);
    assert(e.skip(1).skip(1).skip(1).skip(1)[0] == e[4]);
    reveal_with_fuel(run_events, 6);
    assert(run_events(config, m, s0, e).1 =~= seq![
        AddActionView::Prepare(built_query(config, INSERT_MEDIA@)->0),
        AddActionView::FindLibrary,
        AddActionView::Insert(insert_params_of(m, library)),
        AddActionView::FindId,
        AddActionView::Finish(Ok(id)),
    ]);
}

/// Recording a file whose library is missing: the library is added and looked up
/// again, and the insert runs with the id found the second time; a library that
/// cannot be added or found again ends the recording with `-5`.
pub proof fn law_recording_adds_missing_library(
    config: Map<Seq<char>, Seq<char>>,
    m: NewMedia,
    s: AddState,
    missing: i8,
    added: Result<u8, i8>,
    found: Result<u64, i8>,
)
    requires
        s.phase == AddPhase::FindLibrary,
    ensures
        add_next(config, m, s, AddEvent::Found(Err(missing))).1 == AddActionView::AddLibrary,
        added is Err ==> add_next(config, m, add_next(config, m, s, AddEvent::Found(Err(missing))).0,
            AddEvent::Added(added)).1 == AddActionView::Finish(Err(-5i8)),
        added is Ok ==> ({
            let s2 = add_next(config, m, add_next(config, m, s, AddEvent::Found(Err(missing))).0, AddEvent::Added(added)).0;
            &&& add_next(config, m, add_next(config, m, s, AddEvent::Found(Err(missing))).0, AddEvent::Added(added)).1
                == AddActionView::FindLibrary
            &&& match found {
                Ok(id) => add_next(config, m, s2, AddEvent::Found(found)).1
                    == AddActionView::Insert(insert_params_of(m, id)),
                Err(_) => add_next(config, m, s2, AddEvent::Found(found)).1 == AddActionView::Finish(Err(-5i8)),
            }
        }),
{
}

} // verus!

verus! {

/// The columns of the media insert, in the order of its column list.
pub enum MediaColumn {
    Path,
    Filename,
    Created,
    Modified,
    Latitude,
    Longitude,
    HorizResolution,
    VertResolution,
    Library,
    Duration,
    User,
    Size,
}

/// The column list of the media insert: `(path, filename, created, modified,
/// latitude, longitude, horiz_resolution, vert_resolution, library, duration,
/// user, size)`.
pub open spec fn media_columns() -> Seq<MediaColumn> {
    seq![
        MediaColumn::Path,
        MediaColumn::Filename,
        MediaColumn::Created,
        MediaColumn::Modified,
        MediaColumn::Latitude,
        MediaColumn::Longitude,
        MediaColumn::HorizResolution,
        MediaColumn::VertResolution,
        MediaColumn::Library,
        MediaColumn::Duration,
        MediaColumn::User,
        MediaColumn::Size,
    ]
}

/// What column `c` of the media row records for the uploaded file `m` in library
/// `library`.
pub open spec fn column_value(m: NewMedia, library: u64, c: MediaColumn) -> ParamView {
    match c {
        MediaColumn::Path => ParamView::Text(m.path@),
        MediaColumn::Filename => ParamView::Text(m.filename@),
        MediaColumn::Created => ParamView::Unsigned(m.created),
        MediaColumn::Modified => ParamView::Unsigned(m.modified),
        MediaColumn::Latitude => ParamView::FloatBits(m.latitude_bits),
        MediaColumn::Longitude => ParamView::FloatBits(m.longitude_bits),
        MediaColumn::HorizResolution => ParamView::Unsigned(m.h_res),
        MediaColumn::VertResolution => ParamView::Unsigned(m.v_res),
        MediaColumn::Library => ParamView::Unsigned(library),
        MediaColumn::Duration => ParamView::Signed(m.duration),
        MediaColumn::User => ParamView::Unsigned(m.uid),
        MediaColumn::Size => ParamView::Unsigned(m.size),
    }
}

/// The values bound to the media insert follow its column list: one value per
/// column, each the upload's value for that column (the third its creation time,
/// the fourth its modification time, the ninth the library's id, ...).
pub proof fn law_insert_follows_columns(m: NewMedia, library: u64)
    ensures
        insert_params_of(m, library).len() == media_columns().len(),
        forall|i: int| 0 <= i < media_columns().len()
            ==> #[trigger] insert_params_of(m, library)[i] == column_value(m, library, media_columns()[i]),
{
    assert forall|i: int| 0 <= i < media_columns().len()
        implies #[trigger] insert_params_of(m, library)[i] == column_value(m, library, media_columns()[i]) by {
        assert(0 <= i < 12);
    }
}

} // verus!
