//! Background work: queueing media for thumbnails and place lookup, pacing the
//! place lookups, and choosing which streaming files are stale.
use vstd::prelude::*;
use crate::config::Config;
use crate::database::{one_param, no_params, single, statement_is, DbScript, ParamView, SqlParam};
use crate::media::DAY_MILLIS;
use crate::queries::{SELECT_ALL_MEDIA, SELECT_STALE_MEDIA, SELECT_UNCODED_MEDIA};

verus! {

/// The sending half of the queue of media ids that the workers process.
#[verifier::external_type_specification]
#[verifier::external_body]
#[verifier::reject_recursive_types(T)]
pub struct ExSender<T>(two_lock_queue::Sender<T>);

/// `two_lock_queue::Sender::send(id)`: waits until the queue has room and appends
/// `id` (`Ok`), or hands `id` back when no receiver is left. Whether it succeeds
/// depends on the other threads; what is claimed is only that a failure returns the
/// id that was sent.
#[verifier::external_body]
fn send_id(tx: &two_lock_queue::Sender<u64>, id: u64) -> (r: Result<(), u64>)
    ensures
        r matches Err(v) ==> v == id,
{
    tx.send(id).map_err(|e| e.0)
}

/// The queue of media ids that the workers take from, seen from the sending side:
/// the sending half, and the ids handed to the queue so far, in order.
pub struct IdQueue {
    tx: two_lock_queue::Sender<u64>,
    sent: Ghost<Seq<u64>>,
}

impl IdQueue {
    /// The ids handed to the queue through this sender, in the order they were sent.
    pub closed spec fn history(&self) -> Seq<u64> {
        self.sent@
    }

    /// The sending side of a queue through which nothing has been sent yet.
    pub fn new(tx: two_lock_queue::Sender<u64>) -> (q: IdQueue)
        ensures
            q.history() == Seq::<u64>::empty(),
    {
        IdQueue { tx, sent: Ghost(Seq::empty()) }
    }

    /// Hands `id` to the queue: on success it is appended to what was sent; on
    /// failure (no receiver is left) the id comes back and nothing was sent.
    pub fn send(&mut self, id: u64) -> (r: Result<(), u64>)
        ensures
            r is Ok ==> final(self).history() == old(self).history().push(id),
            r matches Err(v) ==> v == id && final(self).history() == old(self).history(),
    {
        let r = send_id(&self.tx, id);
        if r.is_ok() {
            proof {
                self.sent = Ghost(self.sent@.push(id));
            }
        }
        r
    }
}

/// Queues media `id` for the workers: on success the id is appended to what was
/// sent through `queue`; `Err(id)`, with nothing sent, when no worker is left.
pub fn add_id(queue: &mut IdQueue, id: u64) -> (r: Result<(), u64>)
    ensures
        r is Ok ==> final(queue).history() == old(queue).history().push(id),
        r matches Err(v) ==> v == id && final(queue).history() == old(queue).history(),
{
    queue.send(id)
}

/// The outcome of making the thumbnail of a queued media file, from what happened:
/// `None` when the media could not be read (`Err(-2)`), otherwise the outcome of
/// producing the thumbnail (`Ok(0)`, or `Err(-1)` when it failed).
pub fn make_thumbnail(outcome: Option<Result<String, i8>>) -> (r: Result<u8, i8>)
    ensures
        match outcome {
            None => r == Err::<u8, i8>(-2i8),
            Some(Ok(_)) => r == Ok::<u8, i8>(0u8),
            Some(Err(_)) => r == Err::<u8, i8>(-1i8),
        },
{
    match outcome {
        None => Err(-2),
        Some(Ok(_)) => Ok(0),
        Some(Err(_)) => Err(-1),
    }
}

/// The media whose places have not been looked up yet.
pub fn uncoded_media(config: &Config) -> (s: DbScript)
    ensures
        s.statements.len() == 1,
        statement_is(s.statements@[0], config@, SELECT_UNCODED_MEDIA@, seq![ParamView::Flag(false)], true),
{
    single(config, SELECT_UNCODED_MEDIA, one_param(SqlParam::Flag(false)), -4, -3)
}

/// The videos not requested since `before`, whose streaming files are stale.
pub fn stale_media(config: &Config, before: u64) -> (s: DbScript)
    ensures
        s.statements.len() == 1,
        statement_is(s.statements@[0], config@, SELECT_STALE_MEDIA@, seq![ParamView::Unsigned(before)], true),
{
    single(config, SELECT_STALE_MEDIA, one_param(SqlParam::Unsigned(before)), -4, -3)
}

/// All media, for remaking every thumbnail.
pub fn all_media(config: &Config) -> (s: DbScript)
    ensures
        s.statements.len() == 1,
        statement_is(s.statements@[0], config@, SELECT_ALL_MEDIA@, seq![], true),
{
    single(config, SELECT_ALL_MEDIA, no_params(), -4, -3)
}

/// Whether a maintenance round remakes all thumbnails, and the flag for the next
/// round: every other round does, starting with the first.
pub fn thumbnail_round(uneven: bool) -> (r: (bool, bool))
    ensures
        r == (uneven, !uneven),
{
    (uneven, !uneven)
}

/// The least time between two place lookups, in milliseconds.
pub const GEOCODE_INTERVAL: u64 = 5000;

/// How long to wait before a place lookup at `now` when the previous one was
/// booked for `last`: until `last` plus the interval, if that is still ahead.
pub open spec fn wait_time(last: u64, now: u64) -> Option<u64> {
    if last + GEOCODE_INTERVAL > now {
        Some((last + GEOCODE_INTERVAL - now) as u64)
    } else {
        None
    }
}

/// The time booked for a place lookup that starts at `now`: two seconds later, the
/// time a lookup is assumed to take.
pub open spec fn booked_at(now: u64) -> int {
    now + 2000
}

/// How long to wait before the next place lookup, when the previous one was booked
/// for `last` and it is now `now`: until `last` plus the interval, if that is still
/// ahead.
pub fn geocode_wait(last: u64, now: u64) -> (r: Option<u64>)
    requires
        last + GEOCODE_INTERVAL <= u64::MAX,
    ensures
        r == wait_time(last, now),
{
    if last + GEOCODE_INTERVAL > now {
        Some(last + GEOCODE_INTERVAL - now)
    } else {
        None
    }
}

/// The time booked for a place lookup that starts at `now`.
pub fn geocode_booking(now: u64) -> (r: u64)
    requires
        now + 2000 <= u64::MAX,
    ensures
        r == booked_at(now),
{
    now + 2000
}

/// Two place lookups start at least seven seconds apart: the one that starts at
/// `first` books `first + 2000`, and the next one, whenever it asks (`now`), waits
/// until the booking plus the interval if that is still ahead.
pub proof fn law_geocode_spacing(first: u64, now: u64)
    requires
        first + 2000 + GEOCODE_INTERVAL <= u64::MAX,
    ensures
        match wait_time(booked_at(first) as u64, now) {
            Some(w) => now + w >= first + 7000,
            None => now >= first + 7000,
        },
{
}

/// Whether a worker looks up the places of a media file after making its
/// thumbnail: only when the thumbnail was made.
pub fn geocode_after_thumbnail(made: Result<u8, i8>) -> (b: bool)
    ensures
        b == made is Ok,
{
    made.is_ok()
}

/// The time before which a video's streaming files count as stale: one day before `now`.
pub fn stale_before(now: u64) -> (r: u64)
    requires
        now >= DAY_MILLIS,
    ensures
        r == now - DAY_MILLIS,
{
    now - DAY_MILLIS
}

/// The element names whose text, in a reverse-geocoding answer, names a place.
pub open spec fn is_place_tag(name: Seq<u8>) -> bool {
    name == "suburb"@.map_values(|c: char| c as u8) || name == "city"@.map_values(|c: char| c as u8)
        || name == "county"@.map_values(|c: char| c as u8) || name == "town"@.map_values(|c: char| c as u8)
        || name == "village"@.map_values(|c: char| c as u8) || name == "state"@.map_values(|c: char| c as u8)
        || name == "neighbourhood"@.map_values(|c: char| c as u8)
        || name == "country"@.map_values(|c: char| c as u8)
        || name == "state_district"@.map_values(|c: char| c as u8)
}

fn bytes_equal(a: &[u8], b: &str) -> (r: bool)
    requires
        vstd::string::is_ascii(b),
    ensures
        r == (a@ == b@.map_values(|c: char| c as u8)),
{
    broadcast use vstd::string::group_string_axioms;
    let bb = b.as_bytes();
    assert(bb@ =~= b@.map_values(|c: char| c as u8));
    if a.len() != bb.len() {
        return false;
    }
    let mut i: usize = 0;
    while i < a.len()
        invariant
            i <= a.len(),
            a.len() == bb@.len(),
            bb@ == b@.map_values(|c: char| c as u8),
            forall|j: int| 0 <= j < i ==> a@[j] == bb@[j],
        decreases a.len() - i,
    {
        if a[i] != bb[i] {
            assert(a@[i as int] != bb@[i as int]);
            return false;
        }
        i = i + 1;
    }
    assert(a@ =~= bb@);
    true
}

/// Whether an element named `name` (its bytes) holds a place name.
pub fn is_place_element(name: &[u8]) -> (b: bool)
    ensures
        b == is_place_tag(name@),
{
    proof {
        reveal_strlit("suburb");
        reveal_strlit("city");
        reveal_strlit("county");
        reveal_strlit("town");
        reveal_strlit("village");
        reveal_strlit("state");
        reveal_strlit("neighbourhood");
        reveal_strlit("country");
        reveal_strlit("state_district");
    }
    bytes_equal(name, "suburb") || bytes_equal(name, "city") || bytes_equal(name, "county")
        || bytes_equal(name, "town") || bytes_equal(name, "village") || bytes_equal(name, "state")
        || bytes_equal(name, "neighbourhood") || bytes_equal(name, "country")
        || bytes_equal(name, "state_district")
}

} // verus!
