//! Where uploaded media go: `<user dir>/<year>/<month number> <month name>/<bucket>/`,
//! and which directories are handed to the user after they are created.
use vstd::prelude::*;
use vstd::utf8::{decode_utf8, encode_utf8, is_char_boundary};
use chrono::{Datelike, TimeZone};
use crate::config::Config;
use crate::text::{
    append_str, chars_of, decimal, ends_with_char, push_all, signed_decimal, slice_chars,
    string_of, u64_to_decimal, i64_to_decimal,
};

verus! {

/// The year and month (1 to 12) of the proleptic Gregorian calendar in which the
/// instant `secs` seconds after the Unix epoch falls, counted in UTC: the civil
/// date of day `secs / 86400` since 1970-01-01 (days counted in 400-year eras of
/// 146097 days, each year taken from March).
pub open spec fn utc_year_month(secs: int) -> (int, int) {
    let z = secs / 86400 + 719468;
    let era = z / 146097;
    let doe = z - era * 146097;
    let yoe = (doe - doe / 1460 + doe / 36524 - doe / 146096) / 365;
    let doy = doe - (365 * yoe + yoe / 4 - yoe / 100);
    let mp = (5 * doy + 2) / 153;
    let month = if mp < 10 { mp + 3 } else { mp - 9 };
    (if month <= 2 { yoe + era * 400 + 1 } else { yoe + era * 400 }, month)
}

/// `year` and `month` are the year and month of the instant `secs` seconds after
/// the epoch in some time zone: the UTC date of that instant moved by an offset of
/// less than a day.
pub open spec fn near_date(secs: int, year: int, month: int) -> bool {
    exists|off: int| -86400 < off < 86400 && #[trigger] utc_year_month(secs + off) == (year, month)
}

/// `year` and `month` are the local year and month, in some time zone, of the
/// instant `ms` milliseconds after the epoch.
pub open spec fn local_date_of(ms: u64, year: i32, month: u32) -> bool {
    near_date((ms / 1000) as int, year as int, month as int)
}

/// The local year and month (1 to 12) of the time `secs` seconds and `nsecs`
/// nanoseconds after the Unix epoch, in the machine's time zone:
/// `chrono::Local.timestamp(secs, nsecs)` followed by `year()` and `month()`.
/// chrono panics for seconds beyond the end of its range (year 262142), so that is
/// excluded. The date is that of the instant moved by the machine's offset from
/// UTC, which chrono holds as a `FixedOffset` of less than a day either way; which
/// offset applies depends on the machine's time zone and is not stated. chrono
/// also panics when the machine's time-zone data cannot give an offset for the
/// instant; that depends on the machine, not on the arguments, and is not stated.
#[verifier::external_body]
fn local_year_month(secs: i64, nsecs: u32) -> (r: (i32, u32))
    requires
        0 <= secs <= 8210266876799,
        nsecs < 1_000_000_000,
    ensures
        1 <= r.1 <= 12,
        near_date(secs as int, r.0 as int, r.1 as int),
{
    #[allow(deprecated)]
    let date = chrono::Local.timestamp(secs, nsecs);
    (date.year(), date.month())
}

/// The value of `key`, or the empty text when it is not configured.
pub open spec fn lookup_or_empty(config: Map<Seq<char>, Seq<char>>, key: Seq<char>) -> Seq<char> {
    if config.contains_key(key) {
        config[key]
    } else {
        Seq::empty()
    }
}

/// The text of the first two bytes of `locale` (such as `de` of `de_DE.UTF-8`).
pub open spec fn locale_head(locale: Seq<char>) -> Seq<char> {
    decode_utf8(encode_utf8(locale).subrange(0, 2))
}

/// The configured name of `month` for `locale`: the value of `<locale><month>`, or,
/// when that is empty and the locale is longer than two bytes, the value of
/// `<first two bytes of locale><month>`; empty when neither is configured.
pub open spec fn month_name(config: Map<Seq<char>, Seq<char>>, locale: Seq<char>, month: u32) -> Seq<char> {
    let m = lookup_or_empty(config, locale + decimal(month as nat));
    if m.len() == 0 && encode_utf8(locale).len() > 2 {
        lookup_or_empty(config, locale_head(locale) + decimal(month as nat))
    } else {
        m
    }
}

/// Splitting the locale after its second byte, when it comes to that, does not cut a character.
pub open spec fn locale_splits(config: Map<Seq<char>, Seq<char>>, locale: Seq<char>, month: u32) -> bool {
    (lookup_or_empty(config, locale + decimal(month as nat)).len() == 0
        && encode_utf8(locale).len() > 2) ==> is_char_boundary(encode_utf8(locale), 2)
}

/// The directory of a month below the user's directory: `<year>/<MM> <month name>/<bucket>/`.
pub open spec fn date_dir(year: i32, month: u32, name: Seq<char>, bucket: Seq<char>) -> Seq<char> {
    signed_decimal(year as int) + "/"@ + (if month < 10 { "0"@ } else { Seq::empty() })
        + decimal(month as nat) + " "@ + name + "/"@ + bucket + "/"@
}

fn lookup_text(config: &Config, key: &Vec<char>) -> (r: Vec<char>)
    ensures
        r@ == lookup_or_empty(config@, key@),
{
    let k = string_of(key);
    match config.get(k.as_str()) {
        Some(v) => chars_of(v.as_str()),
        None => Vec::new(),
    }
}

/// The directory for media of `month` of `year` in `bucket`, with the month named
/// as configured for `locale`.
pub fn path_for_date(year: i32, month: u32, bucket: &str, locale: &str, config: &Config) -> (r: String)
    requires
        locale_splits(config@, locale@, month),
    ensures
        r@ == date_dir(year, month, month_name(config@, locale@, month), bucket@),
{
    let month_digits = u64_to_decimal(month as u64);
    let mut key: Vec<char> = chars_of(locale);
    push_all(&mut key, &month_digits);
    assert(key@ == locale@ + decimal(month as nat));
    let mut name = lookup_text(config, &key);
    if name.len() == 0 && locale.as_bytes().len() > 2 {
        let (first, _) = locale.split_at(2);
        proof {
            broadcast use vstd::utf8::encode_utf8_decode_utf8;
            assert(first@ == decode_utf8(encode_utf8(first@)));
        }
        let mut key2: Vec<char> = chars_of(first);
        push_all(&mut key2, &month_digits);
        assert(key2@ == locale_head(locale@) + decimal(month as nat));
        name = lookup_text(config, &key2);
    }
    assert(name@ == month_name(config@, locale@, month));
    let mut v: Vec<char> = i64_to_decimal(year as i64);
    append_str(&mut v, "/");
    if month < 10 {
        append_str(&mut v, "0");
    }
    push_all(&mut v, &month_digits);
    append_str(&mut v, " ");
    push_all(&mut v, &name);
    append_str(&mut v, "/");
    append_str(&mut v, bucket);
    append_str(&mut v, "/");
    proof {
        if month < 10 {
            assert(v@ =~= date_dir(year, month, month_name(config@, locale@, month), bucket@));
        } else {
            assert(v@ =~= date_dir(year, month, month_name(config@, locale@, month), bucket@));
        }
    }
    string_of(&v)
}

/// The directory for media created at `created` (milliseconds since the epoch) in
/// `bucket`, dated in the machine's time zone; `None` where the month's name would
/// be looked up by the locale's first two bytes and they do not end on a character
/// boundary (splitting the locale there panics, and the upload fails).
pub fn build_path_date(created: u64, bucket: &str, locale: &str, config: &Config) -> (r: Option<String>)
    requires
        created / 1000 <= 8210266876799,
    ensures
        r matches Some(p) ==> dated_dir(p@, created, bucket@, locale@, config@),
        r is None ==> undatable(created, locale@, config@),
{
    let (year, month) = local_year_month((created / 1000) as i64, ((created % 1000) * 1_000_000) as u32);
    let month_digits = u64_to_decimal(month as u64);
    let mut key: Vec<char> = chars_of(locale);
    push_all(&mut key, &month_digits);
    assert(key@ == locale@ + decimal(month as nat));
    let name = lookup_text(config, &key);
    assert(local_date_of(created, year, month));
    if name.len() == 0 && locale.as_bytes().len() > 2 && !locale.is_char_boundary(2) {
        assert(!locale_splits(config@, locale@, month));
        assert(1 <= month <= 12 && local_date_of(created, year, month) && !locale_splits(config@, locale@, month));
        return None;
    }
    assert(locale_splits(config@, locale@, month));
    let p = path_for_date(year, month, bucket, locale, config);
    assert(1 <= month <= 12 && local_date_of(created, year, month) && locale_splits(config@, locale@, month)
        && p@ == date_dir(year, month, month_name(config@, locale@, month), bucket@));
    Some(p)
}

/// `dir` is the directory for media in `bucket` dated `ms` (milliseconds since the
/// epoch): `<year>/<MM> <month name>/<bucket>/` for the local year and month of
/// that instant, the month named as configured for `locale`.
pub open spec fn dated_dir(dir: Seq<char>, ms: u64, bucket: Seq<char>, locale: Seq<char>, config: Map<Seq<char>, Seq<char>>) -> bool {
    exists|year: i32, month: u32|
        1 <= month <= 12 && #[trigger] local_date_of(ms, year, month) && locale_splits(config, locale, month)
        && dir == date_dir(year, month, month_name(config, locale, month), bucket)
}

/// The month of the instant `ms` is to be named by the first two bytes of
/// `locale`, and they do not end on a character boundary.
pub open spec fn undatable(ms: u64, locale: Seq<char>, config: Map<Seq<char>, Seq<char>>) -> bool {
    exists|year: i32, month: u32|
        1 <= month <= 12 && #[trigger] local_date_of(ms, year, month) && !locale_splits(config, locale, month)
}

/// The time an upload is dated by: its creation time, or its modification time
/// when the creation time is `0`.
pub open spec fn upload_time(created: u64, modified: u64) -> u64 {
    if created > 0 { created } else { modified }
}

/// The directory for an upload below the user's directory `userpath`: dated by
/// `created`, or by `modified` when `created` is `0`. `Err(-1)` when the user's
/// directory could not be looked up; `None` where the locale cannot be split (see
/// [`build_path_date`]).
pub fn build_path(
    userpath: Result<String, i8>,
    created: u64,
    modified: u64,
    bucket: &str,
    locale: &str,
    config: &Config,
) -> (r: Option<Result<String, i8>>)
    requires
        (if created > 0 { created } else { modified }) / 1000 <= 8210266876799,
    ensures
        userpath is Err ==> r == Some(Err::<String, i8>(-1i8)),
        userpath matches Ok(u) ==> (r matches Some(Ok(p)) ==> exists|dir: Seq<char>| {
            &&& p@ == with_slash(u@) + dir
            &&& dated_dir(dir, upload_time(created, modified), bucket@, locale@, config@)
        }),
        userpath is Ok ==> !(r matches Some(Err(_))),
        userpath is Ok && r is None ==> undatable(upload_time(created, modified), locale@, config@),
{
    let u = match userpath {
        Ok(p) => p,
        Err(_) => {
            return Some(Err(-1));
        },
    };
    let mut path = chars_of(u.as_str());
    if !ends_with_char(&path, '/') {
        path.push('/');
    }
    assert(path@ == with_slash(u@));
    let when = if created > 0 { created } else { modified };
    match build_path_date(when, bucket, locale, config) {
        Some(d) => {
            let dc = chars_of(d.as_str());
            push_all(&mut path, &dc);
            assert(path@ == with_slash(u@) + d@);
            assert(when == upload_time(created, modified));
            assert(dated_dir(d@, upload_time(created, modified), bucket@, locale@, config@));
            let out = string_of(&path);
            assert(out@ == with_slash(u@) + d@);
            Some(Ok(out))
        },
        None => None,
    }
}

/// `s` with a `/` appended unless it already ends with one.
pub open spec fn with_slash(s: Seq<char>) -> Seq<char> {
    if s.len() > 0 && s.last() == '/' {
        s
    } else {
        s.push('/')
    }
}

/// Holds the path that the multipart reader stores an uploaded file under.
pub struct Gen {
    pub path: String,
}

impl Gen {
    /// A generator that always names `path`.
    pub fn new(path: String) -> (g: Gen)
        ensures
            g.path == path,
    {
        Gen { path }
    }
}

} // verus!

verus! {

/// The length of `s` in bytes when encoded as UTF-8.
pub open spec fn byte_len(s: Seq<char>) -> nat {
    encode_utf8(s).len()
}

/// The index of the last `c` in `s`, if any.
pub open spec fn last_index(s: Seq<char>, c: char) -> Option<int>
    decreases s.len(),
{
    if s.len() == 0 {
        None
    } else if s.last() == c {
        Some(s.len() - 1)
    } else {
        last_index(s.drop_last(), c)
    }
}

pub proof fn lemma_last_index(s: Seq<char>, c: char)
    ensures
        last_index(s, c) matches Some(k) ==> 0 <= k < s.len() && s[k] == c,
        last_index(s, c) is None ==> forall|j: int| 0 <= j < s.len() ==> s[j] != c,
    decreases s.len(),
{
    if s.len() > 0 && s.last() != c {
        lemma_last_index(s.drop_last(), c);
        assert forall|j: int| 0 <= j < s.len() - 1 implies s.drop_last()[j] == s[j] by {}
    }
}

/// The directory above `t` (which ends with `/`), as taken by splitting `t` from
/// the right at its last two `/`; `None` when `t` holds a single `/`.
pub open spec fn parent_step(t: Seq<char>) -> Option<Seq<char>> {
    let u = t.drop_last();
    match last_index(u, '/') {
        Some(k) => Some(with_slash(u.take(k))),
        None => None,
    }
}

/// The directories handed to the user, walking up from `t` while it is longer (in
/// bytes) than `limit` and is not `/`; and whether the walk ended normally (it stops
/// early at a directory with a single `/`, after handing over that directory).
pub open spec fn owner_chain(t: Seq<char>, limit: nat) -> (Seq<Seq<char>>, bool)
    decreases t.len(),
{
    if byte_len(t) > limit && t != "/"@ && t.len() > 0 {
        match parent_step(t) {
            Some(n) => {
                if n.len() < t.len() {
                    let r = owner_chain(n, limit);
                    (seq![t] + r.0, r.1)
                } else {
                    (seq![t], false)
                }
            },
            None => (seq![t], false),
        }
    } else {
        (Seq::empty(), true)
    }
}

/// The directories to hand to the user after creating `path` below the user's
/// directory `userpath`: `path` and each directory above it down to the user's
/// directory, then the user's directory itself; the second part is `false` when the
/// walk stops early at a directory with a single `/` (the user's directory is then
/// not included).
pub open spec fn owner_plan(path: Seq<char>, userpath: Seq<char>) -> (Seq<Seq<char>>, bool) {
    let c = owner_chain(with_slash(path), byte_len(with_slash(userpath)));
    if c.1 {
        (c.0.push(with_slash(userpath)), true)
    } else {
        c
    }
}

fn slash_terminated(s: &str) -> (r: Vec<char>)
    ensures
        r@ == with_slash(s@),
{
    let mut v = chars_of(s);
    if !ends_with_char(&v, '/') {
        v.push('/');
    }
    v
}

fn find_last(s: &[char], c: char) -> (r: Option<usize>)
    ensures
        r matches Some(k) ==> last_index(s@, c) == Some(k as int),
        r is None ==> last_index(s@, c) is None,
{
    let mut i: usize = s.len();
    assert(s@.take(s@.len() as int) =~= s@);
    while i > 0 && s[i - 1] != c
        invariant
            i <= s.len(),
            last_index(s@.take(i as int), c) == last_index(s@, c),
        decreases i,
    {
        assert(s@.take(i as int).drop_last() =~= s@.take(i - 1));
        i = i - 1;
    }
    if i == 0 {
        assert(s@.take(0) =~= Seq::<char>::empty());
        None
    } else {
        assert(s@.take(i as int).last() == c);
        Some(i - 1)
    }
}

/// The directories to hand over to the user after `path` was created below the
/// user's directory `userpath`, in the order in which they are handed over, and
/// whether the walk up reached the user's directory.
pub fn ownership_chain(path: &str, userpath: &str) -> (r: (Vec<String>, bool))
    ensures
        r.1 == owner_plan(path@, userpath@).1,
        r.0@.len() == owner_plan(path@, userpath@).0.len(),
        forall|i: int| 0 <= i < r.0@.len() ==> #[trigger] r.0@[i]@ == owner_plan(path@, userpath@).0[i],
{
    let user = slash_terminated(userpath);
    let user_s = string_of(&user);
    let limit = user_s.as_str().as_bytes().len();
    let root: String = "/".to_owned();
    let mut tmp = slash_terminated(path);
    let mut out: Vec<String> = Vec::new();
    let ghost done: Seq<Seq<char>> = Seq::empty();
    loop
        invariant
            limit == byte_len(with_slash(userpath@)),
            user@ == with_slash(userpath@),
            root@ == "/"@,
            out@.len() == done.len(),
            forall|i: int| 0 <= i < out@.len() ==> #[trigger] out@[i]@ == done[i],
            (done + owner_chain(tmp@, limit as nat).0, owner_chain(tmp@, limit as nat).1)
                == owner_chain(with_slash(path@), limit as nat),
        ensures
            limit == byte_len(with_slash(userpath@)),
            user@ == with_slash(userpath@),
            out@.len() == done.len(),
            forall|i: int| 0 <= i < out@.len() ==> #[trigger] out@[i]@ == done[i],
            owner_chain(with_slash(path@), limit as nat) == (done, true),
        decreases tmp@.len(),
    {
        let t = string_of(&tmp);
        if !(t.as_str().as_bytes().len() > limit && t != root && tmp.len() > 0) {
            proof {
                assert(owner_chain(tmp@, limit as nat) == (Seq::<Seq<char>>::empty(), true));
                assert(done + Seq::<Seq<char>>::empty() =~= done);
            }
            break;
        }
        let u = slice_chars(&tmp, 0, tmp.len() - 1);
        assert(u@ =~= tmp@.drop_last());
        let ghost before = tmp@;
        proof {
            lemma_last_index(u@, '/');
        }
        match find_last(&u, '/') {
            Some(k) => {
                let head = slice_chars(&u, 0, k);
                let mut next = head;
                if !ends_with_char(&next, '/') {
                    next.push('/');
                }
                proof {
                    assert(next@ == with_slash(u@.take(k as int)));
                    assert(done.push(before) + owner_chain(next@, limit as nat).0
                        =~= done + owner_chain(before, limit as nat).0);
                    done = done.push(before);
                }
                out.push(t);
                tmp = next;
            },
            None => {
                proof {
                    assert(done.push(before) =~= done + owner_chain(before, limit as nat).0);
                    done = done.push(before);
                }
                out.push(t);
                return (out, false);
            },
        }
    }
    out.push(user_s);
    proof {
        done = done.push(user@);
    }
    (out, true)
}

} // verus!

verus! {

/// Walking up from a new directory hands over only directories longer than the
/// user's directory, each shorter than the one before: the walk never leaves the
/// user's directory and never hands over a directory twice.
pub proof fn law_owner_chain_shrinks(t: Seq<char>, limit: nat)
    ensures
        forall|i: int| 0 <= i < owner_chain(t, limit).0.len() ==> byte_len(#[trigger] owner_chain(t, limit).0[i]) > limit,
        forall|i: int, j: int| 0 <= i < j < owner_chain(t, limit).0.len()
            ==> (#[trigger] owner_chain(t, limit).0[j]).len() < (#[trigger] owner_chain(t, limit).0[i]).len(),
    decreases t.len(),
{
    if byte_len(t) > limit && t != "/"@ && t.len() > 0 {
        match parent_step(t) {
            Some(n) => {
                if n.len() < t.len() {
                    law_owner_chain_shrinks(n, limit);
                    let r = owner_chain(n, limit).0;
                    law_owner_chain_starts_below(n, limit);
                    let c = seq![t] + r;
                    assert(owner_chain(t, limit).0 == c);
                    assert forall|i: int| 0 <= i < c.len() implies byte_len(#[trigger] c[i]) > limit by {
                        if i > 0 {
                            assert(c[i] == r[i - 1]);
                        }
                    }
                    assert forall|i: int, j: int| 0 <= i < j < c.len() implies (#[trigger] c[j]).len() < (#[trigger] c[i]).len() by {
                        assert(c[j] == r[j - 1]);
                        if i > 0 {
                            assert(c[i] == r[i - 1]);
                        }
                    }
                }
            },
            None => {},
        }
    }
}

proof fn law_owner_chain_starts_below(t: Seq<char>, limit: nat)
    ensures
        owner_chain(t, limit).0.len() > 0 ==> owner_chain(t, limit).0[0] == t,
        forall|i: int| 0 <= i < owner_chain(t, limit).0.len() ==> (#[trigger] owner_chain(t, limit).0[i]).len() <= t.len(),
    decreases t.len(),
{
    if byte_len(t) > limit && t != "/"@ && t.len() > 0 {
        match parent_step(t) {
            Some(n) => {
                if n.len() < t.len() {
                    law_owner_chain_starts_below(n, limit);
                    let r = owner_chain(n, limit).0;
                    let c = seq![t] + r;
                    assert forall|i: int| 0 <= i < c.len() implies (#[trigger] c[i]).len() <= t.len() by {
                        if i > 0 {
                            assert(c[i] == r[i - 1]);
                        }
                    }
                }
            },
            None => {},
        }
    }
}

} // verus!

verus! {

/// The month of a dated directory always has two digits: the directory is the
/// year, `/`, two digits whose value is the month (a `0` before months 1 to 9), a
/// space, the month's name, `/`, the bucket and `/`.
pub proof fn law_month_has_two_digits(year: i32, month: u32, name: Seq<char>, bucket: Seq<char>)
    requires
        1 <= month <= 12,
    ensures
        exists|mm: Seq<char>| {
            &&& mm.len() == 2
            &&& crate::text::all_digits(mm)
            &&& crate::text::digits_value(mm) == month
            &&& #[trigger] date_dir(year, month, name, bucket) == signed_decimal(year as int) + "/"@ + mm + " "@ + name + "/"@ + bucket + "/"@
        },
{
    reveal_strlit("0");
    let mm = if month < 10 { "0"@ + decimal(month as nat) } else { decimal(month as nat) };
    crate::text::lemma_decimal_digits(month as nat);
    if month < 10 {
        crate::text::lemma_digit_char(month as nat);
        assert(decimal(month as nat) == seq![crate::text::digit_char(month as nat)]);
        assert(mm =~= seq!['0', crate::text::digit_char(month as nat)]);
        assert(mm.drop_last() =~= seq!['0']);
        assert(seq!['0'].drop_last() =~= Seq::<char>::empty());
        assert(crate::text::digits_value(Seq::<char>::empty()) == 0);
        assert(seq!['0'].last() == '0');
        assert(crate::text::digit_value('0') == 0);
        assert(crate::text::digits_value(seq!['0']) == 0);
        assert(crate::text::digits_value(mm) == month);
        assert(crate::text::all_digits(mm));
    } else {
        assert(decimal(month as nat / 10) == seq![crate::text::digit_char(1)]);
        assert(mm.len() == 2);
    }
    assert(date_dir(year, month, name, bucket) == signed_decimal(year as int) + "/"@ + mm + " "@ + name + "/"@ + bucket + "/"@);
}

} // verus!
