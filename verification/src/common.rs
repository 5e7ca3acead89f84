//! Shared helpers: the clock, log messages, the locale, program lookup and file modes.
use vstd::prelude::*;
use crate::text::{
    after_first, append_str, before_first, chars_of, decimal, find_char, first_index,
    has_prefix, lemma_first_index, push_all, slice_chars, split_all, split_chars, starts_with,
    string_of, trim, trim_char, trim_chars, trim_matching, u64_to_decimal,
};

verus! {

/// `time::get_time()`: the current wall-clock time as seconds and nanoseconds since
/// the Unix epoch. The time crate builds its `Timespec` through `Timespec::new`,
/// which asserts `0 <= nsec < 1_000_000_000`; nothing more is claimed about the
/// value, which is the machine's clock.
#[verifier::external_body]
fn clock_now() -> (t: (i64, i32))
    ensures
        0 <= t.1 < 1_000_000_000,
{
    let ts = time::get_time();
    (ts.sec, ts.nsec)
}

/// Milliseconds since the epoch for a time given as seconds and nanoseconds,
/// computed in `u64` arithmetic that wraps on overflow.
pub open spec fn millis_of(sec: i64, nsec: i32) -> u64 {
    vstd::wrapping::u64_specs::wrapping_add(
        vstd::wrapping::u64_specs::wrapping_mul(sec as u64, 1000),
        (nsec / 1_000_000) as u64,
    )
}

/// Milliseconds since the epoch of the time `sec` seconds and `nsec` nanoseconds.
pub fn millis_from_timespec(sec: i64, nsec: i32) -> (r: u64)
    requires
        0 <= nsec,
    ensures
        r == millis_of(sec, nsec),
{
    (sec as u64).wrapping_mul(1000).wrapping_add((nsec / 1_000_000) as u64)
}

/// The current time in milliseconds since the Unix epoch.
pub fn current_time_millis() -> (r: u64)
    ensures
        exists|sec: i64, nsec: i32| 0 <= nsec < 1_000_000_000 && r == millis_of(sec, nsec),
{
    let (sec, nsec) = clock_now();
    millis_from_timespec(sec, nsec)
}

/// The message logged for an event: `prefix`, then the file, function, line and text.
pub open spec fn log_message(
    prefix: Seq<char>,
    file: Seq<char>,
    function: Seq<char>,
    line: u32,
    text: Seq<char>,
) -> Seq<char> {
    prefix + file + ", function "@ + function + " at line "@ + decimal(line as nat)
        + " with message "@ + text
}

fn build_log_message(prefix: &str, file: &str, function: &str, line: u32, text: &str) -> (m: String)
    ensures
        m@ == log_message(prefix@, file@, function@, line, text@),
{
    let mut v: Vec<char> = Vec::new();
    append_str(&mut v, prefix);
    append_str(&mut v, file);
    append_str(&mut v, ", function ");
    append_str(&mut v, function);
    append_str(&mut v, " at line ");
    let digits = u64_to_decimal(line as u64);
    push_all(&mut v, &digits);
    append_str(&mut v, " with message ");
    append_str(&mut v, text);
    string_of(&v)
}

/// The informational message for an event in `file`, `function`, at `line`.
pub fn log_info(file: &str, function: &str, line: u32, error: &str) -> (m: String)
    ensures
        m@ == log_message("Info from "@, file@, function@, line, error@),
{
    build_log_message("Info from ", file, function, line, error)
}

/// The error message for an event in `file`, `function`, at `line`.
pub fn log_error(file: &str, function: &str, line: u32, error: &str) -> (m: String)
    ensures
        m@ == log_message("Error in "@, file@, function@, line, error@),
{
    build_log_message("Error in ", file, function, line, error)
}

/// The debug message for an event in `file`, `function`, at `line`.
pub fn log_debug(file: &str, function: &str, line: u32, error: &str) -> (m: String)
    ensures
        m@ == log_message("Debug message from "@, file@, function@, line, error@),
{
    build_log_message("Debug message from ", file, function, line, error)
}

/// The locale named by a `LANG=` line: what follows `LANG=`, trimmed, without
/// surrounding newlines and double quotes.
pub open spec fn lang_value(line: Seq<char>) -> Seq<char> {
    trim_char(trim_char(trim(trim(line).skip(5)), '\n'), '"')
}

/// The value of the first line of `s` whose trimmed text begins with `LANG=`.
pub open spec fn lang_in(s: Seq<char>) -> Option<Seq<char>>
    decreases s.len(),
{
    let line = before_first(s, '\n');
    if has_prefix(trim(line), "LANG="@) {
        Some(lang_value(line))
    } else if first_index(s, '\n') < s.len() {
        proof {
            lemma_first_index(s, '\n');
        }
        lang_in(after_first(s, '\n'))
    } else {
        None
    }
}

/// The locale that the output of the `locale` program names, `en` when no line sets `LANG`.
pub open spec fn locale_of_output(s: Seq<char>) -> Seq<char> {
    match lang_in(s) {
        Some(l) => l,
        None => "en"@,
    }
}

/// The locale named in the output of the `locale` program: the value of its first
/// `LANG=` line, or `en`.
pub fn locale_from_output(output: &str) -> (r: String)
    ensures
        r@ == locale_of_output(output@),
{
    let prefix = chars_of("LANG=");
    proof {
        reveal_strlit("LANG=");
    }
    let mut rest = chars_of(output);
    loop
        invariant
            prefix@ == "LANG="@,
            prefix@.len() == 5,
            lang_in(rest@) == lang_in(output@),
        decreases rest@.len(),
    {
        let k = find_char(&rest, '\n');
        let line = slice_chars(&rest, 0, k);
        let trimmed = trim_chars(&line);
        proof {
            assert(line@ =~= before_first(rest@, '\n'));
        }
        if starts_with(&trimmed, &prefix) {
            let after = slice_chars(&trimmed, 5, trimmed.len());
            assert(after@ =~= trim(line@).skip(5));
            let a = trim_chars(&after);
            let b = trim_matching(&a, '\n');
            let c = trim_matching(&b, '"');
            return string_of(&c);
        }
        if k < rest.len() {
            let next = slice_chars(&rest, k + 1, rest.len());
            proof {
                assert(next@ =~= after_first(rest@, '\n'));
            }
            rest = next;
        } else {
            return "en".to_owned();
        }
    }
}

/// The places where a program named `program` may be found, one per entry of the
/// colon-separated search path `path`: the entry, `/`, and the name.
pub fn program_candidates(path: &str, program: &str) -> (r: Vec<String>)
    ensures
        r@.len() == split_all(path@, ':').len(),
        forall|i: int| 0 <= i < r@.len() ==> #[trigger] r@[i]@ == split_all(path@, ':')[i]
            + "/"@ + program@,
{
    let p = chars_of(path);
    let dirs = split_chars(&p, ':');
    let mut r: Vec<String> = Vec::new();
    let mut i: usize = 0;
    while i < dirs.len()
        invariant
            i <= dirs@.len(),
            dirs@.len() == split_all(path@, ':').len(),
            forall|j: int| 0 <= j < dirs@.len() ==> #[trigger] dirs@[j]@ == split_all(path@, ':')[j],
            r@.len() == i,
            forall|j: int| 0 <= j < i ==> #[trigger] r@[j]@ == split_all(path@, ':')[j] + "/"@
                + program@,
        decreases dirs.len() - i,
    {
        let mut v: Vec<char> = Vec::new();
        push_all(&mut v, &dirs[i]);
        append_str(&mut v, "/");
        append_str(&mut v, program);
        r.push(string_of(&v));
        i = i + 1;
    }
    r
}

/// The argument that hands a file to `user` and `group`: `user:group`.
pub fn owner_argument(user: &str, group: &str) -> (r: String)
    ensures
        r@ == user@ + ":"@ + group@,
{
    let mut v: Vec<char> = Vec::new();
    append_str(&mut v, user);
    append_str(&mut v, ":");
    append_str(&mut v, group);
    string_of(&v)
}

/// The permission bits given to a file or directory: group access only when the
/// owner's files are visible to the group, execute bits only for directories.
pub fn file_mode(is_dir: bool, visible: bool) -> (r: &'static str)
    ensures
        r@ == (if is_dir {
            if visible { "770"@ } else { "700"@ }
        } else {
            if visible { "660"@ } else { "600"@ }
        }),
{
    if is_dir {
        if visible { "770" } else { "700" }
    } else {
        if visible { "660" } else { "600" }
    }
}

} // verus!
