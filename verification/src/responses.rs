//! The bodies of the server's responses: listings of libraries and of media, and
//! the texts of its error responses.
use vstd::prelude::*;
use crate::library::LibraryEntry;
use crate::text::{append_str, decimal, push_all, signed_decimal, string_of, u64_to_decimal, i64_to_decimal};

verus! {

/// Lines joined with `\n` between them.
pub open spec fn join_lines(lines: Seq<Seq<char>>) -> Seq<char>
    decreases lines.len(),
{
    if lines.len() == 0 {
        Seq::empty()
    } else if lines.len() == 1 {
        lines[0]
    } else {
        join_lines(lines.drop_last()) + "\n"@ + lines.last()
    }
}

/// `;` and the id of a sample, or nothing for an absent sample (`0`).
pub open spec fn thumb_part(t: u64) -> Seq<char> {
    if t > 0 {
        ";"@ + decimal(t as nat)
    } else {
        Seq::empty()
    }
}

/// The line that lists a library: `id;name;count`, then `;sample` for each present sample.
pub open spec fn library_line(e: LibraryEntry) -> Seq<char> {
    decimal(e.id as nat) + ";"@ + e.name@ + ";"@ + decimal(e.count as nat) + thumb_part(e.samples.0)
        + thumb_part(e.samples.1) + thumb_part(e.samples.2) + thumb_part(e.samples.3)
}

/// The line that lists a media file: `id;name;duration;size`.
pub open spec fn media_line(m: (u64, String, i64, u64)) -> Seq<char> {
    decimal(m.0 as nat) + ";"@ + m.1@ + ";"@ + signed_decimal(m.2 as int) + ";"@ + decimal(m.3 as nat)
}

fn push_thumb(v: &mut Vec<char>, t: u64)
    ensures
        final(v)@ == old(v)@ + thumb_part(t),
{
    if t > 0 {
        append_str(v, ";");
        push_all(v, &u64_to_decimal(t));
    } else {
        assert(old(v)@ + thumb_part(t) =~= old(v)@);
    }
}

fn library_text(e: &LibraryEntry) -> (r: Vec<char>)
    ensures
        r@ == library_line(*e),
{
    let mut v = u64_to_decimal(e.id);
    append_str(&mut v, ";");
    append_str(&mut v, e.name.as_str());
    append_str(&mut v, ";");
    push_all(&mut v, &u64_to_decimal(e.count));
    push_thumb(&mut v, e.samples.0);
    push_thumb(&mut v, e.samples.1);
    push_thumb(&mut v, e.samples.2);
    push_thumb(&mut v, e.samples.3);
    v
}

/// The listing of a user's libraries, one line each.
pub fn format_libraries(libs: &Vec<LibraryEntry>) -> (r: String)
    ensures
        r@ == join_lines(libs@.map_values(|e: LibraryEntry| library_line(e))),
{
    let ghost lines = libs@.map_values(|e: LibraryEntry| library_line(e));
    let mut out: Vec<char> = Vec::new();
    let mut i: usize = 0;
    while i < libs.len()
        invariant
            i <= libs@.len(),
            lines == libs@.map_values(|e: LibraryEntry| library_line(e)),
            out@ == join_lines(lines.take(i as int)),
        decreases libs.len() - i,
    {
        assert(lines.take(i + 1).drop_last() =~= lines.take(i as int));
        if i > 0 {
            out.push('\n');
        } else {
            assert(lines.take(1) =~= seq![lines[0]]);
        }
        let line = library_text(&libs[i]);
        push_all(&mut out, &line);
        proof {
            reveal_strlit("\n");
        }
        i = i + 1;
    }
    assert(lines.take(libs@.len() as int) =~= lines);
    string_of(&out)
}

/// The listing of the media of a library, one line each.
pub fn format_media_list(items: &Vec<(u64, String, i64, u64)>) -> (r: String)
    ensures
        r@ == join_lines(items@.map_values(|m: (u64, String, i64, u64)| media_line(m))),
{
    let ghost lines = items@.map_values(|m: (u64, String, i64, u64)| media_line(m));
    let mut out: Vec<char> = Vec::new();
    let mut i: usize = 0;
    while i < items.len()
        invariant
            i <= items@.len(),
            lines == items@.map_values(|m: (u64, String, i64, u64)| media_line(m)),
            out@ == join_lines(lines.take(i as int)),
        decreases items.len() - i,
    {
        assert(lines.take(i + 1).drop_last() =~= lines.take(i as int));
        if i > 0 {
            out.push('\n');
        } else {
            assert(lines.take(1) =~= seq![lines[0]]);
        }
        let m = &items[i];
        let mut line = u64_to_decimal(m.0);
        append_str(&mut line, ";");
        append_str(&mut line, m.1.as_str());
        append_str(&mut line, ";");
        push_all(&mut line, &i64_to_decimal(m.2));
        append_str(&mut line, ";");
        push_all(&mut line, &u64_to_decimal(m.3));
        assert(line@ == media_line(items@[i as int]));
        push_all(&mut out, &line);
        proof {
            reveal_strlit("\n");
        }
        i = i + 1;
    }
    assert(lines.take(items@.len() as int) =~= lines);
    string_of(&out)
}

/// The text logged for an internal error: `Internal server error: ` and the message.
pub fn internal_error_log(message: &str) -> (r: String)
    ensures
        r@ == "Internal server error: "@ + message@,
{
    let mut v: Vec<char> = Vec::new();
    append_str(&mut v, "Internal server error: ");
    append_str(&mut v, message);
    string_of(&v)
}

/// The body of the response to a login that matched no user, sent with status
/// `401`: the user name, the password and the URL that were given.
pub fn bad_login_message(user: &str, pass: &str, url: &str) -> (r: String)
    ensures
        r@ == "Bad Login: "@ + user@ + " with password: "@ + pass@ + " and URL: "@ + url@,
{
    let mut v: Vec<char> = Vec::new();
    append_str(&mut v, "Bad Login: ");
    append_str(&mut v, user);
    append_str(&mut v, " with password: ");
    append_str(&mut v, pass);
    append_str(&mut v, " and URL: ");
    append_str(&mut v, url);
    string_of(&v)
}

/// The body of the response for a media file that no longer exists.
pub fn gone_text() -> (r: &'static str)
    ensures
        r@ == "Object not found, it is probably gone"@,
{
    "Object not found, it is probably gone"
}

/// The body of the response to a failed login.
pub fn bad_login_text() -> (r: &'static str)
    ensures
        r@ == "Bad login"@,
{
    "Bad login"
}

/// The body of the response to an unknown URL.
pub fn url_not_found_text() -> (r: &'static str)
    ensures
        r@ == "URL not found"@,
{
    "URL not found"
}

} // verus!

verus! {

/// The number of times `c` occurs in `s`.
pub open spec fn count_of(s: Seq<char>, c: char) -> nat
    decreases s.len(),
{
    if s.len() == 0 {
        0
    } else {
        count_of(s.drop_last(), c) + if s.last() == c { 1nat } else { 0nat }
    }
}

proof fn lemma_count_concat(a: Seq<char>, b: Seq<char>, c: char)
    ensures
        count_of(a + b, c) == count_of(a, c) + count_of(b, c),
    decreases b.len(),
{
    if b.len() > 0 {
        lemma_count_concat(a, b.drop_last(), c);
        assert((a + b).drop_last() =~= a + b.drop_last());
    } else {
        assert(a + b =~= a);
    }
}

proof fn lemma_count_decimal(n: nat)
    ensures
        count_of(decimal(n), ';') == 0,
    decreases n,
{
    if n >= 10 {
        lemma_count_decimal(n / 10);
        assert(decimal(n).drop_last() =~= decimal(n / 10));
        crate::text::lemma_digit_char(n % 10);
        assert(decimal(n).last() == crate::text::digit_char(n % 10));
        assert(decimal(n).last() != ';');
    } else {
        crate::text::lemma_digit_char(n);
        assert(decimal(n).drop_last() =~= Seq::<char>::empty());
        assert(count_of(Seq::<char>::empty(), ';') == 0);
        assert(decimal(n).last() != ';');
    }
}

proof fn lemma_count_semicolon()
    ensures
        count_of(";"@, ';') == 1,
{
    reveal_strlit(";");
    assert(";"@ =~= seq![';']);
    assert(";"@.drop_last() =~= Seq::<char>::empty());
    assert(count_of(Seq::<char>::empty(), ';') == 0);
    assert(";"@.last() == ';');
}

proof fn lemma_count_thumb(t: u64)
    ensures
        count_of(thumb_part(t), ';') == if t > 0 { 1nat } else { 0nat },
{
    if t > 0 {
        lemma_count_semicolon();
        lemma_count_decimal(t as nat);
        lemma_count_concat(";"@, decimal(t as nat), ';');
    } else {
        assert(count_of(Seq::<char>::empty(), ';') == 0);
    }
}

/// The number of samples of an entry that are present (non-zero).
pub open spec fn present_samples(e: LibraryEntry) -> nat {
    (if e.samples.0 > 0 { 1nat } else { 0nat }) + (if e.samples.1 > 0 { 1nat } else { 0nat })
        + (if e.samples.2 > 0 { 1nat } else { 0nat }) + (if e.samples.3 > 0 { 1nat } else { 0nat })
}

/// A library's line has one `;` after the id, one after the name and one before
/// each present sample, all four of them counted: for a name without `;`, the line
/// holds exactly two more `;` than the entry has samples. When all four samples are
/// present the line ends with them, in order, each after a `;`; and it always ends
/// with the last present sample.
pub proof fn law_library_line_lists_samples(e: LibraryEntry)
    ensures
        count_of(e.name@, ';') == 0 ==> count_of(library_line(e), ';') == 2 + present_samples(e),
        (e.samples.0 > 0 && e.samples.1 > 0 && e.samples.2 > 0 && e.samples.3 > 0) ==> crate::text::has_suffix(
            library_line(e),
            ";"@ + decimal(e.samples.0 as nat) + ";"@ + decimal(e.samples.1 as nat) + ";"@ + decimal(e.samples.2 as nat)
                + ";"@ + decimal(e.samples.3 as nat),
        ),
        e.samples.3 > 0 ==> crate::text::has_suffix(library_line(e), ";"@ + decimal(e.samples.3 as nat)),
        crate::text::has_prefix(library_line(e), decimal(e.id as nat) + ";"@ + e.name@ + ";"@ + decimal(e.count as nat)),
{
    let a = decimal(e.id as nat);
    let b = decimal(e.count as nat);
    let t0 = thumb_part(e.samples.0);
    let t1 = thumb_part(e.samples.1);
    let t2 = thumb_part(e.samples.2);
    let t3 = thumb_part(e.samples.3);
    let head = a + ";"@ + e.name@ + ";"@ + b;
    assert(library_line(e) == head + t0 + t1 + t2 + t3);
    lemma_count_decimal(e.id as nat);
    lemma_count_decimal(e.count as nat);
    lemma_count_semicolon();
    lemma_count_thumb(e.samples.0);
    lemma_count_thumb(e.samples.1);
    lemma_count_thumb(e.samples.2);
    lemma_count_thumb(e.samples.3);
    lemma_count_concat(a, ";"@, ';');
    lemma_count_concat(a + ";"@, e.name@, ';');
    lemma_count_concat(a + ";"@ + e.name@, ";"@, ';');
    lemma_count_concat(a + ";"@ + e.name@ + ";"@, b, ';');
    lemma_count_concat(head, t0, ';');
    lemma_count_concat(head + t0, t1, ';');
    lemma_count_concat(head + t0 + t1, t2, ';');
    lemma_count_concat(head + t0 + t1 + t2, t3, ';');
    let line = library_line(e);
    assert(line =~= head + (t0 + t1 + t2 + t3));
    assert(line.take(head.len() as int) =~= head);
    if e.samples.0 > 0 && e.samples.1 > 0 && e.samples.2 > 0 && e.samples.3 > 0 {
        let tail = t0 + t1 + t2 + t3;
        assert(tail =~= ";"@ + decimal(e.samples.0 as nat) + ";"@ + decimal(e.samples.1 as nat) + ";"@
            + decimal(e.samples.2 as nat) + ";"@ + decimal(e.samples.3 as nat));
        assert(line =~= head + tail);
        assert(line.skip(line.len() - tail.len()) =~= tail);
    }
    if e.samples.3 > 0 {
        assert(line =~= (head + t0 + t1 + t2) + t3);
        assert(line.skip(line.len() - t3.len()) =~= t3);
    }
}

} // verus!
