//! Request handling of the plain HTTP front end: which handler a URL goes to, the
//! credentials and byte range in the headers, media ids in URLs, the status and
//! range headers of a media response, and the cleaning of uploaded text lines.
use vstd::prelude::*;
use crate::auth::{basic_credentials, decoded_credentials, split_user_pass, Credentials};
use crate::text::{
    before_first, chars_of, decimal, ends_with, find_char, first_index, has_prefix,
    has_suffix, parse_u64, parse_u64_spec, push_all, slice_chars, split_all, split_chars,
    starts_with, string_of, strip_suffix_all, strip_suffix_repeatedly, trim, trim_char,
    trim_chars, trim_matching, append_str, u64_to_decimal,
};

verus! {

/// The handler that a request goes to.
#[derive(PartialEq, Eq, Structural, Clone, Copy)]
pub enum Route {
    MediaUrl,
    StreamMedia,
    Echo,
    Libraries,
    LibraryMedia,
    MediaThumb,
    MediaInfo,
    MediaStream,
    Upload,
    UploadMultipart,
    Search,
    GetLastSync,
    SetLastSync,
    NotFound,
}

/// The handler for `url`: URLs under `/media/load/` and `/media/stream/` by prefix,
/// the others by their exact text.
pub open spec fn route_of(url: Seq<char>) -> Route {
    if has_prefix(url, "/media/load/"@) {
        Route::MediaUrl
    } else if has_prefix(url, "/media/stream/"@) {
        Route::StreamMedia
    } else if url == "/test/echo"@ || url == "/pulse"@ {
        Route::Echo
    } else if url == "/library/all"@ {
        Route::Libraries
    } else if url == "/library/media"@ {
        Route::LibraryMedia
    } else if url == "/media/thumb"@ {
        Route::MediaThumb
    } else if url == "/media/info"@ {
        Route::MediaInfo
    } else if url == "/media/load"@ {
        Route::MediaStream
    } else if url == "/media/upload"@ {
        Route::Upload
    } else if url == "/media/upload/ios"@ {
        Route::UploadMultipart
    } else if url == "/media/search"@ {
        Route::Search
    } else if url == "/lastsync/get"@ {
        Route::GetLastSync
    } else if url == "/lastsync/set"@ {
        Route::SetLastSync
    } else {
        Route::NotFound
    }
}

/// The handler that a request for `url` goes to.
pub fn route(url: &str) -> (r: Route)
    ensures
        r == route_of(url@),
{
    let u = chars_of(url);
    let s: String = url.to_owned();
    if starts_with(&u, &chars_of("/media/load/")) {
        Route::MediaUrl
    } else if starts_with(&u, &chars_of("/media/stream/")) {
        Route::StreamMedia
    } else if s == "/test/echo".to_owned() || s == "/pulse".to_owned() {
        Route::Echo
    } else if s == "/library/all".to_owned() {
        Route::Libraries
    } else if s == "/library/media".to_owned() {
        Route::LibraryMedia
    } else if s == "/media/thumb".to_owned() {
        Route::MediaThumb
    } else if s == "/media/info".to_owned() {
        Route::MediaInfo
    } else if s == "/media/load".to_owned() {
        Route::MediaStream
    } else if s == "/media/upload".to_owned() {
        Route::Upload
    } else if s == "/media/upload/ios".to_owned() {
        Route::UploadMultipart
    } else if s == "/media/search".to_owned() {
        Route::Search
    } else if s == "/lastsync/get".to_owned() {
        Route::GetLastSync
    } else if s == "/lastsync/set".to_owned() {
        Route::SetLastSync
    } else {
        Route::NotFound
    }
}

/// The first byte requested by a `Range` header value: the number after `bytes=`
/// and before the first `-` (or before a final `-`); `0` when it is not a number.
pub open spec fn range_start(value: Seq<char>) -> u64 {
    let coded = if has_prefix(value, "bytes="@) { value.skip(6) } else { Seq::empty() };
    let digits = if has_suffix(coded, "-"@) { coded.drop_last() } else { before_first(coded, '-') };
    match parse_u64_spec(digits) {
        Some(n) => n,
        None => 0,
    }
}

/// The first byte that the `Range` header value `value` asks for.
pub fn parse_range(value: &str) -> (r: u64)
    ensures
        r == range_start(value@),
{
    let v = chars_of(value);
    let prefix = chars_of("bytes=");
    proof {
        reveal_strlit("bytes=");
    }
    let coded = if starts_with(&v, &prefix) {
        slice_chars(&v, 6, v.len())
    } else {
        Vec::new()
    };
    assert(coded@ =~= (if has_prefix(value@, "bytes="@) { value@.skip(6) } else { Seq::<char>::empty() }));
    let dash = chars_of("-");
    proof {
        reveal_strlit("-");
    }
    let digits = if ends_with(&coded, &dash) {
        slice_chars(&coded, 0, coded.len() - 1)
    } else {
        let k = find_char(&coded, '-');
        slice_chars(&coded, 0, k)
    };
    assert(digits@ =~= (if has_suffix(coded@, "-"@) { coded@.drop_last() } else { before_first(coded@, '-') }));
    match parse_u64(&digits) {
        Some(n) => n,
        None => 0,
    }
}

/// The segments of a URL path: the URL without leading and trailing `/`, split at `/`.
pub open spec fn url_segments(url: Seq<char>) -> Seq<Seq<char>> {
    split_all(trim_char(url, '/'), '/')
}

fn segments(url: &str) -> (r: Vec<Vec<char>>)
    ensures
        r@.len() == url_segments(url@).len(),
        forall|i: int| 0 <= i < r@.len() ==> #[trigger] r@[i]@ == url_segments(url@)[i],
{
    let u = chars_of(url);
    let t = trim_matching(&u, '/');
    split_chars(&t, '/')
}

/// The media id in a URL of the form `/media/load/<id>/...`: the third segment read
/// as a number; `None` when there are fewer than three segments or it is not a number.
pub fn media_url_id(url: &str) -> (r: Option<u64>)
    ensures
        url_segments(url@).len() > 2 ==> r == parse_u64_spec(url_segments(url@)[2]),
        url_segments(url@).len() <= 2 ==> r is None,
{
    let segs = segments(url);
    if segs.len() > 2 {
        parse_u64(&segs[2])
    } else {
        None
    }
}

/// The media id and the requested file in a URL of the form
/// `/media/stream/<id>/<file>`: the third segment read as a number and the fourth;
/// `None` when there are fewer than four segments or the id is not a number.
pub fn stream_target(url: &str) -> (r: Option<(u64, String)>)
    ensures
        url_segments(url@).len() > 3 ==> match parse_u64_spec(url_segments(url@)[2]) {
            Some(id) => r matches Some(t) && t.0 == id && t.1@ == url_segments(url@)[3],
            None => r is None,
        },
        url_segments(url@).len() <= 3 ==> r is None,
{
    let segs = segments(url);
    if segs.len() > 3 {
        match parse_u64(&segs[2]) {
            Some(id) => Some((id, string_of(&segs[3]))),
            None => None,
        }
    } else {
        None
    }
}

/// Whether the requested streaming file is the streaming description (`mpd`)
/// rather than a segment.
pub fn is_description_request(name: &str) -> (b: bool)
    ensures
        b == (name@ == "mpd"@),
{
    let n: String = name.to_owned();
    n == "mpd".to_owned()
}

/// The status and headers of a media response that starts at byte `range` of a file
/// of `length` bytes: `200` for the whole file, `206` for a part, `416` when the
/// start is at or past the end; the number of bytes sent; and the `Content-Range`
/// value `bytes <range>-<length>`.
pub fn range_response(range: u64, length: u64) -> (r: (u16, u64, String))
    requires
        range <= length,
    ensures
        r.0 == (if range >= length { 416u16 } else if range > 0 { 206u16 } else { 200u16 }),
        r.1 == length - range,
        r.2@ == "bytes "@ + decimal(range as nat) + "-"@ + decimal(length as nat),
{
    let mut status: u16 = 200;
    if range > 0 {
        status = 206;
    }
    if range >= length {
        status = 416;
    }
    let mut v: Vec<char> = Vec::new();
    append_str(&mut v, "bytes ");
    push_all(&mut v, &u64_to_decimal(range));
    append_str(&mut v, "-");
    push_all(&mut v, &u64_to_decimal(length));
    (status, length - range, string_of(&v))
}

/// What the headers of a request give: the user name and password, and the first
/// byte requested.
pub struct RequestInfo {
    pub user: String,
    pub pass: String,
    pub range: u64,
}

/// The state of reading the headers: user name and password so far, the range, and
/// whether a `Range` header was seen.
pub struct ScanState {
    pub user: Seq<char>,
    pub pass: Seq<char>,
    pub range: u64,
    pub found: bool,
}

/// The state before any header is read.
pub open spec fn initial_scan() -> ScanState {
    ScanState { user: Seq::empty(), pass: Seq::empty(), range: 0, found: false }
}

/// Reading one header: an `Authorization` header that decodes appends its user name
/// and password (`None` when its text has no `:`); a `Range` header sets the range.
pub open spec fn scan_header(st: ScanState, field: Seq<char>, value: Seq<char>) -> Option<ScanState> {
    if field == "Authorization"@ {
        match decoded_credentials(value) {
            None => Some(st),
            Some(text) => if first_index(text, ':') < text.len() {
                Some(ScanState {
                    user: st.user + split_user_pass(text).0,
                    pass: st.pass + split_user_pass(text).1,
                    ..st
                })
            } else {
                None
            },
        }
    } else if field == "Range"@ {
        Some(ScanState { range: range_start(value), found: true, ..st })
    } else {
        Some(st)
    }
}

/// Reading the headers in order until a range and non-empty credentials are known;
/// `None` when an `Authorization` header decodes to text without `:`.
pub open spec fn scan_headers(hs: Seq<(Seq<char>, Seq<char>)>, st: ScanState) -> Option<ScanState>
    decreases hs.len(),
{
    if hs.len() == 0 {
        Some(st)
    } else {
        match scan_header(st, hs[0].0, hs[0].1) {
            None => None,
            Some(next) => if next.found && next.user.len() > 0 && next.pass.len() > 0 {
                Some(next)
            } else {
                scan_headers(hs.skip(1), next)
            },
        }
    }
}

/// The view of a list of headers.
pub open spec fn headers_view(hs: Seq<(String, String)>) -> Seq<(Seq<char>, Seq<char>)> {
    hs.map_values(|h: (String, String)| (h.0@, h.1@))
}

/// The credentials and range in the headers of a request (field, value). `None`
/// where the request thread stops because an `Authorization` header decodes to
/// text without `:`.
pub fn request_credentials(headers: &Vec<(String, String)>) -> (r: Option<RequestInfo>)
    ensures
        match scan_headers(headers_view(headers@), initial_scan()) {
            None => r is None,
            Some(st) => r matches Some(info) && info.user@ == st.user && info.pass@ == st.pass
                && info.range == st.range,
        },
{
    let ghost hv = headers_view(headers@);
    let ghost init = initial_scan();
    let authorization: String = "Authorization".to_owned();
    let range_field: String = "Range".to_owned();
    proof {
        reveal_strlit("Authorization");
        reveal_strlit("Range");
    }
    let mut user: Vec<char> = Vec::new();
    let mut pass: Vec<char> = Vec::new();
    let mut range: u64 = 0;
    let mut found = false;
    let mut i: usize = 0;
    assert(ScanState { user: user@, pass: pass@, range, found } == init) by {
        assert(user@ =~= Seq::<char>::empty());
        assert(pass@ =~= Seq::<char>::empty());
    }
    assert(hv.skip(0) =~= hv);
    while i < headers.len()
        invariant
            i <= headers@.len(),
            hv == headers_view(headers@),
            init == initial_scan(),
            authorization@ == "Authorization"@,
            range_field@ == "Range"@,
            scan_headers(hv.skip(i as int), ScanState { user: user@, pass: pass@, range, found })
                == scan_headers(hv, init),
        decreases headers.len() - i,
    {
        let ghost st = ScanState { user: user@, pass: pass@, range, found };
        assert(hv.skip(i as int)[0] == (headers@[i as int].0@, headers@[i as int].1@));
        assert(hv.skip(i as int).skip(1) =~= hv.skip(i + 1));
        let field = &headers[i].0;
        let value = &headers[i].1;
        let ghost fv = field@;
        let ghost vv = value@;
        if *field == authorization {
            match basic_credentials(value.as_str()) {
                Err(_) => {
                    assert(decoded_credentials(vv) is None);
                },
                Ok(Credentials::Parsed(u, p)) => {
                    append_str(&mut user, u.as_str());
                    append_str(&mut pass, p.as_str());
                },
                Ok(Credentials::NoSeparator) => {
                    assert(scan_header(st, hv.skip(i as int)[0].0, hv.skip(i as int)[0].1) is None);
                    assert(scan_headers(hv.skip(i as int), st) is None);
                    return None;
                },
            }
        }
        if *field == range_field {
            found = true;
            range = parse_range(value.as_str());
        }
        proof {
            assert(hv.skip(i as int)[0].0 == fv);
            assert(hv.skip(i as int)[0].1 == vv);
            reveal_strlit("Authorization");
            reveal_strlit("Range");
            assert("Authorization"@.len() != "Range"@.len());
            if fv == "Authorization"@ {
                assert(scan_header(st, fv, vv) == Some(ScanState { user: user@, pass: pass@, range, found }));
            } else if fv == "Range"@ {
                assert(scan_header(st, fv, vv) == Some(ScanState { user: user@, pass: pass@, range, found }));
            } else {
                assert(scan_header(st, fv, vv) == Some(ScanState { user: user@, pass: pass@, range, found }));
            }
        }
        if found && user.len() > 0 && pass.len() > 0 {
            return Some(RequestInfo { user: string_of(&user), pass: string_of(&pass), range });
        }
        i = i + 1;
    }
    assert(hv.skip(i as int) =~= Seq::<(Seq<char>, Seq<char>)>::empty());
    Some(RequestInfo { user: string_of(&user), pass: string_of(&pass), range })
}

/// A line of the plain upload format, cleaned: trimmed, then stripped of trailing
/// newlines, carriage returns, and literal `\n` and `\r` sequences, in that order.
pub open spec fn sanitized(s: Seq<char>) -> Seq<char> {
    strip_suffix_repeatedly(
        strip_suffix_repeatedly(
            strip_suffix_repeatedly(strip_suffix_repeatedly(trim(s), "\n"@), "\r"@),
            "\\n"@,
        ),
        "\\r"@,
    )
}

/// A line of the plain upload format, cleaned of surrounding white space and of
/// trailing line ends, including escaped ones.
pub fn sanitize(string: String) -> (r: String)
    ensures
        r@ == sanitized(string@),
{
    let s = chars_of(string.as_str());
    let t = trim_chars(&s);
    let nl = chars_of("\n");
    let cr = chars_of("\r");
    let esc_nl = chars_of("\\n");
    let esc_cr = chars_of("\\r");
    proof {
        reveal_strlit("\n");
        reveal_strlit("\r");
        reveal_strlit("\\n");
        reveal_strlit("\\r");
    }
    let a = strip_suffix_all(&t, &nl);
    let b = strip_suffix_all(&a, &cr);
    let c = strip_suffix_all(&b, &esc_nl);
    let d = strip_suffix_all(&c, &esc_cr);
    string_of(&d)
}

} // verus!

verus! {

/// A line that is already clean is kept as it is: no white space at either end and
/// no trailing newline, carriage return or escaped one.
pub proof fn law_clean_line_kept(s: Seq<char>)
    requires
        s.len() > 0 ==> !crate::text::is_white_space(s[0]) && !crate::text::is_white_space(s.last()),
        !has_suffix(s, "\\n"@),
        !has_suffix(s, "\\r"@),
    ensures
        sanitized(s) == s,
{
    reveal_strlit("\n");
    reveal_strlit("\r");
    let p = crate::text::strip_pred(None);
    assert(crate::text::strip_leading(s, p) == s);
    assert(crate::text::strip_trailing(s, p) == s);
    if s.len() > 0 {
        assert(s.skip(s.len() - 1) =~= seq![s.last()]);
        assert(!has_suffix(s, "\n"@)) by {
            if has_suffix(s, "\n"@) {
                assert(s.skip(s.len() - 1)[0] == '\n');
            }
        }
        assert(!has_suffix(s, "\r"@)) by {
            if has_suffix(s, "\r"@) {
                assert(s.skip(s.len() - 1)[0] == '\r');
            }
        }
    }
}

} // verus!

verus! {

/// What the plain front end makes of the credential lookup of a request: the user's
/// id when it succeeded; status `401` with [`crate::responses::bad_login_message`]
/// when no user matched (`-5`); status `500` with `Error while verifying login`
/// for any other failure.
pub fn login_reply(lookup: Result<u64, i8>, user: &str, pass: &str, url: &str) -> (r: Result<u64, (u16, String)>)
    ensures
        match lookup {
            Ok(id) => r == Ok::<u64, (u16, String)>(id),
            Err(e) => r matches Err(reply) && if e == -5 {
                reply.0 == 401 && reply.1@ == "Bad Login: "@ + user@ + " with password: "@ + pass@ + " and URL: "@ + url@
            } else {
                reply.0 == 500 && reply.1@ == "Error while verifying login"@
            },
        },
{
    match lookup {
        Ok(id) => Ok(id),
        Err(-5) => Err((401, crate::responses::bad_login_message(user, pass, url))),
        Err(_) => Err((500, "Error while verifying login".to_owned())),
    }
}

} // verus!
