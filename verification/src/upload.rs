//! Uploads: reading the fields that come with an uploaded file, and where the file
//! is stored while and after it arrives.
use vstd::prelude::*;
use crate::network::{sanitize, sanitized};
use crate::text::{
    append_str, chars_of, decimal, ends_with, ends_with_char, has_suffix, parse_i64,
    parse_i64_spec, parse_u64, parse_u64_spec, push_all, string_of, u64_to_decimal,
};

verus! {

/// A value of a field of the multipart upload form.
pub enum FormValue {
    Text(String),
    Int(i64),
    /// A floating-point value, as the bits of an `f64`.
    FloatBits(u64),
    /// A value of another kind (such as a file).
    Other,
}

/// The fields that come with an uploaded file.
pub struct UploadInfo {
    pub bucket: String,
    pub filename: String,
    pub created: u64,
    pub modified: u64,
    pub latitude_bits: u64,
    pub longitude_bits: u64,
    pub h_res: u64,
    pub v_res: u64,
    pub size: u64,
    pub duration: i64,
}

/// The value of the field named `key`, if the form has one (the first such field).
pub open spec fn form_field(fields: Seq<(String, FormValue)>, key: Seq<char>) -> Option<FormValue>
    decreases fields.len(),
{
    if fields.len() == 0 {
        None
    } else if fields[0].0@ == key {
        Some(fields[0].1)
    } else {
        form_field(fields.skip(1), key)
    }
}

fn find_field<'a>(fields: &'a Vec<(String, FormValue)>, key: &str) -> (r: Option<&'a FormValue>)
    ensures
        match form_field(fields@, key@) {
            Some(v) => r == Some(&v),
            None => r is None,
        },
{
    let k: String = key.to_owned();
    let mut i: usize = 0;
    assert(fields@.skip(0) =~= fields@);
    while i < fields.len()
        invariant
            k@ == key@,
            i <= fields@.len(),
            form_field(fields@.skip(i as int), key@) == form_field(fields@, key@),
        decreases fields.len() - i,
    {
        assert(fields@.skip(i as int).skip(1) =~= fields@.skip(i + 1));
        if fields[i].0 == k {
            return Some(&fields[i].1);
        }
        i = i + 1;
    }
    assert(fields@.skip(i as int) =~= Seq::<(String, FormValue)>::empty());
    None
}

/// The fields of an upload, viewed.
pub struct UploadView {
    pub bucket: Seq<char>,
    pub filename: Seq<char>,
    pub created: u64,
    pub modified: u64,
    pub latitude_bits: u64,
    pub longitude_bits: u64,
    pub h_res: u64,
    pub v_res: u64,
    pub size: u64,
    pub duration: i64,
}

impl UploadInfo {
    pub open spec fn view(&self) -> UploadView {
        UploadView {
            bucket: self.bucket@,
            filename: self.filename@,
            created: self.created,
            modified: self.modified,
            latitude_bits: self.latitude_bits,
            longitude_bits: self.longitude_bits,
            h_res: self.h_res,
            v_res: self.v_res,
            size: self.size,
            duration: self.duration,
        }
    }
}

/// What the upload handler makes of the form fields: `Err` with the message of the
/// first field that is missing or of the wrong kind (in the order Created, Modified,
/// Latitude, Longitude, h_res, v_res, Size, Duration, Filename); a Bucket of the
/// wrong kind is reported first, while a missing Bucket leaves the bucket empty.
/// Integer times, resolutions and sizes are taken as `u64` by two's complement.
pub open spec fn upload_fields_spec(fields: Seq<(String, FormValue)>) -> Result<UploadView, Seq<char>> {
    let bucket = form_field(fields, "Bucket"@);
    let created = form_field(fields, "Created"@);
    let modified = form_field(fields, "Modified"@);
    let latitude = form_field(fields, "Latitude"@);
    let longitude = form_field(fields, "Longitude"@);
    let h_res = form_field(fields, "h_res"@);
    let v_res = form_field(fields, "v_res"@);
    let size = form_field(fields, "Size"@);
    let duration = form_field(fields, "Duration"@);
    let filename = form_field(fields, "Filename"@);
    if bucket is Some && !(bucket->0 is Text) {
        Err("Could not read bucket"@)
    } else if !(created matches Some(FormValue::Int(_))) {
        Err("Could not read created timestamp"@)
    } else if !(modified matches Some(FormValue::Int(_))) {
        Err("Could not read modified timestamp"@)
    } else if !(latitude matches Some(FormValue::FloatBits(_))) {
        Err("Could not read latitude"@)
    } else if !(longitude matches Some(FormValue::FloatBits(_))) {
        Err("Could not read longitude"@)
    } else if !(h_res matches Some(FormValue::Int(_))) {
        Err("Could not read horizontal resolution"@)
    } else if !(v_res matches Some(FormValue::Int(_))) {
        Err("Could not read vertical resolution"@)
    } else if !(size matches Some(FormValue::Int(_))) {
        Err("Could not read filesize"@)
    } else if !(duration matches Some(FormValue::Int(_))) {
        Err("Could not read video duration"@)
    } else if !(filename matches Some(FormValue::Text(_))) {
        Err("Could not read filename"@)
    } else {
        Ok(UploadView {
            bucket: match bucket {
                Some(FormValue::Text(b)) => b@,
                _ => Seq::empty(),
            },
            filename: match filename {
                Some(FormValue::Text(f)) => f@,
                _ => Seq::empty(),
            },
            created: match created { Some(FormValue::Int(v)) => v as u64, _ => 0 },
            modified: match modified { Some(FormValue::Int(v)) => v as u64, _ => 0 },
            latitude_bits: match latitude { Some(FormValue::FloatBits(v)) => v, _ => 0 },
            longitude_bits: match longitude { Some(FormValue::FloatBits(v)) => v, _ => 0 },
            h_res: match h_res { Some(FormValue::Int(v)) => v as u64, _ => 0 },
            v_res: match v_res { Some(FormValue::Int(v)) => v as u64, _ => 0 },
            size: match size { Some(FormValue::Int(v)) => v as u64, _ => 0 },
            duration: match duration { Some(FormValue::Int(v)) => v, _ => 0 },
        })
    }
}

fn int_field(fields: &Vec<(String, FormValue)>, key: &str) -> (r: Option<i64>)
    ensures
        match form_field(fields@, key@) {
            Some(FormValue::Int(v)) => r == Some(v),
            _ => r is None,
        },
{
    match find_field(fields, key) {
        Some(FormValue::Int(v)) => Some(*v),
        _ => None,
    }
}

fn float_field(fields: &Vec<(String, FormValue)>, key: &str) -> (r: Option<u64>)
    ensures
        match form_field(fields@, key@) {
            Some(FormValue::FloatBits(v)) => r == Some(v),
            _ => r is None,
        },
{
    match find_field(fields, key) {
        Some(FormValue::FloatBits(v)) => Some(*v),
        _ => None,
    }
}

fn text_field(fields: &Vec<(String, FormValue)>, key: &str) -> (r: Option<String>)
    ensures
        match form_field(fields@, key@) {
            Some(FormValue::Text(t)) => r matches Some(s) && s@ == t@,
            _ => r is None,
        },
{
    match find_field(fields, key) {
        Some(FormValue::Text(t)) => Some(t.clone()),
        _ => None,
    }
}

/// The fields of a multipart upload, or the message of the response that refuses it.
pub fn upload_fields(fields: &Vec<(String, FormValue)>) -> (r: Result<UploadInfo, &'static str>)
    ensures
        match upload_fields_spec(fields@) {
            Ok(v) => r matches Ok(info) && info@ == v,
            Err(m) => r matches Err(msg) && msg@ == m,
        },
{
    let bucket = match find_field(fields, "Bucket") {
        Some(FormValue::Text(b)) => b.clone(),
        Some(_) => {
            return Err("Could not read bucket");
        },
        None => String::new(),
    };
    let created = match int_field(fields, "Created") {
        Some(v) => v as u64,
        None => {
            return Err("Could not read created timestamp");
        },
    };
    let modified = match int_field(fields, "Modified") {
        Some(v) => v as u64,
        None => {
            return Err("Could not read modified timestamp");
        },
    };
    let latitude_bits = match float_field(fields, "Latitude") {
        Some(v) => v,
        None => {
            return Err("Could not read latitude");
        },
    };
    let longitude_bits = match float_field(fields, "Longitude") {
        Some(v) => v,
        None => {
            return Err("Could not read longitude");
        },
    };
    let h_res = match int_field(fields, "h_res") {
        Some(v) => v as u64,
        None => {
            return Err("Could not read horizontal resolution");
        },
    };
    let v_res = match int_field(fields, "v_res") {
        Some(v) => v as u64,
        None => {
            return Err("Could not read vertical resolution");
        },
    };
    let size = match int_field(fields, "Size") {
        Some(v) => v as u64,
        None => {
            return Err("Could not read filesize");
        },
    };
    let duration = match int_field(fields, "Duration") {
        Some(v) => v,
        None => {
            return Err("Could not read video duration");
        },
    };
    let filename = match text_field(fields, "Filename") {
        Some(f) => f,
        None => {
            return Err("Could not read filename");
        },
    };
    Ok(UploadInfo {
        bucket,
        filename,
        created,
        modified,
        latitude_bits,
        longitude_bits,
        h_res,
        v_res,
        size,
        duration,
    })
}

/// The directory below which an upload is received: the user's directory, or `/tmp`
/// when it cannot be looked up.
pub fn upload_base(userpath: Result<String, i8>) -> (r: String)
    ensures
        match userpath {
            Ok(p) => r@ == p@,
            Err(_) => r@ == "/tmp"@,
        },
{
    match userpath {
        Ok(p) => p,
        Err(_) => "/tmp".to_owned(),
    }
}

/// The directory that receives uploads below `base`: `<base>/.temp/`.
pub fn temp_dir(base: &str) -> (r: String)
    ensures
        r@ == base@ + "/.temp/"@,
{
    let mut v = chars_of(base);
    append_str(&mut v, "/.temp/");
    string_of(&v)
}

/// The file that receives an upload started at time `now` below `base`:
/// `<base>/.temp/<now>`.
pub fn temp_file(base: &str, now: u64) -> (r: String)
    ensures
        r@ == base@ + "/.temp/"@ + decimal(now as nat),
{
    let mut v = chars_of(base);
    append_str(&mut v, "/.temp/");
    push_all(&mut v, &u64_to_decimal(now));
    string_of(&v)
}

/// The directory an upload is moved into, given the directory built for it: a
/// further `/` is added when it already ends with one.
pub fn upload_dir(dir_path: &str) -> (r: String)
    ensures
        r@ == if dir_path@.len() > 0 && dir_path@.last() == '/' { dir_path@.push('/') } else { dir_path@ },
{
    let mut v = chars_of(dir_path);
    if ends_with_char(&v, '/') {
        v.push('/');
    }
    string_of(&v)
}

/// The path of the uploaded file `filename` in directory `dir`.
pub fn stored_path(dir: &str, filename: &str) -> (r: String)
    ensures
        r@ == dir@ + filename@,
{
    let mut v = chars_of(dir);
    append_str(&mut v, filename);
    string_of(&v)
}

/// Whether `name` is a raw camera file (`.dng`); such uploads are stored but not
/// recorded in the database.
pub fn is_raw_image(name: &str) -> (b: bool)
    ensures
        b == has_suffix(name@, ".dng"@),
{
    let v = chars_of(name);
    ends_with(&v, &chars_of(".dng"))
}

/// The fields at the head of a plain upload, one per line, each cleaned with
/// `sanitize`: file name, bucket, latitude, longitude (as text), creation and
/// modification time, resolutions, duration and size, and whether any of the
/// numbers could not be read (such a number reads as `0`, the duration as `-1`).
pub struct PlainUpload {
    pub filename: String,
    pub bucket: String,
    pub latitude_text: String,
    pub longitude_text: String,
    pub created: u64,
    pub modified: u64,
    pub h_res: u64,
    pub v_res: u64,
    pub duration: i64,
    pub size: u64,
    pub malformed: bool,
}

/// A number on a cleaned line, `0` when it is not one.
pub open spec fn line_u64(line: Seq<char>) -> u64 {
    match parse_u64_spec(sanitized(line)) {
        Some(v) => v,
        None => 0,
    }
}

fn read_u64(line: &String, malformed: &mut bool) -> (r: u64)
    ensures
        r == line_u64(line@),
        *final(malformed) == (*old(malformed) || parse_u64_spec(sanitized(line@)) is None),
{
    let s = sanitize(line.clone());
    match parse_u64(&chars_of(s.as_str())) {
        Some(v) => v,
        None => {
            *malformed = true;
            0
        },
    }
}

/// Reads the ten lines at the head of a plain upload.
pub fn plain_upload(lines: &Vec<String>) -> (r: PlainUpload)
    requires
        lines@.len() == 10,
    ensures
        r.filename@ == sanitized(lines@[0]@),
        r.bucket@ == sanitized(lines@[1]@),
        r.latitude_text@ == sanitized(lines@[2]@),
        r.longitude_text@ == sanitized(lines@[3]@),
        r.created == line_u64(lines@[4]@),
        r.modified == line_u64(lines@[5]@),
        r.h_res == line_u64(lines@[6]@),
        r.v_res == line_u64(lines@[7]@),
        r.duration == (match parse_i64_spec(sanitized(lines@[8]@)) {
            Some(v) => v,
            None => -1i64,
        }),
        r.size == line_u64(lines@[9]@),
        r.malformed == (parse_u64_spec(sanitized(lines@[4]@)) is None
            || parse_u64_spec(sanitized(lines@[5]@)) is None
            || parse_u64_spec(sanitized(lines@[6]@)) is None
            || parse_u64_spec(sanitized(lines@[7]@)) is None
            || parse_i64_spec(sanitized(lines@[8]@)) is None
            || parse_u64_spec(sanitized(lines@[9]@)) is None),
{
    let mut malformed = false;
    let filename = sanitize(lines[0].clone());
    let bucket = sanitize(lines[1].clone());
    let latitude_text = sanitize(lines[2].clone());
    let longitude_text = sanitize(lines[3].clone());
    let created = read_u64(&lines[4], &mut malformed);
    let modified = read_u64(&lines[5], &mut malformed);
    let h_res = read_u64(&lines[6], &mut malformed);
    let v_res = read_u64(&lines[7], &mut malformed);
    let d = sanitize(lines[8].clone());
    let duration = match parse_i64(&chars_of(d.as_str())) {
        Some(v) => v,
        None => {
            malformed = true;
            -1
        },
    };
    let size = read_u64(&lines[9], &mut malformed);
    PlainUpload {
        filename,
        bucket,
        latitude_text,
        longitude_text,
        created,
        modified,
        h_res,
        v_res,
        duration,
        size,
        malformed,
    }
}

/// A form field read as a number, or `default` when it is missing or not a number.
pub fn number_or(text: Option<String>, default: u64) -> (r: u64)
    ensures
        r == match text {
            Some(t) => match parse_u64_spec(t@) {
                Some(v) => v,
                None => default,
            },
            None => default,
        },
{
    match text {
        Some(t) => match parse_u64(&chars_of(t.as_str())) {
            Some(v) => v,
            None => default,
        },
        None => default,
    }
}

/// A form field read as a signed number, or `default` when it is missing or not a number.
pub fn signed_number_or(text: Option<String>, default: i64) -> (r: i64)
    ensures
        r == match text {
            Some(t) => match parse_i64_spec(t@) {
                Some(v) => v,
                None => default,
            },
            None => default,
        },
{
    match text {
        Some(t) => match parse_i64(&chars_of(t.as_str())) {
            Some(v) => v,
            None => default,
        },
        None => default,
    }
}

} // verus!

verus! {

/// The reply to an upload, from what recording the file gave: a raw image is not
/// recorded (`None`) and gets `-1`; a recorded file gets its id and is queued for
/// the workers (the third part); a failed recording gets status `500` with its
/// message. The status, the body and the id to queue.
pub fn upload_reply(recorded: Option<Result<u64, i8>>) -> (r: (u16, String, Option<u64>))
    ensures
        match recorded {
            None => r.0 == 200 && r.1@ == "-1"@ && r.2 is None,
            Some(Ok(id)) => r.0 == 200 && r.1@ == decimal(id as nat) && r.2 == Some(id),
            Some(Err(_)) => r.0 == 500 && r.1@ == "Error adding file to database, it was created successfully though"@
                && r.2 is None,
        },
{
    match recorded {
        None => (200, "-1".to_owned(), None),
        Some(Ok(id)) => (200, string_of(&u64_to_decimal(id)), Some(id)),
        Some(Err(_)) => (500, "Error adding file to database, it was created successfully though".to_owned(), None),
    }
}

} // verus!

verus! {

/// Whether a plain upload arrived whole: the size of the written file could be
/// read (`Some`) and equals the size the client announced. Otherwise the file is
/// removed and the upload fails.
pub fn upload_complete(written: Option<u64>, announced: u64) -> (b: bool)
    ensures
        b == (written == Some(announced)),
{
    match written {
        Some(n) => n == announced,
        None => false,
    }
}

} // verus!
