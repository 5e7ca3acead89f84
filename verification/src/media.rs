//! A media file (picture or video) as the server knows it: where it lives, where its
//! thumbnails and streaming files go, and how its stored details are described.
use vstd::prelude::*;
use crate::config::Config;
use crate::database::{remove_by_id, removes_media, DbScript};
use crate::paths::with_slash;
use crate::text::{
    append_str, chars_of, decimal, ends_with_char, i64_to_decimal, push_all, signed_decimal,
    slice_chars, string_of, u64_to_decimal,
};

verus! {

/// One day in milliseconds.
pub const DAY_MILLIS: u64 = 86_400_000;

/// A media file. Coordinates are carried as the bits of their `f64` values.
pub struct Media {
    pub id: u64,
    pub longitude_bits: u64,
    pub latitude_bits: u64,
    pub path: String,
    pub filename: String,
    pub modified: u64,
    pub created: u64,
    pub h_resolution: u64,
    pub v_resolution: u64,
    pub duration: i64,
    pub size: u64,
    pub last_request: u64,
}

/// The details stored for a media file, as read from the database.
pub struct MediaRecord {
    pub id: u64,
    pub path: String,
    pub filename: String,
    pub longitude_bits: u64,
    pub latitude_bits: u64,
    pub created: u64,
    pub modified: u64,
    pub h_resolution: u64,
    pub v_resolution: u64,
    pub duration: i64,
    pub last_request: u64,
}

/// One column of a row: `None` when the row has no such column, `Some(None)` when
/// its value has another type, `Some(Some(v))` for a value.
pub type Column<T> = Option<Option<T>>;

/// The columns of a row of the media-details query.
pub struct MediaRow {
    pub id: Column<u64>,
    pub path: Column<String>,
    pub filename: Column<String>,
    pub longitude_bits: Column<u64>,
    pub latitude_bits: Column<u64>,
    pub created: Column<u64>,
    pub modified: Column<u64>,
    pub h_resolution: Column<u64>,
    pub v_resolution: Column<u64>,
    pub duration: Column<i64>,
    pub last_request: Column<u64>,
}

/// The value of a column, or `default` when it is missing or of another type.
pub open spec fn column_or<T>(c: Column<T>, default: T) -> T {
    match c {
        Some(Some(v)) => v,
        _ => default,
    }
}

fn value_or<T>(c: Column<T>, default: T) -> (r: T)
    ensures
        r == column_or(c, default),
{
    match c {
        Some(Some(v)) => v,
        _ => default,
    }
}

/// The stored details in a row: `None` when the id, path or file name cannot be
/// read; otherwise missing coordinates read as `0.0`, missing times and resolutions
/// as `0`, and a missing duration as `-1`.
pub fn record_from_row(row: MediaRow) -> (r: Option<MediaRecord>)
    ensures
        match (row.id, row.path, row.filename) {
            (Some(Some(id)), Some(Some(path)), Some(Some(filename))) => r matches Some(m) && {
                &&& m.id == id
                &&& m.path == path
                &&& m.filename == filename
                &&& m.longitude_bits == column_or(row.longitude_bits, 0u64)
                &&& m.latitude_bits == column_or(row.latitude_bits, 0u64)
                &&& m.created == column_or(row.created, 0u64)
                &&& m.modified == column_or(row.modified, 0u64)
                &&& m.h_resolution == column_or(row.h_resolution, 0u64)
                &&& m.v_resolution == column_or(row.v_resolution, 0u64)
                &&& m.duration == column_or(row.duration, -1i64)
                &&& m.last_request == column_or(row.last_request, 0u64)
            },
            _ => r is None,
        },
{
    let id = match row.id {
        Some(Some(v)) => v,
        _ => {
            return None;
        },
    };
    let path = match row.path {
        Some(Some(v)) => v,
        _ => {
            return None;
        },
    };
    let filename = match row.filename {
        Some(Some(v)) => v,
        _ => {
            return None;
        },
    };
    Some(MediaRecord {
        id,
        path,
        filename,
        longitude_bits: value_or(row.longitude_bits, 0),
        latitude_bits: value_or(row.latitude_bits, 0),
        created: value_or(row.created, 0),
        modified: value_or(row.modified, 0),
        h_resolution: value_or(row.h_resolution, 0),
        v_resolution: value_or(row.v_resolution, 0),
        duration: value_or(row.duration, -1),
        last_request: value_or(row.last_request, 0),
    })
}

/// What opening a media file on disk found.
pub enum FileLookup {
    /// The file is there, with this size.
    Size(u64),
    /// The file opened but its size could not be read.
    NoMetadata,
    /// There is no such file.
    NotFound,
    /// The file could not be opened for another reason.
    Unreadable,
}

/// The path of the file `filename` in directory `path`.
pub open spec fn full_path(path: Seq<char>, filename: Seq<char>) -> Seq<char> {
    with_slash(path) + filename
}

/// The path of the file `filename` in directory `path`: the directory, a `/` unless
/// it ends with one, and the name.
pub fn get_full_path_of(path: &str, filename: &str) -> (r: String)
    ensures
        r@ == full_path(path@, filename@),
{
    let mut v = chars_of(path);
    if !ends_with_char(&v, '/') {
        v.push('/');
    }
    append_str(&mut v, filename);
    string_of(&v)
}

/// The media file of a stored record sized `size`. The record's latitude becomes
/// the media's longitude and its longitude the media's latitude.
pub open spec fn built_media(record: MediaRecord, size: u64) -> Media {
    Media {
        id: record.id,
        longitude_bits: record.latitude_bits,
        latitude_bits: record.longitude_bits,
        path: record.path,
        filename: record.filename,
        modified: record.modified,
        created: record.created,
        h_resolution: record.h_resolution,
        v_resolution: record.v_resolution,
        duration: record.duration,
        size,
        last_request: record.last_request,
    }
}

/// What [`Media::new`] makes of a record and of what opening its file found.
pub open spec fn made_media(record: MediaRecord, lookup: FileLookup) -> Result<Media, i16> {
    match lookup {
        FileLookup::Size(n) => Ok(built_media(record, n)),
        FileLookup::NoMetadata => Ok(built_media(record, 0)),
        FileLookup::NotFound => Err(-1i16),
        FileLookup::Unreadable => Err(-2i16),
    }
}

impl Media {
    /// The media file of a stored record, given what opening the file found: sized
    /// by the file when it is there (`0` when its size cannot be read); `Err(-1)`
    /// when the file no longer exists (its record is then removed, see
    /// [`record_cleanup`]), `Err(-2)`
    /// when it cannot be opened otherwise. The record's latitude becomes the media's
    /// longitude and its longitude the media's latitude.
    pub fn new(record: MediaRecord, lookup: FileLookup) -> (r: Result<Media, i16>)
        ensures
            r == made_media(record, lookup),
    {
        let size = match lookup {
            FileLookup::Size(n) => n,
            FileLookup::NoMetadata => 0,
            FileLookup::NotFound => {
                return Err(-1);
            },
            FileLookup::Unreadable => {
                return Err(-2);
            },
        };
        Ok(Media {
            id: record.id,
            longitude_bits: record.latitude_bits,
            latitude_bits: record.longitude_bits,
            path: record.path,
            filename: record.filename,
            h_resolution: record.h_resolution,
            v_resolution: record.v_resolution,
            created: record.created,
            modified: record.modified,
            duration: record.duration,
            size,
            last_request: record.last_request,
        })
    }

    /// The path of the media file.
    pub fn get_full_path(&self) -> (r: String)
        ensures
            r@ == full_path(self.path@, self.filename@),
    {
        get_full_path_of(self.path.as_str(), self.filename.as_str())
    }

    /// The directory that holds the streaming files of the media:
    /// `<path>/.streaming_<id>/`.
    pub fn get_streaming_path(&self) -> (r: String)
        ensures
            r@ == with_slash(self.path@) + ".streaming_"@ + decimal(self.id as nat) + "/"@,
    {
        let mut v = chars_of(self.path.as_str());
        if !ends_with_char(&v, '/') {
            v.push('/');
        }
        append_str(&mut v, ".streaming_");
        let d = u64_to_decimal(self.id);
        push_all(&mut v, &d);
        append_str(&mut v, "/");
        string_of(&v)
    }

    /// The streaming file `name` of the media: in its streaming directory.
    pub fn streaming_file(&self, name: &str) -> (r: String)
        ensures
            r@ == with_slash(self.path@) + ".streaming_"@ + decimal(self.id as nat) + "/"@ + name@,
    {
        let sp = self.get_streaming_path();
        let mut v = chars_of(sp.as_str());
        append_str(&mut v, name);
        string_of(&v)
    }

    /// Pictures are stored with a negative duration; videos with their length.
    pub fn is_picture(&self) -> (b: bool)
        ensures
            b == (self.duration < 0),
    {
        self.duration < 0
    }

    /// Whether the streaming files of the media are to be removed at time `now`. The
    /// test is `!(last_request + one day) < now` with `!` the bitwise complement, so
    /// they are removed unless the complement of the expiry time is below `now`.
    pub fn needs_cleanup(&self, now: u64) -> (b: bool)
        requires
            self.last_request + DAY_MILLIS <= u64::MAX,
        ensures
            b == !(!((self.last_request + DAY_MILLIS) as u64) < now),
    {
        !(!(self.last_request + DAY_MILLIS) < now)
    }

    /// The description of the media sent to clients: id, path, file name, creation
    /// and modification times, longitude, latitude, resolutions, duration and size,
    /// one per line; the coordinates are given as the text of their decimal form.
    pub fn to_string(&self, longitude_text: &str, latitude_text: &str) -> (r: String)
        ensures
            r@ == decimal(self.id as nat) + "\n"@ + self.path@ + "\n"@ + self.filename@ + "\n"@
                + decimal(self.created as nat) + "\n"@ + decimal(self.modified as nat) + "\n"@
                + longitude_text@ + "\n"@ + latitude_text@ + "\n"@
                + decimal(self.h_resolution as nat) + "\n"@ + decimal(self.v_resolution as nat)
                + "\n"@ + signed_decimal(self.duration as int) + "\n"@ + decimal(self.size as nat),
    {
        let mut v = u64_to_decimal(self.id);
        append_str(&mut v, "\n");
        append_str(&mut v, self.path.as_str());
        append_str(&mut v, "\n");
        append_str(&mut v, self.filename.as_str());
        append_str(&mut v, "\n");
        push_all(&mut v, &u64_to_decimal(self.created));
        append_str(&mut v, "\n");
        push_all(&mut v, &u64_to_decimal(self.modified));
        append_str(&mut v, "\n");
        append_str(&mut v, longitude_text);
        append_str(&mut v, "\n");
        append_str(&mut v, latitude_text);
        append_str(&mut v, "\n");
        push_all(&mut v, &u64_to_decimal(self.h_resolution));
        append_str(&mut v, "\n");
        push_all(&mut v, &u64_to_decimal(self.v_resolution));
        append_str(&mut v, "\n");
        push_all(&mut v, &i64_to_decimal(self.duration));
        append_str(&mut v, "\n");
        push_all(&mut v, &u64_to_decimal(self.size));
        string_of(&v)
    }
}

} // verus!

verus! {

/// What is done with the database after opening the file of a stored record: when
/// the file no longer exists, the record (and its places) is removed; otherwise
/// nothing is done.
pub fn record_cleanup(config: &Config, record: &MediaRecord, lookup: &FileLookup) -> (r: Option<DbScript>)
    ensures
        lookup is NotFound ==> (r matches Some(s) && removes_media(s, config@, record.id)),
        !(lookup is NotFound) ==> r is None,
{
    match lookup {
        FileLookup::NotFound => Some(remove_by_id(config, record.id)),
        _ => None,
    }
}

/// The media file that reading a user's media gives, from the first readable record
/// and what opening its file found: `Err(1)` when no record could be read (`None`),
/// `Err(-2)` when the file cannot be used.
pub fn media_from_lookup(found: Option<(MediaRecord, FileLookup)>) -> (r: Result<Media, i16>)
    ensures
        match found {
            None => r == Err::<Media, i16>(1i16),
            Some(c) => match made_media(c.0, c.1) {
                Ok(m) => r == Ok::<Media, i16>(m),
                Err(_) => r == Err::<Media, i16>(-2i16),
            },
        },
{
    match found {
        None => Err(1),
        Some((record, lookup)) => match Media::new(record, lookup) {
            Ok(m) => Ok(m),
            Err(_) => Err(-2),
        },
    }
}

/// The first of the candidates whose file can be used, in order.
pub open spec fn first_usable(c: Seq<(MediaRecord, FileLookup)>) -> Result<Media, i16>
    decreases c.len(),
{
    if c.len() == 0 {
        Err(1i16)
    } else if made_media(c[0].0, c[0].1) is Ok {
        made_media(c[0].0, c[0].1)
    } else {
        first_usable(c.skip(1))
    }
}

/// The media file that reading a media file by id gives: the first readable record
/// whose file can be used, trying them in order with what opening each file found;
/// `Err(1)` when there is none. Records after the first usable one need no lookup.
pub fn first_media(candidates: Vec<(MediaRecord, FileLookup)>) -> (r: Result<Media, i16>)
    ensures
        r == first_usable(candidates@),
{
    let mut rest = candidates;
    let ghost all = rest@;
    assert(all.skip(0) =~= all);
    let n: usize = rest.len();
    let mut k: usize = 0;
    while rest.len() > 0
        invariant
            all == candidates@,
            n == all.len(),
            k + rest@.len() == all.len(),
            rest@ == all.skip(k as int),
            first_usable(all.skip(k as int)) == first_usable(all),
        decreases rest.len(),
    {
        let ghost before = rest@;
        let (record, lookup) = rest.remove(0);
        proof {
            assert(before[0] == (record, lookup));
            assert(all.skip(k as int).skip(1) =~= all.skip(k + 1));
            assert(rest@ =~= all.skip(k + 1));
        }
        let m = Media::new(record, lookup);
        if m.is_ok() {
            return m;
        }
        k = k + 1;
    }
    assert(all.skip(k as int) =~= Seq::<(MediaRecord, FileLookup)>::empty());
    Err(1)
}

/// The stem of the file name of `path` and whether it is text: `None` when the path
/// has no file name, `Some(None)` when the stem is not valid Unicode; as
/// `std::path::Path::file_stem` followed by `OsStr::to_str` yield them.
pub uninterp spec fn path_file_stem(path: Seq<char>) -> Option<Option<Seq<char>>>;

/// The parent directory of `path` and whether it is text: `None` when the path has
/// no parent, `Some(None)` when it is not valid Unicode; as
/// `std::path::Path::parent` followed by `OsStr::to_str` yield them.
pub uninterp spec fn path_parent(path: Seq<char>) -> Option<Option<Seq<char>>>;

/// The view of a two-level optional text.
pub open spec fn opt_text(o: Option<Option<String>>) -> Option<Option<Seq<char>>> {
    match o {
        None => None,
        Some(None) => Some(None),
        Some(Some(s)) => Some(Some(s@)),
    }
}

/// `std::path::Path::new(path).file_stem()`, as text. The result depends on `path`
/// alone and is named `path_file_stem`; the rules of `Path` for finding the stem are
/// not restated.
#[verifier::external_body]
fn file_stem_text(path: &str) -> (r: Option<Option<String>>)
    ensures
        opt_text(r) == path_file_stem(path@),
{
    match std::path::Path::new(path).file_stem() {
        None => None,
        Some(s) => Some(s.to_str().map(|t| t.to_owned())),
    }
}

/// `std::path::Path::new(path).parent()`, as text. The result depends on `path`
/// alone and is named `path_parent`; the rules of `Path` for finding the parent are
/// not restated.
#[verifier::external_body]
fn parent_text(path: &str) -> (r: Option<Option<String>>)
    ensures
        opt_text(r) == path_parent(path@),
{
    match std::path::Path::new(path).parent() {
        None => None,
        Some(p) => Some(p.to_str().map(|t| t.to_owned())),
    }
}

/// The hidden base name of a media file's thumbnails: its directory, `/.`, and the
/// stem of its name; `-2` when the path has no stem or parent, `-3` when they are
/// not text.
pub open spec fn hidden_base(full: Seq<char>) -> Result<Seq<char>, i8> {
    match path_file_stem(full) {
        None => Err(-2i8),
        Some(None) => Err(-3i8),
        Some(Some(stem)) => match path_parent(full) {
            None => Err(-2i8),
            Some(None) => Err(-3i8),
            Some(Some(parent)) => Ok(with_slash(parent) + "."@ + stem),
        },
    }
}

/// The hidden base name of a file with stem `stem` in directory `parent`: the
/// directory, a `/` unless it ends with one, a `.`, and the stem.
pub fn hidden_name(parent: &str, stem: &str) -> (r: String)
    ensures
        r@ == with_slash(parent@) + "."@ + stem@,
{
    let mut v = chars_of(parent);
    if !ends_with_char(&v, '/') {
        v.push('/');
    }
    v.push('.');
    append_str(&mut v, stem);
    assert(v@ =~= with_slash(parent@) + "."@ + stem@) by {
        reveal_strlit(".");
    }
    string_of(&v)
}

/// The name of a thumbnail: the hidden base name, then `_350_quick.jpg` for a
/// quickly made one or `_350.jpg` for the careful one.
pub open spec fn thumbname(full: Seq<char>, time_sensitive: bool) -> Result<Seq<char>, i8> {
    match hidden_base(full) {
        Err(_) => Err(-1i8),
        Ok(b) => Ok(b + if time_sensitive { "_350_quick.jpg"@ } else { "_350.jpg"@ }),
    }
}

/// The arguments given to `MP4Box` to cut a video into streaming segments, for a
/// server at `ip` and `port`.
pub open spec fn streaming_args(
    id: u64,
    streaming_path: Seq<char>,
    filename: Seq<char>,
    full: Seq<char>,
    ip: Seq<char>,
    port: Seq<char>,
) -> Seq<Seq<char>> {
    seq![
        "-dash"@, "1000"@, "-frag"@, "1000"@, "-frag-rap"@, "-segment-name"@, "%s_%d"@,
        "-out"@, streaming_path + filename, "-mpd-title"@, filename, "-mpd-info-url"@,
        "http://"@ + ip + ":"@ + port + "/pulse"@, "-base-url"@,
        "http://"@ + ip + ":"@ + port + "/media/stream/"@ + decimal(id as nat) + "/"@, full,
    ]
}

/// The transformations that bring a thumbnail upright, by the orientation recorded
/// in the picture's metadata.
#[derive(PartialEq, Eq, Structural, Clone, Copy)]
pub enum Orientation {
    Unspecified,
    Normal,
    HorizontalFlip,
    Rotate180,
    VerticalFlip,
    Rotate90HorizontalFlip,
    Rotate90,
    Rotate90VerticalFlip,
    Rotate270,
}

/// A transformation of an image.
#[derive(PartialEq, Eq, Structural, Clone, Copy)]
pub enum ImageOp {
    FlipHorizontal,
    FlipVertical,
    Rotate90,
    Rotate180,
    Rotate270,
}

/// The transformations applied to a thumbnail, in order, for an orientation.
pub open spec fn transforms_for(o: Orientation) -> Seq<ImageOp> {
    match o {
        Orientation::HorizontalFlip => seq![ImageOp::FlipHorizontal],
        Orientation::VerticalFlip => seq![ImageOp::FlipVertical],
        Orientation::Rotate180 => seq![ImageOp::Rotate180],
        Orientation::Rotate90HorizontalFlip => seq![ImageOp::Rotate90, ImageOp::FlipHorizontal],
        Orientation::Rotate90 => seq![ImageOp::FlipHorizontal],
        Orientation::Rotate90VerticalFlip => seq![ImageOp::Rotate90, ImageOp::FlipVertical],
        Orientation::Rotate270 => seq![ImageOp::Rotate270],
        Orientation::Normal => seq![],
        Orientation::Unspecified => seq![],
    }
}

/// The transformations applied to a thumbnail for an orientation.
pub fn thumbnail_transforms(o: Orientation) -> (r: Vec<ImageOp>)
    ensures
        r@ == transforms_for(o),
{
    let mut r: Vec<ImageOp> = Vec::new();
    match o {
        Orientation::HorizontalFlip => r.push(ImageOp::FlipHorizontal),
        Orientation::VerticalFlip => r.push(ImageOp::FlipVertical),
        Orientation::Rotate180 => r.push(ImageOp::Rotate180),
        Orientation::Rotate90HorizontalFlip => {
            r.push(ImageOp::Rotate90);
            r.push(ImageOp::FlipHorizontal);
        },
        Orientation::Rotate90 => r.push(ImageOp::FlipHorizontal),
        Orientation::Rotate90VerticalFlip => {
            r.push(ImageOp::Rotate90);
            r.push(ImageOp::FlipVertical);
        },
        Orientation::Rotate270 => r.push(ImageOp::Rotate270),
        Orientation::Normal => {},
        Orientation::Unspecified => {},
    }
    assert(r@ =~= transforms_for(o));
    r
}

/// What serving a thumbnail involves (see [`Media::thumbnail_plan`]).
pub struct ThumbPlan {
    /// Queue the media so that the workers make its careful thumbnail.
    pub queue: bool,
    /// Make a thumbnail now: `Some(true)` from a picture, `Some(false)` from a video.
    pub make: Option<bool>,
    /// The thumbnail file to serve.
    pub serve: String,
}

impl Media {
    fn remove_extension_and_hide(&self) -> (r: Result<String, i8>)
        ensures
            match r {
                Ok(s) => hidden_base(full_path(self.path@, self.filename@)) == Ok::<Seq<char>, i8>(s@),
                Err(e) => hidden_base(full_path(self.path@, self.filename@)) == Err::<Seq<char>, i8>(e),
            },
    {
        let fullpath = self.get_full_path();
        let stem = match file_stem_text(fullpath.as_str()) {
            None => {
                return Err(-2);
            },
            Some(None) => {
                return Err(-3);
            },
            Some(Some(s)) => s,
        };
        let parent = match parent_text(fullpath.as_str()) {
            None => {
                return Err(-2);
            },
            Some(None) => {
                return Err(-3);
            },
            Some(Some(p)) => p,
        };
        Ok(hidden_name(parent.as_str(), stem.as_str()))
    }

    /// The path of the media's thumbnail, the quick one when `time_sensitive`.
    /// `Err(-1)` when the path has no stem or parent that is text.
    pub fn get_thumbname(&self, time_sensitive: bool) -> (r: Result<String, i8>)
        ensures
            match r {
                Ok(s) => thumbname(full_path(self.path@, self.filename@), time_sensitive)
                    == Ok::<Seq<char>, i8>(s@),
                Err(e) => e == -1 && thumbname(full_path(self.path@, self.filename@), time_sensitive)
                    == Err::<Seq<char>, i8>(-1i8),
            },
    {
        let bare = match self.remove_extension_and_hide() {
            Ok(s) => s,
            Err(_) => {
                return Err(-1);
            },
        };
        let mut v = chars_of(bare.as_str());
        if time_sensitive {
            append_str(&mut v, "_350_quick.jpg");
        } else {
            append_str(&mut v, "_350.jpg");
        }
        Ok(string_of(&v))
    }

    /// What serving or making a thumbnail involves, given whether the careful
    /// thumbnail and the quick one already exist: whether the media is queued for
    /// the workers (a quick thumbnail was asked for and the careful one is missing),
    /// whether a thumbnail is to be made now (`Some(true)` from a picture,
    /// `Some(false)` from a video), and the file to serve; `Err(-1)` when the
    /// thumbnail's name cannot be formed.
    pub fn thumbnail_plan(&self, time_sensitive: bool, careful_exists: bool, quick_exists: bool) -> (r: Result<ThumbPlan, i8>)
        ensures
            match thumbname(full_path(self.path@, self.filename@), false) {
                Err(_) => r == Err::<ThumbPlan, i8>(-1i8),
                Ok(careful) => if careful_exists {
                    r matches Ok(p) && !p.queue && p.make is None && p.serve@ == careful
                } else if !time_sensitive {
                    r matches Ok(p) && !p.queue && p.make == Some(self.duration < 0) && p.serve@ == careful
                } else {
                    match thumbname(full_path(self.path@, self.filename@), true) {
                        Err(_) => r == Err::<ThumbPlan, i8>(-1i8),
                        Ok(quick) => r matches Ok(p) && p.queue && p.serve@ == quick
                            && p.make == (if quick_exists { None } else { Some(self.duration < 0) }),
                    }
                },
            },
    {
        let careful = match self.get_thumbname(false) {
            Ok(s) => s,
            Err(_) => {
                return Err(-1);
            },
        };
        if careful_exists {
            return Ok(ThumbPlan { queue: false, make: None, serve: careful });
        }
        if !time_sensitive {
            return Ok(ThumbPlan { queue: false, make: Some(self.duration < 0), serve: careful });
        }
        let quick = match self.get_thumbname(true) {
            Ok(s) => s,
            Err(_) => {
                return Err(-1);
            },
        };
        let make = if quick_exists { None } else { Some(self.duration < 0) };
        Ok(ThumbPlan { queue: true, make, serve: quick })
    }

    /// Whether preparing the media for streaming is decided before its directory is
    /// created: `Err(-5)` for a picture, `Err(-1)` when `MP4Box` is not installed,
    /// `Ok(0)` when the streaming directory already exists; `None` when the
    /// directory is to be created and `MP4Box` run.
    pub fn streaming_decision(&self, program_found: bool, prepared: bool) -> (r: Option<Result<u8, i8>>)
        ensures
            r == (if self.duration < 0 {
                Some(Err::<u8, i8>(-5i8))
            } else if !program_found {
                Some(Err::<u8, i8>(-1i8))
            } else if prepared {
                Some(Ok::<u8, i8>(0u8))
            } else {
                None
            }),
    {
        if self.duration < 0 {
            Some(Err(-5))
        } else if !program_found {
            Some(Err(-1))
        } else if prepared {
            Some(Ok(0))
        } else {
            None
        }
    }

    /// The path of the media's streaming description once it has been prepared
    /// (`prepared` is the outcome of preparing): the streaming directory, the stem
    /// of the file name and `.mpd`. `Err(-1)` when preparing failed, `Err(-2)` when
    /// the name has no stem, `Err(-3)` when the stem is not text.
    pub fn get_mpd_path(&self, prepared: Result<u8, i8>) -> (r: Result<String, i8>)
        ensures
            prepared is Err ==> r == Err::<String, i8>(-1i8),
            prepared is Ok ==> match path_file_stem(self.filename@) {
                None => r == Err::<String, i8>(-2i8),
                Some(None) => r == Err::<String, i8>(-3i8),
                Some(Some(stem)) => r matches Ok(p) && p@ == with_slash(self.path@)
                    + ".streaming_"@ + decimal(self.id as nat) + "/"@ + stem + ".mpd"@,
            },
    {
        if prepared.is_err() {
            return Err(-1);
        }
        let stem = match file_stem_text(self.filename.as_str()) {
            None => {
                return Err(-2);
            },
            Some(None) => {
                return Err(-3);
            },
            Some(Some(s)) => s,
        };
        let sp = self.get_streaming_path();
        let mut v = chars_of(sp.as_str());
        append_str(&mut v, stem.as_str());
        append_str(&mut v, ".mpd");
        Ok(string_of(&v))
    }

    /// The arguments of the `MP4Box` run that prepares the media for streaming, with
    /// the server's address from the configuration. `Err(-1)` when `server_ip` is not
    /// configured, `Err(-2)` when `server_port` is not.
    pub fn streaming_arguments(&self, config: &Config) -> (r: Result<Vec<String>, i8>)
        ensures
            !config@.contains_key("server_ip"@) ==> r == Err::<Vec<String>, i8>(-1i8),
            config@.contains_key("server_ip"@) && !config@.contains_key("server_port"@)
                ==> r == Err::<Vec<String>, i8>(-2i8),
            config@.contains_key("server_ip"@) && config@.contains_key("server_port"@) ==> (r matches Ok(args)
                && args@.map_values(|a: String| a@) == streaming_args(self.id,
                    with_slash(self.path@) + ".streaming_"@ + decimal(self.id as nat) + "/"@,
                    self.filename@, full_path(self.path@, self.filename@),
                    config@["server_ip"@], config@["server_port"@])),
    {
        let ip = match config.get_string("server_ip") {
            Ok(s) => s,
            Err(_) => {
                return Err(-1);
            },
        };
        let port = match config.get_string("server_port") {
            Ok(s) => s,
            Err(_) => {
                return Err(-2);
            },
        };
        let sp = self.get_streaming_path();
        let mut out_path = chars_of(sp.as_str());
        append_str(&mut out_path, self.filename.as_str());
        let mut info = chars_of("http://");
        append_str(&mut info, ip.as_str());
        append_str(&mut info, ":");
        append_str(&mut info, port.as_str());
        let mut base = slice_chars(&info, 0, info.len());
        append_str(&mut info, "/pulse");
        append_str(&mut base, "/media/stream/");
        push_all(&mut base, &u64_to_decimal(self.id));
        append_str(&mut base, "/");
        let full = self.get_full_path();
        let mut args: Vec<String> = Vec::new();
        args.push("-dash".to_owned());
        args.push("1000".to_owned());
        args.push("-frag".to_owned());
        args.push("1000".to_owned());
        args.push("-frag-rap".to_owned());
        args.push("-segment-name".to_owned());
        args.push("%s_%d".to_owned());
        args.push("-out".to_owned());
        args.push(string_of(&out_path));
        args.push("-mpd-title".to_owned());
        args.push(self.filename.clone());
        args.push("-mpd-info-url".to_owned());
        args.push(string_of(&info));
        args.push("-base-url".to_owned());
        args.push(string_of(&base));
        args.push(full);
        let ghost ipv = config@["server_ip"@];
        let ghost portv = config@["server_port"@];
        assert(out_path@ =~= with_slash(self.path@) + ".streaming_"@ + decimal(self.id as nat) + "/"@ + self.filename@);
        assert(info@ =~= "http://"@ + ipv + ":"@ + portv + "/pulse"@);
        assert(base@ =~= "http://"@ + ipv + ":"@ + portv + "/media/stream/"@ + decimal(self.id as nat) + "/"@);
        assert(args@.map_values(|a: String| a@) =~= streaming_args(self.id,
            with_slash(self.path@) + ".streaming_"@ + decimal(self.id as nat) + "/"@,
            self.filename@, full_path(self.path@, self.filename@),
            config@["server_ip"@], config@["server_port"@]));
        Ok(args)
    }
}

} // verus!

verus! {

/// The quick thumbnail and the careful one of a media file are different files next
/// to each other: they share the hidden base name and differ in their endings.
pub proof fn law_thumbnails_distinct(full: Seq<char>)
    requires
        thumbname(full, true) is Ok,
    ensures
        thumbname(full, false) is Ok,
        thumbname(full, true) != thumbname(full, false),
{
    reveal_strlit("_350_quick.jpg");
    reveal_strlit("_350.jpg");
    let b = hidden_base(full)->Ok_0;
    assert((b + "_350_quick.jpg"@).len() != (b + "_350.jpg"@).len());
}

} // verus!

verus! {

/// A symmetry of a square picture: `.0` quarter turns clockwise (counted modulo
/// four) after a left-right mirror image when `.1`.
pub open spec fn then_apply(a: (int, bool), b: (int, bool)) -> (int, bool) {
    ((b.0 + if b.1 { -a.0 } else { a.0 }) % 4, b.1 != a.1)
}

/// The symmetry that one transformation applies.
pub open spec fn op_symmetry(op: ImageOp) -> (int, bool) {
    match op {
        ImageOp::FlipHorizontal => (0, true),
        ImageOp::FlipVertical => (2, true),
        ImageOp::Rotate90 => (1, false),
        ImageOp::Rotate180 => (2, false),
        ImageOp::Rotate270 => (3, false),
    }
}

/// The symmetry that applying `ops` in order amounts to.
pub open spec fn ops_symmetry(ops: Seq<ImageOp>) -> (int, bool)
    decreases ops.len(),
{
    if ops.len() == 0 {
        (0, false)
    } else {
        then_apply(ops_symmetry(ops.drop_last()), op_symmetry(ops.last()))
    }
}

/// The symmetry that an orientation's name calls for: none for a normal or
/// unspecified picture, a mirror image for a horizontal flip, a mirror image and a
/// half turn for a vertical flip, half and three-quarter turns, and for the
/// combined names a quarter turn followed by the named flip.
pub open spec fn named_symmetry(o: Orientation) -> (int, bool) {
    match o {
        Orientation::Unspecified => (0, false),
        Orientation::Normal => (0, false),
        Orientation::HorizontalFlip => (0, true),
        Orientation::VerticalFlip => (2, true),
        Orientation::Rotate180 => (2, false),
        Orientation::Rotate270 => (3, false),
        Orientation::Rotate90 => (1, false),
        Orientation::Rotate90HorizontalFlip => then_apply((1, false), (0, true)),
        Orientation::Rotate90VerticalFlip => then_apply((1, false), (2, true)),
    }
}

/// The transformations made to a thumbnail amount to the symmetry its orientation
/// names, with at most two of them; a picture in normal or unspecified orientation
/// is left as it is. (For `Rotate90` the thumbnail is mirrored instead of turned.)
pub proof fn law_thumbnail_symmetry(o: Orientation)
    ensures
        transforms_for(o).len() <= 2,
        o != Orientation::Rotate90 ==> ops_symmetry(transforms_for(o)) == named_symmetry(o),
        o == Orientation::Rotate90 ==> ops_symmetry(transforms_for(o)) == (0int, true),
        (o == Orientation::Normal || o == Orientation::Unspecified) ==> transforms_for(o).len() == 0,
{
    reveal_with_fuel(ops_symmetry, 3);
    let t = transforms_for(o);
    if t.len() == 1 {
        assert(t.drop_last() =~= Seq::<ImageOp>::empty());
    } else if t.len() == 2 {
        assert(t.drop_last() =~= seq![t[0]]);
        assert(t.drop_last().drop_last() =~= Seq::<ImageOp>::empty());
    }
}

} // verus!
