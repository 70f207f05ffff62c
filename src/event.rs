//! Change events and the metadata attached to them.
use vstd::prelude::*;

verus! {

/// The kind of change a notification record reports.
#[derive(PartialEq, Eq, Structural, Clone, Copy, Debug)]
pub enum Action {
    Created,
    Deleted,
    Modified,
    /// The entry was renamed; this is its old name.
    RenamedFrom,
    /// The entry was renamed; this is its new name.
    RenamedTo,
    /// A code this library does not know.
    Unknown,
}

/// What a single-level stat of an entry found.
#[derive(Clone, Debug, PartialEq, Eq)]
pub struct MetadataWrapper {
    pub file_type: String,
    pub is_dir: bool,
    pub is_file: bool,
    pub is_symlink: bool,
    pub len_in_bytes: u64,
    pub permissions: String,
    pub modified: String,
    pub accessed: String,
    pub created: String,
}

/// The most recent change of one path: its action and, when the entry
/// could still be probed, its metadata.
#[derive(Clone, Debug, PartialEq, Eq)]
pub struct Data {
    pub action: Action,
    pub metadata: Option<MetadataWrapper>,
}

impl MetadataWrapper {
    /// A field-by-field copy.
    pub fn duplicate(&self) -> (r: MetadataWrapper)
        ensures
            r == *self,
    {
        MetadataWrapper {
            file_type: self.file_type.clone(),
            is_dir: self.is_dir,
            is_file: self.is_file,
            is_symlink: self.is_symlink,
            len_in_bytes: self.len_in_bytes,
            permissions: self.permissions.clone(),
            modified: self.modified.clone(),
            accessed: self.accessed.clone(),
            created: self.created.clone(),
        }
    }
}

impl Data {
    pub fn new(action: Action, metadata: Option<MetadataWrapper>) -> (r: Data)
        ensures
            r.action == action,
            r.metadata == metadata,
    {
        Data { action, metadata }
    }

    /// A field-by-field copy.
    pub fn duplicate(&self) -> (r: Data)
        ensures
            r == *self,
    {
        let metadata = match &self.metadata {
            Some(m) => Some(m.duplicate()),
            None => None,
        };
        Data { action: self.action, metadata }
    }
}

/// The attribute bit of a directory.
pub const FILE_ATTRIBUTE_DIRECTORY: u32 = 0x10;

/// The attribute bit of a reparse point (a symbolic link or junction).
pub const FILE_ATTRIBUTE_REPARSE_POINT: u32 = 0x400;

/// The Unix epoch in native file time: 100-nanosecond ticks since 1601.
pub const FILETIME_UNIX_EPOCH: u64 = 116444736000000000;

/// OS error code: the file was not found.
pub const ERROR_FILE_NOT_FOUND: u32 = 2;

/// OS error code: the path was not found.
pub const ERROR_PATH_NOT_FOUND: u32 = 3;

/// What a single-level stat of an entry reports, as plain values.
#[derive(Clone, Copy, Debug)]
pub struct FileAttributes {
    pub attributes: u32,
    pub size_high: u32,
    pub size_low: u32,
    pub creation_time: u64,
    pub last_access_time: u64,
    pub last_write_time: u64,
}

/// Why an entry could not be probed.
#[derive(PartialEq, Eq, Structural, Clone, Copy, Debug)]
pub enum ProbeError {
    NotFound,
    Other(u32),
}

pub open spec fn is_dir_attr(a: u32) -> bool {
    a & FILE_ATTRIBUTE_DIRECTORY != 0
}

pub open spec fn is_reparse_attr(a: u32) -> bool {
    a & FILE_ATTRIBUTE_REPARSE_POINT != 0
}

/// The entry kind: the directory bit wins over the reparse bit.
pub open spec fn kind_label(a: u32) -> Seq<char> {
    if is_dir_attr(a) {
        seq!['d', 'i', 'r', 'e', 'c', 't', 'o', 'r', 'y']
    } else if is_reparse_attr(a) {
        seq!['s', 'y', 'm', 'l', 'i', 'n', 'k']
    } else {
        seq!['f', 'i', 'l', 'e']
    }
}

pub open spec fn octal_digit(d: int) -> char {
    if d == 0 {
        '0'
    } else if d == 1 {
        '1'
    } else if d == 2 {
        '2'
    } else if d == 3 {
        '3'
    } else if d == 4 {
        '4'
    } else if d == 5 {
        '5'
    } else if d == 6 {
        '6'
    } else {
        '7'
    }
}

/// `n` in base 8, without leading zeros ("0" for zero).
pub open spec fn octal(n: nat) -> Seq<char>
    decreases n,
{
    if n < 8 {
        seq![octal_digit(n as int)]
    } else {
        octal(n / 8).push(octal_digit((n % 8) as int))
    }
}

/// The size held in two 32-bit halves.
pub open spec fn size_of(high: u32, low: u32) -> int {
    high * 4294967296 + low
}

/// The instant of a native file time, in nanoseconds since the Unix
/// epoch (negative before 1970).
pub open spec fn filetime_unix_nanos(ft: u64) -> int {
    (ft - FILETIME_UNIX_EPOCH) * 100
}

/// RFC 3339 text of the instant `unix_nanos` nanoseconds after the Unix
/// epoch, shown at a UTC offset of `offset_secs` seconds.
pub uninterp spec fn rfc3339_at(unix_nanos: int, offset_secs: int) -> Seq<char>;

/// A UTC offset, in seconds, of less than a day either way.
pub open spec fn offset_under_a_day(o: int) -> bool {
    -86400 < o && o < 86400
}

/// `t` is the RFC 3339 text of the instant at some UTC offset under a day.
pub open spec fn shows_instant(t: Seq<char>, unix_nanos: int) -> bool {
    exists|o: int| offset_under_a_day(o) && t == rfc3339_at(unix_nanos, o)
}

/// Everything but the timestamps of `m` is what `info` reports.
pub open spec fn describes(m: MetadataWrapper, info: FileAttributes) -> bool {
    &&& m.file_type@ == kind_label(info.attributes)
    &&& m.is_dir == is_dir_attr(info.attributes)
    &&& m.is_file == !is_dir_attr(info.attributes)
    &&& m.is_symlink == is_reparse_attr(info.attributes)
    &&& m.len_in_bytes == size_of(info.size_high, info.size_low)
    &&& m.permissions@ == octal(info.attributes as nat)
}

/// Relies on `String::push`: appends one char.
#[verifier::external_body]
pub(crate) fn push_char(s: &mut String, c: char)
    ensures
        final(s)@ == old(s)@.push(c),
{
    s.push(c)
}

/// The earliest Unix second a native file time can fall in (1601).
pub const UNIX_SECS_MIN: i64 = -11_644_473_600;

/// The latest Unix second a native file time can fall in.
pub const UNIX_SECS_MAX: i64 = 1_833_029_933_770;

/// Relies on chrono's `DateTime::<Utc>::from_timestamp`, which gives `Some`
/// for every second within its year range of about 262,000 years either
/// side of year 0 (and so for every second from `UNIX_SECS_MIN` to
/// `UNIX_SECS_MAX`) at nanosecond precision; on `DateTime::with_timezone`
/// to `Local`; on `DateTime::to_rfc3339`; and on
/// `FixedOffset::local_minus_utc` (the offset type of `Local`), which a
/// `FixedOffset` keeps under a day either way. The result is the RFC 3339
/// text of the instant at the machine's UTC offset, and that offset.
#[verifier::external_body]
fn local_rfc3339(secs: i64, nanos: u32) -> (r: Option<(String, i32)>)
    requires
        UNIX_SECS_MIN <= secs <= UNIX_SECS_MAX,
        nanos < 1_000_000_000,
    ensures
        r is Some,
        r matches Some(p) ==> p.0@ == rfc3339_at(secs * 1_000_000_000 + nanos, p.1 as int),
        r matches Some(p) ==> offset_under_a_day(p.1 as int),
{
    match chrono::DateTime::from_timestamp(secs, nanos) {
        Some(t) => {
            let local = t.with_timezone(&chrono::Local);
            Some((local.to_rfc3339(), local.offset().local_minus_utc()))
        },
        None => None,
    }
}

fn octal_char(d: u32) -> (c: char)
    requires
        d < 8,
    ensures
        c == octal_digit(d as int),
{
    match d {
        0 => '0',
        1 => '1',
        2 => '2',
        3 => '3',
        4 => '4',
        5 => '5',
        6 => '6',
        _ => '7',
    }
}

/// Appends `n` in base 8.
fn push_octal(s: &mut String, n: u32)
    ensures
        final(s)@ == old(s)@ + octal(n as nat),
    decreases n,
{
    if n >= 8 {
        push_octal(s, n / 8);
    }
    push_char(s, octal_char(n % 8));
    assert(final(s)@ =~= old(s)@ + octal(n as nat));
}

/// `n` in base 8.
pub fn octal_string(n: u32) -> (r: String)
    ensures
        r@ == octal(n as nat),
{
    let mut s = String::new();
    push_octal(&mut s, n);
    assert(s@ =~= octal(n as nat));
    s
}

/// The instant of a native file time as whole Unix seconds (negative
/// before 1970) and the nanoseconds beyond them.
pub fn filetime_to_unix(ft: u64) -> (r: (i64, u32))
    ensures
        UNIX_SECS_MIN <= r.0 <= UNIX_SECS_MAX,
        r.1 < 1_000_000_000,
        r.0 * 1_000_000_000 + r.1 == filetime_unix_nanos(ft),
{
    let q = ft / 10_000_000;
    let m = ft % 10_000_000;
    let secs = q as i64 - 11_644_473_600;
    let nanos = (m * 100) as u32;
    (secs, nanos)
}

/// The RFC 3339 text of a file time at the machine's UTC offset.
fn filetime_text(ft: u64) -> (r: String)
    ensures
        shows_instant(r@, filetime_unix_nanos(ft)),
{
    let (secs, nanos) = filetime_to_unix(ft);
    match local_rfc3339(secs, nanos) {
        Some((text, offset)) => {
            assert(offset_under_a_day(offset as int) && text@ == rfc3339_at(
                filetime_unix_nanos(ft),
                offset as int,
            ));
            text
        },
        // Never taken: every file time falls in the range the conversion accepts.
        None => String::new(),
    }
}

impl MetadataWrapper {
    /// The metadata that `info` reports, with the given timestamp texts.
    pub fn with_times(info: &FileAttributes, created: String, accessed: String, modified: String) -> (r:
        MetadataWrapper)
        ensures
            describes(r, *info),
            r.created == created,
            r.accessed == accessed,
            r.modified == modified,
    {
        let a = info.attributes;
        let is_dir = a & FILE_ATTRIBUTE_DIRECTORY != 0;
        let is_symlink = a & FILE_ATTRIBUTE_REPARSE_POINT != 0;
        let file_type = if is_dir {
            "directory".to_owned()
        } else if is_symlink {
            "symlink".to_owned()
        } else {
            "file".to_owned()
        };
        proof {
            reveal_strlit("directory");
            reveal_strlit("symlink");
            reveal_strlit("file");
        }
        assert(file_type@ == kind_label(a));
        let len_in_bytes = (info.size_high as u64) * 4294967296 + (info.size_low as u64);
        assert(len_in_bytes == size_of(info.size_high, info.size_low));
        MetadataWrapper {
            file_type,
            is_dir,
            is_file: !is_dir,
            is_symlink,
            len_in_bytes,
            permissions: octal_string(a),
            modified,
            accessed,
            created,
        }
    }

    /// The metadata that `info` reports; the three timestamps are the file
    /// times at the machine's UTC offset, as RFC 3339 text.
    pub fn from_attributes(info: &FileAttributes) -> (r: MetadataWrapper)
        ensures
            describes(r, *info),
            shows_instant(r.created@, filetime_unix_nanos(info.creation_time)),
            shows_instant(r.accessed@, filetime_unix_nanos(info.last_access_time)),
            shows_instant(r.modified@, filetime_unix_nanos(info.last_write_time)),
    {
        let created = filetime_text(info.creation_time);
        let accessed = filetime_text(info.last_access_time);
        let modified = filetime_text(info.last_write_time);
        MetadataWrapper::with_times(info, created, accessed, modified)
    }
}

impl ProbeError {
    /// The probe error for an OS error code: "file not found" and "path not
    /// found" are `NotFound`, any other code is kept.
    pub fn from_os_code(code: u32) -> (r: ProbeError)
        ensures
            (code == ERROR_FILE_NOT_FOUND || code == ERROR_PATH_NOT_FOUND) ==> r
                == ProbeError::NotFound,
            !(code == ERROR_FILE_NOT_FOUND || code == ERROR_PATH_NOT_FOUND) ==> r
                == ProbeError::Other(code),
    {
        if code == ERROR_FILE_NOT_FOUND || code == ERROR_PATH_NOT_FOUND {
            ProbeError::NotFound
        } else {
            ProbeError::Other(code)
        }
    }
}

impl Data {
    /// The event for a change whose entry was then probed: a failed probe
    /// is no error, the event simply carries no metadata.
    pub fn from_probe(action: Action, probe: Result<MetadataWrapper, ProbeError>) -> (r: Data)
        ensures
            r.action == action,
            probe is Ok ==> r.metadata == Some(probe->Ok_0),
            probe is Err ==> r.metadata is None,
    {
        match probe {
            Ok(m) => Data::new(action, Some(m)),
            Err(_) => Data::new(action, None),
        }
    }
}

} // verus!
