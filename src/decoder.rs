//! Decoding of native change-notification buffers.
//!
//! A buffer holds records laid out one after another. Each record starts
//! with a 12-byte header of three little-endian `u32` values: the offset of
//! the next record (0 for the last one), the action code, and the length in
//! bytes of the name. The name follows as little-endian UTF-16 units.
use vstd::prelude::*;
use crate::event::Action;

verus! {

/// Size of a record header in bytes.
pub const HEADER_LEN: usize = 12;

/// The little-endian `u32` stored at `i`.
pub open spec fn u32_le(b: Seq<u8>, i: int) -> int {
    b[i] + 256 * b[i + 1] + 65536 * b[i + 2] + 16777216 * b[i + 3]
}

/// The little-endian `u16` stored at `i`.
pub open spec fn u16_le(b: Seq<u8>, i: int) -> int {
    b[i] + 256 * b[i + 1]
}

/// The offset of the record after the one at `off` (0: none).
pub open spec fn next_offset(b: Seq<u8>, off: int) -> int {
    u32_le(b, off)
}

/// The action code of the record at `off`.
pub open spec fn action_code(b: Seq<u8>, off: int) -> int {
    u32_le(b, off + 4)
}

/// The number of whole UTF-16 units in the name of the record at `off`.
pub open spec fn name_unit_count(b: Seq<u8>, off: int) -> int {
    u32_le(b, off + 8) / 2
}

/// The name length in bytes that the record at `off` declares.
pub open spec fn name_byte_len(b: Seq<u8>, off: int) -> int {
    u32_le(b, off + 8)
}

/// The bytes the record at `off` declares it occupies: its header and its
/// name, at the declared name length.
pub open spec fn record_len(b: Seq<u8>, off: int) -> int {
    HEADER_LEN + name_byte_len(b, off)
}

/// Whether a whole record starts at `off` and ends within `limit`.
pub open spec fn record_fits(b: Seq<u8>, limit: int, off: int) -> bool {
    &&& 0 <= off
    &&& off + HEADER_LEN <= limit
    &&& off + record_len(b, off) <= limit
}

/// The name units of the record at `off`.
pub open spec fn name_units(b: Seq<u8>, off: int) -> Seq<u16> {
    Seq::new(name_unit_count(b, off) as nat, |k: int| u16_le(b, off + HEADER_LEN + 2 * k) as u16)
}

/// The number of bytes that may be read: the filled count, but never
/// more than the buffer holds.
pub open spec fn read_limit(len: int, bytes_filled: int) -> int {
    if bytes_filled <= len {
        bytes_filled
    } else {
        len
    }
}

/// The records, as name units and action code, from the one at `off` on.
/// The walk stops after a record whose next offset is 0 or points at or
/// past `limit`, and before a record that does not fit within `limit`.
pub open spec fn records_from(b: Seq<u8>, limit: int, off: int) -> Seq<(Seq<u16>, u32)>
    decreases limit - off,
{
    if record_fits(b, limit, off) {
        let rec = (name_units(b, off), action_code(b, off) as u32);
        let next = next_offset(b, off);
        if next == 0 || off + next >= limit {
            seq![rec]
        } else {
            seq![rec] + records_from(b, limit, off + next)
        }
    } else {
        seq![]
    }
}

/// The records of a buffer of which `bytes_filled` bytes were written.
pub open spec fn buffer_records(b: Seq<u8>, bytes_filled: int) -> Seq<(Seq<u16>, u32)> {
    records_from(b, read_limit(b.len() as int, bytes_filled), 0)
}

/// The action that a numeric code stands for.
pub open spec fn action_of(code: u32) -> Action {
    if code == 1 {
        Action::Created
    } else if code == 2 {
        Action::Deleted
    } else if code == 3 {
        Action::Modified
    } else if code == 4 {
        Action::RenamedFrom
    } else if code == 5 {
        Action::RenamedTo
    } else {
        Action::Unknown
    }
}

/// Views of decoded raw records.
pub open spec fn raw_view(v: Seq<(Vec<u16>, u32)>) -> Seq<(Seq<u16>, u32)> {
    v.map_values(|p: (Vec<u16>, u32)| (p.0@, p.1))
}

pub open spec fn is_high_surrogate(u: u16) -> bool {
    0xD800 <= u && u < 0xDC00
}

pub open spec fn is_low_surrogate(u: u16) -> bool {
    0xDC00 <= u && u < 0xE000
}

/// The code points that lossy UTF-16 decoding gives: a high surrogate
/// followed by a low one makes one supplementary code point, any other
/// surrogate becomes U+FFFD, and every other unit stands for itself.
pub open spec fn utf16_lossy(units: Seq<u16>) -> Seq<u32>
    decreases units.len(),
{
    if units.len() == 0 {
        seq![]
    } else if units.len() > 1 && is_high_surrogate(units[0]) && is_low_surrogate(units[1]) {
        seq![(0x10000 + (units[0] - 0xD800) * 0x400 + (units[1] - 0xDC00)) as u32] + utf16_lossy(
            units.skip(2),
        )
    } else if is_high_surrogate(units[0]) || is_low_surrogate(units[0]) {
        seq![0xFFFDu32] + utf16_lossy(units.skip(1))
    } else {
        seq![units[0] as u32] + utf16_lossy(units.skip(1))
    }
}

/// The code points of a text.
pub open spec fn code_points(s: Seq<char>) -> Seq<u32> {
    s.map_values(|c: char| c as u32)
}

/// Relies on `String::from_utf16_lossy`: decodes UTF-16, putting U+FFFD in
/// place of each unpaired surrogate; it never fails.
#[verifier::external_body]
fn decode_wide(units: &[u16]) -> (r: String)
    ensures
        code_points(r@) == utf16_lossy(units@),
{
    String::from_utf16_lossy(units)
}

impl Action {
    /// The action for a numeric code; unknown codes give `Unknown`.
    pub fn from_code(code: u32) -> (r: Action)
        ensures
            r == action_of(code),
    {
        match code {
            1 => Action::Created,
            2 => Action::Deleted,
            3 => Action::Modified,
            4 => Action::RenamedFrom,
            5 => Action::RenamedTo,
            _ => Action::Unknown,
        }
    }
}

fn read_u32_le(b: &[u8], i: usize) -> (r: u32)
    requires
        i + 4 <= b@.len(),
    ensures
        r as int == u32_le(b@, i as int),
{
    (b[i] as u32) + (b[i + 1] as u32) * 256 + (b[i + 2] as u32) * 65536 + (b[i + 3] as u32)
        * 16777216
}

fn read_u16_le(b: &[u8], i: usize) -> (r: u16)
    requires
        i + 2 <= b@.len(),
    ensures
        r as int == u16_le(b@, i as int),
{
    (b[i] as u16) + (b[i + 1] as u16) * 256
}

/// Reads the records of a notification buffer of which `bytes_filled`
/// bytes were written, as name units and action codes, in buffer order.
/// Every read is checked against the filled length and the buffer's size.
pub fn decode_raw(buffer: &[u8], bytes_filled: u32) -> (r: Vec<(Vec<u16>, u32)>)
    ensures
        raw_view(r@) == buffer_records(buffer@, bytes_filled as int),
{
    let ghost b = buffer@;
    let limit: usize = if (bytes_filled as usize) <= buffer.len() {
        bytes_filled as usize
    } else {
        buffer.len()
    };
    let ghost total = records_from(b, limit as int, 0);
    let mut out: Vec<(Vec<u16>, u32)> = Vec::new();
    let mut off: usize = 0;
    loop
        invariant_except_break
            raw_view(out@) + records_from(b, limit as int, off as int) == total,
        invariant
            b == buffer@,
            limit <= b.len(),
            limit as int == read_limit(b.len() as int, bytes_filled as int),
            total == records_from(b, limit as int, 0),
            off <= limit,
        ensures
            raw_view(out@) == total,
        decreases limit - off,
    {
        if limit - off < HEADER_LEN {
            assert(records_from(b, limit as int, off as int) == Seq::<(Seq<u16>, u32)>::empty());
            assert(raw_view(out@) =~= total);
            break;
        }
        let name_len = read_u32_le(buffer, off + 8);
        let count = name_len / 2;
        if (name_len as usize) > limit - off - HEADER_LEN {
            assert(records_from(b, limit as int, off as int) == Seq::<(Seq<u16>, u32)>::empty());
            assert(raw_view(out@) =~= total);
            break;
        }
        let start = off + HEADER_LEN;
        let mut name: Vec<u16> = Vec::new();
        let mut k: usize = 0;
        while k < count as usize
            invariant
                b == buffer@,
                count as int == name_unit_count(b, off as int),
                start == off + HEADER_LEN,
                start + 2 * count <= limit,
                limit <= b.len(),
                k <= count,
                name@ =~= name_units(b, off as int).take(k as int),
            decreases count - k,
        {
            let u = read_u16_le(buffer, start + 2 * k);
            name.push(u);
            k = k + 1;
        }
        assert(name@ =~= name_units(b, off as int));
        let code = read_u32_le(buffer, off + 4);
        let next = read_u32_le(buffer, off);
        let ghost old_out = out@;
        out.push((name, code));
        assert(raw_view(out@) =~= raw_view(old_out).push((name_units(b, off as int), code)));
        if next == 0 {
            assert(raw_view(out@) =~= total);
            break;
        }
        if next as usize >= limit - off {
            assert(raw_view(out@) =~= total);
            break;
        }
        assert(raw_view(out@) + records_from(b, limit as int, (off + next) as int) =~= total);
        off = off + next as usize;
    }
    out
}

/// Decodes a notification buffer of which `bytes_filled` bytes were
/// written into `(name, action)` pairs, in buffer order. Names are decoded
/// from UTF-16 lossily, so a bad unit never fails the batch; unknown action
/// codes give `Unknown`.
pub fn decode(buffer: &[u8], bytes_filled: u32) -> (r: Vec<(String, Action)>)
    ensures
        r@.len() == buffer_records(buffer@, bytes_filled as int).len(),
        forall|i: int|
            0 <= i < r@.len() ==> {
                let rec = #[trigger] buffer_records(buffer@, bytes_filled as int)[i];
                code_points(r@[i].0@) == utf16_lossy(rec.0) && r@[i].1 == action_of(rec.1)
            },
{
    let raw = decode_raw(buffer, bytes_filled);
    let ghost recs = buffer_records(buffer@, bytes_filled as int);
    let mut out: Vec<(String, Action)> = Vec::new();
    let mut i: usize = 0;
    while i < raw.len()
        invariant
            raw_view(raw@) == recs,
            recs == buffer_records(buffer@, bytes_filled as int),
            i <= raw@.len(),
            out@.len() == i,
            forall|j: int|
                0 <= j < i ==> code_points(out@[j].0@) == utf16_lossy(recs[j].0) && out@[j].1 == action_of(
                    recs[j].1,
                ),
        decreases raw@.len() - i,
    {
        assert(recs[i as int] == (raw@[i as int].0@, raw@[i as int].1));
        let name = decode_wide(raw[i].0.as_slice());
        let action = Action::from_code(raw[i].1);
        out.push((name, action));
        i = i + 1;
    }
    out
}

/// The walk from `off` reads only bytes at or after `lo` (for any
/// `lo <= off`) and before `limit`.
proof fn lemma_walk_reads_from(b1: Seq<u8>, b2: Seq<u8>, limit: int, off: int, lo: int)
    requires
        0 <= lo <= off,
        limit <= b1.len(),
        limit <= b2.len(),
        forall|j: int| lo <= j < limit ==> b1[j] == b2[j],
    ensures
        records_from(b1, limit, off) == records_from(b2, limit, off),
    decreases limit - off,
{
    if off + HEADER_LEN <= limit {
        assert(u32_le(b1, off) == u32_le(b2, off));
        assert(u32_le(b1, off + 4) == u32_le(b2, off + 4));
        assert(u32_le(b1, off + 8) == u32_le(b2, off + 8));
        if record_fits(b1, limit, off) {
            assert(name_units(b1, off) =~= name_units(b2, off));
            let next = next_offset(b1, off);
            if next != 0 && off + next < limit {
                lemma_walk_reads_from(b1, b2, limit, off + next, lo);
            }
        }
    }
}

/// A buffer filled with fewer bytes than one record header holds no
/// records: in particular, an empty fill decodes to nothing.
pub proof fn lemma_no_records(b: Seq<u8>, bytes_filled: u32)
    requires
        bytes_filled < HEADER_LEN,
    ensures
        buffer_records(b, bytes_filled as int) == Seq::<(Seq<u16>, u32)>::empty(),
{
}

/// A buffer whose first record fits and has next offset 0 decodes to
/// exactly that record, and nothing past the record is read: any other
/// buffer that holds the same bytes up to the record's end, and is filled
/// at least that far, decodes to the same.
pub proof fn lemma_single_record(b: Seq<u8>, bytes_filled: u32, b2: Seq<u8>, filled2: u32)
    requires
        record_fits(b, read_limit(b.len() as int, bytes_filled as int), 0),
        next_offset(b, 0) == 0,
        record_len(b, 0) <= read_limit(b2.len() as int, filled2 as int),
        forall|j: int| 0 <= j < record_len(b, 0) ==> b2[j] == b[j],
    ensures
        buffer_records(b, bytes_filled as int) == seq![(name_units(b, 0), action_code(b, 0) as u32)],
        buffer_records(b2, filled2 as int) == buffer_records(b, bytes_filled as int),
{
    assert(u32_le(b2, 0) == u32_le(b, 0));
    assert(u32_le(b2, 4) == u32_le(b, 4));
    assert(u32_le(b2, 8) == u32_le(b, 8));
    assert(name_units(b2, 0) =~= name_units(b, 0));
}

/// The content of a record's name never stops or shifts the decode: two
/// buffers that differ only in the name bytes of their first record give
/// the same number of records, the same actions, and the same records
/// after the first (when the next record does not start inside the name).
pub proof fn lemma_name_bytes_do_not_stop_decoding(b: Seq<u8>, b2: Seq<u8>, bytes_filled: u32)
    requires
        b2.len() == b.len(),
        forall|j: int|
            0 <= j < b.len() && !(HEADER_LEN <= j < record_len(b, 0)) ==> b2[j] == b[j],
        next_offset(b, 0) == 0 || next_offset(b, 0) >= record_len(b, 0),
    ensures
        buffer_records(b2, bytes_filled as int).len() == buffer_records(b, bytes_filled as int).len(),
        forall|i: int|
            0 <= i < buffer_records(b, bytes_filled as int).len() ==> (#[trigger] buffer_records(
                b2,
                bytes_filled as int,
            )[i]).1 == buffer_records(b, bytes_filled as int)[i].1,
        forall|i: int|
            1 <= i < buffer_records(b, bytes_filled as int).len() ==> #[trigger] buffer_records(
                b2,
                bytes_filled as int,
            )[i] == buffer_records(b, bytes_filled as int)[i],
{
    let limit = read_limit(b.len() as int, bytes_filled as int);
    if HEADER_LEN <= limit {
        assert(u32_le(b2, 0) == u32_le(b, 0));
        assert(u32_le(b2, 4) == u32_le(b, 4));
        assert(u32_le(b2, 8) == u32_le(b, 8));
        let next = next_offset(b, 0);
        if record_fits(b, limit, 0) && next != 0 && next < limit {
            lemma_walk_reads_from(b, b2, limit, next, record_len(b, 0));
        }
    }
}

/// A bad unit never fails a name: an unpaired surrogate becomes U+FFFD
/// and decoding goes on with the next unit.
pub proof fn lemma_unpaired_surrogate_replaced(units: Seq<u16>)
    requires
        units.len() > 0,
        is_high_surrogate(units[0]) || is_low_surrogate(units[0]),
        !(units.len() > 1 && is_high_surrogate(units[0]) && is_low_surrogate(units[1])),
    ensures
        utf16_lossy(units) == seq![0xFFFDu32] + utf16_lossy(units.skip(1)),
{
}

} // verus!
